# hcdformat

A verified library for hardware configuration description (HCDF) documents. The code under `src/` is
executable Rust whose contracts Verus proves, but for the few calls into other crates and the standard
library that the last section names.

## What it does

- `model`: the typed document, its vocabularies, the conversion of authored connectivity into its
  canonical form, and stream profiles with their grammar and their rules.
- `json`: the mapping between the XML and the JSON form of a document, driven by a schema.
- `resource`, `resource_path`: walking over the resources of a document, and resolving their addresses.
- `native_path`: paths of the filesystem, by the rules of Unix or of Windows.
- `gltf`: packing a glTF document and its companion files into one binary file.
- `import_bake`: deciding how the meshes of an imported document become assets of its own.
- `profile`, `report`, `quote`: how cleanly a document exports, and the report on it.
- `remote`: what a fetch of a remote asset may ask for, read and keep.
- `text`, `order`, `sorting`, `float`, `faults`, `error`, `xml`: what the others are made of.

`app/` is ordinary Rust around the library: files, the network, floating-point text, and the derives of
serde for stream profiles.

## How contracts are stated

Types have views, and contracts speak of those. A function that can fail says of every input which error
it gives, in the order in which the errors are looked for. Laws that relate several calls are public
proof functions; their doc comments state them in words.

Numbers are kept as the bits of a 64-bit floating-point value, and what reads or writes their text is
passed in. Work on files and the network is passed in as functions too, or split into steps that take
what came back.

## What is trusted

The parser of `quick_xml` (`src/xml.rs`), the values of `serde_json` (`src/gltf/tree.rs`), and a few
functions of the standard library on text (`src/text.rs`, `src/gltf/codec.rs`). Each of these items names
the function that it calls and says what is claimed of it.
