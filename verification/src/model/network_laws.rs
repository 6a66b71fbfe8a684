//! What the networks and the assemblies of a document are in its canonical connectivity.
use vstd::prelude::*;
use super::connectivity as canonical;
use super::connectivity::{AssemblyKind, Topology};
use super::connectivity_xml as xml;
use super::conversion::Converted;
use super::convert_component;
use super::convert_document;
use super::Hcdf;

verus! {

/// The names of those items of a list that are to be kept, in the order of the list.
pub open spec fn kept_names<T>(
    list: Seq<T>,
    keep: spec_fn(T) -> bool,
    name: spec_fn(T) -> Seq<char>,
) -> Seq<Seq<char>> {
    list.filter(keep).map_values(name)
}

proof fn one_more<T>(
    list: Seq<T>,
    keep: spec_fn(T) -> bool,
    name: spec_fn(T) -> Seq<char>,
    n: int,
)
    requires
        0 < n <= list.len(),
    ensures
        kept_names(list.take(n), keep, name) == (if keep(list[n - 1]) {
            kept_names(list.take(n - 1), keep, name).push(name(list[n - 1]))
        } else {
            kept_names(list.take(n - 1), keep, name)
        }),
{
    reveal(Seq::filter);
    let upto = list.take(n);
    assert(upto.drop_last() =~= list.take(n - 1));
    assert(upto.last() == list[n - 1]);
    assert(kept_names(upto, keep, name) =~= (if keep(list[n - 1]) {
        kept_names(list.take(n - 1), keep, name).push(name(list[n - 1]))
    } else {
        kept_names(list.take(n - 1), keep, name)
    }));
}

proof fn none_kept<T>(
    list: Seq<T>,
    keep: spec_fn(T) -> bool,
    name: spec_fn(T) -> Seq<char>,
    from: int,
    to: int,
)
    requires
        0 <= from <= to <= list.len(),
        forall|i: int| from <= i < to ==> !keep(#[trigger] list[i]),
    ensures
        kept_names(list.take(to), keep, name) == kept_names(list.take(from), keep, name),
    decreases to - from,
{
    if from < to {
        none_kept(list, keep, name, from, to - 1);
        one_more(list, keep, name, to);
    }
}

proof fn all_kept<T>(
    list: Seq<T>,
    keep: spec_fn(T) -> bool,
    name: spec_fn(T) -> Seq<char>,
    names: Seq<Seq<char>>,
    from: int,
    to: int,
)
    requires
        0 <= from <= to <= list.len(),
        to - from <= names.len(),
        forall|i: int| from <= i < to ==> keep(#[trigger] list[i]) && name(list[i]) == names[i - from],
    ensures
        kept_names(list.take(to), keep, name) == kept_names(list.take(from), keep, name) + names.take(
            to - from,
        ),
    decreases to - from,
{
    let before = kept_names(list.take(from), keep, name);
    if from < to {
        all_kept(list, keep, name, names, from, to - 1);
        one_more(list, keep, name, to);
        assert(keep(list[to - 1]) && name(list[to - 1]) == names[to - 1 - from]);
        assert(before + names.take(to - 1 - from).push(names[to - 1 - from]) =~= (before + names.take(
            to - 1 - from,
        )).push(names[to - 1 - from]));
        assert(names.take(to - from) =~= names.take(to - 1 - from).push(names[to - 1 - from]));
    } else {
        assert(before + names.take(0) =~= before);
    }
}

/// The kept items of a list are those of one stretch of it.
proof fn one_stretch<T>(
    list: Seq<T>,
    keep: spec_fn(T) -> bool,
    name: spec_fn(T) -> Seq<char>,
    names: Seq<Seq<char>>,
    from: int,
)
    requires
        0 <= from,
        from + names.len() <= list.len(),
        forall|i: int| 0 <= i < from ==> !keep(#[trigger] list[i]),
        forall|i: int|
            from <= i < from + names.len() ==> keep(#[trigger] list[i]) && name(list[i]) == names[i
                - from],
        forall|i: int| from + names.len() <= i < list.len() ==> !keep(#[trigger] list[i]),
    ensures
        kept_names(list, keep, name) == names,
{
    let to = from + names.len();
    reveal(Seq::filter);
    assert(kept_names(list.take(0), keep, name) =~= Seq::empty());
    none_kept(list, keep, name, 0, from);
    all_kept(list, keep, name, names, from, to);
    none_kept(list, keep, name, to, list.len() as int);
    assert(list.take(list.len() as int) =~= list);
    assert(names.take(names.len() as int) =~= names);
    assert(Seq::<Seq<char>>::empty() + names =~= names);
}

// Networks.

/// The names of the networks of a topology.
pub open spec fn networks_of(list: Seq<canonical::Network>, topology: Topology) -> Seq<Seq<char>> {
    kept_names(
        list,
        |n: canonical::Network| n.structure.spec_topology() == topology,
        |n: canonical::Network| n.name@,
    )
}

/// The names of the networks of a topology that a document has, in the order in which it has them.
pub open spec fn authored_networks(document: Hcdf, topology: Topology) -> Seq<Seq<char>> {
    match topology {
        Topology::Link => document.link@.map_values(|n: xml::Link| n.name@),
        Topology::Bus => document.bus@.map_values(|n: xml::Bus| n.name@),
        Topology::Chain => document.chain@.map_values(|n: xml::Chain| n.name@),
        Topology::Star => document.star@.map_values(|n: xml::Star| n.name@),
        Topology::Ring => document.ring@.map_values(|n: xml::Ring| n.name@),
        Topology::Mesh => document.mesh@.map_values(|n: xml::Mesh| n.name@),
        Topology::Tree => document.tree@.map_values(|n: xml::Tree| n.name@),
    }
}

/// Where the networks of a topology start.
spec fn start_of(document: Hcdf, topology: Topology) -> int {
    let links = document.link@.len() as int;
    let buses = links + document.bus@.len();
    let chains = buses + document.chain@.len();
    let stars = chains + document.star@.len();
    let rings = stars + document.ring@.len();
    match topology {
        Topology::Link => 0,
        Topology::Bus => links,
        Topology::Chain => buses,
        Topology::Star => chains,
        Topology::Ring => stars,
        Topology::Mesh => rings,
        Topology::Tree => rings + document.mesh@.len(),
    }
}

/// Whether the networks in one stretch of a list are those of a topology.
spec fn stretch_is(document: Hcdf, list: Seq<canonical::Network>, topology: Topology) -> bool {
    let from = start_of(document, topology);
    let names = authored_networks(document, topology);
    forall|i: int|
        from <= i < from + names.len() ==> (#[trigger] list[i]).structure.spec_topology() == topology
            && list[i].name@ == names[i - from]
}

proof fn stretches(document: Hcdf, list: Seq<canonical::Network>)
    requires
        convert_document::document_networks_map(document, list),
    ensures
        forall|t: Topology| #[trigger] stretch_is(document, list, t),
        list.len() == start_of(document, Topology::Tree) + document.tree@.len(),
{
    reveal(convert_document::document_networks_map);
    assert forall|t: Topology| #[trigger] stretch_is(document, list, t) by {
        let from = start_of(document, t);
        let names = authored_networks(document, t);
        assert forall|i: int| from <= i < from + names.len() implies (
        #[trigger] list[i]).structure.spec_topology() == t && list[i].name@ == names[i - from] by {
            let k = i - from;
            match t {
                Topology::Link => {
                    assert(convert_document::link_maps(document.link@[k], list[i]));
                },
                Topology::Bus => {
                    assert(convert_document::bus_maps(document.bus@[k], list[from + k]));
                },
                Topology::Chain => {
                    assert(convert_document::chain_maps(document.chain@[k], list[from + k]));
                },
                Topology::Star => {
                    assert(convert_document::star_maps(document.star@[k], list[from + k]));
                },
                Topology::Ring => {
                    assert(convert_document::ring_maps(document.ring@[k], list[from + k]));
                },
                Topology::Mesh => {
                    assert(convert_document::mesh_maps(document.mesh@[k], list[from + k]));
                },
                Topology::Tree => {
                    assert(convert_document::tree_maps(document.tree@[k], list[from + k]));
                },
            }
        }
    }
}

proof fn other_stretches(document: Hcdf, list: Seq<canonical::Network>, topology: Topology, i: int)
    requires
        forall|t: Topology| #[trigger] stretch_is(document, list, t),
        list.len() == start_of(document, Topology::Tree) + document.tree@.len(),
        0 <= i < list.len(),
        !(start_of(document, topology) <= i < start_of(document, topology) + authored_networks(
            document,
            topology,
        ).len()),
    ensures
        list[i].structure.spec_topology() != topology,
{
    assert(stretch_is(document, list, Topology::Link));
    assert(stretch_is(document, list, Topology::Bus));
    assert(stretch_is(document, list, Topology::Chain));
    assert(stretch_is(document, list, Topology::Star));
    assert(stretch_is(document, list, Topology::Ring));
    assert(stretch_is(document, list, Topology::Mesh));
    assert(stretch_is(document, list, Topology::Tree));
}

proof fn networks_by_topology(document: Hcdf, list: Seq<canonical::Network>, topology: Topology)
    requires
        convert_document::document_networks_map(document, list),
    ensures
        networks_of(list, topology) == authored_networks(document, topology),
{
    let keep = |n: canonical::Network| n.structure.spec_topology() == topology;
    let name = |n: canonical::Network| n.name@;
    let names = authored_networks(document, topology);
    let from = start_of(document, topology);
    stretches(document, list);
    assert(stretch_is(document, list, topology));
    assert forall|i: int|
        0 <= i < list.len() && !(from <= i < from + names.len()) implies !keep(#[trigger] list[i]) by {
        other_stretches(document, list, topology, i);
    }
    one_stretch(list, keep, name, names, from);
}

/// The canonical networks of a topology are, in order and by name, the networks that the document has of
/// that topology.
pub proof fn networks_keep_their_topology(
    source: Hcdf,
    document: canonical::DocumentIdentity,
    r: Converted<canonical::ConnectivityDocument>,
    topology: Topology,
)
    requires
        convert_document::document_outcome(source, document, r),
        r is Ok,
    ensures
        r->Ok_0.scopes@.len() == 1,
        networks_of(r->Ok_0.scopes@[0].networks@, topology) == authored_networks(source, topology),
{
    let scope = r->Ok_0.scopes@[0];
    assert(convert_document::scope_carries(source, scope.instance, scope));
    reveal(convert_document::scope_carries);
    networks_by_topology(source, scope.networks@, topology);
}

/// No canonical network is lost, and none is added.
pub proof fn networks_are_as_many(
    source: Hcdf,
    document: canonical::DocumentIdentity,
    r: Converted<canonical::ConnectivityDocument>,
)
    requires
        convert_document::document_outcome(source, document, r),
        r is Ok,
    ensures
        r->Ok_0.scopes@[0].networks@.len() == source.link@.len() + source.bus@.len()
            + source.chain@.len() + source.star@.len() + source.ring@.len() + source.mesh@.len()
            + source.tree@.len(),
        r->Ok_0.scopes@[0].components@.len() == source.comp@.len(),
        r->Ok_0.scopes@[0].bindings@.len() == source.binding@.len(),
        r->Ok_0.scopes@[0].mates@.len() == source.mate@.len(),
        r->Ok_0.scopes@[0].assemblies@.len() == source.harness@.len() + source.cable@.len()
            + source.plumbing@.len() + source.umbilical@.len(),
{
    let scope = r->Ok_0.scopes@[0];
    assert(convert_document::scope_carries(source, scope.instance, scope));
    reveal(convert_document::scope_carries);
    reveal(convert_document::document_networks_map);
    reveal(convert_document::document_assemblies_map);
}

// Assemblies.

/// The names of the assemblies of a kind.
pub open spec fn assemblies_of(list: Seq<canonical::PhysicalAssembly>, kind: AssemblyKind) -> Seq<
    Seq<char>,
> {
    kept_names(
        list,
        |a: canonical::PhysicalAssembly| a.kind == kind,
        |a: canonical::PhysicalAssembly| a.name@,
    )
}

/// The names of the assemblies of a kind that a document has, in the order in which it has them.
pub open spec fn authored_assemblies(document: Hcdf, kind: AssemblyKind) -> Seq<Seq<char>> {
    let name = |a: xml::Assembly| a.name@;
    match kind {
        AssemblyKind::Harness => document.harness@.map_values(name),
        AssemblyKind::Cable => document.cable@.map_values(name),
        AssemblyKind::Plumbing => document.plumbing@.map_values(name),
        AssemblyKind::Umbilical => document.umbilical@.map_values(name),
    }
}

proof fn assemblies_by_kind(
    document: Hcdf,
    list: Seq<canonical::PhysicalAssembly>,
    kind: AssemblyKind,
)
    requires
        convert_document::document_assemblies_map(document, list),
    ensures
        assemblies_of(list, kind) == authored_assemblies(document, kind),
{
    reveal(convert_document::document_assemblies_map);
    let keep = |a: canonical::PhysicalAssembly| a.kind == kind;
    let name = |a: canonical::PhysicalAssembly| a.name@;
    let names = authored_assemblies(document, kind);
    let end1 = document.harness@.len() as int;
    let end2 = end1 + document.cable@.len();
    let end3 = end2 + document.plumbing@.len();
    let from = match kind {
        AssemblyKind::Harness => 0,
        AssemblyKind::Cable => end1,
        AssemblyKind::Plumbing => end2,
        AssemblyKind::Umbilical => end3,
    };
    assert forall|i: int| 0 <= i < list.len() implies keep(#[trigger] list[i]) == (from <= i < from
        + names.len()) && (keep(list[i]) ==> name(list[i]) == names[i - from]) by {
        if i < end1 {
            assert(convert_component::assembly_maps(
                document.harness@[i],
                list[0 + i],
                AssemblyKind::Harness,
            ));
        } else if i < end2 {
            assert(convert_component::assembly_maps(
                document.cable@[i - end1],
                list[end1 + (i - end1)],
                AssemblyKind::Cable,
            ));
        } else if i < end3 {
            assert(convert_component::assembly_maps(
                document.plumbing@[i - end2],
                list[end2 + (i - end2)],
                AssemblyKind::Plumbing,
            ));
        } else {
            assert(convert_component::assembly_maps(
                document.umbilical@[i - end3],
                list[end3 + (i - end3)],
                AssemblyKind::Umbilical,
            ));
        }
    }
    one_stretch(list, keep, name, names, from);
}

/// The canonical assemblies of a kind are, in order and by name, the assemblies that the document has of
/// that kind.
pub proof fn assemblies_keep_their_kind(
    source: Hcdf,
    document: canonical::DocumentIdentity,
    r: Converted<canonical::ConnectivityDocument>,
    kind: AssemblyKind,
)
    requires
        convert_document::document_outcome(source, document, r),
        r is Ok,
    ensures
        assemblies_of(r->Ok_0.scopes@[0].assemblies@, kind) == authored_assemblies(source, kind),
{
    let scope = r->Ok_0.scopes@[0];
    assert(convert_document::scope_carries(source, scope.instance, scope));
    reveal(convert_document::scope_carries);
    assemblies_by_kind(source, scope.assemblies@, kind);
}

} // verus!
