//! What holds of addresses, requests and the cache.
use vstd::prelude::*;
use crate::gltf::codec;
use crate::native_path::PathStyle;
use crate::remote;
use crate::remote::{FetchStep, FetchView, RemoteFailure};
use crate::resource_path;
use crate::text;

verus! {

// Addresses.

/// Whether two letters are the same but for their case.
pub open spec fn same_letter(c: char, small: char) -> bool {
    c == small || ('a' <= small <= 'z' && c as int + 32 == small as int)
}

/// Whether a text begins with small letters and signs, in either case.
pub open spec fn begins_with(text: Seq<char>, small: Seq<char>) -> bool {
    text.len() >= small.len() && forall|i: int|
        0 <= i < small.len() ==> same_letter(#[trigger] text[i], small[i])
}

proof fn lowered_begins(text: Seq<char>, small: Seq<char>)
    requires
        forall|i: int| 0 <= i < small.len() ==> !('A' <= #[trigger] small[i] <= 'Z'),
    ensures
        text::starts_with(codec::lowered(text), small) == begins_with(text, small),
{
    let low = codec::lowered(text);
    if text::starts_with(low, small) {
        assert forall|i: int| 0 <= i < small.len() implies same_letter(#[trigger] text[i], small[i]) by {
            assert(low.take(small.len() as int)[i] == small[i]);
            assert(low[i] == codec::lower(text[i]));
        }
    }
    if begins_with(text, small) {
        assert forall|i: int| 0 <= i < small.len() implies #[trigger] low.take(small.len() as int)[i]
            == small[i] by {
            assert(same_letter(text[i], small[i]));
            assert(!('A' <= small[i] <= 'Z'));
            assert(low[i] == codec::lower(text[i]));
        }
        assert(low.take(small.len() as int) =~= small);
    }
}

/// An address is a plain web address exactly where it begins with `http://` or `https://`, in letters of
/// either case.
pub proof fn which_addresses_are_on_the_web(uri: Seq<char>)
    ensures
        remote::is_remote(uri) <==> begins_with(uri, "http://"@) || begins_with(uri, "https://"@),
{
    reveal_strlit("http://");
    reveal_strlit("https://");
    lowered_begins(uri, "http://"@);
    lowered_begins(uri, "https://"@);
}

proof fn mark_follows_scheme(scheme: Seq<char>, rest: Seq<char>)
    requires
        !scheme.contains(':'),
    ensures
        remote::mark_place(scheme + "://"@ + rest) == scheme.len(),
        remote::before_mark(scheme + "://"@ + rest) == scheme,
        remote::after_mark(scheme + "://"@ + rest) == rest,
        remote::has_mark(scheme + "://"@ + rest),
    decreases scheme.len(),
{
    reveal_strlit("://");
    let whole = scheme + "://"@ + rest;
    if scheme.len() == 0 {
        assert(whole.take(3) =~= "://"@);
    } else {
        assert(whole[0] == scheme[0]);
        assert(scheme.contains(scheme[0]));
        assert(whole.take(3)[0] == whole[0]);
        assert("://"@[0] == ':');
        assert(!text::starts_with(whole, "://"@));
        let fewer = scheme.drop_first();
        assert(!fewer.contains(':')) by {
            if fewer.contains(':') {
                let i = fewer.index_of(':');
                assert(scheme[i + 1] == ':');
            }
        }
        mark_follows_scheme(fewer, rest);
        assert(whole.drop_first() =~= fewer + "://"@ + rest);
    }
    assert(whole.take(scheme.len() as int) =~= scheme);
    assert(whole.skip(scheme.len() as int + 3) =~= rest);
}

/// Whether a text starts with a slash or is empty.
pub open spec fn is_rooted(path: Seq<char>) -> bool {
    path.len() == 0 || path[0] == '/'
}

proof fn host_is_before_the_path(host: Seq<char>, path: Seq<char>)
    requires
        !host.contains('/'),
        is_rooted(path),
    ensures
        resource_path::before_slash(host + path) == host,
{
    let whole = host + path;
    let stop = resource_path::is_char('/');
    assert forall|k: int| 0 <= k < host.len() implies !stop(#[trigger] whole[k]) by {
        assert(whole[k] == host[k]);
        assert(host.contains(host[k]));
    }
    resource_path::first_place_is(whole, stop, host.len() as int);
    assert(whole.take(host.len() as int) =~= host);
}

/// Whether a location says on its own where it leads: it has a scheme with an authority, or it is data or a
/// mail address.
pub open spec fn stands_alone(location: Seq<char>) -> bool {
    remote::has_mark(codec::lowered(location)) || begins_with(location, "data:"@) || begins_with(
        location,
        "mailto:"@,
    )
}

proof fn alone_or_not(location: Seq<char>)
    ensures
        stands_alone(location) == (remote::has_mark(codec::lowered(location)) || text::starts_with(
            codec::lowered(location),
            "data:"@,
        ) || text::starts_with(codec::lowered(location), "mailto:"@)),
{
    reveal_strlit("data:");
    reveal_strlit("mailto:");
    lowered_begins(location, "data:"@);
    lowered_begins(location, "mailto:"@);
}

/// A redirect to a location that says on its own where it leads goes there.
pub proof fn an_absolute_location_is_the_target(current: Seq<char>, location: Seq<char>)
    requires
        stands_alone(location),
    ensures
        remote::redirect_target(current, location) == location,
{
    alone_or_not(location);
}

/// A redirect to a location that begins with two slashes keeps the scheme and nothing else.
pub proof fn two_slashes_keep_the_scheme(scheme: Seq<char>, rest: Seq<char>, place: Seq<char>)
    requires
        !scheme.contains(':'),
        !stands_alone("//"@ + place),
    ensures
        remote::redirect_target(scheme + "://"@ + rest, "//"@ + place) == scheme + "://"@ + place,
{
    reveal_strlit("//");
    let location = "//"@ + place;
    alone_or_not(location);
    mark_follows_scheme(scheme, rest);
    assert(location.take(2) =~= "//"@);
    assert(location.skip(2) =~= place);
}

/// A redirect to a location that begins with one slash keeps the scheme and the host.
pub proof fn one_slash_keeps_the_host(
    scheme: Seq<char>,
    host: Seq<char>,
    path: Seq<char>,
    place: Seq<char>,
)
    requires
        !scheme.contains(':'),
        !host.contains('/'),
        is_rooted(path),
        place.len() > 0 ==> place[0] != '/',
        !stands_alone("/"@ + place),
    ensures
        remote::redirect_target(scheme + "://"@ + (host + path), "/"@ + place) == scheme + "://"@ + host
            + "/"@ + place,
{
    reveal_strlit("/");
    reveal_strlit("//");
    let location = "/"@ + place;
    alone_or_not(location);
    mark_follows_scheme(scheme, host + path);
    host_is_before_the_path(host, path);
    assert(location.take(1) =~= "/"@);
    assert(location.skip(1) =~= place);
    assert(!text::starts_with(location, "//"@)) by {
        if text::starts_with(location, "//"@) {
            assert(location.take(2)[1] == '/');
            assert(location[1] == place[0]);
        }
    }
}

proof fn path_base_is_the_directory(directory: Seq<char>, file: Seq<char>)
    requires
        !file.contains('/'),
        directory.len() > 0,
        directory.last() == '/',
    ensures
        remote::path_base(directory + file) == directory,
    decreases file.len(),
{
    if file.len() == 0 {
        assert(directory + file =~= directory);
    } else {
        let whole = directory + file;
        assert(whole.last() == file.last());
        assert(file.contains(file.last()));
        assert(whole.drop_last() =~= directory + file.drop_last());
        assert(!file.drop_last().contains('/')) by {
            if file.drop_last().contains('/') {
                let i = file.drop_last().index_of('/');
                assert(file[i] == '/');
            }
        }
        path_base_is_the_directory(directory, file.drop_last());
    }
}

/// A redirect to any other location stays in the directory of the current address.
pub proof fn other_locations_stay_in_the_directory(
    scheme: Seq<char>,
    host: Seq<char>,
    directory: Seq<char>,
    file: Seq<char>,
    location: Seq<char>,
)
    requires
        !scheme.contains(':'),
        !host.contains('/'),
        directory.len() > 0,
        directory[0] == '/',
        directory.last() == '/',
        !file.contains('/'),
        location.len() > 0 ==> location[0] != '/',
        !stands_alone(location),
    ensures
        remote::redirect_target(scheme + "://"@ + (host + (directory + file)), location) == scheme
            + "://"@ + host + directory + location,
{
    reveal_strlit("/");
    reveal_strlit("//");
    let path = directory + file;
    alone_or_not(location);
    mark_follows_scheme(scheme, host + path);
    host_is_before_the_path(host, path);
    path_base_is_the_directory(directory, file);
    assert((host + path).skip(host.len() as int) =~= path);
    assert(!text::starts_with(location, "//"@)) by {
        if text::starts_with(location, "//"@) {
            assert(location.take(2)[0] == '/');
        }
    }
    assert(!text::starts_with(location, "/"@)) by {
        if text::starts_with(location, "/"@) {
            assert(location.take(1)[0] == '/');
        }
    }
}

// Names of files.

proof fn last_segment_is(directory: Seq<char>, file: Seq<char>)
    requires
        !file.contains('/'),
        directory.len() > 0 ==> directory.last() == '/',
    ensures
        remote::last_segment(directory + file) == file,
    decreases file.len(),
{
    let whole = directory + file;
    if file.len() == 0 {
        assert(whole =~= directory);
        assert(remote::last_segment(whole) =~= file);
    } else {
        assert(whole.last() == file.last());
        assert(file.contains(file.last()));
        assert(whole.drop_last() =~= directory + file.drop_last());
        assert(!file.drop_last().contains('/')) by {
            if file.drop_last().contains('/') {
                let i = file.drop_last().index_of('/');
                assert(file[i] == '/');
            }
        }
        last_segment_is(directory, file.drop_last());
        assert(file.drop_last().push(file.last()) =~= file);
    }
}

/// What follows the last dot of a text is what has no dot behind it.
pub proof fn after_the_last_dot(stem: Seq<char>, ext: Seq<char>)
    requires
        !ext.contains('.'),
    ensures
        codec::after_dot(stem + seq!['.'] + ext) == Some(ext),
    decreases ext.len(),
{
    let whole = stem + seq!['.'] + ext;
    if ext.len() == 0 {
        assert(whole.last() == '.');
        assert(ext =~= Seq::empty());
    } else {
        assert(whole.last() == ext.last());
        assert(ext.contains(ext.last()));
        assert(whole.drop_last() =~= stem + seq!['.'] + ext.drop_last());
        assert(!ext.drop_last().contains('.')) by {
            if ext.drop_last().contains('.') {
                let i = ext.drop_last().index_of('.');
                assert(ext[i] == '.');
            }
        }
        after_the_last_dot(stem, ext.drop_last());
        assert(ext.drop_last().push(ext.last()) =~= ext);
    }
}

/// Nothing follows a dot that is not there.
pub proof fn without_a_dot(text: Seq<char>)
    requires
        !text.contains('.'),
    ensures
        codec::after_dot(text) is None,
    decreases text.len(),
{
    if text.len() > 0 {
        assert(text.contains(text.last()));
        assert(!text.drop_last().contains('.')) by {
            if text.drop_last().contains('.') {
                let i = text.drop_last().index_of('.');
                assert(text[i] == '.');
            }
        }
        without_a_dot(text.drop_last());
    }
}

/// Whether a text starts a query or a fragment, or is empty.
pub open spec fn is_suffix(text: Seq<char>) -> bool {
    text.len() == 0 || text[0] == '?' || text[0] == '#'
}

/// Whether a text holds neither a query nor a fragment.
pub open spec fn has_no_suffix(text: Seq<char>) -> bool {
    !text.contains('?') && !text.contains('#')
}

proof fn path_is_before_the_suffix(path: Seq<char>, suffix: Seq<char>)
    requires
        has_no_suffix(path),
        is_suffix(suffix),
    ensures
        resource_path::path_part(path + suffix) == path,
{
    let whole = path + suffix;
    let stop = resource_path::starts_suffix();
    assert forall|k: int| 0 <= k < path.len() implies !stop(#[trigger] whole[k]) by {
        assert(whole[k] == path[k]);
        assert(path.contains(path[k]));
    }
    resource_path::first_place_is(whole, stop, path.len() as int);
    assert(whole.take(path.len() as int) =~= path);
}

/// The extension of an address is what follows the last dot of its last segment, whatever query or fragment
/// follows; a file without one counts as plain bytes.
pub proof fn the_extension_is_that_of_the_file(
    directory: Seq<char>,
    stem: Seq<char>,
    ext: Seq<char>,
    suffix: Seq<char>,
)
    requires
        directory.len() > 0 ==> directory.last() == '/',
        has_no_suffix(directory),
        has_no_suffix(stem),
        has_no_suffix(ext),
        !stem.contains('/'),
        !ext.contains('/'),
        !ext.contains('.'),
        is_suffix(suffix),
    ensures
        remote::file_extension(directory + (stem + seq!['.'] + ext) + suffix) == (if ext.len() > 0 {
            "."@ + ext
        } else {
            ".bin"@
        }),
        !stem.contains('.') ==> remote::file_extension(directory + stem + suffix) == ".bin"@,
{
    let file = stem + seq!['.'] + ext;
    let path = directory + file;
    assert(!file.contains('/')) by {
        if file.contains('/') {
            let i = file.index_of('/');
            if i < stem.len() {
                assert(stem[i] == '/');
            } else if i > stem.len() {
                assert(ext[i - stem.len() - 1] == '/');
            }
        }
    }
    assert forall|c: char| (c == '?' || c == '#') implies !(#[trigger] path.contains(c)) by {
        if path.contains(c) {
            let i = path.index_of(c);
            if i < directory.len() {
                assert(directory[i] == c);
            } else if i < directory.len() + stem.len() {
                assert(stem[i - directory.len()] == c);
            } else if i > directory.len() + stem.len() {
                assert(ext[i - directory.len() - stem.len() - 1] == c);
            }
        }
    }
    path_is_before_the_suffix(path, suffix);
    last_segment_is(directory, file);
    after_the_last_dot(stem, ext);
    if !stem.contains('.') {
        let bare = directory + stem;
        assert forall|c: char| (c == '?' || c == '#') implies !(#[trigger] bare.contains(c)) by {
            if bare.contains(c) {
                let i = bare.index_of(c);
                if i < directory.len() {
                    assert(directory[i] == c);
                } else {
                    assert(stem[i - directory.len()] == c);
                }
            }
        }
        path_is_before_the_suffix(bare, suffix);
        last_segment_is(directory, stem);
        without_a_dot(stem);
    }
}

/// The digest that names a cached file is what follows the name of the algorithm, if there is one.
pub proof fn the_algorithm_is_left_out(algorithm: Seq<char>, digest: Seq<char>)
    requires
        !algorithm.contains(':'),
    ensures
        remote::digest_part(algorithm + seq![':'] + digest) == digest,
        remote::digest_part(algorithm) == algorithm,
{
    let whole = algorithm + seq![':'] + digest;
    let stop = resource_path::is_char(':');
    assert forall|k: int| 0 <= k < algorithm.len() implies !stop(#[trigger] whole[k]) by {
        assert(whole[k] == algorithm[k]);
        assert(algorithm.contains(algorithm[k]));
    }
    assert forall|k: int| 0 <= k < algorithm.len() implies !stop(#[trigger] algorithm[k]) by {
        assert(algorithm.contains(algorithm[k]));
    }
    resource_path::first_place_is(whole, stop, algorithm.len() as int);
    resource_path::first_place_is(algorithm, stop, algorithm.len() as int);
    assert(whole.skip(algorithm.len() as int + 1) =~= digest);
}

/// Files of different content that are fetched from one address are kept apart.
pub proof fn different_contents_are_kept_apart(a: Seq<char>, b: Seq<char>, url: Seq<char>)
    requires
        remote::digest_part(a) != remote::digest_part(b),
    ensures
        remote::cache_file(a, url) != remote::cache_file(b, url),
{
    let ext = remote::file_extension(url);
    let x = remote::digest_part(a);
    let y = remote::digest_part(b);
    if x + ext == y + ext {
        assert((x + ext).len() == x.len() + ext.len());
        assert((y + ext).len() == y.len() + ext.len());
        assert((x + ext).take(x.len() as int) =~= x);
        assert((y + ext).take(y.len() as int) =~= y);
    }
}

// Requests.

/// A declared length is a number of digits, with or without a plus sign, whatever white space is around it.
pub proof fn a_length_is_read_from_its_digits(
    before: Seq<char>,
    n: nat,
    after: Seq<char>,
    plus: bool,
)
    requires
        text::is_blank(before),
        text::is_blank(after),
        n <= u64::MAX,
    ensures
        remote::length_declared(
            before + (if plus {
                seq!['+'] + text::decimal(n)
            } else {
                text::decimal(n)
            }) + after,
        ) == Some(n),
{
    let d = text::decimal(n);
    text::decimal_stands_for_number(n);
    let bare = if plus {
        seq!['+'] + d
    } else {
        d
    };
    assert(text::is_digit(d[0]));
    assert(text::is_digit(d.last()));
    assert(bare.last() == d.last());
    crate::json::number_laws::trimming_takes_the_ends(before, bare, after);
    if plus {
        assert(bare.skip(1) =~= d);
    } else {
        assert(bare.skip(0) =~= d);
    }
}

/// A length is declared by digits alone: a header with any other sign in it declares none.
pub proof fn other_headers_declare_no_length(header: Seq<char>, i: int)
    requires
        0 < i < text::trimmed(header).len(),
        !text::is_digit(text::trimmed(header)[i]),
    ensures
        remote::length_declared(header) is None,
{
    let bare = text::trimmed(header);
    if bare[0] == '+' {
        assert(bare.skip(1)[i - 1] == bare[i]);
    } else {
        assert(bare.skip(0)[i] == bare[i]);
    }
}

/// The body is read exactly where the status says that all is well and no length is declared that is more
/// than may be read; another address is asked exactly where the status is that of a redirect, the location
/// leads to the web, and fewer redirects than are allowed have been followed. In all other cases the
/// fetch fails. A fetch keeps its address and its limit.
pub proof fn what_a_response_leads_to(
    f: FetchView,
    status: nat,
    location: Option<Seq<char>>,
    length: Option<nat>,
)
    ensures
        match remote::after_response(f, status, location, length) {
            Ok((FetchStep::Read, g)) => {
                &&& 200 <= status <= 299
                &&& (length matches Some(n) ==> n <= f.max_bytes)
                &&& g == f
            },
            Ok((FetchStep::Again, g)) => {
                &&& 300 <= status <= 399
                &&& location matches Some(place)
                &&& g.current == remote::redirect_target(f.current, place)
                &&& remote::is_remote(g.current)
                &&& f.followed != remote::MAX_REDIRECTS
                &&& g.followed == f.followed + 1
                &&& g.url == f.url
                &&& g.max_bytes == f.max_bytes
            },
            Err(RemoteFailure::TooLarge { uri, cap }) => {
                &&& 200 <= status <= 299
                &&& length matches Some(n)
                &&& n > f.max_bytes
                &&& uri == f.url
                &&& cap == f.max_bytes
            },
            Err(RemoteFailure::BadRedirect { target }) => {
                &&& 300 <= status <= 399
                &&& location matches Some(place)
                &&& target == remote::redirect_target(f.current, place)
                &&& !remote::is_remote(target)
            },
            Err(RemoteFailure::Network { uri, .. }) => {
                &&& uri == f.url
                &&& status < 200 || status > 399 || (status >= 300 && (location is None || f.followed
                    == remote::MAX_REDIRECTS))
            },
            _ => false,
        },
{
}

// The cache directory.

/// A line of a process status that does not begin with `Uid:` is passed over.
pub proof fn other_lines_are_passed_over(line: Seq<char>, rest: Seq<char>)
    requires
        !line.contains('\n'),
        !text::starts_with(line, "Uid:"@),
    ensures
        remote::status_uid(line + seq!['\n'] + rest) == remote::status_uid(rest),
{
    let whole = line + seq!['\n'] + rest;
    let stop = resource_path::is_char('\n');
    assert forall|k: int| 0 <= k < line.len() implies !stop(#[trigger] whole[k]) by {
        assert(whole[k] == line[k]);
        assert(line.contains(line[k]));
    }
    resource_path::first_place_is(whole, stop, line.len() as int);
    assert(whole.take(line.len() as int) =~= line);
    assert(whole.skip(line.len() as int + 1) =~= rest);
}

proof fn first_word_is(blanks: Seq<char>, word: Seq<char>, rest: Seq<char>)
    requires
        text::is_blank(blanks),
        word.len() > 0,
        forall|i: int| 0 <= i < word.len() ==> !text::is_whitespace(#[trigger] word[i]),
        rest.len() > 0 ==> text::is_whitespace(rest[0]),
    ensures
        remote::first_word(blanks + word + rest) == word,
    decreases blanks.len(),
{
    let whole = blanks + word + rest;
    if blanks.len() == 0 {
        let stop = |c: char| text::is_whitespace(c);
        assert(whole[0] == word[0]);
        assert forall|k: int| 0 <= k < word.len() implies !stop(#[trigger] whole[k]) by {
            assert(whole[k] == word[k]);
        }
        assert(word.len() < whole.len() ==> whole[word.len() as int] == rest[0]);
        resource_path::first_place_is(whole, stop, word.len() as int);
        assert(whole.take(word.len() as int) =~= word);
    } else {
        assert(whole[0] == blanks[0]);
        assert(text::is_whitespace(blanks[0]));
        assert(text::is_blank(blanks.drop_first()));
        first_word_is(blanks.drop_first(), word, rest);
        assert(whole.drop_first() =~= blanks.drop_first() + word + rest);
    }
}

/// The user is the first word behind `Uid:` on the first line that begins so.
pub proof fn the_user_is_the_first_word(
    blanks: Seq<char>,
    word: Seq<char>,
    others: Seq<char>,
    rest: Seq<char>,
)
    requires
        text::is_blank(blanks),
        word.len() > 0,
        forall|i: int| 0 <= i < word.len() ==> !text::is_whitespace(#[trigger] word[i]),
        others.len() > 0 ==> text::is_whitespace(others[0]),
        !blanks.contains('\n'),
        !others.contains('\n'),
        rest.len() > 0 ==> rest[0] == '\n',
    ensures
        remote::status_uid("Uid:"@ + (blanks + word + others) + rest) == word,
{
    reveal_strlit("Uid:");
    let tail = blanks + word + others;
    let line = "Uid:"@ + tail;
    let whole = line + rest;
    let stop = resource_path::is_char('\n');
    assert(text::is_whitespace('\n'));
    assert forall|k: int| 0 <= k < line.len() implies !stop(#[trigger] whole[k]) by {
        assert(whole[k] == line[k]);
        if k >= 4 {
            let j = k - 4;
            assert(line[k] == tail[j]);
            if j < blanks.len() {
                assert(tail[j] == blanks[j]);
                assert(blanks.contains(blanks[j]));
            } else if j < blanks.len() + word.len() {
                assert(tail[j] == word[j - blanks.len()]);
            } else {
                let o = j - blanks.len() - word.len();
                assert(tail[j] == others[o]);
                assert(others.contains(others[o]));
            }
        }
    }
    resource_path::first_place_is(whole, stop, line.len() as int);
    assert(whole.take(line.len() as int) =~= line);
    assert(line.skip(4) =~= tail);
    assert(line.take(4) =~= "Uid:"@);
    first_word_is(blanks, word, others);
}

/// A name below a directory of a Unix path, with one slash between them.
pub open spec fn inside(directory: Seq<char>, name: Seq<char>) -> Seq<char> {
    if directory.len() > 0 && directory.last() != '/' {
        directory + seq!['/'] + name
    } else {
        directory + name
    }
}

proof fn below_is_inside(directory: Seq<char>, name: Seq<char>)
    ensures
        remote::below(PathStyle::Unix, directory, name) == inside(directory, name),
{
    reveal_strlit("/");
    assert("/"@ =~= seq!['/']);
}

/// On Unix fetched files are kept below the cache directory of the user where it starts at the root, else
/// below their home, else in a temporary directory with their number in its name.
pub proof fn where_files_are_kept(
    cache_home: Option<Seq<char>>,
    home: Option<Seq<char>>,
    temporary: Seq<char>,
    uid: Seq<char>,
)
    ensures
        ({
            let kept = remote::cache_directory(PathStyle::Unix, cache_home, home, temporary, uid);
            let usable = cache_home is Some && cache_home->0.len() > 0 && cache_home->0[0] == '/';
            &&& usable ==> kept == inside(cache_home->0, "hcdf-remote"@)
            &&& !usable && home is Some ==> kept == inside(
                inside(home->0, ".cache"@),
                "hcdf-remote"@,
            )
            &&& !usable && home is None ==> kept == inside(temporary, "hcdf-remote-cache-"@ + uid)
        }),
{
    if let Some(c) = cache_home {
        below_is_inside(c, "hcdf-remote"@);
        assert(c.skip(0) =~= c);
    }
    if let Some(h) = home {
        below_is_inside(h, ".cache"@);
        below_is_inside(inside(h, ".cache"@), "hcdf-remote"@);
    }
    below_is_inside(temporary, "hcdf-remote-cache-"@ + uid);
}

} // verus!
