//! The rules of fetching remote assets: which addresses are fetched, how redirects are followed, how
//! much is read, and what a cached file is trusted for.
//!
//! The library decides and the caller does: the caller sends the requests, reads the bytes and writes
//! the files that a fetch asks for, and hands back what it got.
use vstd::prelude::*;
use crate::gltf::codec;
use crate::gltf::codec::{extension, to_lower};
use crate::native_path;
use crate::native_path::{NativePath, PathStyle, PrefixKind};
use crate::resource_path;
use crate::resource_path::split_suffix;
use crate::sorting;
use crate::text;

verus! {

/// The most bytes of a body that are read where the caller says nothing.
pub const DEFAULT_MAX_BYTES: u64 = 268_435_456;

/// How many seconds each phase of a request may take where the caller says nothing.
pub const DEFAULT_TIMEOUT_SECS: u64 = 30;

/// How many bytes of a body are read at once.
pub const CHUNK: usize = 262_144;

/// How many redirects are followed.
pub const MAX_REDIRECTS: u64 = 10;

/// Why an asset cannot be fetched.
#[derive(Debug, Clone, PartialEq, Eq)]
pub enum RemoteError {
    /// The address is no plain web address.
    BadScheme { uri: String },
    /// The body is larger than allowed.
    TooLarge { uri: String, cap: u64 },
    /// The bytes are not those that the digest pins.
    ShaMismatch { uri: String, pinned: String, actual: String },
    /// A redirect leads to an address that is no plain web address.
    BadRedirect { target: String },
    /// The request failed.
    Network { uri: String, reason: String },
    /// The bytes could not be kept.
    Cache { uri: String, reason: String },
    /// Nothing may be read.
    BadMaxBytes(u64),
}

/// What an error holds.
pub enum RemoteFailure {
    BadScheme { uri: Seq<char> },
    TooLarge { uri: Seq<char>, cap: nat },
    ShaMismatch { uri: Seq<char>, pinned: Seq<char>, actual: Seq<char> },
    BadRedirect { target: Seq<char> },
    Network { uri: Seq<char>, reason: Seq<char> },
    Cache { uri: Seq<char>, reason: Seq<char> },
    BadMaxBytes(nat),
}

impl View for RemoteError {
    type V = RemoteFailure;

    open spec fn view(&self) -> RemoteFailure {
        match self {
            RemoteError::BadScheme { uri } => RemoteFailure::BadScheme { uri: uri@ },
            RemoteError::TooLarge { uri, cap } => RemoteFailure::TooLarge {
                uri: uri@,
                cap: *cap as nat,
            },
            RemoteError::ShaMismatch { uri, pinned, actual } => RemoteFailure::ShaMismatch {
                uri: uri@,
                pinned: pinned@,
                actual: actual@,
            },
            RemoteError::BadRedirect { target } => RemoteFailure::BadRedirect { target: target@ },
            RemoteError::Network { uri, reason } => RemoteFailure::Network {
                uri: uri@,
                reason: reason@,
            },
            RemoteError::Cache { uri, reason } => RemoteFailure::Cache {
                uri: uri@,
                reason: reason@,
            },
            RemoteError::BadMaxBytes(n) => RemoteFailure::BadMaxBytes(*n as nat),
        }
    }
}

impl RemoteFailure {
    /// The error in words.
    pub open spec fn words(self) -> Seq<char> {
        match self {
            RemoteFailure::BadScheme { uri } => "refusing to fetch non-http(s) uri "@
                + text::debug_chars(uri)
                + ": only http:// and https:// are fetched (a remote asset must be a plain web URL)"@,
            RemoteFailure::TooLarge { uri, cap } => "remote asset "@ + text::debug_chars(uri)
                + " exceeds the "@ + text::decimal(cap)
                + "-byte size cap (raise max_bytes to allow it)"@,
            RemoteFailure::ShaMismatch { uri, pinned, actual } => "remote asset "@
                + text::debug_chars(uri) + " failed integrity check: pinned @sha "@ + pinned
                + " != fetched content "@ + actual
                + " (the remote bytes do not match the document's @sha)"@,
            RemoteFailure::BadRedirect { target } =>
                "refusing to follow redirect to non-http(s) uri "@ + text::debug_chars(target)
                + " (only http:// and https:// are fetched)"@,
            RemoteFailure::Network { uri, reason } => "could not fetch remote asset "@
                + text::debug_chars(uri) + ": "@ + reason,
            RemoteFailure::Cache { uri, reason } => "could not cache remote asset "@
                + text::debug_chars(uri) + ": "@ + reason,
            RemoteFailure::BadMaxBytes(n) => "max_bytes must be positive, got "@ + text::decimal(n),
        }
    }
}

impl RemoteError {
    /// The error in words.
    pub fn message(&self) -> (r: String)
        ensures
            r@ == self@.words(),
    {
        match self {
            RemoteError::BadScheme { uri } => {
                let mut out: String = "refusing to fetch non-http(s) uri ".to_owned();
                out.append(text::debug_text(uri.as_str()).as_str());
                out.append(
                    ": only http:// and https:// are fetched (a remote asset must be a plain web URL)",
                );
                out
            },
            RemoteError::TooLarge { uri, cap } => {
                let mut out: String = "remote asset ".to_owned();
                out.append(text::debug_text(uri.as_str()).as_str());
                out.append(" exceeds the ");
                out.append(text::decimal_text(*cap).as_str());
                out.append("-byte size cap (raise max_bytes to allow it)");
                out
            },
            RemoteError::ShaMismatch { uri, pinned, actual } => {
                let mut out: String = "remote asset ".to_owned();
                out.append(text::debug_text(uri.as_str()).as_str());
                out.append(" failed integrity check: pinned @sha ");
                out.append(pinned.as_str());
                out.append(" != fetched content ");
                out.append(actual.as_str());
                out.append(" (the remote bytes do not match the document's @sha)");
                out
            },
            RemoteError::BadRedirect { target } => {
                let mut out: String = "refusing to follow redirect to non-http(s) uri ".to_owned();
                out.append(text::debug_text(target.as_str()).as_str());
                out.append(" (only http:// and https:// are fetched)");
                out
            },
            RemoteError::Network { uri, reason } => {
                let mut out: String = "could not fetch remote asset ".to_owned();
                out.append(text::debug_text(uri.as_str()).as_str());
                out.append(": ");
                out.append(reason.as_str());
                out
            },
            RemoteError::Cache { uri, reason } => {
                let mut out: String = "could not cache remote asset ".to_owned();
                out.append(text::debug_text(uri.as_str()).as_str());
                out.append(": ");
                out.append(reason.as_str());
                out
            },
            RemoteError::BadMaxBytes(n) => {
                let mut out: String = "max_bytes must be positive, got ".to_owned();
                out.append(text::decimal_text(*n).as_str());
                out
            },
        }
    }
}

// Addresses.

/// Whether an address is a plain web address.
pub open spec fn is_remote(uri: Seq<char>) -> bool {
    let low = codec::lowered(uri);
    text::starts_with(low, "http://"@) || text::starts_with(low, "https://"@)
}

/// Whether an address is a plain web address.
pub fn is_remote_uri(uri: &str) -> (r: bool)
    ensures
        r == is_remote(uri@),
{
    let low = to_lower(uri);
    text::has_prefix(low.as_str(), "http://") || text::has_prefix(low.as_str(), "https://")
}

/// The place of the first mark between a scheme and an authority; the length where there is none.
pub open spec fn mark_place(text: Seq<char>) -> nat
    decreases text.len(),
{
    if text.len() == 0 || text::starts_with(text, "://"@) {
        0
    } else {
        1 + mark_place(text.drop_first())
    }
}

/// Whether a text holds a mark between a scheme and an authority.
pub open spec fn has_mark(text: Seq<char>) -> bool {
    mark_place(text) < text.len()
}

/// What stands before the first such mark; the whole text where there is none.
pub open spec fn before_mark(text: Seq<char>) -> Seq<char> {
    text.take(mark_place(text) as int)
}

/// What stands after the first such mark.
pub open spec fn after_mark(text: Seq<char>) -> Seq<char> {
    text.skip(mark_place(text) as int + 3)
}

/// A path up to and with its last slash; a slash where there is none.
pub open spec fn path_base(path: Seq<char>) -> Seq<char>
    decreases path.len(),
{
    if path.len() == 0 {
        "/"@
    } else if path.last() == '/' {
        path
    } else {
        path_base(path.drop_last())
    }
}

/// The address that a redirect leads to: the location itself where it has a scheme, and otherwise the
/// location beside the current address.
pub open spec fn redirect_target(current: Seq<char>, location: Seq<char>) -> Seq<char> {
    let low = codec::lowered(location);
    let rest = after_mark(current);
    let host = resource_path::before_slash(rest);
    if has_mark(low) || text::starts_with(low, "data:"@) || text::starts_with(low, "mailto:"@) {
        location
    } else if text::starts_with(location, "//"@) {
        before_mark(current) + "://"@ + location.skip(2)
    } else if !has_mark(current) {
        location
    } else if text::starts_with(location, "/"@) {
        before_mark(current) + "://"@ + host + "/"@ + location.skip(1)
    } else {
        before_mark(current) + "://"@ + host + path_base(rest.skip(host.len() as int)) + location
    }
}

/// The place of the first mark in a text, or its length.
fn find_mark(cs: &[char]) -> (r: usize)
    ensures
        r == mark_place(cs@),
{
    let n: usize = cs.len();
    let mut i: usize = 0;
    assert(cs@.skip(0) =~= cs@);
    while i < n
        invariant
            i <= n == cs@.len(),
            mark_place(cs@) == i + mark_place(cs@.skip(i as int)),
        decreases n - i,
    {
        let ghost rest = cs@.skip(i as int);
        proof {
            resource_path::prefix_at(cs@, i as int, "://"@);
            assert(rest.drop_first() =~= cs@.skip(i + 1));
        }
        if text::has_at(cs, "://", i) {
            return i;
        }
        i += 1;
    }
    n
}

proof fn mark_is_within(text: Seq<char>)
    ensures
        mark_place(text) <= text.len(),
        has_mark(text) ==> mark_place(text) + 3 <= text.len(),
    decreases text.len(),
{
    reveal_strlit("://");
    if text.len() > 0 && !text::starts_with(text, "://"@) {
        mark_is_within(text.drop_first());
    }
}

fn path_base_of(cs: &[char], from: usize) -> (r: String)
    requires
        from <= cs@.len(),
    ensures
        r@ == path_base(cs@.skip(from as int)),
{
    let ghost path = cs@.skip(from as int);
    let mut to: usize = cs.len();
    assert(path.take(to - from) =~= path);
    while to > from
        invariant
            from <= to <= cs@.len(),
            path == cs@.skip(from as int),
            path_base(path) == path_base(path.take(to - from)),
        decreases to,
    {
        assert(path.take(to - from).last() == cs@[to - 1]);
        assert(path.take(to - from).drop_last() =~= path.take(to - from - 1));
        if cs[to - 1] == '/' {
            let r = text::text_of_range(cs, from, to);
            assert(r@ =~= path.take(to - from));
            return r;
        }
        to -= 1;
    }
    "/".to_owned()
}

/// The address that a redirect leads to.
pub fn resolve_location(current: &str, location: &str) -> (r: String)
    ensures
        r@ == redirect_target(current@, location@),
{
    let low = to_lower(location);
    let low_chars = text::chars(low.as_str());
    proof {
        reveal_strlit("//");
        reveal_strlit("/");
        mark_is_within(current@);
    }
    if find_mark(low_chars.as_slice()) < low_chars.len() || text::has_prefix(low.as_str(), "data:")
        || text::has_prefix(low.as_str(), "mailto:") {
        return location.to_owned();
    }
    let cs = text::chars(current);
    let ls = text::chars(location);
    let mark = find_mark(cs.as_slice());
    let mut out = text::text_of_range(cs.as_slice(), 0, mark);
    assert(out@ =~= before_mark(current@));
    if text::has_prefix(location, "//") {
        out.append("://");
        let rest = text::text_of_range(ls.as_slice(), 2, ls.len());
        assert(rest@ =~= location@.skip(2));
        out.append(rest.as_str());
        return out;
    }
    if mark == cs.len() {
        return location.to_owned();
    }
    let from: usize = mark + 3;
    let slash = resource_path::place_of(cs.as_slice(), '/', from);
    let host = text::text_of_range(cs.as_slice(), from, slash);
    let ghost rest = after_mark(current@);
    proof {
        assert(rest =~= cs@.skip(from as int));
        assert(host@ =~= resource_path::before_slash(rest));
        assert(rest.skip(host@.len() as int) =~= cs@.skip(slash as int));
    }
    out.append("://");
    out.append(host.as_str());
    if text::has_prefix(location, "/") {
        out.append("/");
        let tail = text::text_of_range(ls.as_slice(), 1, ls.len());
        assert(tail@ =~= location@.skip(1));
        out.append(tail.as_str());
    } else {
        out.append(path_base_of(cs.as_slice(), slash).as_str());
        out.append(location);
    }
    out
}

/// The last segment of a path.
pub open spec fn last_segment(path: Seq<char>) -> Seq<char>
    decreases path.len(),
{
    if path.len() == 0 || path.last() == '/' {
        Seq::empty()
    } else {
        last_segment(path.drop_last()).push(path.last())
    }
}

fn last_segment_of(path: &str) -> (r: String)
    ensures
        r@ == last_segment(path@),
{
    let cs = text::chars(path);
    let n: usize = cs.len();
    let mut from: usize = n;
    assert(path@.take(n as int) =~= path@);
    assert(path@.skip(n as int) =~= Seq::empty());
    assert(last_segment(path@) =~= last_segment(path@.take(n as int)) + path@.skip(n as int));
    while from > 0 && cs[from - 1] != '/'
        invariant
            from <= n == cs@.len(),
            cs@ == path@,
            last_segment(path@) == last_segment(path@.take(from as int)) + path@.skip(from as int),
        decreases from,
    {
        let ghost front = path@.take(from as int);
        assert(front.last() == cs@[from - 1]);
        assert(front.drop_last() =~= path@.take(from - 1));
        from -= 1;
        assert(last_segment(path@) =~= last_segment(path@.take(from as int)) + path@.skip(
            from as int,
        ));
    }
    proof {
        if from > 0 {
            assert(path@.take(from as int).last() == cs@[from - 1]);
        }
        assert(last_segment(path@.take(from as int)) =~= Seq::empty());
        assert(path@.subrange(from as int, n as int) =~= path@.skip(from as int));
        assert(last_segment(path@) =~= path@.skip(from as int));
    }
    text::text_of_range(cs.as_slice(), from, n)
}

/// The extension of the file that an address names, with its dot.
pub open spec fn file_extension(url: Seq<char>) -> Seq<char> {
    match codec::after_dot(last_segment(resource_path::path_part(url))) {
        Some(ext) => if ext.len() > 0 {
            "."@ + ext
        } else {
            ".bin"@
        },
        None => ".bin"@,
    }
}

/// The extension of the file that an address names, with its dot; `.bin` where it names none.
pub fn ext_for(url: &str) -> (r: String)
    ensures
        r@ == file_extension(url@),
{
    let (path, _) = split_suffix(url);
    let segment = last_segment_of(path.as_str());
    match extension(segment.as_str()) {
        Some(ext) => {
            if ext.as_str().is_empty() {
                ".bin".to_owned()
            } else {
                let mut out: String = ".".to_owned();
                out.append(ext.as_str());
                out
            }
        },
        None => ".bin".to_owned(),
    }
}

// Requests.

/// The length that a header declares: digits, perhaps behind a plus sign and with white space around
/// them, that stand for a number of 64 bits.
pub open spec fn length_declared(header: Seq<char>) -> Option<nat> {
    let bare = text::trimmed(header);
    let digits = if bare.len() > 0 && bare[0] == '+' {
        bare.skip(1)
    } else {
        bare.skip(0)
    };
    if digits.len() > 0 && text::all_digits(digits) && text::digits_value(digits) <= u64::MAX {
        Some(text::digits_value(digits) as nat)
    } else {
        None
    }
}

/// The length that a header declares.
pub fn declared_length(header: &str) -> (r: Option<u64>)
    ensures
        match r {
            Some(n) => length_declared(header@) == Some(n as nat),
            None => length_declared(header@) is None,
        },
{
    let bare = text::trim(header);
    let cs = text::chars(bare.as_str());
    let from: usize = if cs.len() > 0 && cs[0] == '+' { 1 } else { 0 };
    if from == cs.len() {
        return None;
    }
    text::digits_number(cs.as_slice(), from)
}

/// A fetch that follows redirects.
#[derive(Debug, Clone, PartialEq, Eq)]
pub struct Fetch {
    url: String,
    current: String,
    followed: u64,
    max_bytes: u64,
}

/// What a fetch holds: the address it was started with, the address to ask next, how many redirects
/// have been followed, and how many bytes may be read.
pub struct FetchView {
    pub url: Seq<char>,
    pub current: Seq<char>,
    pub followed: nat,
    pub max_bytes: nat,
}

impl View for Fetch {
    type V = FetchView;

    closed spec fn view(&self) -> FetchView {
        FetchView {
            url: self.url@,
            current: self.current@,
            followed: self.followed as nat,
            max_bytes: self.max_bytes as nat,
        }
    }
}

/// What to do after a response.
#[derive(Debug, Clone, Copy, PartialEq, Eq, Structural)]
pub enum FetchStep {
    /// Ask the next address.
    Again,
    /// Read the body.
    Read,
}

/// Why a fetch may not start.
pub open spec fn refused(url: Seq<char>, max_bytes: nat) -> Option<RemoteFailure> {
    if !is_remote(url) {
        Some(RemoteFailure::BadScheme { uri: url })
    } else if max_bytes == 0 {
        Some(RemoteFailure::BadMaxBytes(max_bytes))
    } else {
        None
    }
}

/// What a response does to a fetch.
pub open spec fn after_response(
    f: FetchView,
    status: nat,
    location: Option<Seq<char>>,
    length: Option<nat>,
) -> Result<(FetchStep, FetchView), RemoteFailure> {
    if 300 <= status < 400 {
        match location {
            None => Err(
                RemoteFailure::Network {
                    uri: f.url,
                    reason: "HTTP "@ + text::decimal(status)
                        + " redirect with no Location header"@,
                },
            ),
            Some(place) => {
                let target = redirect_target(f.current, place);
                if !is_remote(target) {
                    Err(RemoteFailure::BadRedirect { target })
                } else if f.followed == MAX_REDIRECTS {
                    Err(
                        RemoteFailure::Network {
                            uri: f.url,
                            reason: "too many redirects (> "@ + text::decimal(MAX_REDIRECTS as nat)
                                + ")"@,
                        },
                    )
                } else {
                    Ok((FetchStep::Again, FetchView { current: target, followed: f.followed + 1, ..f
                    }))
                }
            },
        }
    } else if !(200 <= status < 300) {
        Err(
            RemoteFailure::Network {
                uri: f.url,
                reason: "HTTP status "@ + text::decimal(status),
            },
        )
    } else if length is Some && length->0 > f.max_bytes {
        Err(RemoteFailure::TooLarge { uri: f.url, cap: f.max_bytes })
    } else {
        Ok((FetchStep::Read, f))
    }
}

impl Fetch {
    /// The next address is a plain web address, however the fetch got there, and no more redirects
    /// have been followed than are allowed.
    pub open spec fn wf(&self) -> bool {
        is_remote(self@.current) && self@.followed <= MAX_REDIRECTS && self@.max_bytes > 0
    }

    /// Starts a fetch. Nothing but a plain web address is fetched.
    pub fn start(url: &str, max_bytes: Option<u64>) -> (r: Result<Fetch, RemoteError>)
        ensures
            ({
                let max = match max_bytes {
                    Some(n) => n as nat,
                    None => DEFAULT_MAX_BYTES as nat,
                };
                match refused(url@, max) {
                    Some(failure) => r matches Err(e) && e@ == failure,
                    None => r matches Ok(f) && f.wf() && f@ == (FetchView {
                        url: url@,
                        current: url@,
                        followed: 0,
                        max_bytes: max,
                    }),
                }
            }),
    {
        if !is_remote_uri(url) {
            return Err(RemoteError::BadScheme { uri: url.to_owned() });
        }
        let max_bytes: u64 = match max_bytes {
            Some(n) => n,
            None => DEFAULT_MAX_BYTES,
        };
        if max_bytes == 0 {
            return Err(RemoteError::BadMaxBytes(max_bytes));
        }
        Ok(Fetch { url: url.to_owned(), current: url.to_owned(), followed: 0, max_bytes })
    }

    /// The address to ask next.
    pub fn target(&self) -> (r: &str)
        ensures
            r@ == self@.current,
    {
        self.current.as_str()
    }

    /// How many bytes may be read.
    pub fn limit(&self) -> (r: u64)
        ensures
            r as nat == self@.max_bytes,
    {
        self.max_bytes
    }

    /// Takes a response: its status, the location it names and the length it declares.
    pub fn respond(&mut self, status: u16, location: Option<&str>, length: Option<u64>) -> (r: Result<
        FetchStep,
        RemoteError,
    >)
        requires
            old(self).wf(),
        ensures
            final(self).wf(),
            match after_response(
                old(self)@,
                status as nat,
                match location {
                    Some(s) => Some(s@),
                    None => None,
                },
                match length {
                    Some(n) => Some(n as nat),
                    None => None,
                },
            ) {
                Ok((step, after)) => r == Ok::<FetchStep, RemoteError>(step) && final(self)@
                    == after,
                Err(failure) => r matches Err(e) && e@ == failure && final(self)@ == old(self)@,
            },
    {
        if 300 <= status && status < 400 {
            match location {
                None => {
                    let mut reason: String = "HTTP ".to_owned();
                    reason.append(text::decimal_text(status as u64).as_str());
                    reason.append(" redirect with no Location header");
                    Err(RemoteError::Network { uri: self.url.clone(), reason })
                },
                Some(place) => {
                    let target = resolve_location(self.current.as_str(), place);
                    if !is_remote_uri(target.as_str()) {
                        return Err(RemoteError::BadRedirect { target });
                    }
                    if self.followed == MAX_REDIRECTS {
                        let mut reason: String = "too many redirects (> ".to_owned();
                        reason.append(text::decimal_text(MAX_REDIRECTS).as_str());
                        reason.append(")");
                        return Err(RemoteError::Network { uri: self.url.clone(), reason });
                    }
                    self.current = target;
                    self.followed = self.followed + 1;
                    Ok(FetchStep::Again)
                },
            }
        } else if status < 200 || status >= 300 {
            let mut reason: String = "HTTP status ".to_owned();
            reason.append(text::decimal_text(status as u64).as_str());
            Err(RemoteError::Network { uri: self.url.clone(), reason })
        } else {
            if let Some(declared) = length {
                if declared > self.max_bytes {
                    return Err(
                        RemoteError::TooLarge { uri: self.url.clone(), cap: self.max_bytes },
                    );
                }
            }
            Ok(FetchStep::Read)
        }
    }

    /// The error of a request that failed, with the reason.
    pub fn failed(&self, reason: String) -> (r: RemoteError)
        ensures
            r@ == (RemoteFailure::Network { uri: self@.url, reason: reason@ }),
    {
        RemoteError::Network { uri: self.url.clone(), reason }
    }

    /// Begins to read the body of a response that declares a length, or none.
    pub fn body(&self, length: Option<u64>) -> (r: Body)
        requires
            self.wf(),
        ensures
            r.wf(),
            r@ == (BodyView {
                url: self@.url,
                max_bytes: self@.max_bytes,
                length: match length {
                    Some(n) => Some(n as nat),
                    None => None,
                },
                bytes: Seq::empty(),
            }),
    {
        let r = Body {
            url: self.url.clone(),
            max_bytes: self.max_bytes,
            length,
            bytes: Vec::new(),
        };
        assert(r@.bytes =~= Seq::empty());
        r
    }
}

/// A response: its status, the location it names and the length it declares.
pub struct ResponseView {
    pub status: nat,
    pub location: Option<Seq<char>>,
    pub length: Option<nat>,
}

/// A fetch after responses each of which sent it on to another address; nothing where one did not.
pub open spec fn after_responses(f: FetchView, responses: Seq<ResponseView>) -> Option<FetchView>
    decreases responses.len(),
{
    if responses.len() == 0 {
        Some(f)
    } else {
        let last = responses.last();
        match after_responses(f, responses.drop_last()) {
            Some(before) => match after_response(before, last.status, last.location, last.length) {
                Ok((FetchStep::Again, after)) => Some(after),
                _ => None,
            },
            None => None,
        }
    }
}

/// Whatever the servers answer, a fetch asks plain web addresses only, and it follows no more
/// redirects than are allowed.
pub proof fn only_web_addresses_are_asked(f: Fetch, responses: Seq<ResponseView>)
    requires
        f.wf(),
    ensures
        match after_responses(f@, responses) {
            Some(after) => {
                &&& is_remote(after.current)
                &&& after.followed == f@.followed + responses.len()
                &&& after.followed <= MAX_REDIRECTS
                &&& after.url == f@.url
                &&& after.max_bytes == f@.max_bytes
            },
            None => true,
        },
    decreases responses.len(),
{
    if responses.len() > 0 {
        only_web_addresses_are_asked(f, responses.drop_last());
    }
}

// Bodies.

/// The body of a response, as far as it has been read.
#[derive(Debug, Clone, PartialEq, Eq)]
pub struct Body {
    url: String,
    max_bytes: u64,
    length: Option<u64>,
    bytes: Vec<u8>,
}

/// What has been read of a body, and how much may be.
pub struct BodyView {
    pub url: Seq<char>,
    pub max_bytes: nat,
    pub length: Option<nat>,
    pub bytes: Seq<u8>,
}

impl View for Body {
    type V = BodyView;

    closed spec fn view(&self) -> BodyView {
        BodyView {
            url: self.url@,
            max_bytes: self.max_bytes as nat,
            length: match self.length {
                Some(n) => Some(n as nat),
                None => None,
            },
            bytes: self.bytes@,
        }
    }
}

/// What bytes that were read do to a body; nothing where they are more than may be read.
pub open spec fn after_chunk(b: BodyView, chunk: Seq<u8>) -> Option<BodyView> {
    if b.bytes.len() + chunk.len() > b.max_bytes {
        None
    } else {
        Some(BodyView { bytes: b.bytes + chunk, ..b })
    }
}

impl Body {
    /// No more has been kept than may be read.
    pub open spec fn wf(&self) -> bool {
        self@.bytes.len() <= self@.max_bytes
    }

    /// Whether more is to be read: as many bytes as were declared are read, and not one more.
    pub fn wants_more(&self) -> (r: bool)
        ensures
            r == !(self@.length is Some && self@.bytes.len() >= self@.length->0),
    {
        match self.length {
            Some(n) => (self.bytes.len() as u64) < n,
            None => true,
        }
    }

    /// Takes bytes that were read. Where they are more than may be read, none of them is kept.
    pub fn take(&mut self, chunk: &[u8]) -> (r: Result<(), RemoteError>)
        requires
            old(self).wf(),
        ensures
            final(self).wf(),
            match after_chunk(old(self)@, chunk@) {
                Some(after) => r is Ok && final(self)@ == after,
                None => r matches Err(e) && e@ == (RemoteFailure::TooLarge {
                    uri: old(self)@.url,
                    cap: old(self)@.max_bytes,
                }) && final(self)@ == old(self)@,
            },
    {
        let had: u64 = self.bytes.len() as u64;
        if chunk.len() as u64 > self.max_bytes - had {
            return Err(RemoteError::TooLarge { uri: self.url.clone(), cap: self.max_bytes });
        }
        let ghost before = self.bytes@;
        self.bytes.extend_from_slice(chunk);
        assert(self.bytes@ =~= before + chunk@);
        Ok(())
    }

    /// The bytes that were read.
    pub fn into_bytes(self) -> (r: Vec<u8>)
        ensures
            r@ == self@.bytes,
    {
        self.bytes
    }
}

/// The bytes of a run of chunks.
pub open spec fn bytes_of(chunks: Seq<Seq<u8>>) -> Seq<u8>
    decreases chunks.len(),
{
    if chunks.len() == 0 {
        Seq::empty()
    } else {
        bytes_of(chunks.drop_last()) + chunks.last()
    }
}

/// A body after a run of chunks; nothing where one of them is more than may be read.
pub open spec fn after_chunks(b: BodyView, chunks: Seq<Seq<u8>>) -> Option<BodyView>
    decreases chunks.len(),
{
    if chunks.len() == 0 {
        Some(b)
    } else {
        match after_chunks(b, chunks.drop_last()) {
            Some(before) => after_chunk(before, chunks.last()),
            None => None,
        }
    }
}

/// However a body arrives, all of its bytes are kept, in order, if they are no more than may be read;
/// a body that is larger is given up.
pub proof fn bodies_are_whole_or_refused(b: Body, chunks: Seq<Seq<u8>>)
    requires
        b.wf(),
    ensures
        after_chunks(b@, chunks) == (if b@.bytes.len() + bytes_of(chunks).len() <= b@.max_bytes {
            Some(BodyView { bytes: b@.bytes + bytes_of(chunks), ..b@ })
        } else {
            None
        }),
    decreases chunks.len(),
{
    if chunks.len() == 0 {
        assert(b@.bytes + bytes_of(chunks) =~= b@.bytes);
    } else {
        bodies_are_whole_or_refused(b, chunks.drop_last());
        assert((b@.bytes + bytes_of(chunks.drop_last())) + chunks.last() =~= b@.bytes + bytes_of(
            chunks,
        ));
    }
}

// The cache.

/// What follows the first colon of a digest; the whole digest where there is none.
pub open spec fn digest_part(sha: Seq<char>) -> Seq<char> {
    let colon = resource_path::colon_place(sha);
    if colon < sha.len() {
        sha.skip(colon as int + 1)
    } else {
        sha
    }
}

/// The name of the file that keeps bytes with this digest, fetched from this address.
pub open spec fn cache_file(sha: Seq<char>, url: Seq<char>) -> Seq<char> {
    digest_part(sha) + file_extension(url)
}

/// The name of the file that keeps bytes with this digest, fetched from this address.
pub fn cache_name(sha: &str, url: &str) -> (r: String)
    ensures
        r@ == cache_file(sha@, url@),
{
    let cs = text::chars(sha);
    let n: usize = cs.len();
    assert(cs@.skip(0) =~= sha@);
    let colon = resource_path::place_of(cs.as_slice(), ':', 0);
    let mut out = if colon < n {
        text::text_of_range(cs.as_slice(), colon + 1, n)
    } else {
        sha.to_owned()
    };
    assert(out@ =~= digest_part(sha@));
    out.append(ext_for(url).as_str());
    out
}

/// Whether bytes have the digest that a document pins; without one all bytes do.
pub fn check_digest(url: &str, expected: Option<&str>, actual: &str) -> (r: Result<(), RemoteError>)
    ensures
        match expected {
            Some(pinned) => if pinned@ == actual@ {
                r is Ok
            } else {
                r matches Err(e) && e@ == (RemoteFailure::ShaMismatch {
                    uri: url@,
                    pinned: pinned@,
                    actual: actual@,
                })
            },
            None => r is Ok,
        },
{
    if let Some(pinned) = expected {
        if !text::same(pinned, actual) {
            return Err(
                RemoteError::ShaMismatch {
                    uri: url.to_owned(),
                    pinned: pinned.to_owned(),
                    actual: actual.to_owned(),
                },
            );
        }
    }
    Ok(())
}

/// Whether a cached file may stand for fetched bytes: it must have been read, and its bytes must have
/// the digest of the fetched ones.
pub fn trusts_cached(existing: Option<&str>, fetched: &str) -> (r: bool)
    ensures
        r == (existing matches Some(sha) && sha@ == fetched@),
{
    match existing {
        Some(sha) => text::same(sha, fetched),
        None => false,
    }
}

/// The first word of a text.
pub open spec fn first_word(text: Seq<char>) -> Seq<char>
    decreases text.len(),
{
    if text.len() == 0 {
        text
    } else if text::is_whitespace(text[0]) {
        first_word(text.drop_first())
    } else {
        text.take(resource_path::first_place(text, |c: char| text::is_whitespace(c)) as int)
    }
}

/// The user that a process status names: the first word after `Uid:` at the start of a line.
pub open spec fn status_uid(text: Seq<char>) -> Seq<char>
    decreases text.len(),
{
    let end = resource_path::first_place(text, resource_path::is_char('\n'));
    let line = text.take(end as int);
    let word = first_word(line.skip(4));
    if text::starts_with(line, "Uid:"@) && word.len() > 0 {
        word
    } else if end < text.len() {
        status_uid(text.skip(end as int + 1))
    } else {
        "u"@
    }
}

fn first_word_of(cs: &[char], from: usize, to: usize) -> (r: String)
    requires
        from <= to <= cs@.len(),
    ensures
        r@ == first_word(cs@.subrange(from as int, to as int)),
{
    let ghost all = cs@.subrange(from as int, to as int);
    let ghost stop = |c: char| text::is_whitespace(c);
    let mut start: usize = from;
    while start < to && text::whitespace(cs[start])
        invariant
            from <= start <= to <= cs@.len(),
            first_word(all) == first_word(cs@.subrange(start as int, to as int)),
        decreases to - start,
    {
        let ghost rest = cs@.subrange(start as int, to as int);
        assert(rest[0] == cs@[start as int]);
        assert(rest.drop_first() =~= cs@.subrange(start + 1, to as int));
        start += 1;
    }
    let mut end: usize = start;
    let ghost rest = cs@.subrange(start as int, to as int);
    while end < to && !text::whitespace(cs[end])
        invariant
            start <= end <= to <= cs@.len(),
            rest == cs@.subrange(start as int, to as int),
            stop == (|c: char| text::is_whitespace(c)),
            forall|k: int| 0 <= k < end - start ==> !stop(#[trigger] rest[k]),
        decreases to - end,
    {
        assert(rest[end - start] == cs@[end as int]);
        end += 1;
    }
    proof {
        if end < to {
            assert(rest[end - start] == cs@[end as int]);
        }
        if start < to {
            assert(rest[0] == cs@[start as int]);
            resource_path::first_place_is(rest, stop, end - start);
        }
        assert(cs@.subrange(start as int, end as int) =~= first_word(rest));
    }
    text::text_of_range(cs, start, end)
}

/// The user that a process status names; `u` where it names none.
pub fn uid_from_status(status: &str) -> (r: String)
    ensures
        r@ == status_uid(status@),
{
    let cs = text::chars(status);
    let n: usize = cs.len();
    let mut from: usize = 0;
    assert(status@.skip(0) =~= status@);
    proof {
        reveal_strlit("Uid:");
    }
    loop
        invariant
            from <= n == cs@.len(),
            cs@ == status@,
            "Uid:"@.len() == 4,
            status_uid(status@) == status_uid(status@.skip(from as int)),
        decreases n - from,
    {
        let end = resource_path::place_of(cs.as_slice(), '\n', from);
        let ghost rest = status@.skip(from as int);
        let ghost line = rest.take(end - from);
        let line_text = text::text_of_range(cs.as_slice(), from, end);
        assert(line_text@ =~= line);
        if text::has_prefix(line_text.as_str(), "Uid:") {
            let word = first_word_of(cs.as_slice(), from + 4, end);
            assert(line.skip(4) =~= cs@.subrange(from + 4, end as int));
            if !word.as_str().is_empty() {
                return word;
            }
        }
        if end == n {
            return "u".to_owned();
        }
        assert(rest.skip(end - from + 1) =~= status@.skip(end + 1));
        from = end + 1;
    }
}

/// A directory below another. A drive alone and a directory that ends in a separator need none before
/// the name. A directory with a verbatim prefix is written anew.
pub open spec fn below(style: PathStyle, directory: Seq<char>, name: Seq<char>) -> Seq<char> {
    let path = native_path::parsed(style, directory);
    if path.kind is Verbatim {
        native_path::written(
            style,
            native_path::PathParts {
                rooted: true,
                names: native_path::not_empty(path.names, path.names.len()).push(name),
                ..path
            },
        )
    } else if directory.len() == 0 || style.separates(directory.last()) || (directory.len() == 2 && (
    native_path::prefix_of(style, directory).0 is Drive)) {
        directory + name
    } else {
        directory + style.separator() + name
    }
}

fn join_dir(style: PathStyle, directory: &str, name: &str) -> (r: String)
    ensures
        r@ == below(style, directory@, name@),
{
    let cs = text::chars(directory);
    let n: usize = cs.len();
    let path = NativePath::parse(style, directory);
    let drive = match path.kind {
        PrefixKind::Drive => n == 2,
        _ => false,
    };
    if let PrefixKind::Verbatim = path.kind {
        let mut names = native_path::without_empty(&path.names);
        let ghost before = sorting::text_views(names@);
        names.push(name.to_owned());
        assert(sorting::text_views(names@) =~= before.push(name@));
        let whole = NativePath { prefix: path.prefix, kind: path.kind, rooted: true, names };
        return whole.text(style);
    }
    let mut out: String = directory.to_owned();
    if n > 0 && !style.parts_at(cs[n - 1]) && !drive {
        out.append(style.main_separator());
    }
    out.append(name);
    out
}

/// The directory that keeps fetched files, never one that users share: below the cache directory of
/// the user where that is absolute, else below their home, else one with their number in its name.
pub open spec fn cache_directory(
    style: PathStyle,
    cache_home: Option<Seq<char>>,
    home: Option<Seq<char>>,
    temporary: Seq<char>,
    uid: Seq<char>,
) -> Seq<char> {
    if cache_home is Some && native_path::is_absolute(
        style,
        native_path::parsed(style, cache_home->0),
    ) {
        below(style, cache_home->0, "hcdf-remote"@)
    } else if home is Some {
        below(style, below(style, home->0, ".cache"@), "hcdf-remote"@)
    } else {
        below(style, temporary, "hcdf-remote-cache-"@ + uid)
    }
}

/// The directory that keeps fetched files. `home` is the home of the user where it is a directory.
pub fn default_cache_dir(
    style: PathStyle,
    cache_home: Option<&str>,
    home: Option<&str>,
    temporary: &str,
    uid: &str,
) -> (r: String)
    ensures
        r@ == cache_directory(
            style,
            match cache_home {
                Some(s) => Some(s@),
                None => None,
            },
            match home {
                Some(s) => Some(s@),
                None => None,
            },
            temporary@,
            uid@,
        ),
{
    if let Some(path) = cache_home {
        if NativePath::parse(style, path).absolute(style) {
            return join_dir(style, path, "hcdf-remote");
        }
    }
    if let Some(path) = home {
        return join_dir(style, join_dir(style, path, ".cache").as_str(), "hcdf-remote");
    }
    let mut name: String = "hcdf-remote-cache-".to_owned();
    name.append(uid);
    join_dir(style, temporary, name.as_str())
}

} // verus!
