//! The error of a conversion, the paths that it names, and conversion of lists.
use vstd::prelude::*;
use crate::faults;
use crate::text;

verus! {

/// Why an authored document has no canonical connectivity.
#[derive(Debug, Clone, PartialEq, Eq)]
pub struct ConnectivityConversionError {
    code: &'static str,
    path: String,
    reason: String,
}

/// What a conversion gives.
pub type Converted<Y> = Result<Y, ConnectivityConversionError>;

/// What a conversion error says.
pub struct Failure {
    pub code: Seq<char>,
    pub path: Seq<char>,
    pub reason: Seq<char>,
}

impl View for ConnectivityConversionError {
    type V = Failure;

    closed spec fn view(&self) -> Failure {
        Failure { code: self.code@, path: self.path@, reason: self.reason@ }
    }
}

impl ConnectivityConversionError {
    /// An error without a code of its own.
    pub(crate) fn new(path: &str, reason: &str) -> (r: Self)
        ensures
            r@ == failure("E_CONN_CONVERSION"@, path@, reason@),
    {
        Self::coded("E_CONN_CONVERSION", path, reason)
    }

    /// An error with a code.
    pub(crate) fn coded(code: &'static str, path: &str, reason: &str) -> (r: Self)
        ensures
            r@ == failure(code@, path@, reason@),
    {
        ConnectivityConversionError { code, path: path.to_owned(), reason: reason.to_owned() }
    }

    /// The stable code of the error.
    pub fn code(&self) -> (r: &'static str)
        ensures
            r@ == self@.code,
    {
        self.code
    }

    /// The place in the document.
    pub fn path(&self) -> (r: &str)
        ensures
            r@ == self@.path,
    {
        self.path.as_str()
    }

    /// What is wrong there.
    pub fn reason(&self) -> (r: &str)
        ensures
            r@ == self@.reason,
    {
        self.reason.as_str()
    }

    /// The whole error on one line: `[code] path: reason`.
    pub fn message(&self) -> (r: String)
        ensures
            r@ == "["@ + self@.code + "] "@ + self@.path + ": "@ + self@.reason,
    {
        let mut out: String = "[".to_owned();
        out.append(self.code);
        out.append("] ");
        out.append(self.path.as_str());
        out.append(": ");
        out.append(self.reason.as_str());
        out
    }
}

/// A failure with these three texts.
pub open spec fn failure(code: Seq<char>, path: Seq<char>, reason: Seq<char>) -> Failure {
    Failure { code, path, reason }
}

/// The path `path/part`.
pub open spec fn part_path(path: Seq<char>, part: Seq<char>) -> Seq<char> {
    path + "/"@ + part
}

/// The path `path/tag "name"`.
pub open spec fn named_path(path: Seq<char>, tag: Seq<char>, name: Seq<char>) -> Seq<char> {
    path + "/"@ + tag + " "@ + text::debug_chars(name)
}

/// The path `tag "name"`.
pub open spec fn top_path(tag: Seq<char>, name: Seq<char>) -> Seq<char> {
    tag + " "@ + text::debug_chars(name)
}

/// The path `path/tag[index]`.
pub open spec fn indexed_path(path: Seq<char>, tag: Seq<char>, index: int) -> Seq<char> {
    path + "/"@ + tag + "["@ + text::decimal(index as nat) + "]"@
}

/// Writes the path `path/part`.
pub(crate) fn part(path: &str, tag: &str) -> (r: String)
    ensures
        r@ == part_path(path@, tag@),
{
    let mut out: String = path.to_owned();
    out.append("/");
    out.append(tag);
    out
}

/// Writes the path `path/tag "name"`.
pub(crate) fn named(path: &str, tag: &str, name: &str) -> (r: String)
    ensures
        r@ == named_path(path@, tag@, name@),
{
    let mut out: String = path.to_owned();
    out.append("/");
    out.append(tag);
    out.append(" ");
    out.append(text::debug_text(name).as_str());
    out
}

/// Writes the path `tag "name"`.
pub(crate) fn top(tag: &str, name: &str) -> (r: String)
    ensures
        r@ == top_path(tag@, name@),
{
    let mut out: String = tag.to_owned();
    out.append(" ");
    out.append(text::debug_text(name).as_str());
    out
}

/// Writes the path `path/tag[index]`.
pub(crate) fn indexed(path: &str, tag: &str, index: usize) -> (r: String)
    ensures
        r@ == indexed_path(path@, tag@, index as int),
{
    let mut out: String = path.to_owned();
    out.append("/");
    out.append(tag);
    out.append("[");
    out.append(text::decimal_text(index as u64).as_str());
    out.append("]");
    out
}

/// Whether a result is the failure that is due, or, where none is, a value that `maps` accepts.
pub open spec fn outcome<Y>(
    r: Result<Y, ConnectivityConversionError>,
    due: Option<Failure>,
    maps: spec_fn(Y) -> bool,
) -> bool {
    match r {
        Ok(y) => due is None && maps(y),
        Err(e) => due == Some(e@),
    }
}

/// Whether the items of `ys` carry those of `xs`, one for one.
pub open spec fn each_maps<X, Y>(xs: Seq<X>, ys: Seq<Y>, maps: spec_fn(X, Y) -> bool) -> bool {
    &&& ys.len() == xs.len()
    &&& forall|i: int| 0 <= i < xs.len() ==> maps(xs[i], #[trigger] ys[i])
}

/// Converts the items of a list in order, up to the first that fails.
pub(crate) fn convert_list<X, Y, F: Fn(&X, usize) -> Result<Y, ConnectivityConversionError>>(
    xs: &Vec<X>,
    convert: F,
    Ghost(due): Ghost<spec_fn(int) -> Option<Failure>>,
    Ghost(maps): Ghost<spec_fn(X, Y) -> bool>,
) -> (r: Result<Vec<Y>, ConnectivityConversionError>)
    requires
        forall|i: usize| i < xs@.len() ==> #[trigger] call_requires(convert, (&xs@[i as int], i)),
        forall|i: usize, y: Result<Y, ConnectivityConversionError>| #[trigger]
            call_ensures(convert, (&xs@[i as int], i), y) && i < xs@.len() ==> outcome(
                y,
                due(i as int),
                |v: Y| maps(xs@[i as int], v),
            ),
    ensures
        outcome(
            r,
            faults::first_failure(xs@.len(), due),
            |ys: Vec<Y>| each_maps(xs@, ys@, maps),
        ),
{
    let mut out: Vec<Y> = Vec::new();
    let mut i: usize = 0;
    while i < xs.len()
        invariant
            i <= xs@.len(),
            forall|i: usize| i < xs@.len() ==> #[trigger] call_requires(convert, (&xs@[i as int], i)),
            forall|i: usize, y: Result<Y, ConnectivityConversionError>| #[trigger]
                call_ensures(convert, (&xs@[i as int], i), y) && i < xs@.len() ==> outcome(
                    y,
                    due(i as int),
                    |v: Y| maps(xs@[i as int], v),
                ),
            faults::first_failure(i as nat, due) is None,
            out@.len() == i,
            forall|k: int| 0 <= k < i ==> maps(xs@[k], #[trigger] out@[k]),
        decreases xs@.len() - i,
    {
        let y = convert(&xs[i], i);
        match y {
            Ok(v) => {
                out.push(v);
            },
            Err(e) => {
                proof {
                    faults::first_failure_stays((i + 1) as nat, xs@.len(), due);
                }
                return Err(e);
            },
        }
        i += 1;
    }
    Ok(out)
}

} // verus!
