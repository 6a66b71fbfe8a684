//! The error of reading and checking documents.
use vstd::prelude::*;

verus! {

/// Why a document cannot be read.
#[derive(Debug, Clone, PartialEq, Eq)]
pub enum Error {
    /// The text is malformed or breaks a rule of the format; the words say how.
    Xml(String),
    /// The text is not the JSON form of a document; the words say why.
    Json(String),
}

impl Error {
    /// Whether this is an `Xml` error with these words.
    pub open spec fn is_xml(&self, words: Seq<char>) -> bool {
        *self matches Error::Xml(message) && message@ == words
    }

    /// Whether this is a `Json` error with these words.
    pub open spec fn is_json(&self, words: Seq<char>) -> bool {
        *self matches Error::Json(message) && message@ == words
    }
}

/// What reading or checking gives.
pub type Outcome<T> = Result<T, Error>;

/// Whether a check gives the failure that is due, or passes where none is.
pub open spec fn checked(r: Outcome<()>, due: Option<Seq<char>>) -> bool {
    match r {
        Ok(_) => due is None,
        Err(e) => due is Some && e.is_xml(due->0),
    }
}

/// Checks the items of a list in order, up to the first that fails.
pub(crate) fn check_list<X, F: Fn(&X, usize) -> Outcome<()>>(
    xs: &Vec<X>,
    check: F,
    Ghost(due): Ghost<spec_fn(int) -> Option<Seq<char>>>,
) -> (r: Outcome<()>)
    requires
        forall|i: usize| i < xs@.len() ==> #[trigger] call_requires(check, (&xs@[i as int], i)),
        forall|i: usize, y: Outcome<()>| #[trigger]
            call_ensures(check, (&xs@[i as int], i), y) && i < xs@.len() ==> checked(
                y,
                due(i as int),
            ),
    ensures
        checked(r, crate::faults::first_failure(xs@.len(), due)),
{
    let mut i: usize = 0;
    while i < xs.len()
        invariant
            i <= xs@.len(),
            forall|i: usize| i < xs@.len() ==> #[trigger] call_requires(check, (&xs@[i as int], i)),
            forall|i: usize, y: Outcome<()>| #[trigger]
                call_ensures(check, (&xs@[i as int], i), y) && i < xs@.len() ==> checked(
                    y,
                    due(i as int),
                ),
            crate::faults::first_failure(i as nat, due) is None,
        decreases xs@.len() - i,
    {
        match check(&xs[i], i) {
            Ok(_) => {},
            Err(e) => {
                proof {
                    crate::faults::first_failure_stays((i + 1) as nat, xs@.len(), due);
                }
                return Err(e);
            },
        }
        i += 1;
    }
    Ok(())
}

} // verus!
