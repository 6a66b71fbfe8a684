//! What an element says: the tree of its names, references, kinds and numbers.
use vstd::prelude::*;
use crate::float::Float64;
use super::connectivity as canonical;

verus! {

/// What an element says.
pub enum Content {
    Missing,
    Text(Seq<char>),
    Number(int),
    Flag(bool),
    Real(Float64),
    Reals(Seq<Float64>),
    List(Seq<Content>),
    Texts(Set<Seq<char>>),
    Purposes(Set<canonical::Purpose>),
    Carriers(Set<canonical::Carrier>),
    CodePoints(Set<u8>),
    Classes(Set<(Seq<char>, Seq<char>)>),
    Purpose(canonical::Purpose),
    Carrier(canonical::Carrier),
    Fidelity(canonical::Fidelity),
    Mounting(canonical::TerminationMounting),
    Topology(canonical::Topology),
    PositionKind(canonical::PositionKind),
    FunctionKind(canonical::FunctionKind),
    PathKind(canonical::PathKind),
    JunctionKind(canonical::JunctionKind),
    AssemblyKind(canonical::AssemblyKind),
    ClockKind(canonical::GptpClockKind),
    Preemption(canonical::TrafficPreemption),
    Enforcement(canonical::MacsecEnforcement),
    EnergyMode(canonical::EeeMode),
}

/// What a text says.
pub open spec fn text_of(text: Seq<char>) -> Content {
    Content::Text(text)
}

/// What a text says.
pub open spec fn text(text: String) -> Content {
    Content::Text(text@)
}

/// What an optional text says.
pub open spec fn optional_text(text: Option<String>) -> Content {
    match text {
        Some(t) => Content::Text(t@),
        None => Content::Missing,
    }
}

/// What an identifier says.
pub open spec fn identifier(id: canonical::QualifiedId) -> Content {
    Content::Text(id.text())
}

/// What an optional identifier says.
pub open spec fn optional_id(id: Option<canonical::QualifiedId>) -> Content {
    match id {
        Some(i) => Content::Text(i.text()),
        None => Content::Missing,
    }
}

/// The texts in a list.
pub open spec fn texts_set(list: Seq<String>) -> Set<Seq<char>> {
    Set::new(|t: Seq<char>| exists|i: int| 0 <= i < list.len() && (#[trigger] list[i])@ == t)
}

/// What a list of texts says whose order and repetitions do not matter.
pub open spec fn texts(list: Seq<String>) -> Content {
    Content::Texts(texts_set(list))
}

/// The texts of the identifiers in a list.
pub open spec fn identifiers_set(list: Seq<canonical::QualifiedId>) -> Set<Seq<char>> {
    Set::new(|t: Seq<char>| exists|i: int| 0 <= i < list.len() && (#[trigger] list[i]).text() == t)
}

/// What a list of identifiers says whose order and repetitions do not matter.
pub open spec fn identifiers(list: Seq<canonical::QualifiedId>) -> Content {
    Content::Texts(identifiers_set(list))
}

/// What an optional number says.
pub open spec fn optional_u8(n: Option<u8>) -> Content {
    match n {
        Some(n) => Content::Number(n as int),
        None => Content::Missing,
    }
}

/// What an optional number says.
pub open spec fn optional_i8(n: Option<i8>) -> Content {
    match n {
        Some(n) => Content::Number(n as int),
        None => Content::Missing,
    }
}

/// What an optional number says.
pub open spec fn optional_u64(n: Option<u64>) -> Content {
    match n {
        Some(n) => Content::Number(n as int),
        None => Content::Missing,
    }
}

/// What the preemption of a traffic class says.
pub open spec fn optional_preemption(kind: Option<canonical::TrafficPreemption>) -> Content {
    match kind {
        Some(k) => Content::Preemption(k),
        None => Content::Missing,
    }
}

/// What the name of a step of an inclusion path says.
pub open spec fn segment_name(name: canonical::IncludeSegmentName) -> Content {
    match name {
        canonical::IncludeSegmentName::Unnamed => Content::Missing,
        canonical::IncludeSegmentName::Named(n) => text(n),
    }
}

} // verus!
