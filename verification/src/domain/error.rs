//! Failures of the project domain.

use vstd::prelude::*;

use crate::text::owned;

verus! {

#[derive(Debug, Clone, PartialEq, Eq)]
pub enum DomainError {
    Message(String),
    UnknownId(String),
    DuplicateId(String),
    Cycle,
    Capacity(String),
    InvalidRef(String),
}

/// The text an error displays.
pub open spec fn spec_domain_text(e: DomainError) -> Seq<char> {
    match e {
        DomainError::Message(m) => m@,
        DomainError::UnknownId(m) => "unknown id: "@ + m@,
        DomainError::DuplicateId(m) => "duplicate id: "@ + m@,
        DomainError::Cycle => "mixing graph contains a cycle"@,
        DomainError::Capacity(m) => "capacity exceeded: "@ + m@,
        DomainError::InvalidRef(m) => "invalid reference: "@ + m@,
    }
}

impl DomainError {
    pub fn msg(message: &str) -> (r: Self)
        ensures
            r matches DomainError::Message(m) && m@ == message@,
    {
        DomainError::Message(owned(message))
    }

    /// The text that `Display` writes.
    pub fn to_string(&self) -> (r: String)
        ensures
            r@ == spec_domain_text(*self),
    {
        match self {
            DomainError::Message(m) => m.clone(),
            DomainError::UnknownId(m) => {
                let mut t = owned("unknown id: ");
                t.append(m.as_str());
                t
            },
            DomainError::DuplicateId(m) => {
                let mut t = owned("duplicate id: ");
                t.append(m.as_str());
                t
            },
            DomainError::Cycle => owned("mixing graph contains a cycle"),
            DomainError::Capacity(m) => {
                let mut t = owned("capacity exceeded: ");
                t.append(m.as_str());
                t
            },
            DomainError::InvalidRef(m) => {
                let mut t = owned("invalid reference: ");
                t.append(m.as_str());
                t
            },
        }
    }
}

pub type DomainResult<T> = Result<T, DomainError>;

/// A domain error as a mathematical value: its variant and its text.
pub enum Fault {
    Message(Seq<char>),
    UnknownId(Seq<char>),
    DuplicateId(Seq<char>),
    Cycle,
    Capacity(Seq<char>),
    InvalidRef(Seq<char>),
}

impl View for DomainError {
    type V = Fault;

    open spec fn view(&self) -> Fault {
        match self {
            DomainError::Message(m) => Fault::Message(m@),
            DomainError::UnknownId(m) => Fault::UnknownId(m@),
            DomainError::DuplicateId(m) => Fault::DuplicateId(m@),
            DomainError::Cycle => Fault::Cycle,
            DomainError::Capacity(m) => Fault::Capacity(m@),
            DomainError::InvalidRef(m) => Fault::InvalidRef(m@),
        }
    }
}

/// The outcome of a check: `Ok` without a fault, else that fault.
pub open spec fn reports_fault(r: DomainResult<()>, fault: Option<Fault>) -> bool {
    match fault {
        None => r is Ok,
        Some(f) => r matches Err(e) && e@ == f,
    }
}

} // verus!
