//! The canonical session store: the current document and its revision.

use vstd::prelude::*;

use crate::error::{ControlError, ControlErrorView, ErrorKind};
use crate::session::model::{Document, DocumentView};
use crate::session::validate::{
    issue_message, validate, validate_for_apply, validation_issue,
};
use crate::text::{decimal, owned, spec_decimal};

verus! {

pub struct CanonicalSessionStore {
    document: Option<Document>,
    revision: u64,
}

/// Mathematical content of a store.
pub struct StoreView {
    pub document: Option<DocumentView>,
    pub revision: u64,
}

pub open spec fn option_doc_view(d: Option<Document>) -> Option<DocumentView> {
    match d {
        Some(x) => Some(x@),
        None => None,
    }
}

impl View for CanonicalSessionStore {
    type V = StoreView;

    closed spec fn view(&self) -> StoreView {
        StoreView { document: option_doc_view(self.document), revision: self.revision }
    }
}

/// Message of a revision conflict.
pub open spec fn conflict_message(expected: u64, current: u64) -> Seq<char> {
    "session revision "@ + spec_decimal(expected as nat) + " does not match "@ + spec_decimal(
        current as nat,
    )
}

/// Whether a replace that expects `expected` conflicts with the store.
pub open spec fn revision_conflicts(s: StoreView, expected: Option<u64>) -> bool {
    expected matches Some(e) && s.document is Some && e != s.revision
}

/// The store after an accepted replace with `document`.
pub open spec fn after_replace(s: StoreView, document: DocumentView) -> StoreView {
    StoreView { document: Some(document), revision: next_revision(s.revision) }
}

/// The store after a rollback to `previous` at `revision`.
pub open spec fn after_rollback(previous: Option<DocumentView>, revision: u64) -> StoreView {
    StoreView { document: previous, revision }
}

/// `u64::saturating_add(r, 1)`.
pub open spec fn next_revision(r: u64) -> u64 {
    if r == u64::MAX {
        u64::MAX
    } else {
        (r + 1) as u64
    }
}

impl Default for CanonicalSessionStore {
    fn default() -> (r: Self)
        ensures
            r@ == (StoreView { document: None, revision: 0 }),
    {
        CanonicalSessionStore { document: None, revision: 0 }
    }
}

impl Clone for CanonicalSessionStore {
    fn clone(&self) -> (r: Self)
        ensures
            r@ == self@,
    {
        CanonicalSessionStore { document: self.document.clone(), revision: self.revision }
    }
}

impl CanonicalSessionStore {
    pub fn revision(&self) -> (r: u64)
        ensures
            r == self@.revision,
    {
        self.revision
    }

    pub fn document(&self) -> (r: Option<&Document>)
        ensures
            match r {
                Some(d) => self@.document == Some(d@),
                None => self@.document is None,
            },
    {
        self.document.as_ref()
    }

    pub fn document_cloned(&self) -> (r: Option<Document>)
        ensures
            option_doc_view(r) == self@.document,
    {
        self.document.clone()
    }

    /// Replaces the document when `expected_revision` (if given, and once a
    /// document is stored) matches and the new document validates. Returns
    /// the stored document, the new revision and the previous document.
    pub fn replace(&mut self, document: Document, expected_revision: Option<u64>, for_apply: bool) -> (r:
        Result<(Document, u64, Option<Document>), ControlError>)
        ensures
            match r {
                Ok((d, rev, previous)) => {
                    &&& !revision_conflicts(old(self)@, expected_revision)
                    &&& validation_issue(document@) is None
                    &&& d@ == document@
                    &&& rev == next_revision(old(self)@.revision)
                    &&& option_doc_view(previous) == old(self)@.document
                    &&& final(self)@ == after_replace(old(self)@, document@)
                },
                Err(e) => {
                    &&& final(self)@ == old(self)@
                    &&& if revision_conflicts(old(self)@, expected_revision) {
                        e@ == (ControlErrorView {
                            kind: ErrorKind::Conflict,
                            message: conflict_message(
                                expected_revision->0,
                                old(self)@.revision,
                            ),
                        })
                    } else {
                        validation_issue(document@) matches Some(i) && e@ == (ControlErrorView {
                            kind: ErrorKind::InvalidArgument,
                            message: issue_message(i),
                        })
                    }
                },
            },
    {
        if let Some(expected) = expected_revision {
            if self.document.is_some() && expected != self.revision {
                let mut m = owned("session revision ");
                let e = decimal(expected);
                m.append(e.as_str());
                m.append(" does not match ");
                let c = decimal(self.revision);
                m.append(c.as_str());
                return Err(ControlError::Conflict { message: m });
            }
        }
        let checked = if for_apply {
            validate_for_apply(&document)
        } else {
            validate(&document)
        };
        match checked {
            Err(error) => {
                return Err(ControlError::InvalidArgument { message: error.message });
            },
            Ok(()) => {},
        }
        let previous = self.document.clone();
        self.document = Some(document.clone());
        self.revision = self.revision.saturating_add(1);
        Ok((document, self.revision, previous))
    }

    /// Restores a document and revision that an earlier `replace` displaced.
    pub fn rollback(&mut self, previous: Option<Document>, revision: u64)
        ensures
            final(self)@ == after_rollback(option_doc_view(previous), revision),
    {
        self.document = previous;
        self.revision = revision;
    }
}

/// Rolling back to the previous document and revision that an accepted
/// replace returned gives the store that the replace started from.
pub proof fn lemma_replace_then_rollback(s: StoreView, document: DocumentView)
    ensures
        after_rollback(s.document, s.revision) == s,
        after_replace(s, document).document == Some(document),
{
}

/// An accepted replace moves the revision forward by one, unless it has
/// reached the largest value, where it stays.
pub proof fn lemma_revision_advances(s: StoreView, document: DocumentView)
    ensures
        s.revision < u64::MAX ==> after_replace(s, document).revision == s.revision + 1,
        after_replace(s, document).revision >= s.revision,
{
}

} // verus!
