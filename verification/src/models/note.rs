//! Free-text notes.

use crate::calendar::Date;
use crate::domain::{DomainError, DomainErrorView};
use vstd::prelude::*;

verus! {

/// Longest accepted note body, in bytes of its UTF-8 form.
pub const MAX_NOTE_BYTES: usize = 1000;

/// A note attached to a date.
#[derive(Debug)]
pub struct NoteInput {
    pub date: Date,
    pub body: Option<String>,
}

/// Whether a note body is too long: present, and over 1000 bytes in UTF-8.
pub open spec fn note_too_long(body: Option<String>) -> bool {
    match body {
        Some(b) => vstd::utf8::encode_utf8(b@).len() > MAX_NOTE_BYTES,
        None => false,
    }
}

impl NoteInput {
    /// Checks the length of the body: a body of more than 1000 bytes is
    /// rejected with `InvalidInput("body too long")`.
    pub fn validate(&self) -> (r: Result<(), DomainError>)
        ensures
            !note_too_long(self.body) ==> r.is_ok(),
            note_too_long(self.body) ==> r.is_err() && r.unwrap_err()@
                == DomainErrorView::InvalidInput("body too long"@),
    {
        match &self.body {
            Some(b) => {
                if b.as_str().as_bytes().len() > MAX_NOTE_BYTES {
                    Err(DomainError::invalid_input("body too long"))
                } else {
                    Ok(())
                }
            },
            None => Ok(()),
        }
    }
}

} // verus!
