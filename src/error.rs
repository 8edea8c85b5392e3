//! Errors of the paste service.
use vstd::prelude::*;

verus! {

#[derive(Debug, Clone, Copy, PartialEq, Eq, Structural)]
pub enum PasteError {
    /// No live paste under that identifier, or a malformed identifier.
    NotFound,
    /// The deletion key does not match.
    Authorization,
    /// The content exceeds the size ceiling.
    PayloadTooLarge,
    /// The identifier is already taken.
    Conflict,
}

/// The message shown to a user for `e`. A failed removal reads the same whether
/// the identifier is unknown or the key is wrong, so that it does not reveal
/// which identifiers exist.
pub open spec fn message_of(e: PasteError) -> Seq<char> {
    match e {
        PasteError::NotFound => "Invalid Paste ID or Key"@,
        PasteError::Authorization => "Invalid Paste ID or Key"@,
        PasteError::PayloadTooLarge => "Too large!"@,
        PasteError::Conflict => "Paste ID already taken"@,
    }
}

impl PasteError {
    pub fn message(&self) -> (r: &'static str)
        ensures
            r@ == message_of(*self),
    {
        match self {
            PasteError::NotFound => "Invalid Paste ID or Key",
            PasteError::Authorization => "Invalid Paste ID or Key",
            PasteError::PayloadTooLarge => "Too large!",
            PasteError::Conflict => "Paste ID already taken",
        }
    }
}

} // verus!
