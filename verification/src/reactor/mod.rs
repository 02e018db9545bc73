//! Reactor: who waits for which source, and whom its events wake.

pub mod fallback;
pub mod laws;
pub mod linux;
pub mod slab;
pub mod windows;

use vstd::prelude::*;

verus! {

/// Names one registered source. Zero stands for the reactor's own wake-up source.
#[derive(Clone, Copy, Debug, PartialEq, Eq, Structural)]
pub struct Token(pub u64);

/// What a waiting task waits for.
#[derive(Clone, Copy, Debug, PartialEq, Eq, Structural)]
pub enum Direction {
    Read,
    Write,
}

/// What a source is watched for.
#[derive(Clone, Copy, Debug, PartialEq, Eq, Structural)]
pub struct Interest {
    pub read: bool,
    pub write: bool,
}

impl Interest {
    /// Readiness to read.
    pub fn read() -> (interest: Self)
        ensures
            interest == (Interest { read: true, write: false }),
    {
        Interest { read: true, write: false }
    }

    /// Readiness to read and to write.
    pub fn read_write() -> (interest: Self)
        ensures
            interest == (Interest { read: true, write: true }),
    {
        Interest { read: true, write: true }
    }
}

/// The slot that `token` names, or `None` for the wake-up source and for numbers that no slot can
/// have.
pub open spec fn slot_of(token: Token) -> Option<usize> {
    if token.0 == 0 || token.0 - 1 > usize::MAX {
        None
    } else {
        Some((token.0 - 1) as usize)
    }
}

/// The slot that `token` names.
pub fn slot_key(token: Token) -> (key: Option<usize>)
    ensures
        key == slot_of(token),
{
    if token.0 == 0 {
        return None;
    }
    let raw = token.0 - 1;
    if raw > usize::MAX as u64 {
        None
    } else {
        Some(raw as usize)
    }
}

/// The token of the slot at `key`.
pub fn slot_token(key: usize) -> (token: Token)
    requires
        key < u64::MAX,
    ensures
        token.0 == key + 1,
{
    Token(key as u64 + 1)
}

/// Every slot has a token of its own, which is not that of the wake-up source.
pub proof fn law_tokens_name_slots(key: usize, token: Token)
    requires
        token.0 == key + 1,
    ensures
        slot_of(token) == Some(key),
        token != Token(0),
{
}

} // verus!
