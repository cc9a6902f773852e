//! Dealing with the byte source: how much to ask of it, and what to make of
//! the way a read ended.
//!
//! The decoder itself never reads. Whoever owns the serial line asks
//! [`Decoder::read_len`](crate::sync::Decoder::read_len) how many bytes are
//! due, reads them with a bounded wait, and lets [`react`] decide what
//! follows from the outcome.

use crate::sync::SyncState;
use vstd::prelude::*;

verus! {

/// How a read on the byte source ended.
#[derive(Clone, Copy, Debug, PartialEq, Eq, Structural)]
pub enum ReadOutcome {
    /// The source reported success.
    Success,
    /// Nothing came in within the bounded wait.
    TimedOut,
    /// The source reported any other failure.
    IoError,
}

/// What follows from a read.
#[derive(Clone, Copy, Debug, PartialEq, Eq, Structural)]
pub enum Reaction {
    /// Hand the read buffer, over the length that was asked for, to the
    /// decoder.
    Feed,
    /// Nothing happened; read again.
    Retry,
    /// Report the failure, then read again. The decoder stays as it is.
    Report,
    /// The stream broke inside a frame body: give up.
    Abort,
}

/// Where the read that is due inside a frame body ends, given how many body
/// bytes are already there. A body is read in six pieces: the speed, the
/// four data blocks, and the checksum.
pub open spec fn chunk_end(pending: int) -> int {
    if pending < 2 {
        2
    } else if pending < 6 {
        6
    } else if pending < 10 {
        10
    } else if pending < 14 {
        14
    } else if pending < 18 {
        18
    } else {
        20
    }
}

/// What follows from a read that was made in `state`, asked for `requested`
/// bytes, and ended in `outcome` with `received` bytes.
///
/// Between frames a wait that runs out is no event at all, a failure is
/// reported and survived, and a read that reports success is taken at its
/// word, whatever count it gives: the buffer goes to the decoder as it
/// stands. Inside a frame body, anything but the full number of bytes breaks
/// the stream, and there is no second try.
pub open spec fn reaction(
    state: SyncState,
    outcome: ReadOutcome,
    requested: int,
    received: int,
) -> Reaction {
    if state == SyncState::ReadPacket {
        if outcome == ReadOutcome::Success && received >= requested {
            Reaction::Feed
        } else {
            Reaction::Abort
        }
    } else {
        match outcome {
            ReadOutcome::Success => Reaction::Feed,
            ReadOutcome::TimedOut => Reaction::Retry,
            ReadOutcome::IoError => Reaction::Report,
        }
    }
}

/// Decides what follows from a read that was made in `state`, asked for
/// `requested` bytes, and ended in `outcome` with `received` bytes.
pub fn react(state: SyncState, outcome: ReadOutcome, requested: usize, received: usize) -> (r:
    Reaction)
    ensures
        r == reaction(state, outcome, requested as int, received as int),
{
    match state {
        SyncState::ReadPacket => {
            match outcome {
                ReadOutcome::Success => if received >= requested {
                    Reaction::Feed
                } else {
                    Reaction::Abort
                },
                _ => Reaction::Abort,
            }
        },
        _ => {
            match outcome {
                ReadOutcome::Success => Reaction::Feed,
                ReadOutcome::TimedOut => Reaction::Retry,
                ReadOutcome::IoError => Reaction::Report,
            }
        },
    }
}

} // verus!
