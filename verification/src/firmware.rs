//! What the firmware under test does with the bytes on its SPI, apart from
//! the hardware that it runs on.

use vstd::prelude::*;

verus! {

/// The byte that the firmware sends before it has received anything.
pub const GREETING: u8 = 0x00;

/// The letter `a` in ASCII.
pub const LOWER_A: u8 = 0x61;

/// The letter `z` in ASCII.
pub const LOWER_Z: u8 = 0x7a;

/// The letter `A` in ASCII.
pub const UPPER_A: u8 = 0x41;

/// The letter `Z` in ASCII.
pub const UPPER_Z: u8 = 0x5a;

/// A letter moved thirteen places on in its alphabet, round the end; any
/// other byte as it is.
pub open spec fn rot13_of(c: u8) -> int {
    if LOWER_A <= c <= LOWER_Z {
        LOWER_A + (c - LOWER_A + 13) % 26
    } else if UPPER_A <= c <= UPPER_Z {
        UPPER_A + (c - UPPER_A + 13) % 26
    } else {
        c as int
    }
}

/// Encodes one byte.
pub fn rot13(c: u8) -> (encoded: u8)
    ensures
        encoded == rot13_of(c),
{
    if c >= LOWER_A && c <= LOWER_Z {
        LOWER_A + (c - LOWER_A + 13) % 26
    } else if c >= UPPER_A && c <= UPPER_Z {
        UPPER_A + (c - UPPER_A + 13) % 26
    } else {
        c
    }
}

/// Encoding twice gives the byte back.
pub proof fn lemma_rot13_twice(c: u8)
    ensures
        0 <= rot13_of(c) <= u8::MAX,
        rot13_of(rot13_of(c) as u8) == c,
{
}

/// What the firmware sends next, given what its last attempt to read
/// brought: the encoding of a byte that arrived, and nothing while none has.
pub fn reply(read: Option<u8>) -> (send: Option<u8>)
    ensures
        send == match read {
            Some(c) => Some(rot13_of(c) as u8),
            None => None,
        },
{
    match read {
        Some(c) => {
            let c = rot13(c);
            Some(c)
        },
        None => None,
    }
}

} // verus!
