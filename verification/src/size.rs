//! Byte counts in human-readable form, on the binary scale.

use crate::ratio::{round_half_even, rounded};
use crate::text::{decimal, push_decimal, push_two_places, two_places};
use vstd::prelude::*;

verus! {

/// Bytes in a kilobyte.
pub const KILO: u64 = 1024;

/// Bytes in a megabyte.
pub const MEGA: u64 = 1_048_576;

/// Bytes in a gigabyte, the largest unit in use.
pub const GIGA: u64 = 1_073_741_824;

/// What `format_size` writes for a byte count.
///
/// Below one kilobyte the count itself is written, followed by `B`. From
/// there on the count is divided by the largest of kilobyte, megabyte and
/// gigabyte that it reaches, and the quotient is rounded to the nearest
/// hundredth and written with two decimal places and the unit.
pub open spec fn size_text(bytes: u64) -> Seq<char> {
    if bytes < KILO {
        decimal(bytes as nat) + " B"@
    } else if bytes < MEGA {
        two_places(round_half_even(bytes as nat * 100, KILO as nat)) + " KB"@
    } else if bytes < GIGA {
        two_places(round_half_even(bytes as nat * 100, MEGA as nat)) + " MB"@
    } else {
        two_places(round_half_even(bytes as nat * 100, GIGA as nat)) + " GB"@
    }
}

/// Writes a byte count in the largest fitting unit up to gigabytes.
pub fn format_size(size: u64) -> (s: String)
    ensures
        s@ == size_text(size),
{
    let mut s: String = String::new();
    if size < KILO {
        push_decimal(&mut s, size as u128);
        s.append(" B");
        assert(s@ =~= size_text(size));
        return s;
    }
    let scaled: u128 = size as u128 * 100;
    if size < MEGA {
        push_two_places(&mut s, rounded(scaled, KILO as u128));
        s.append(" KB");
    } else if size < GIGA {
        push_two_places(&mut s, rounded(scaled, MEGA as u128));
        s.append(" MB");
    } else {
        push_two_places(&mut s, rounded(scaled, GIGA as u128));
        s.append(" GB");
    }
    assert(s@ =~= size_text(size));
    s
}

} // verus!
