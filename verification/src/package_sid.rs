//! The security identity of a packaged application, as Windows words it.

use vstd::prelude::*;

use crate::{error, text, ClientError};

verus! {

/// The longest identity that is read, in UTF-16 units.
pub const MAX_SID_UNITS: usize = 256;

pub open spec fn upper_hex_char(d: nat) -> char {
    if d < 10 {
        text::digit_char(d)
    } else if d == 10 {
        'A'
    } else if d == 11 {
        'B'
    } else if d == 12 {
        'C'
    } else if d == 13 {
        'D'
    } else if d == 14 {
        'E'
    } else {
        'F'
    }
}

/// The `width` low-order digits of `n` in uppercase hexadecimal notation.
pub open spec fn upper_hex(n: nat, width: nat) -> Seq<char>
    decreases width,
{
    if width == 0 {
        Seq::<char>::empty()
    } else {
        upper_hex(n / 16, (width - 1) as nat).push(upper_hex_char(n % 16))
    }
}

fn upper_digit(d: u32) -> (c: char)
    requires
        d < 16,
    ensures
        c == upper_hex_char(d as nat),
{
    match d {
        10 => 'A',
        11 => 'B',
        12 => 'C',
        13 => 'D',
        14 => 'E',
        15 => 'F',
        _ => text::digit(d as u8),
    }
}

fn push_upper_hex(message: &mut String, n: u32, width: usize)
    ensures
        final(message)@ == old(message)@ + upper_hex(n as nat, width as nat),
    decreases width,
{
    if width > 0 {
        push_upper_hex(message, n / 16, width - 1);
        message.push(upper_digit(n % 16));
    }
    assert(message@ =~= old(message)@ + upper_hex(n as nat, width as nat));
}

/// Windows could not derive the identity and reported `hresult`.
pub fn derivation_failure(hresult: u32) -> (failure: ClientError)
    ensures
        error::is_platform(
            failure,
            "failed to derive the package SID (HRESULT 0x"@ + upper_hex(hresult as nat, 8) + ")"@,
        ),
{
    let mut message = text::owned("failed to derive the package SID (HRESULT 0x");
    push_upper_hex(&mut message, hresult, 8);
    message.append(")");
    ClientError::Platform(message)
}

/// Windows could not write the identity out.
pub fn formatting_failure(detail: &str) -> (failure: ClientError)
    ensures
        error::is_platform(failure, "failed to format the package SID: "@ + detail@),
{
    ClientError::platform_with("failed to format the package SID: ", detail)
}

/// Whether the text in `units` ends at `at`.
pub open spec fn ends_at(units: Seq<u16>, at: int) -> bool {
    0 <= at < units.len() && at < MAX_SID_UNITS && units[at] == 0 && forall|i: int|
        0 <= i < at ==> units[i] != 0
}

/// How long the identity in `units` is, which a zero ends.
///
/// # Errors
///
/// Returns an error when no zero comes soon enough.
pub fn sid_length(units: &[u16]) -> (length: Result<usize, ClientError>)
    ensures
        match length {
            Ok(at) => ends_at(units@, at as int),
            Err(failure) => (forall|at: int| !ends_at(units@, at)) && error::is_platform(
                failure,
                "Windows returned an invalid package SID string"@,
            ),
        },
{
    let mut i: usize = 0;
    while i < units.len() && i < MAX_SID_UNITS
        invariant
            i <= units.len(),
            i <= MAX_SID_UNITS,
            forall|j: int| 0 <= j < i ==> units@[j] != 0,
        decreases units.len() - i,
    {
        if units[i] == 0 {
            return Ok(i);
        }
        i = i + 1;
    }
    Err(ClientError::platform("Windows returned an invalid package SID string"))
}

/// A number is written with one digit for every four bits, the highest first
/// and letters as capitals.
pub proof fn upper_hex_digits_come_highest_first(n: nat, d: nat, width: nat)
    requires
        d < 16,
    ensures
        upper_hex(16 * n + d, width + 1) == upper_hex(n, width).push("0123456789ABCDEF"@[d as int]),
        upper_hex(n, width).len() == width,
    decreases width,
{
    reveal_strlit("0123456789ABCDEF");
    assert((16 * n + d) / 16 == n);
    assert((16 * n + d) % 16 == d);
    if width > 0 {
        upper_hex_digits_come_highest_first(n / 16, n % 16, (width - 1) as nat);
    }
}

/// An identity ends at its first zero, which has to come within 256 units.
pub proof fn identities_end_at_their_first_zero(units: Seq<u16>, at: int, other: int)
    requires
        0 <= at < units.len(),
        units[at] == 0,
        forall|i: int| 0 <= i < at ==> units[i] != 0,
    ensures
        ends_at(units, at) <==> at < 256,
        other != at ==> !ends_at(units, other),
{
    if ends_at(units, other) {
        assert(units[other] == 0);
        assert(at < other ==> units[at] != 0);
    }
}

} // verus!
