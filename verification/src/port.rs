//! Port resolver: extracts the TCP port from a configured URL of the shape
//! `scheme://host:port[/path...]`. The port is the decimal run between the
//! last colon and the following slash (or the end of the string); anything
//! else is a configuration error, never a silent default.
use crate::bytes::{find_byte_from, find_from, rfind, rfind_byte};
use vstd::prelude::*;

verus! {

/// ASCII ':'
pub const COLON: u8 = 58;

/// ASCII '/'
pub const SLASH: u8 = 47;

/// ASCII '0'
pub const DIGIT_ZERO: u8 = 48;

/// ASCII '9'
pub const DIGIT_NINE: u8 = 57;

pub open spec fn is_digit(b: u8) -> bool {
    DIGIT_ZERO <= b <= DIGIT_NINE
}

pub open spec fn all_digits(s: Seq<u8>) -> bool {
    forall|i: int| 0 <= i < s.len() ==> is_digit(s[i])
}

/// Value of a run of decimal digits, most significant first.
pub open spec fn digits_value(s: Seq<u8>) -> int
    decreases s.len(),
{
    if s.len() == 0 {
        0
    } else {
        digits_value(s.drop_last()) * 10 + (s.last() - DIGIT_ZERO)
    }
}

/// The candidate port field of `s`, given that `c` is the position of the
/// last colon: everything after `c` up to the next slash or the end.
pub open spec fn port_field(s: Seq<u8>, c: int) -> Seq<u8> {
    match find_from(s, SLASH, c + 1) {
        Some(j) => s.subrange(c + 1, j),
        None => s.subrange(c + 1, s.len() as int),
    }
}

/// The port that a configured URL denotes, if any: the decimal value of the
/// port field when that field is a non-empty digit run in 16-bit range.
pub open spec fn port_of(s: Seq<u8>) -> Option<u16> {
    match rfind(s, COLON) {
        None => None,
        Some(c) => {
            let d = port_field(s, c);
            if d.len() > 0 && all_digits(d) && digits_value(d) <= 0xffff {
                Some(digits_value(d) as u16)
            } else {
                None
            }
        },
    }
}

#[derive(Clone, Copy, PartialEq, Eq, Structural, Debug)]
pub enum PortError {
    /// The URL holds no colon at all, so no port field exists.
    MissingColon,
    /// The port field is empty, holds a non-digit, or exceeds 16 bits.
    InvalidPort,
}

/// Extracts the serving port from a configured URL, exactly when the URL
/// denotes one.
pub fn resolve_port(url: &[u8]) -> (r: Result<u16, PortError>)
    ensures
        match r {
            Ok(p) => port_of(url@) == Some(p),
            Err(PortError::MissingColon) => rfind(url@, COLON) is None,
            Err(PortError::InvalidPort) => rfind(url@, COLON) is Some && port_of(url@) is None,
        },
{
    let n = url.len();
    let colon = match rfind_byte(url, COLON) {
        Some(c) => c,
        None => {
            return Err(PortError::MissingColon);
        },
    };
    let start = colon + 1;
    let end = match find_byte_from(url, SLASH, start) {
        Some(j) => j,
        None => n,
    };
    proof {
        assert(url@.subrange(start as int, end as int) == port_field(url@, colon as int));
    }
    if start == end {
        // Empty port field.
        return Err(PortError::InvalidPort);
    }
    let mut value: u32 = 0;
    let mut k = start;
    while k < end
        invariant
            start <= k <= end <= n,
            n == url@.len(),
            all_digits(url@.subrange(start as int, k as int)),
            digits_value(url@.subrange(start as int, k as int)) <= 0xffff ==> value
                == digits_value(url@.subrange(start as int, k as int)),
            digits_value(url@.subrange(start as int, k as int)) > 0xffff ==> value == 0x10000,
            value <= 0x10000,
            url@.subrange(start as int, end as int) == port_field(url@, colon as int),
            rfind(url@, COLON) == Some(colon as int),
        decreases end - k,
    {
        let b = url[k];
        if b < DIGIT_ZERO || b > DIGIT_NINE {
            proof {
                let d = port_field(url@, colon as int);
                assert(d[k - start] == url@[k as int]);
                assert(!all_digits(d));
            }
            return Err(PortError::InvalidPort);
        }
        proof {
            let prefix = url@.subrange(start as int, k as int);
            let next = url@.subrange(start as int, k + 1 as int);
            assert(next.drop_last() =~= prefix);
            assert(next.last() == url@[k as int]);
        }
        if value > 0xffff {
            value = 0x10000;
        } else {
            value = value * 10 + ((b - DIGIT_ZERO) as u32);
            if value > 0xffff {
                value = 0x10000;
            }
        }
        k = k + 1;
    }
    if value > 0xffff {
        // The digit run denotes a number out of 16-bit range.
        return Err(PortError::InvalidPort);
    }
    Ok(value as u16)
}

/// For every well-formed URL — anything, then a colon, then a non-empty
/// in-range digit run, then either nothing or a path that starts with a
/// slash and holds no further colon — the resolver recovers exactly the
/// digit run's value.
pub proof fn lemma_port_of_well_formed(pre: Seq<u8>, digits: Seq<u8>, rest: Seq<u8>)
    requires
        digits.len() > 0,
        all_digits(digits),
        digits_value(digits) <= 0xffff,
        rest.len() == 0 || rest[0] == SLASH,
        forall|i: int| 0 <= i < rest.len() ==> rest[i] != COLON,
    ensures
        port_of(pre + seq![COLON] + digits + rest) == Some(digits_value(digits) as u16),
{
    let s = pre + seq![COLON] + digits + rest;
    let c = pre.len() as int;
    assert(s[c] == COLON);
    assert forall|j: int| c < j < s.len() implies s[j] != COLON by {
        if j < c + 1 + digits.len() {
            assert(s[j] == digits[j - c - 1]);
            assert(is_digit(digits[j - c - 1]));
        } else {
            assert(s[j] == rest[j - c - 1 - digits.len()]);
        }
    }
    crate::bytes::lemma_rfind_some(s, COLON, c);
    let k = c + 1 + digits.len();
    assert forall|j: int| c + 1 <= j < k implies s[j] != SLASH by {
        assert(s[j] == digits[j - c - 1]);
        assert(is_digit(digits[j - c - 1]));
    }
    if rest.len() == 0 {
        assert(k == s.len());
        crate::bytes::lemma_find_from(s, SLASH, c + 1, k);
        assert(port_field(s, c) =~= digits);
    } else {
        assert(s[k] == rest[0]);
        crate::bytes::lemma_find_from(s, SLASH, c + 1, k);
        assert(port_field(s, c) =~= digits);
    }
}

} // verus!
