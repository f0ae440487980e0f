//! The `application/x-www-form-urlencoded` rendering of query parameters:
//! alphanumerics and `*-._` pass through, a space becomes `+`, and every
//! other byte becomes a percent escape with uppercase hexadecimal digits.

use vstd::prelude::*;

verus! {

use vstd::string::StringSliceAdditionalSpecFns;

/// Is the byte written through unchanged: an alphanumeric or one of
/// `*-._`?
pub open spec fn urlencode_unchanged(b: u8) -> bool {
    b == 0x2A || b == 0x2D || b == 0x2E || (0x30 <= b <= 0x39) || (0x41 <= b <= 0x5A) || b == 0x5F
        || (0x61 <= b <= 0x7A)
}

/// The uppercase hexadecimal digit byte for a value below sixteen.
pub open spec fn hex_digit(d: nat) -> u8 {
    if d < 10 {
        (0x30 + d) as u8
    } else {
        (0x41 + (d - 10)) as u8
    }
}

/// The encoding of one byte: kept, a plus for a space, or a percent
/// escape.
pub open spec fn urlencode_byte(b: u8) -> Seq<u8> {
    if urlencode_unchanged(b) {
        seq![b]
    } else if b == 0x20 {
        seq![0x2Bu8]
    } else {
        seq![0x25u8, hex_digit(b as nat / 16), hex_digit(b as nat % 16)]
    }
}

/// The encoding of a byte string.
pub open spec fn spec_urlencode(s: Seq<u8>) -> Seq<u8>
    decreases s.len(),
{
    if s.len() == 0 {
        Seq::empty()
    } else {
        spec_urlencode(s.drop_last()) + urlencode_byte(s.last())
    }
}

/// ASCII characters read as their bytes.
pub open spec fn ascii_bytes(s: Seq<char>) -> Seq<u8> {
    Seq::new(s.len(), |i: int| s[i] as u8)
}

/// The decimal digits of a non-negative integer, as bytes.
pub open spec fn dec_bytes(n: nat) -> Seq<u8>
    decreases n,
{
    if n < 10 {
        seq![(0x30 + n) as u8]
    } else {
        dec_bytes(n / 10) + seq![(0x30 + n % 10) as u8]
    }
}

/// The uppercase hexadecimal digit for a value below sixteen.
fn hex_digit_byte(d: u8) -> (r: u8)
    requires
        d < 16,
    ensures
        r == hex_digit(d as nat),
{
    if d < 10 {
        0x30 + d
    } else {
        0x41 + (d - 10)
    }
}

/// Append the encoding of one byte.
fn push_encoded_byte(out: &mut Vec<u8>, b: u8)
    ensures
        final(out)@ == old(out)@ + urlencode_byte(b),
{
    if b == 0x2A || b == 0x2D || b == 0x2E || (0x30 <= b && b <= 0x39) || (0x41 <= b && b <= 0x5A)
        || b == 0x5F || (0x61 <= b && b <= 0x7A) {
        out.push(b);
        proof {
            assert(final(out)@ =~= old(out)@ + urlencode_byte(b));
        }
    } else if b == 0x20 {
        out.push(0x2B);
        proof {
            assert(final(out)@ =~= old(out)@ + urlencode_byte(b));
        }
    } else {
        out.push(0x25);
        out.push(hex_digit_byte(b / 16));
        out.push(hex_digit_byte(b % 16));
        proof {
            assert(final(out)@ =~= old(out)@ + urlencode_byte(b));
        }
    }
}

/// Append the encoding of a byte string.
pub fn urlencode_into(out: &mut Vec<u8>, s: &[u8])
    ensures
        final(out)@ == old(out)@ + spec_urlencode(s@),
{
    let n: usize = s.len();
    let mut i: usize = 0;
    while i < n
        invariant
            0 <= i <= n,
            n == s@.len(),
            out@ == old(out)@ + spec_urlencode(s@.take(i as int)),
        decreases n - i,
    {
        proof {
            assert(s@.take(i + 1).drop_last() =~= s@.take(i as int));
            assert(s@.take(i + 1).last() == s@[i as int]);
        }
        push_encoded_byte(out, s[i]);
        proof {
            assert(old(out)@ + spec_urlencode(s@.take(i as int)) + urlencode_byte(s@[i as int])
                =~= old(out)@ + spec_urlencode(s@.take(i + 1)));
        }
        i += 1;
    }
    proof {
        assert(s@.take(n as int) =~= s@);
    }
}

/// Append a plain ASCII name, unencoded.
pub fn append_ascii(out: &mut Vec<u8>, s: &str)
    requires
        s.is_ascii(),
    ensures
        final(out)@ == old(out)@ + ascii_bytes(s@),
{
    proof {
        broadcast use vstd::string::is_ascii_spec_bytes;

        assert(s.spec_bytes() =~= ascii_bytes(s@));
    }
    let b = s.as_bytes();
    out.extend_from_slice(b);
}

/// Append the decimal digits of `n`.
pub fn append_usize(out: &mut Vec<u8>, n: usize)
    ensures
        final(out)@ == old(out)@ + dec_bytes(n as nat),
    decreases n,
{
    if n < 10 {
        out.push(0x30 + n as u8);
        proof {
            assert(final(out)@ =~= old(out)@ + dec_bytes(n as nat));
        }
    } else {
        append_usize(out, n / 10);
        out.push(0x30 + (n % 10) as u8);
        proof {
            assert(old(out)@ + dec_bytes(n as nat / 10) + seq![(0x30 + n as nat % 10) as u8]
                =~= old(out)@ + dec_bytes(n as nat));
        }
    }
}

} // verus!
