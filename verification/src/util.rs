//! Byte-level helpers: big-endian fields, NUL-padded fixed-width string
//! fields, NUL trimming, and the two trusted shims over `str`.

use vstd::prelude::*;
use vstd::utf8::{decode_utf8, valid_utf8};

verus! {

/// The two big-endian bytes of a 16-bit value.
pub open spec fn be16(x: u16) -> Seq<u8> {
    seq![(x / 0x100) as u8, (x % 0x100) as u8]
}

/// The four big-endian bytes of a 32-bit value.
pub open spec fn be32(x: u32) -> Seq<u8> {
    seq![
        (x / 0x1000000) as u8,
        ((x / 0x10000) % 0x100) as u8,
        ((x / 0x100) % 0x100) as u8,
        (x % 0x100) as u8,
    ]
}

/// The 16-bit value read from two big-endian bytes.
pub open spec fn u16_of_be(b0: u8, b1: u8) -> u16 {
    (b0 as u16 * 0x100 + b1 as u16) as u16
}

/// The 32-bit value read from four big-endian bytes.
pub open spec fn u32_of_be(b0: u8, b1: u8, b2: u8, b3: u8) -> u32 {
    (b0 as u32 * 0x1000000 + b1 as u32 * 0x10000 + b2 as u32 * 0x100 + b3 as u32) as u32
}

/// Law: writing a 16-bit value big-endian and reading it back is the
/// identity.
pub proof fn lemma_be16_round_trip(x: u16)
    ensures
        u16_of_be(be16(x)[0], be16(x)[1]) == x,
{
}

/// Law: writing a 32-bit value big-endian and reading it back is the
/// identity.
pub proof fn lemma_be32_round_trip(x: u32)
    ensures
        u32_of_be(be32(x)[0], be32(x)[1], be32(x)[2], be32(x)[3]) == x,
{
}

/// `s` truncated or NUL-padded to exactly `n` bytes: the layout of the
/// protocol's fixed-width path and bus-id fields.
pub open spec fn pad_field(s: Seq<u8>, n: nat) -> Seq<u8> {
    Seq::new(n, |i: int| if i < s.len() { s[i] } else { 0 })
}

/// Append the 16-bit value, big-endian.
pub fn push_be16(out: &mut Vec<u8>, x: u16)
    ensures
        final(out)@ == old(out)@ + be16(x),
{
    out.push((x / 0x100) as u8);
    out.push((x % 0x100) as u8);
    proof {
        assert(final(out)@ =~= old(out)@ + be16(x));
    }
}

/// Append the 32-bit value, big-endian.
pub fn push_be32(out: &mut Vec<u8>, x: u32)
    ensures
        final(out)@ == old(out)@ + be32(x),
{
    out.push((x / 0x1000000) as u8);
    out.push(((x / 0x10000) % 0x100) as u8);
    out.push(((x / 0x100) % 0x100) as u8);
    out.push((x % 0x100) as u8);
    proof {
        assert(final(out)@ =~= old(out)@ + be32(x));
    }
}

/// Read a 32-bit big-endian value at offset `at`.
pub fn read_be32(b: &[u8], at: usize) -> (x: u32)
    requires
        at + 4 <= b@.len(),
    ensures
        x == u32_of_be(b@[at as int], b@[at as int + 1], b@[at as int + 2], b@[at as int + 3]),
{
    b[at] as u32 * 0x1000000 + b[at + 1] as u32 * 0x10000 + b[at + 2] as u32 * 0x100 + b[at
        + 3] as u32
}

/// Append the first `n` bytes of `s`, NUL-padded to exactly `n` when
/// `s` is shorter.
pub fn push_padded_bytes(out: &mut Vec<u8>, s: &[u8], n: usize)
    ensures
        final(out)@ == old(out)@ + pad_field(s@, n as nat),
{
    let mut i: usize = 0;
    while i < n
        invariant
            i <= n,
            out@ == old(out)@ + pad_field(s@, n as nat).take(i as int),
        decreases n - i,
    {
        let ghost prev = out@;
        if i < s.len() {
            out.push(s[i]);
        } else {
            out.push(0);
        }
        proof {
            assert(out@ =~= old(out)@ + pad_field(s@, n as nat).take(i + 1));
        }
        i = i + 1;
    }
    proof {
        assert(pad_field(s@, n as nat).take(n as int) =~= pad_field(s@, n as nat));
    }
}

/// `n` zero bytes: the layout of the protocol's padding fields.
pub open spec fn zeros(n: nat) -> Seq<u8> {
    Seq::new(n, |i: int| 0u8)
}

/// Append `n` zero bytes.
pub fn push_zeros(out: &mut Vec<u8>, n: usize)
    ensures
        final(out)@ == old(out)@ + zeros(n as nat),
{
    let mut i: usize = 0;
    while i < n
        invariant
            i <= n,
            out@ == old(out)@ + zeros(i as nat),
        decreases n - i,
    {
        out.push(0);
        proof {
            assert(out@ =~= old(out)@ + zeros(i as nat + 1));
        }
        i = i + 1;
    }
}

/// Index of the first NUL byte, or the length when none occurs.
pub open spec fn nul_pos(s: Seq<u8>) -> int
    decreases s.len(),
{
    if s.len() == 0 {
        0
    } else if s[0] == 0 {
        0
    } else {
        1 + nul_pos(s.skip(1))
    }
}

pub proof fn lemma_nul_pos_bounds(s: Seq<u8>)
    ensures
        0 <= nul_pos(s) <= s.len(),
        forall|j: int| 0 <= j < nul_pos(s) ==> s[j] != 0,
        nul_pos(s) < s.len() ==> s[nul_pos(s)] == 0,
    decreases s.len(),
{
    if s.len() == 0 || s[0] == 0 {
    } else {
        lemma_nul_pos_bounds(s.skip(1));
        assert forall|j: int| 0 <= j < nul_pos(s) implies s[j] != 0 by {
            if j > 0 {
                assert(s[j] == s.skip(1)[j - 1]);
            }
        }
    }
}

/// A scan that stopped at the first NUL (or at the end) found `nul_pos`.
proof fn lemma_nul_pos_of_scan(s: Seq<u8>, i: int)
    requires
        0 <= i <= s.len(),
        forall|j: int| 0 <= j < i ==> s[j] != 0,
        i < s.len() ==> s[i] == 0,
    ensures
        nul_pos(s) == i,
    decreases s.len(),
{
    if s.len() == 0 {
    } else if s[0] == 0 {
        assert(i == 0);
    } else {
        assert(forall|j: int| 0 <= j < i - 1 ==> s.skip(1)[j] == s[j + 1] && s[j + 1] != 0);
        lemma_nul_pos_of_scan(s.skip(1), i - 1);
    }
}

/// The prefix of `b` before its first NUL byte: how the 32-byte bus-id
/// field of OP_REQ_IMPORT is trimmed before decoding.
pub fn trim_at_nul(b: &[u8]) -> (r: &[u8])
    ensures
        r@ == b@.take(nul_pos(b@)),
{
    let n = b.len();
    let mut i: usize = 0;
    while i < n
        invariant
            i <= n,
            n == b@.len(),
            forall|j: int| 0 <= j < i ==> b@[j] != 0,
        decreases n - i,
    {
        if b[i] == 0 {
            proof {
                lemma_nul_pos_of_scan(b@, i as int);
            }
            return &b[0..i];
        }
        i = i + 1;
    }
    proof {
        lemma_nul_pos_of_scan(b@, n as int);
        assert(b@.take(n as int) =~= b@);
    }
    b
}

/// The character of one decimal digit.
pub open spec fn dec_digit_char(d: int) -> char {
    if d == 0 {
        '0'
    } else if d == 1 {
        '1'
    } else if d == 2 {
        '2'
    } else if d == 3 {
        '3'
    } else if d == 4 {
        '4'
    } else if d == 5 {
        '5'
    } else if d == 6 {
        '6'
    } else if d == 7 {
        '7'
    } else if d == 8 {
        '8'
    } else {
        '9'
    }
}

/// The decimal representation of a non-negative number, most
/// significant digit first, without leading zeros (a lone zero for 0).
pub open spec fn dec_digits(n: int) -> Seq<char>
    decreases n,
{
    if n < 10 {
        seq![dec_digit_char(n)]
    } else {
        dec_digits(n / 10).push(dec_digit_char(n % 10))
    }
}

/// The string slice of one decimal digit.
pub fn digit_str(d: u32) -> (s: &'static str)
    requires
        d < 10,
    ensures
        s@ == seq![dec_digit_char(d as int)],
{
    proof {
        reveal_strlit("0");
        reveal_strlit("1");
        reveal_strlit("2");
        reveal_strlit("3");
        reveal_strlit("4");
        reveal_strlit("5");
        reveal_strlit("6");
        reveal_strlit("7");
        reveal_strlit("8");
        reveal_strlit("9");
    }
    let s: &'static str = match d {
        0 => "0",
        1 => "1",
        2 => "2",
        3 => "3",
        4 => "4",
        5 => "5",
        6 => "6",
        7 => "7",
        8 => "8",
        _ => "9",
    };
    proof {
        assert(s@ =~= seq![dec_digit_char(d as int)]);
    }
    s
}

/// The decimal string of a 32-bit number.
pub fn u32_to_dec(n: u32) -> (s: String)
    ensures
        s@ == dec_digits(n as int),
    decreases n,
{
    if n < 10 {
        digit_str(n).to_owned()
    } else {
        let front = u32_to_dec(n / 10);
        let s = front.concat(digit_str(n % 10));
        proof {
            assert(s@ =~= dec_digits(n as int));
        }
        s
    }
}

/// Relies on `<str as PartialEq>::eq`: two string slices are equal
/// exactly when their character sequences are.
#[verifier::external_body]
pub fn str_eq(a: &str, b: &str) -> (r: bool)
    ensures
        r == (a@ == b@),
{
    a == b
}

/// Relies on `core::str::from_utf8`: it returns `Ok` exactly on valid
/// UTF-8 input, and the returned slice is that input decoded.
#[verifier::external_body]
pub fn parse_utf8(v: &[u8]) -> (r: Option<&str>)
    ensures
        r is Some <==> valid_utf8(v@),
        r is Some ==> r.unwrap()@ == decode_utf8(v@),
{
    core::str::from_utf8(v).ok()
}

} // verus!
