use vstd::prelude::*;

verus! {

/// The character that stands for an ill-formed UTF-16 sequence.
pub const REPLACEMENT: char = '\u{FFFD}';

/// The big-endian 16-bit unit that starts at byte `i`.
pub open spec fn unit_at(b: Seq<u8>, i: int) -> int {
    b[i] as int * 256 + b[i + 1] as int
}

pub open spec fn is_high_surrogate(u: int) -> bool {
    0xD800 <= u < 0xDC00
}

pub open spec fn is_low_surrogate(u: int) -> bool {
    0xDC00 <= u < 0xE000
}

/// The scalar value that a high and a low surrogate encode together.
pub open spec fn pair_value(high: int, low: int) -> int {
    0x10000 + (high - 0xD800) * 1024 + (low - 0xDC00)
}

/// UTF-16BE decoding of `b` from byte `i` on. An unpaired surrogate, and an odd
/// byte at the end, each decode to `REPLACEMENT`.
pub open spec fn utf16be_from(b: Seq<u8>, i: int) -> Seq<char>
    decreases b.len() - i,
{
    if i < 0 || i >= b.len() {
        Seq::empty()
    } else if i + 1 == b.len() {
        seq![REPLACEMENT]
    } else {
        let u = unit_at(b, i);
        if is_high_surrogate(u) && i + 3 < b.len() && is_low_surrogate(unit_at(b, i + 2)) {
            seq![(pair_value(u, unit_at(b, i + 2)) as u32) as char] + utf16be_from(b, i + 4)
        } else if is_high_surrogate(u) || is_low_surrogate(u) {
            seq![REPLACEMENT] + utf16be_from(b, i + 2)
        } else {
            seq![(u as u32) as char] + utf16be_from(b, i + 2)
        }
    }
}

/// The characters that the UTF-16BE bytes `b` encode.
pub open spec fn utf16be(b: Seq<u8>) -> Seq<char> {
    utf16be_from(b, 0)
}

pub open spec fn is_scalar_value(u: u32) -> bool {
    u < 0xD800 || (0xE000 <= u && u <= 0x10FFFF)
}

/// Relies on char::from_u32: a Unicode scalar value becomes the char of that value.
#[verifier::external_body]
pub(crate) fn scalar_to_char(u: u32) -> (c: char)
    requires
        is_scalar_value(u),
    ensures
        c == (u as char),
{
    char::from_u32(u).unwrap()
}

/// Relies on String's FromIterator<char>: the string holds the chars in order.
#[verifier::external_body]
pub(crate) fn chars_to_string(v: &Vec<char>) -> (s: String)
    ensures
        s@ == v@,
{
    v.iter().collect()
}

/// Decodes UTF-16BE bytes into characters.
pub fn utf16be_to_chars(b: &[u8]) -> (r: Vec<char>)
    ensures
        r@ == utf16be(b@),
{
    let mut out: Vec<char> = Vec::new();
    let n = b.len();
    let mut i: usize = 0;
    while i < n
        invariant
            n == b@.len(),
            i <= n,
            out@ + utf16be_from(b@, i as int) == utf16be(b@),
        decreases n - i,
    {
        let ghost before = out@;
        if i + 1 == n {
            out.push(REPLACEMENT);
            assert(before + utf16be_from(b@, i as int) =~= out@ + utf16be_from(b@, n as int));
            i = n;
        } else {
            let u: u32 = (b[i] as u32) * 256 + b[i + 1] as u32;
            assert(u as int == unit_at(b@, i as int));
            if 0xD800 <= u && u < 0xDC00 && 3 < n - i {
                let l: u32 = (b[i + 2] as u32) * 256 + b[i + 3] as u32;
                assert(l as int == unit_at(b@, i + 2));
                if 0xDC00 <= l && l < 0xE000 {
                    assert((u - 0xD800) * 1024 <= 0x3FF * 1024) by (nonlinear_arith)
                        requires u - 0xD800 <= 0x3FF;
                    let v: u32 = 0x10000 + (u - 0xD800) * 1024 + (l - 0xDC00);
                    let c = scalar_to_char(v);
                    out.push(c);
                    assert(before + utf16be_from(b@, i as int) =~= out@ + utf16be_from(b@, i + 4));
                    i = i + 4;
                } else {
                    out.push(REPLACEMENT);
                    assert(before + utf16be_from(b@, i as int) =~= out@ + utf16be_from(b@, i + 2));
                    i = i + 2;
                }
            } else if 0xD800 <= u && u < 0xE000 {
                out.push(REPLACEMENT);
                assert(before + utf16be_from(b@, i as int) =~= out@ + utf16be_from(b@, i + 2));
                i = i + 2;
            } else {
                let c = scalar_to_char(u);
                out.push(c);
                assert(before + utf16be_from(b@, i as int) =~= out@ + utf16be_from(b@, i + 2));
                i = i + 2;
            }
        }
    }
    out
}

} // verus!
