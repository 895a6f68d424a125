//! Text as the parsers see it: bytes of UTF-8, read one at a time, and the
//! character that starts at a given byte.

use vstd::prelude::*;
use vstd::utf8::*;

verus! {

/// The ASCII code of `B`. The code of `b` is 32 more.
pub const UPPER_B: u8 = 66;

/// The ASCII code of `E`. The code of `e` is 32 more.
pub const UPPER_E: u8 = 69;

/// The ASCII code of `G`. The code of `g` is 32 more.
pub const UPPER_G: u8 = 71;

/// The ASCII code of `I`. The code of `i` is 32 more.
pub const UPPER_I: u8 = 73;

/// The ASCII code of `K`. The code of `k` is 32 more.
pub const UPPER_K: u8 = 75;

/// The ASCII code of `M`. The code of `m` is 32 more.
pub const UPPER_M: u8 = 77;

/// The ASCII code of `P`. The code of `p` is 32 more.
pub const UPPER_P: u8 = 80;

/// The ASCII code of `S`. The code of `s` is 32 more.
pub const UPPER_S: u8 = 83;

/// The ASCII code of `T`. The code of `t` is 32 more.
pub const UPPER_T: u8 = 84;

/// The ASCII code of `Y`. The code of `y` is 32 more.
pub const UPPER_Y: u8 = 89;

/// The ASCII code of `Z`. The code of `z` is 32 more.
pub const UPPER_Z: u8 = 90;

/// The ASCII code of the digit `0`.
pub const DIGIT_0: u8 = 48;

/// The ASCII code of the digit `9`.
pub const DIGIT_9: u8 = 57;

/// The ASCII code of the dot.
pub const DOT: u8 = 46;

/// The ASCII code of the space.
pub const SPACE: u8 = 32;

/// Whether `c` has the Unicode property White_Space.
pub open spec fn is_white_space(c: char) -> bool {
    let n = c as u32;
    ||| 0x0009 <= n <= 0x000D
    ||| n == 0x0020
    ||| n == 0x0085
    ||| n == 0x00A0
    ||| n == 0x1680
    ||| 0x2000 <= n <= 0x200A
    ||| n == 0x2028
    ||| n == 0x2029
    ||| n == 0x202F
    ||| n == 0x205F
    ||| n == 0x3000
}

/// `s` without the white space it begins with.
pub open spec fn trimmed_start(s: Seq<char>) -> Seq<char>
    decreases s.len(),
{
    if s.len() > 0 && is_white_space(s[0]) {
        trimmed_start(s.drop_first())
    } else {
        s
    }
}

/// `s` without the white space it ends with.
pub open spec fn trimmed_end(s: Seq<char>) -> Seq<char>
    decreases s.len(),
{
    if s.len() > 0 && is_white_space(s.last()) {
        trimmed_end(s.drop_last())
    } else {
        s
    }
}

/// `s` without the white space around it.
pub open spec fn trimmed(s: Seq<char>) -> Seq<char> {
    trimmed_end(trimmed_start(s))
}

/// `str::trim` of the standard library. Trusted: the result is the text
/// without its leading and trailing white space, where white space is
/// what Unicode's White_Space property names.
#[verifier::external_body]
pub(crate) fn trim(s: &str) -> (r: &str)
    ensures
        r@ == trimmed(s@),
{
    s.trim()
}

/// The number of bytes of the UTF-8 sequence that begins with `byte`, and
/// 0 where no sequence begins with it.
pub open spec fn sequence_width(byte: u8) -> nat {
    if byte <= 0x7F {
        1
    } else if 0xC2 <= byte <= 0xDF {
        2
    } else if 0xE0 <= byte <= 0xEF {
        3
    } else if 0xF0 <= byte <= 0xF4 {
        4
    } else {
        0
    }
}

/// `utf8_width::get_width`. Trusted: the width is 1 for bytes up to 0x7F,
/// 2 for 0xC2 to 0xDF, 3 for 0xE0 to 0xEF, 4 for 0xF0 to 0xF4, and 0 for
/// every other byte.
#[verifier::external_body]
fn get_width(byte: u8) -> (w: usize)
    ensures
        w == sequence_width(byte),
{
    utf8_width::get_width(byte)
}

/// `char::from_u32` of the standard library. Trusted: a number is a
/// `char` exactly when it is a Unicode scalar value, and the `char` then
/// has that number.
pub assume_specification[ char::from_u32 ](i: u32) -> (r: Option<char>)
    ensures
        is_scalar(i) ==> r == Some(i as char),
        !is_scalar(i) ==> r.is_none(),
;

/// The bytes of `bytes` from index `i` on.
pub open spec fn tail(bytes: Seq<u8>, i: int) -> Seq<u8> {
    bytes.subrange(i, bytes.len() as int)
}

/// The character whose encoding starts at index `i` of `bytes`.
pub open spec fn char_at(bytes: Seq<u8>, i: int) -> char {
    decode_first_scalar(tail(bytes, i)) as char
}

/// Past one ASCII byte, valid UTF-8 is still valid UTF-8.
pub proof fn lemma_step_over_ascii(bytes: Seq<u8>, i: int)
    requires
        0 <= i < bytes.len(),
        valid_utf8(tail(bytes, i)),
        bytes[i] <= 0x7F,
    ensures
        valid_utf8(tail(bytes, i + 1)),
{
    let t = tail(bytes, i);
    assert(pop_first_scalar(t) =~= tail(bytes, i + 1));
}

/// Read the character whose encoding starts at index `i`.
pub fn get_char_from_bytes(bytes: &[u8], i: usize) -> (c: char)
    requires
        i < bytes@.len(),
        valid_utf8(tail(bytes@, i as int)),
    ensures
        c == char_at(bytes@, i as int),
{
    let e: u8 = bytes[i];
    let width: usize = get_width(e);
    if width == 1 {
        assert(e & 0x7F == e) by (bit_vector)
            requires
                e <= 0x7F,
        ;
        return e as char;
    }
    let e1: u8 = bytes[i + 1];
    proof {
        let two: u32 = (((e & 0x1F) as u32) << 6) | ((e1 & 0x3F) as u32);
        assert(two < 0x800 && (e <= 0xC1 ==> two < 0x80)) by (bit_vector)
            requires
                0xC0 <= e,
                two == (((e & 0x1F) as u32) << 6) | ((e1 & 0x3F) as u32),
        ;
    }
    let code: u32 = if width == 2 {
        (((e & 0x1F) as u32) << 6) | ((e1 & 0x3F) as u32)
    } else if width == 3 {
        let e2: u8 = bytes[i + 2];
        let code: u32 = (((e & 0x0F) as u32) << 12) | (((e1 & 0x3F) as u32) << 6) | ((e2
            & 0x3F) as u32);
        assert(code < 0x10000) by (bit_vector)
            requires
                code == (((e & 0x0F) as u32) << 12) | (((e1 & 0x3F) as u32) << 6) | ((e2
                    & 0x3F) as u32),
        ;
        code
    } else {
        let e2: u8 = bytes[i + 2];
        let e3: u8 = bytes[i + 3];
        let code: u32 = (((e & 0x07) as u32) << 18) | (((e1 & 0x3F) as u32) << 12) | (((e2
            & 0x3F) as u32) << 6) | ((e3 & 0x3F) as u32);
        code
    };
    match char::from_u32(code) {
        Some(c) => c,
        None => '\u{FFFD}',
    }
}

} // verus!
