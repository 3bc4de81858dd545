//! Conversion of UTF-8 byte offsets into character indices.
use vstd::prelude::*;
use vstd::utf8::*;

verus! {

broadcast use vstd::utf8::group_utf8_lib;

/// The UTF-8 width of a character.
pub open spec fn char_width(c: char) -> int {
    encode_scalar(c as u32).len() as int
}

/// The character index at byte offset `b` of the UTF-8 encoding of `chars`
/// (meaningful when `b` is a character boundary).
pub open spec fn byte_to_char(chars: Seq<char>, b: int) -> int
    decreases chars.len(),
{
    if b <= 0 || chars.len() == 0 {
        0
    } else {
        1 + byte_to_char(chars.drop_first(), b - char_width(chars[0]))
    }
}

/// One step of the conversion at a boundary past the first character.
pub proof fn lemma_byte_to_char_step(chars: Seq<char>, d: int)
    requires
        is_char_boundary(encode_utf8(chars), d),
        d > 0,
    ensures
        chars.len() > 0,
        d >= char_width(chars[0]),
        byte_to_char(chars, d) == 1 + byte_to_char(chars.drop_first(), d - char_width(chars[0])),
        is_char_boundary(encode_utf8(chars.drop_first()), d - char_width(chars[0])),
{
    let bytes = encode_utf8(chars);
    if chars.len() == 0 {
        assert(bytes.len() == 0);
        assert(false);
    }
    encode_utf8_first_scalar(chars);
    assert(pop_first_scalar(bytes) =~= encode_utf8(chars.drop_first()));
    assert(is_char_boundary(bytes, d) == is_char_boundary(pop_first_scalar(bytes), d - length_of_first_scalar(bytes)));
}

/// Conversion of offsets keeps their order.
pub proof fn lemma_byte_to_char_monotone(chars: Seq<char>, b1: int, b2: int)
    requires
        is_char_boundary(encode_utf8(chars), b1),
        is_char_boundary(encode_utf8(chars), b2),
        b1 <= b2,
    ensures
        byte_to_char(chars, b1) <= byte_to_char(chars, b2),
    decreases chars.len(),
{
    if b1 <= 0 {
        lemma_byte_to_char_range(chars, b2);
    } else {
        lemma_byte_to_char_step(chars, b1);
        lemma_byte_to_char_step(chars, b2);
        lemma_byte_to_char_monotone(
            chars.drop_first(),
            b1 - char_width(chars[0]),
            b2 - char_width(chars[0]),
        );
    }
}

/// A boundary converts to an index of the characters.
pub proof fn lemma_byte_to_char_range(chars: Seq<char>, b: int)
    requires
        is_char_boundary(encode_utf8(chars), b),
    ensures
        0 <= byte_to_char(chars, b) <= chars.len(),
        b == encode_utf8(chars).len() ==> byte_to_char(chars, b) == chars.len(),
    decreases chars.len(),
{
    if b > 0 {
        lemma_byte_to_char_step(chars, b);
        encode_utf8_first_scalar(chars);
        assert(encode_utf8(chars) =~= encode_scalar(chars[0] as u32) + encode_utf8(chars.drop_first()));
        lemma_byte_to_char_range(chars.drop_first(), b - char_width(chars[0]));
    } else if chars.len() > 0 {
        encode_utf8_first_scalar(chars);
        assert(encode_utf8(chars) =~= encode_scalar(chars[0] as u32) + encode_utf8(chars.drop_first()));
        assert(encode_scalar(chars[0] as u32).len() >= 1);
    }
}

/// The UTF-8 width of `c`.
pub fn utf8_width(c: char) -> (w: usize)
    ensures
        w == char_width(c),
        1 <= w <= 4,
{
    let u = c as u32;
    proof {
        char_is_scalar(c);
    }
    if u < 0x80 {
        1
    } else if u < 0x800 {
        2
    } else if u < 0x10000 {
        3
    } else {
        4
    }
}

/// The character index of byte offset `b`, a character boundary of the UTF-8
/// encoding of `chars`.
pub fn byte_to_char_index(chars: &Vec<char>, b: usize) -> (k: usize)
    requires
        is_char_boundary(encode_utf8(chars@), b as int),
    ensures
        k == byte_to_char(chars@, b as int),
        k <= chars@.len(),
{
    let mut k: usize = 0;
    let mut acc: usize = 0;
    let n: usize = chars.len();
    assert(chars@.skip(0) =~= chars@);
    while acc < b
        invariant
            n == chars@.len(),
            k <= chars@.len(),
            acc <= b,
            is_char_boundary(encode_utf8(chars@.skip(k as int)), (b - acc) as int),
            byte_to_char(chars@, b as int) == k + byte_to_char(chars@.skip(k as int), (b - acc) as int),
        decreases b - acc,
    {
        proof {
            lemma_byte_to_char_step(chars@.skip(k as int), (b - acc) as int);
            assert(chars@.skip(k as int).drop_first() =~= chars@.skip(k + 1));
            assert(chars@.skip(k as int).len() > 0);
            assert(k < chars@.len());
            assert(chars@.skip(k as int)[0] == chars@[k as int]);
        }
        let w = utf8_width(chars[k]);
        acc = acc + w;
        k = k + 1;
    }
    proof {
        lemma_byte_to_char_range(chars@, b as int);
    }
    k
}

} // verus!
