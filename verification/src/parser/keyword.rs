use nom::error::ErrorKind;
use vstd::prelude::*;
use vstd::utf8::*;

use crate::parser::scan::{ascii_head, caseless, scanned, spec_keyword, starts_caseless, tag_no_case};

verus! {

/// A character is its number, which is not negative and fits into 32 bits.
proof fn lemma_char_number(c: char)
    ensures
        '\0' <= c,
        c as u32 as int == c as int,
{
}

/// The first byte that writes a text tells whether its first character is ASCII: an
/// ASCII character is written as the one byte of its number, any other character
/// starts with a byte of 128 or more.
proof fn lemma_first_byte(s: Seq<char>)
    requires
        s.len() > 0,
    ensures
        encode_utf8(s).len() > 0,
        s[0] <= '\u{7f}' <==> encode_utf8(s)[0] < 128,
        s[0] <= '\u{7f}' ==> encode_utf8(s).skip(1) == encode_utf8(s.drop_first()),
{
    let c = s[0] as u32;
    let first = encode_scalar(c);
    let others = encode_utf8(s.drop_first());
    char_is_scalar(s[0]);
    lemma_char_number(s[0]);
    assert(encode_utf8(s) == first + others);
    assert(first.len() > 0);
    assert(encode_utf8(s)[0] == first[0]);
    if has_width_1_encoding(c) {
        assert(((c & 0x7F) as u8) < 128) by (bit_vector);
        assert(first[0] == leading_byte_width_1(c));
        assert(first.len() == 1);
        assert((first + others).skip(1) =~= others);
    } else if has_width_2_encoding(c) {
        assert((0xC0u8 | ((c >> 6) & 0x1F) as u8) >= 128) by (bit_vector);
    } else if has_width_3_encoding(c) {
        assert((0xE0u8 | ((c >> 12) & 0x0F) as u8) >= 128) by (bit_vector);
    } else {
        assert((0xF0u8 | ((c >> 18) & 0x7) as u8) >= 128) by (bit_vector);
    }
}

/// A text has at most as many characters as bytes.
proof fn lemma_bytes_at_least(s: Seq<char>)
    ensures
        s.len() <= encode_utf8(s).len(),
    decreases s.len(),
{
    if s.len() > 0 {
        char_is_scalar(s[0]);
        lemma_bytes_at_least(s.drop_first());
    }
}

/// Where the first `n` bytes of a text are below 128, they are its first `n`
/// characters, all ASCII.
proof fn lemma_low_bytes(s: Seq<char>, n: nat)
    requires
        n <= encode_utf8(s).len(),
        forall|i: int| 0 <= i < n ==> encode_utf8(s)[i] < 128,
    ensures
        ascii_head(s, n),
    decreases n,
{
    if n > 0 {
        lemma_first_byte(s);
        let t = s.drop_first();
        assert forall|i: int| 0 <= i < n - 1 implies encode_utf8(t)[i] < 128 by {
            assert(encode_utf8(s).skip(1)[i] == encode_utf8(s)[i + 1]);
        }
        lemma_low_bytes(t, (n - 1) as nat);
        assert forall|i: int| 0 <= i < n implies #[trigger] s[i] <= '\u{7f}' by {
            if i > 0 {
                assert(s[i] == t[i - 1]);
            }
        }
    }
}

/// Where the first `n` bytes of a text are below 128 and the next is not, the text's
/// character at `n` is not ASCII.
proof fn lemma_high_byte(s: Seq<char>, n: nat)
    requires
        n < encode_utf8(s).len(),
        forall|i: int| 0 <= i < n ==> encode_utf8(s)[i] < 128,
        encode_utf8(s)[n as int] >= 128,
    ensures
        n < s.len(),
        s[n as int] > '\u{7f}',
    decreases n,
{
    lemma_first_byte(s);
    if n > 0 {
        let t = s.drop_first();
        assert(encode_utf8(s).skip(1)[n - 1] == encode_utf8(s)[n as int]);
        assert forall|i: int| 0 <= i < n - 1 implies encode_utf8(t)[i] < 128 by {
            assert(encode_utf8(s).skip(1)[i] == encode_utf8(s)[i + 1]);
        }
        lemma_high_byte(t, (n - 1) as nat);
        assert(s[n as int] == t[n - 1]);
    }
}

/// Whether `input` has at least `n` characters and its first `n` are ASCII.
fn has_ascii_head(input: &str, n: usize) -> (res: bool)
    ensures
        res == ascii_head(input@, n as nat),
{
    let bytes = input.as_bytes();
    assert(bytes@ == encode_utf8(input@));
    proof {
        lemma_bytes_at_least(input@);
    }
    if bytes.len() < n {
        return false;
    }
    let mut i: usize = 0;
    while i < n
        invariant
            i <= n <= bytes.len(),
            bytes@ == encode_utf8(input@),
            forall|j: int| 0 <= j < i ==> bytes@[j] < 128,
        decreases n - i,
    {
        if bytes[i] >= 128 {
            proof {
                lemma_high_byte(input@, i as nat);
            }
            return false;
        }
        i += 1;
    }
    proof {
        lemma_low_bytes(input@, n as nat);
    }
    true
}

/// Reads `word`, which is ASCII, at the start of `input`, the case of ASCII letters
/// not counting. Only an input whose first characters are ASCII can start with the
/// word, and only such an input is compared.
pub(crate) fn keyword<'a>(input: &'a str, word: &str) -> (r: Result<&'a str, ErrorKind>)
    requires
        ascii_head(word@, word@.len()),
    ensures
        scanned(r) == spec_keyword(input@, word@),
{
    proof {
        assert forall|i: int| 0 <= i < word@.len() implies '\0' <= #[trigger] word@[i]
            <= '\u{7f}' by {
            lemma_char_number(word@[i]);
        }
        is_ascii_chars_encode_utf8(word@);
    }
    let n = word.as_bytes().len();
    if has_ascii_head(input, n) {
        tag_no_case(input, word)
    } else {
        proof {
            if starts_caseless(input@, word@) {
                let i = choose|i: int| 0 <= i < word@.len() && input@[i] > '\u{7f}';
                assert(caseless(input@[i]) == caseless(word@[i]));
            }
        }
        Err(ErrorKind::Tag)
    }
}

} // verus!

