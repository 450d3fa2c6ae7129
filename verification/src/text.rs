//! Character-level text helpers: Unicode `White_Space` and control
//! classification as the standard library documents them, trimming,
//! truncation, and byte-exact string comparison.

use vstd::prelude::*;
use vstd::string::*;
use vstd::utf8::*;

verus! {

broadcast use vstd::utf8::encode_utf8_decode_utf8;

/// Unicode `White_Space`, the property that `char::is_whitespace` tests.
pub open spec fn is_white_space(c: char) -> bool {
    let u = c as u32;
    (0x09 <= u <= 0x0d) || u == 0x20 || u == 0x85 || u == 0xa0 || u == 0x1680
        || (0x2000 <= u <= 0x200a) || u == 0x2028 || u == 0x2029 || u == 0x202f
        || u == 0x205f || u == 0x3000
}

/// General category `Cc`, the property that `char::is_control` tests.
pub open spec fn is_control_char(c: char) -> bool {
    let u = c as u32;
    u <= 0x1f || (0x7f <= u <= 0x9f)
}

/// ASCII letters and digits, as `char::is_ascii_alphanumeric` tests.
pub open spec fn is_ascii_alnum(c: char) -> bool {
    let u = c as u32;
    (0x30 <= u <= 0x39) || (0x41 <= u <= 0x5a) || (0x61 <= u <= 0x7a)
}

/// `char::is_whitespace`.
pub fn char_is_whitespace(c: char) -> (r: bool)
    ensures
        r == is_white_space(c),
{
    let u = c as u32;
    (0x09 <= u && u <= 0x0d) || u == 0x20 || u == 0x85 || u == 0xa0 || u == 0x1680
        || (0x2000 <= u && u <= 0x200a) || u == 0x2028 || u == 0x2029 || u == 0x202f
        || u == 0x205f || u == 0x3000
}

/// `char::is_control`.
pub fn char_is_control(c: char) -> (r: bool)
    ensures
        r == is_control_char(c),
{
    let u = c as u32;
    u <= 0x1f || (0x7f <= u && u <= 0x9f)
}

/// `char::is_ascii_alphanumeric`.
pub fn char_is_ascii_alnum(c: char) -> (r: bool)
    ensures
        r == is_ascii_alnum(c),
{
    let u = c as u32;
    (0x30 <= u && u <= 0x39) || (0x41 <= u && u <= 0x5a) || (0x61 <= u && u <= 0x7a)
}

/// Index of the first character that is not white space (the length if none is).
pub open spec fn trim_start_index(s: Seq<char>) -> int
    decreases s.len(),
{
    if s.len() == 0 {
        0
    } else if is_white_space(s[0]) {
        1 + trim_start_index(s.drop_first())
    } else {
        0
    }
}

/// One past the last character that is not white space (0 if none is).
pub open spec fn trim_end_index(s: Seq<char>) -> int
    decreases s.len(),
{
    if s.len() == 0 {
        0
    } else if is_white_space(s.last()) {
        trim_end_index(s.drop_last())
    } else {
        s.len() as int
    }
}

/// `str::trim`: the text without leading and trailing white space.
pub open spec fn trimmed(s: Seq<char>) -> Seq<char> {
    if trim_start_index(s) >= trim_end_index(s) {
        Seq::empty()
    } else {
        s.subrange(trim_start_index(s), trim_end_index(s))
    }
}

pub proof fn lemma_trim_start_bounds(s: Seq<char>)
    ensures
        0 <= trim_start_index(s) <= s.len(),
        forall|i: int| 0 <= i < trim_start_index(s) ==> is_white_space(#[trigger] s[i]),
        trim_start_index(s) < s.len() ==> !is_white_space(s[trim_start_index(s)]),
    decreases s.len(),
{
    if s.len() > 0 && is_white_space(s[0]) {
        lemma_trim_start_bounds(s.drop_first());
        assert forall|i: int| 0 <= i < trim_start_index(s) implies is_white_space(#[trigger] s[i]) by {
            if i > 0 {
                assert(s[i] == s.drop_first()[i - 1]);
            }
        }
    }
}

pub proof fn lemma_trim_end_bounds(s: Seq<char>)
    ensures
        0 <= trim_end_index(s) <= s.len(),
        forall|i: int| trim_end_index(s) <= i < s.len() ==> is_white_space(#[trigger] s[i]),
        trim_end_index(s) > 0 ==> !is_white_space(s[trim_end_index(s) - 1]),
    decreases s.len(),
{
    if s.len() > 0 && is_white_space(s.last()) {
        lemma_trim_end_bounds(s.drop_last());
        assert forall|i: int| trim_end_index(s) <= i < s.len() implies is_white_space(#[trigger] s[i]) by {
            if i < s.len() - 1 {
                assert(s[i] == s.drop_last()[i]);
            }
        }
    }
}

/// The characters of a string slice, in order.
pub fn chars_of(s: &str) -> (chars: Vec<char>)
    ensures
        chars@ == s@,
{
    let mut chars: Vec<char> = Vec::new();
    for c in it: s.chars()
        invariant
            it.seq() == s@,
            chars@ == it.seq().take(it.index() as int),
    {
        chars.push(c);
    }
    chars
}

/// Calls `String::push`, which appends one character.
#[verifier::external_body]
pub(crate) fn push_char(s: &mut String, c: char)
    ensures
        final(s)@ == old(s)@.push(c),
{
    s.push(c);
}

/// A string made of the characters `chars[start..end]`.
pub fn string_from_chars(chars: &[char], start: usize, end: usize) -> (s: String)
    requires
        start <= end <= chars@.len(),
    ensures
        s@ == chars@.subrange(start as int, end as int),
{
    let mut s = String::new();
    let mut i = start;
    while i < end
        invariant
            start <= i <= end <= chars@.len(),
            s@ == chars@.subrange(start as int, i as int),
        decreases end - i,
    {
        push_char(&mut s, chars[i]);
        i = i + 1;
        proof {
            assert(s@ =~= chars@.subrange(start as int, i as int));
        }
    }
    s
}

/// Byte-wise equality of two byte slices.
pub fn bytes_equal(a: &[u8], b: &[u8]) -> (r: bool)
    ensures
        r == (a@ == b@),
{
    if a.len() != b.len() {
        return false;
    }
    let mut i: usize = 0;
    while i < a.len()
        invariant
            a@.len() == b@.len(),
            i <= a@.len(),
            forall|j: int| 0 <= j < i ==> a@[j] == b@[j],
        decreases a@.len() - i,
    {
        if a[i] != b[i] {
            return false;
        }
        i = i + 1;
    }
    proof {
        assert(a@ =~= b@);
    }
    true
}

/// Equality of two strings, compared through their UTF-8 bytes.
pub fn str_equal(a: &str, b: &str) -> (r: bool)
    ensures
        r == (a@ == b@),
{
    let equal = bytes_equal(a.as_bytes(), b.as_bytes());
    proof {
        if a@ != b@ {
            assert(decode_utf8(encode_utf8(a@)) == a@);
            assert(decode_utf8(encode_utf8(b@)) == b@);
        }
    }
    equal
}

/// Whether the text contains the character `c`.
pub fn contains_char(s: &str, c: char) -> (r: bool)
    ensures
        r == s@.contains(c),
{
    let chars = chars_of(s);
    let mut i: usize = 0;
    while i < chars.len()
        invariant
            chars@ == s@,
            i <= chars@.len(),
            forall|j: int| 0 <= j < i ==> chars@[j] != c,
        decreases chars@.len() - i,
    {
        if chars[i] == c {
            return true;
        }
        i = i + 1;
    }
    false
}

/// `str::trim`.
pub fn trim(s: &str) -> (r: String)
    ensures
        r@ == trimmed(s@),
{
    let chars = chars_of(s);
    proof {
        lemma_trim_start_bounds(s@);
        lemma_trim_end_bounds(s@);
    }
    let mut start: usize = 0;
    while start < chars.len() && char_is_whitespace(chars[start])
        invariant
            chars@ == s@,
            start <= chars@.len(),
            start <= trim_start_index(s@),
            0 <= trim_start_index(s@) <= s@.len(),
            forall|i: int| 0 <= i < trim_start_index(s@) ==> is_white_space(#[trigger] s@[i]),
            trim_start_index(s@) < s@.len() ==> !is_white_space(s@[trim_start_index(s@)]),
        decreases chars@.len() - start,
    {
        start = start + 1;
    }
    assert(start == trim_start_index(s@));
    let mut end: usize = chars.len();
    while end > start && char_is_whitespace(chars[end - 1])
        invariant
            chars@ == s@,
            start <= end <= chars@.len(),
            forall|i: int| end <= i < s@.len() ==> is_white_space(#[trigger] s@[i]),
            0 <= trim_end_index(s@) <= s@.len(),
            forall|i: int| trim_end_index(s@) <= i < s@.len() ==> is_white_space(#[trigger] s@[i]),
            trim_end_index(s@) > 0 ==> !is_white_space(s@[trim_end_index(s@) - 1]),
            start == trim_start_index(s@),
        decreases end - start,
    {
        end = end - 1;
    }
    proof {
        if start < end {
            assert(!is_white_space(s@[end - 1]));
            if trim_end_index(s@) > end {
                assert(is_white_space(s@[trim_end_index(s@) - 1]));
            }
            assert(end == trim_end_index(s@));
        } else if trim_start_index(s@) < s@.len() {
            assert(is_white_space(s@[trim_start_index(s@)]));
        }
    }
    string_from_chars(chars.as_slice(), start, end)
}

/// The first `maximum_chars` characters of `text`, followed by `…` where characters were cut.
pub open spec fn truncated(text: Seq<char>, maximum_chars: nat) -> Seq<char> {
    if text.len() > maximum_chars {
        text.take(maximum_chars as int).push('…')
    } else {
        text
    }
}

/// Cuts `text` to at most `maximum_chars` characters and marks a cut with an ellipsis.
pub fn truncate_text(text: &str, maximum_chars: usize) -> (preview: String)
    ensures
        preview@ == truncated(text@, maximum_chars as nat),
{
    let chars = chars_of(text);
    if chars.len() > maximum_chars {
        let mut preview = string_from_chars(chars.as_slice(), 0, maximum_chars);
        push_char(&mut preview, '…');
        proof {
            assert(chars@.subrange(0, maximum_chars as int) =~= text@.take(maximum_chars as int));
        }
        preview
    } else {
        let preview = string_from_chars(chars.as_slice(), 0, chars.len());
        proof {
            assert(chars@.subrange(0, chars@.len() as int) =~= text@);
        }
        preview
    }
}

/// Different texts have different UTF-8 encodings.
pub proof fn lemma_utf8_injective(a: Seq<char>, b: Seq<char>)
    requires
        encode_utf8(a) == encode_utf8(b),
    ensures
        a == b,
{
    vstd::utf8::encode_utf8_decode_utf8(a);
    vstd::utf8::encode_utf8_decode_utf8(b);
}

/// The UTF-8 encoding of two texts one after the other is the encoding of
/// the first followed by that of the second.
pub proof fn lemma_utf8_concat(a: Seq<char>, b: Seq<char>)
    ensures
        encode_utf8(a + b) == encode_utf8(a) + encode_utf8(b),
    decreases a.len(),
{
    if a.len() == 0 {
        assert(a + b =~= b);
        assert(encode_utf8(a) + encode_utf8(b) =~= encode_utf8(b));
    } else {
        assert((a + b).drop_first() =~= a.drop_first() + b);
        assert((a + b)[0] == a[0]);
        lemma_utf8_concat(a.drop_first(), b);
        assert(encode_utf8(a + b) =~= encode_utf8(a) + encode_utf8(b));
    }
}

/// The encoding of a text's first `i + 1` characters extends that of its
/// first `i` by the encoding of character `i`.
pub proof fn lemma_utf8_take_step(s: Seq<char>, i: int)
    requires
        0 <= i < s.len(),
    ensures
        encode_utf8(s.take(i + 1)) == encode_utf8(s.take(i)) + vstd::utf8::encode_scalar(s[i] as u32),
{
    assert(s.take(i + 1) =~= s.take(i) + seq![s[i]]);
    lemma_utf8_concat(s.take(i), seq![s[i]]);
    let one = seq![s[i]];
    assert(one.drop_first() =~= Seq::<char>::empty());
    assert(one[0] == s[i]);
    assert(encode_utf8(one.drop_first()) =~= Seq::<u8>::empty());
    assert(encode_utf8(one) == vstd::utf8::encode_scalar(one[0] as u32) + encode_utf8(one.drop_first()));
    assert(encode_utf8(one) =~= vstd::utf8::encode_scalar(s[i] as u32));
}

/// Longer prefixes of a text have encodings at least as long, and strictly
/// longer ones where they hold more characters.
pub proof fn lemma_utf8_prefix_grows(s: Seq<char>, i: int, j: int)
    requires
        0 <= i <= j <= s.len(),
    ensures
        encode_utf8(s.take(i)).len() + (j - i) <= encode_utf8(s.take(j)).len(),
    decreases j - i,
{
    if i < j {
        lemma_utf8_prefix_grows(s, i, j - 1);
        lemma_utf8_take_step(s, j - 1);
    }
}

/// The number of bytes of a character's UTF-8 encoding.
pub fn utf8_width(c: char) -> (width: usize)
    ensures
        width == vstd::utf8::encode_scalar(c as u32).len(),
        1 <= width <= 4,
{
    proof {
        vstd::utf8::char_is_scalar(c);
    }
    let v = c as u32;
    if v <= 0x7F {
        1
    } else if v <= 0x7FF {
        2
    } else if v <= 0xFFFF {
        3
    } else {
        4
    }
}

/// A copy of `bytes[start..end]`.
pub fn slice_range(bytes: &[u8], start: usize, end: usize) -> (part: Vec<u8>)
    requires
        start <= end <= bytes@.len(),
    ensures
        part@ == bytes@.subrange(start as int, end as int),
{
    let mut part: Vec<u8> = Vec::new();
    let mut i = start;
    while i < end
        invariant
            start <= i <= end <= bytes@.len(),
            part@ == bytes@.subrange(start as int, i as int),
        decreases end - i,
    {
        part.push(bytes[i]);
        i = i + 1;
        proof {
            assert(part@ =~= bytes@.subrange(start as int, i as int));
        }
    }
    part
}

/// A copy of the first `n` bytes.
pub fn slice_prefix(bytes: &[u8], n: usize) -> (part: Vec<u8>)
    requires
        n <= bytes@.len(),
    ensures
        part@ == bytes@.subrange(0, n as int),
{
    slice_range(bytes, 0, n)
}

} // verus!
