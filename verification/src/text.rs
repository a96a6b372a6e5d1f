//! Strings as sequences of characters.
use vstd::prelude::*;

verus! {

/// Specifies `String::push`: the character is appended.
pub assume_specification[ String::push ](s: &mut String, c: char)
    ensures
        final(s)@ == old(s)@.push(c),
;

/// Specifies `String::clear`: all contents are removed.
pub assume_specification[ String::clear ](s: &mut String)
    ensures
        final(s)@ == Seq::<char>::empty(),
;

/// What `str::to_lowercase` makes of a text: Unicode's lowercase mapping.
pub uninterp spec fn lowercase(text: Seq<char>) -> Seq<char>;

/// The lowercase form of an ASCII character: `A` to `Z` become `a` to `z`.
pub open spec fn ascii_lower(c: char) -> char {
    if 'A' as int <= c as int <= 'Z' as int {
        (c as int + 32) as char
    } else {
        c
    }
}

/// The lowercase form of an ASCII text.
pub open spec fn ascii_lowercase(text: Seq<char>) -> Seq<char> {
    text.map_values(|c: char| ascii_lower(c))
}

/// Specifies `str::to_lowercase`: the result is a function of the text alone, and of ASCII text
/// only the capital letters change. Which other characters the Unicode tables map to which is not
/// stated.
pub assume_specification[ str::to_lowercase ](s: &str) -> (lower: String)
    ensures
        lower@ == lowercase(s@),
        vstd::utf8::is_ascii_chars(s@) ==> lower@ == ascii_lowercase(s@),
;

/// What `String::from_utf8_lossy` makes of bytes: the text they encode, with a replacement
/// character for what is not UTF-8.
pub uninterp spec fn lossy_text(bytes: Seq<u8>) -> Seq<char>;

/// Calls `String::from_utf8_lossy` and takes the text out as a `String`. The text is a function
/// of the bytes alone, and bytes that are valid UTF-8 give the text that they encode. Where in
/// other bytes a replacement character comes to stand is not stated.
#[verifier::external_body]
pub(crate) fn decode_lossy(bytes: &[u8]) -> (text: String)
    ensures
        text@ == lossy_text(bytes@),
        vstd::utf8::valid_utf8(bytes@) ==> text@ == vstd::utf8::decode_utf8(bytes@),
{
    String::from_utf8_lossy(bytes).into_owned()
}

/// The characters of `s`, in order.
pub fn chars_of(s: &str) -> (chars: Vec<char>)
    ensures
        chars@ == s@,
{
    let mut chars: Vec<char> = Vec::new();
    for c in it: s.chars()
        invariant
            it.seq() == s@,
            chars@ == s@.take(it.index()),
    {
        chars.push(c);
    }
    chars
}

/// The text made of `chars[from..to]`.
pub fn text_of(chars: &Vec<char>, from: usize, to: usize) -> (s: String)
    requires
        from <= to <= chars@.len(),
    ensures
        s@ == chars@.subrange(from as int, to as int),
{
    let mut s = String::new();
    let mut i: usize = from;
    while i < to
        invariant
            from <= i <= to <= chars@.len(),
            s@ == chars@.subrange(from as int, i as int),
        decreases to - i,
    {
        s.push(chars[i]);
        i = i + 1;
    }
    s
}

/// Whether `text` begins with `prefix`.
pub fn starts_with(text: &str, prefix: &str) -> (begins: bool)
    ensures
        begins == prefix@.is_prefix_of(text@),
{
    let chars = chars_of(text);
    let start = chars_of(prefix);
    if start.len() > chars.len() {
        return false;
    }
    let mut i: usize = 0;
    while i < start.len()
        invariant
            i <= start@.len() <= chars@.len(),
            start@ == prefix@,
            chars@ == text@,
            forall|j: int| 0 <= j < i ==> start@[j] == chars@[j],
        decreases start.len() - i,
    {
        if start[i] != chars[i] {
            assert(prefix@[i as int] != text@.subrange(0, prefix@.len() as int)[i as int]);
            return false;
        }
        i = i + 1;
    }
    true
}

/// The lowercase form of an ASCII text keeps every character in its place, but for the capital
/// letters, each of which becomes the letter 32 code points on.
pub proof fn law_ascii_lowercase_changes_capitals_only(text: Seq<char>)
    ensures
        ascii_lowercase(text).len() == text.len(),
        forall|k: int|
            0 <= k < text.len() ==> (#[trigger] ascii_lowercase(text)[k]) as int == text[k] as int
                + if 65 <= text[k] as int <= 90 {
                32int
            } else {
                0
            },
{
}

} // verus!
