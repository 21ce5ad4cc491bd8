//! Frame text: the event label, the `data: ` prefix and the payload behind
//! them, over sequences of characters.

use vstd::prelude::*;
use vstd::string::*;

verus! {

/// Whether `c` is white space in the sense of Unicode's `White_Space`
/// property.
pub open spec fn is_whitespace(c: char) -> bool {
    let n = c as u32;
    ||| 0x09 <= n <= 0x0D
    ||| n == 0x20
    ||| n == 0x85
    ||| n == 0xA0
    ||| n == 0x1680
    ||| 0x2000 <= n <= 0x200A
    ||| n == 0x2028
    ||| n == 0x2029
    ||| n == 0x202F
    ||| n == 0x205F
    ||| n == 0x3000
}

/// `s` without its leading white space.
pub open spec fn trim_start(s: Seq<char>) -> Seq<char>
    decreases s.len(),
{
    if s.len() > 0 && is_whitespace(s[0]) {
        trim_start(s.skip(1))
    } else {
        s
    }
}

/// `s` without the copies of `pattern` that it begins with, one behind the
/// other.
pub open spec fn strip_repeated(s: Seq<char>, pattern: Seq<char>) -> Seq<char>
    decreases s.len(),
{
    if pattern.len() > 0 && pattern.is_prefix_of(s) {
        strip_repeated(s.skip(pattern.len() as int), pattern)
    } else {
        s
    }
}

/// `s` without the event labels that it begins with. The labels are taken
/// off one kind after the other, in this order, each as often as it repeats.
pub open spec fn strip_labels(s: Seq<char>) -> Seq<char> {
    let s = strip_repeated(s, "event: message_start"@);
    let s = strip_repeated(s, "event: content_block_start"@);
    let s = strip_repeated(s, "event: ping"@);
    let s = strip_repeated(s, "event: content_block_delta"@);
    let s = strip_repeated(s, "event: content_block_stop"@);
    let s = strip_repeated(s, "event: message_delta"@);
    strip_repeated(s, "event: message_stop"@)
}

/// The payload of a frame: what stands behind the event labels, the white
/// space after them and the prefix `data: `. Without that prefix the payload
/// is all that stands behind the labels, white space included.
pub open spec fn payload_of(frame: Seq<char>) -> Seq<char> {
    let unlabelled = strip_labels(frame);
    let trimmed = trim_start(unlabelled);
    if "data: "@.is_prefix_of(trimmed) {
        trimmed.skip("data: "@.len() as int)
    } else {
        unlabelled
    }
}

/// Calls `std::str::from_utf8`. It gives a text exactly where `bytes` are
/// valid UTF-8, and the text then has these very bytes.
#[verifier::external_body]
pub(crate) fn utf8_text(bytes: &[u8]) -> (text: Option<&str>)
    ensures
        text is Some <==> vstd::utf8::valid_utf8(bytes@),
        text matches Some(t) ==> t.spec_bytes() == bytes@,
{
    std::str::from_utf8(bytes).ok()
}

/// The characters of `s`, in order.
pub fn chars_of(s: &str) -> (chars: Vec<char>)
    ensures
        chars@ == s@,
{
    let mut chars: Vec<char> = Vec::new();
    for c in it: s.chars()
        invariant
            chars@ == it.seq().take(it.index() as int),
            it.seq() == s@,
    {
        chars.push(c);
    }
    chars
}

/// Whether `a` and `b` hold the same text.
pub fn same_text(a: &str, b: &str) -> (same: bool)
    ensures
        same == (a@ == b@),
{
    let x = a.as_bytes();
    let y = b.as_bytes();
    proof {
        vstd::utf8::encode_utf8_decode_utf8(a@);
        vstd::utf8::encode_utf8_decode_utf8(b@);
    }
    if x.len() != y.len() {
        return false;
    }
    let mut i: usize = 0;
    while i < x.len()
        invariant
            i <= x.len(),
            x.len() == y.len(),
            x@ == a.spec_bytes(),
            y@ == b.spec_bytes(),
            forall|j: int| 0 <= j < i ==> x@[j] == y@[j],
        decreases x.len() - i,
    {
        if x[i] != y[i] {
            return false;
        }
        i += 1;
    }
    assert(x@ =~= y@);
    true
}

/// Whether `c` is white space.
pub fn is_whitespace_char(c: char) -> (white: bool)
    ensures
        white == is_whitespace(c),
{
    let n: u32 = c as u32;
    (0x09 <= n && n <= 0x0D) || n == 0x20 || n == 0x85 || n == 0xA0 || n == 0x1680 || (0x2000 <= n
        && n <= 0x200A) || n == 0x2028 || n == 0x2029 || n == 0x202F || n == 0x205F || n == 0x3000
}

/// Whether `pattern` stands in `chars` at index `from`.
pub fn starts_with_at(chars: &Vec<char>, from: usize, pattern: &Vec<char>) -> (found: bool)
    requires
        from <= chars.len(),
    ensures
        found == pattern@.is_prefix_of(chars@.skip(from as int)),
{
    if pattern.len() > chars.len() - from {
        return false;
    }
    let mut i: usize = 0;
    while i < pattern.len()
        invariant
            i <= pattern.len(),
            from + pattern.len() <= chars.len(),
            forall|j: int| 0 <= j < i ==> pattern@[j] == chars@[from + j],
        decreases pattern.len() - i,
    {
        if pattern[i] != chars[from + i] {
            assert(chars@.skip(from as int)[i as int] != pattern@[i as int]);
            return false;
        }
        i += 1;
    }
    assert(pattern@ =~= chars@.skip(from as int).subrange(0, pattern@.len() as int));
    true
}

/// The index in `chars` behind the copies of `pattern` that stand one behind
/// the other from index `from` on.
pub fn skip_repeated(chars: &Vec<char>, from: usize, pattern: &str) -> (to: usize)
    requires
        from <= chars.len(),
    ensures
        from <= to <= chars.len(),
        chars@.skip(to as int) == strip_repeated(chars@.skip(from as int), pattern@),
{
    let pattern_chars = chars_of(pattern);
    let mut to: usize = from;
    if pattern_chars.len() == 0 {
        return to;
    }
    while starts_with_at(chars, to, &pattern_chars)
        invariant
            from <= to <= chars.len(),
            pattern_chars@ == pattern@,
            pattern_chars@.len() > 0,
            strip_repeated(chars@.skip(to as int), pattern@) == strip_repeated(
                chars@.skip(from as int),
                pattern@,
            ),
        decreases chars.len() - to,
    {
        assert(chars@.skip(to as int).skip(pattern@.len() as int) =~= chars@.skip(
            to + pattern@.len(),
        ));
        to += pattern_chars.len();
    }
    to
}

/// The index in `chars` behind the white space that stands from index `from`
/// on.
pub fn skip_whitespace(chars: &Vec<char>, from: usize) -> (to: usize)
    requires
        from <= chars.len(),
    ensures
        from <= to <= chars.len(),
        chars@.skip(to as int) == trim_start(chars@.skip(from as int)),
{
    let mut to: usize = from;
    while to < chars.len() && is_whitespace_char(chars[to])
        invariant
            from <= to <= chars.len(),
            trim_start(chars@.skip(to as int)) == trim_start(chars@.skip(from as int)),
        decreases chars.len() - to,
    {
        assert(chars@.skip(to as int).skip(1) =~= chars@.skip(to + 1));
        to += 1;
    }
    to
}

/// The index in `chars` behind the event labels that it begins with.
pub fn skip_labels(chars: &Vec<char>) -> (to: usize)
    ensures
        to <= chars.len(),
        chars@.skip(to as int) == strip_labels(chars@),
{
    assert(chars@.skip(0) =~= chars@);
    let to = skip_repeated(chars, 0, "event: message_start");
    let to = skip_repeated(chars, to, "event: content_block_start");
    let to = skip_repeated(chars, to, "event: ping");
    let to = skip_repeated(chars, to, "event: content_block_delta");
    let to = skip_repeated(chars, to, "event: content_block_stop");
    let to = skip_repeated(chars, to, "event: message_delta");
    skip_repeated(chars, to, "event: message_stop")
}

/// The index in the frame `chars` at which its payload begins.
pub fn payload_start(chars: &Vec<char>) -> (start: usize)
    ensures
        start <= chars.len(),
        chars@.skip(start as int) == payload_of(chars@),
{
    let unlabelled = skip_labels(chars);
    let trimmed = skip_whitespace(chars, unlabelled);
    let prefix = chars_of("data: ");
    if starts_with_at(chars, trimmed, &prefix) {
        assert(chars@.skip(trimmed as int).skip(prefix@.len() as int) =~= chars@.skip(
            trimmed + prefix@.len(),
        ));
        trimmed + prefix.len()
    } else {
        unlabelled
    }
}

} // verus!
