//! Byte-level measurements of a file's raw text.
//!
//! Every count here is taken over the UTF-8 bytes of the text. The patterns searched
//! for are ASCII, so a match can only begin at a character boundary.

use vstd::prelude::*;
use vstd::string::*;
use vstd::utf8::*;

verus! {

/// The line feed byte.
pub const NEWLINE: u8 = 0x0a;

/// `pattern` occurs in `text` starting at index `at`.
pub open spec fn occurs_at(text: Seq<u8>, pattern: Seq<u8>, at: int) -> bool {
    &&& 0 <= at
    &&& at + pattern.len() <= text.len()
    &&& text.subrange(at, at + pattern.len()) == pattern
}

/// Number of indices below `end` at which `pattern` occurs in `text`.
pub open spec fn occurrences_before(text: Seq<u8>, pattern: Seq<u8>, end: int) -> nat
    decreases end,
{
    if end <= 0 {
        0
    } else {
        occurrences_before(text, pattern, end - 1) + if occurs_at(text, pattern, end - 1) {
            1nat
        } else {
            0nat
        }
    }
}

/// Number of indices of `text` at which `pattern` occurs.
///
/// Overlapping occurrences each count. For the empty pattern every index of the
/// text counts.
pub open spec fn occurrences(text: Seq<u8>, pattern: Seq<u8>) -> nat {
    occurrences_before(text, pattern, text.len() as int)
}

/// `pattern` occurs somewhere in `text`.
pub open spec fn contains(text: Seq<u8>, pattern: Seq<u8>) -> bool {
    exists|at: int| occurs_at(text, pattern, at)
}

/// Number of lines of `text`: one per line feed, plus one for a last line that no
/// line feed ends.
pub open spec fn line_count(text: Seq<u8>) -> nat {
    occurrences(text, seq![NEWLINE]) + if text.len() > 0 && text.last() != NEWLINE {
        1nat
    } else {
        0nat
    }
}

/// The byte pattern that marks the start of an unsafe block.
pub open spec fn unsafe_block_pattern() -> Seq<u8> {
    "unsafe {".spec_bytes()
}

/// The byte pattern of the bare keyword.
pub open spec fn unsafe_word_pattern() -> Seq<u8> {
    "unsafe".spec_bytes()
}

/// The text that a file's raw bytes stand for: the bytes decoded as UTF-8, or the
/// empty text when they are not valid UTF-8.
pub open spec fn decoded(bytes: Seq<u8>) -> Seq<char> {
    if valid_utf8(bytes) {
        decode_utf8(bytes)
    } else {
        Seq::empty()
    }
}

/// At most `end` indices lie below `end`.
pub proof fn lemma_occurrences_before_bound(text: Seq<u8>, pattern: Seq<u8>, end: int)
    requires
        0 <= end,
    ensures
        occurrences_before(text, pattern, end) <= end,
    decreases end,
{
    if end > 0 {
        lemma_occurrences_before_bound(text, pattern, end - 1);
    }
}

/// The count is positive exactly when some index below `end` holds an occurrence.
pub proof fn lemma_occurrences_before_positive(text: Seq<u8>, pattern: Seq<u8>, end: int)
    ensures
        occurrences_before(text, pattern, end) > 0 <==> exists|at: int|
            at < end && occurs_at(text, pattern, at),
    decreases end,
{
    if end > 0 {
        lemma_occurrences_before_positive(text, pattern, end - 1);
        if occurs_at(text, pattern, end - 1) {
        } else if occurrences_before(text, pattern, end) > 0 {
            let at = choose|at: int| at < end - 1 && occurs_at(text, pattern, at);
            assert(at < end && occurs_at(text, pattern, at));
        } else {
            assert forall|at: int| at < end implies !occurs_at(text, pattern, at) by {
                if at < end - 1 {
                    assert(!(at < end - 1 && occurs_at(text, pattern, at)));
                }
            }
        }
    }
}

/// The bytes of the two patterns, written out.
pub proof fn lemma_pattern_bytes()
    ensures
        unsafe_block_pattern() =~= seq![0x75u8, 0x6eu8, 0x73u8, 0x61u8, 0x66u8, 0x65u8, 0x20u8, 0x7bu8],
        unsafe_word_pattern() =~= seq![0x75u8, 0x6eu8, 0x73u8, 0x61u8, 0x66u8, 0x65u8],
{
    reveal_strlit("unsafe {");
    reveal_strlit("unsafe");
    let block = "unsafe {"@;
    let word = "unsafe"@;
    assert(is_ascii_chars(block));
    assert(is_ascii_chars(word));
    is_ascii_chars_encode_utf8(block);
    is_ascii_chars_encode_utf8(word);
    assert forall|i: int| 0 <= i < 8 implies encode_utf8(block)[i] == block[i] as u8 by {
        let c = block[i];
    }
    assert forall|i: int| 0 <= i < 6 implies encode_utf8(word)[i] == word[i] as u8 by {
        let c = word[i];
    }
}

/// Two occurrences of `unsafe {` never overlap. Counting the indices at which the
/// pattern occurs is therefore the same as counting disjoint stretches of text
/// that hold it.
pub proof fn lemma_unsafe_blocks_are_disjoint(text: Seq<u8>, first: int, second: int)
    requires
        occurs_at(text, unsafe_block_pattern(), first),
        occurs_at(text, unsafe_block_pattern(), second),
        first < second,
    ensures
        first + 8 <= second,
{
    lemma_pattern_bytes();
    let pattern = unsafe_block_pattern();
    if second < first + 8 {
        let d = second - first;
        assert(text.subrange(first, first + 8)[d] == pattern[d]);
        assert(text.subrange(second, second + 8)[0] == pattern[0]);
        assert(text[second] == pattern[d]);
        assert(text[second] == pattern[0]);
    }
}

/// Wherever `unsafe {` occurs, the word `unsafe` occurs.
pub proof fn lemma_unsafe_block_mentions_unsafe(text: Seq<u8>)
    ensures
        occurrences(text, unsafe_block_pattern()) > 0 ==> contains(text, unsafe_word_pattern()),
{
    lemma_pattern_bytes();
    let block = unsafe_block_pattern();
    let word = unsafe_word_pattern();
    lemma_occurrences_before_positive(text, block, text.len() as int);
    if occurrences(text, block) > 0 {
        let at = choose|at: int| at < text.len() && occurs_at(text, block, at);
        assert forall|k: int| 0 <= k < 6 implies text[at + k] == word[k] by {
            assert(text.subrange(at, at + 8)[k] == block[k]);
        }
        assert(text.subrange(at, at + 6) =~= word);
        assert(occurs_at(text, word, at));
    }
}

/// A text has no more lines than bytes.
pub proof fn lemma_line_count_bound(text: Seq<u8>)
    ensures
        line_count(text) <= text.len(),
{
    let n = text.len() as int;
    lemma_occurrences_before_bound(text, seq![NEWLINE], n);
    if n > 0 && text.last() != NEWLINE {
        assert(!occurs_at(text, seq![NEWLINE], n - 1)) by {
            if occurs_at(text, seq![NEWLINE], n - 1) {
                assert(text.subrange(n - 1, n)[0] == seq![NEWLINE][0]);
            }
        }
        lemma_occurrences_before_bound(text, seq![NEWLINE], n - 1);
    }
}

/// Whether `pattern` occurs in `text` at index `at`.
pub fn matches_at(text: &[u8], pattern: &[u8], at: usize) -> (r: bool)
    ensures
        r == occurs_at(text@, pattern@, at as int),
{
    let n: usize = text.len();
    let m: usize = pattern.len();
    if at > n || m > n - at {
        return false;
    }
    let mut k: usize = 0;
    while k < m
        invariant
            n == text@.len(),
            m == pattern@.len(),
            at + m <= n,
            k <= m,
            forall|j: int| 0 <= j < k ==> text@[at + j] == pattern@[j],
        decreases m - k,
    {
        if text[at + k] != pattern[k] {
            assert(text@.subrange(at as int, at + m)[k as int] != pattern@[k as int]);
            return false;
        }
        k = k + 1;
    }
    assert(text@.subrange(at as int, at + m) =~= pattern@);
    true
}

/// Counts the indices of `text` at which `pattern` occurs.
pub fn count_occurrences(text: &[u8], pattern: &[u8]) -> (count: usize)
    ensures
        count == occurrences(text@, pattern@),
{
    let n: usize = text.len();
    let mut count: usize = 0;
    let mut at: usize = 0;
    while at < n
        invariant
            n == text@.len(),
            at <= n,
            count <= at,
            count == occurrences_before(text@, pattern@, at as int),
        decreases n - at,
    {
        if matches_at(text, pattern, at) {
            count = count + 1;
        }
        at = at + 1;
    }
    count
}

/// Whether `pattern` occurs anywhere in `text`.
pub fn contains_pattern(text: &[u8], pattern: &[u8]) -> (found: bool)
    ensures
        found == contains(text@, pattern@),
{
    let n: usize = text.len();
    let m: usize = pattern.len();
    if m > n {
        return false;
    }
    let last: usize = n - m;
    let mut at: usize = 0;
    while at < last
        invariant
            n == text@.len(),
            m == pattern@.len(),
            last == n - m,
            at <= last,
            forall|k: int| k < at ==> !occurs_at(text@, pattern@, k),
        decreases last - at,
    {
        if matches_at(text, pattern, at) {
            return true;
        }
        at = at + 1;
    }
    matches_at(text, pattern, last)
}

/// Counts the lines of `text`.
pub fn count_lines(text: &[u8]) -> (lines: usize)
    ensures
        lines == line_count(text@),
{
    let n: usize = text.len();
    let pattern: [u8; 1] = [NEWLINE];
    assert(pattern@ =~= seq![NEWLINE]);
    let feeds: usize = count_occurrences(text, pattern.as_slice());
    if n > 0 && text[n - 1] != NEWLINE {
        proof {
            lemma_line_count_bound(text@);
        }
        feeds + 1
    } else {
        feeds
    }
}

/// Counts the places where the text of an unsafe block opening, `unsafe {`, stands
/// in `text`, wherever that is: inside code, a comment or a string literal.
pub fn count_unsafe_blocks(text: &[u8]) -> (count: usize)
    ensures
        count == occurrences(text@, unsafe_block_pattern()),
{
    count_occurrences(text, "unsafe {".as_bytes())
}

/// Whether the word `unsafe` stands anywhere in `text`.
pub fn mentions_unsafe(text: &[u8]) -> (found: bool)
    ensures
        found == contains(text@, unsafe_word_pattern()),
{
    contains_pattern(text, "unsafe".as_bytes())
}

/// Whether two strings hold the same characters.
pub fn str_eq(a: &str, b: &str) -> (same: bool)
    ensures
        same == (a@ == b@),
{
    let x = a.as_bytes();
    let y = b.as_bytes();
    proof {
        encode_utf8_decode_utf8(a@);
        encode_utf8_decode_utf8(b@);
    }
    if x.len() != y.len() {
        return false;
    }
    let same = matches_at(x, y, 0);
    assert(x@.subrange(0, y@.len() as int) =~= x@);
    same
}

/// The bytes of a valid UTF-8 sequence as text; `None` for any other sequence.
///
/// Trusted: `std::str::from_utf8` accepts exactly the well-formed UTF-8 byte
/// sequences and hands back the same bytes, viewed as a string.
#[verifier::external_body]
fn utf8_text(bytes: &[u8]) -> (r: Option<&str>)
    ensures
        r is Some <==> valid_utf8(bytes@),
        r matches Some(text) ==> text.spec_bytes() == bytes@,
{
    std::str::from_utf8(bytes).ok()
}

/// Decodes a file's raw bytes. Bytes that are not valid UTF-8 give the empty text,
/// so such a file counts as having no lines and no constructs.
pub fn decode_text(bytes: &[u8]) -> (text: &str)
    ensures
        text@ == decoded(bytes@),
        text.spec_bytes() == encode_utf8(decoded(bytes@)),
{
    match utf8_text(bytes) {
        Some(text) => {
            proof {
                encode_utf8_decode_utf8(text@);
            }
            text
        },
        None => {
            proof {
                reveal_strlit("");
            }
            let text = "";
            assert(text@ =~= Seq::<char>::empty());
            text
        },
    }
}

} // verus!
