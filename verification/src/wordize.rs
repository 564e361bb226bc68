//! The tokenizer: splits raw source bytes into a sequence of positioned
//! words. Word boundaries are whitespace; additionally `{`, `}`, `/*` and
//! `*/` are isolated as standalone tokens even when not whitespace-separated.
//! No semantic interpretation happens here.

use vstd::prelude::*;
use crate::bytes::is_space;
use crate::bytes::is_space_byte;

verus! {

pub const LEFT_BRACE: u8 = 123;

pub const RIGHT_BRACE: u8 = 125;

pub const SLASH: u8 = 47;

pub const STAR: u8 = 42;

pub const LEFT_ANGLE: u8 = 60;

pub const RIGHT_ANGLE: u8 = 62;

/// A byte range within one source file.
#[derive(Debug, Clone, Copy, PartialEq, Eq, Structural)]
pub struct Span {
    pub start: usize,
    pub end: usize,
}

impl Span {
    /// The smallest span covering both operands.
    pub open spec fn spec_merge(self, other: Span) -> Span {
        Span {
            start: if self.start <= other.start { self.start } else { other.start },
            end: if self.end >= other.end { self.end } else { other.end },
        }
    }

    #[verifier::when_used_as_spec(spec_merge)]
    pub fn merge(self, other: Span) -> (r: Span)
        ensures
            r == self.spec_merge(other),
    {
        Span {
            start: if self.start <= other.start { self.start } else { other.start },
            end: if self.end >= other.end { self.end } else { other.end },
        }
    }
}

/// One word of source text: its file, its byte span and a copy of its bytes.
pub struct Word {
    /// Identifier of the source the word came from.
    pub file: u32,
    /// Byte range of the word within that source.
    pub span: Span,
    /// The bytes of the word.
    pub value: Vec<u8>,
}

/// Mathematical image of a [`Word`].
pub ghost struct WordV {
    pub file: u32,
    pub start: int,
    pub end: int,
    pub value: Seq<u8>,
}

impl View for Word {
    type V = WordV;

    open spec fn view(&self) -> WordV {
        WordV {
            file: self.file,
            start: self.span.start as int,
            end: self.span.end as int,
            value: self.value@,
        }
    }
}

impl Word {
    /// Start of the word's span.
    pub fn start(&self) -> (r: usize)
        ensures
            r == self@.start,
    {
        self.span.start
    }

    /// End of the word's span.
    pub fn end(&self) -> (r: usize)
        ensures
            r == self@.end,
    {
        self.span.end
    }

    /// A copy of this word.
    pub fn clone(&self) -> (r: Word)
        ensures
            r@ == self@,
    {
        proof {
            assert(self.value@.subrange(0, self.value@.len() as int) =~= self.value@);
        }
        Word {
            file: self.file,
            span: self.span,
            value: crate::bytes::sub_bytes(self.value.as_slice(), 0, self.value.len()),
        }
    }
}

/// Is the byte one of the two brace delimiters?
pub open spec fn is_brace(b: u8) -> bool {
    b == LEFT_BRACE || b == RIGHT_BRACE
}

/// Does a two-byte comment delimiter (`/*` or `*/`) start at `i`?
pub open spec fn comment_delim_at(s: Seq<u8>, i: int) -> bool {
    &&& 0 <= i
    &&& i + 1 < s.len()
    &&& ((s[i] == SLASH && s[i + 1] == STAR) || (s[i] == STAR && s[i + 1] == SLASH))
}

/// Does a word in progress end just before position `i`?
pub open spec fn boundary_at(s: Seq<u8>, i: int) -> bool {
    is_space(s[i]) || is_brace(s[i]) || comment_delim_at(s, i)
}

/// First position at or after `j` where a word ends: end of input,
/// whitespace, a brace, or the start of a comment delimiter.
pub open spec fn token_end(s: Seq<u8>, j: int) -> int
    decreases s.len() - j,
{
    if j >= s.len() {
        j
    } else if boundary_at(s, j) {
        j
    } else {
        token_end(s, j + 1)
    }
}

pub proof fn lemma_token_end_bounds(s: Seq<u8>, j: int)
    requires
        j <= s.len(),
    ensures
        j <= token_end(s, j) <= s.len(),
    decreases s.len() - j,
{
    if j < s.len() && !boundary_at(s, j) {
        lemma_token_end_bounds(s, j + 1);
    }
}

/// The word sequence of the source bytes from position `i` on. This is the
/// tokenizer's defining model: the executable tokenizer returns exactly this.
pub open spec fn spec_words(s: Seq<u8>, i: int, file: u32) -> Seq<WordV>
    decreases s.len() - i,
    via spec_words_dec
{
    if i < 0 || i >= s.len() {
        Seq::empty()
    } else if is_space(s[i]) {
        spec_words(s, i + 1, file)
    } else if is_brace(s[i]) {
        seq![WordV { file, start: i, end: i + 1, value: s.subrange(i, i + 1) }]
            + spec_words(s, i + 1, file)
    } else if comment_delim_at(s, i) {
        seq![WordV { file, start: i, end: i + 2, value: s.subrange(i, i + 2) }]
            + spec_words(s, i + 2, file)
    } else {
        let j = token_end(s, i + 1);
        seq![WordV { file, start: i, end: j, value: s.subrange(i, j) }]
            + spec_words(s, j, file)
    }
}

#[via_fn]
proof fn spec_words_dec(s: Seq<u8>, i: int, file: u32) {
    if 0 <= i < s.len() {
        lemma_token_end_bounds(s, i + 1);
    }
}

/// Well-formedness of the spec word sequence: words lie inside the source,
/// in strictly increasing order, and each carries a copy of its own bytes.
pub proof fn lemma_spec_words_wf(s: Seq<u8>, i: int, file: u32)
    requires
        0 <= i,
    ensures
        forall|k: int|
            0 <= k < spec_words(s, i, file).len() ==> {
                let w = #[trigger] spec_words(s, i, file)[k];
                &&& w.file == file
                &&& i <= w.start < w.end <= s.len()
                &&& w.value == s.subrange(w.start, w.end)
                &&& (k + 1 < spec_words(s, i, file).len() ==> w.end <= spec_words(
                    s,
                    i,
                    file,
                )[k + 1].start)
            },
    decreases s.len() - i,
{
    if i >= s.len() {
    } else if is_space(s[i]) {
        lemma_spec_words_wf(s, i + 1, file);
        assert forall|k: int|
            0 <= k < spec_words(s, i, file).len() implies {
                let w = #[trigger] spec_words(s, i, file)[k];
                &&& w.file == file
                &&& i <= w.start < w.end <= s.len()
                &&& w.value == s.subrange(w.start, w.end)
                &&& (k + 1 < spec_words(s, i, file).len() ==> w.end <= spec_words(
                    s,
                    i,
                    file,
                )[k + 1].start)
            } by {
            assert(spec_words(s, i, file)[k] == spec_words(s, i + 1, file)[k]);
            if k + 1 < spec_words(s, i, file).len() {
                assert(spec_words(s, i, file)[k + 1] == spec_words(s, i + 1, file)[k + 1]);
            }
        }
    } else {
        let res = spec_words(s, i, file);
        let b: int = if is_brace(s[i]) {
            i + 1
        } else if comment_delim_at(s, i) {
            i + 2
        } else {
            token_end(s, i + 1)
        };
        if !is_brace(s[i]) && !comment_delim_at(s, i) {
            lemma_token_end_bounds(s, i + 1);
        }
        lemma_spec_words_wf(s, b, file);
        let rest = spec_words(s, b, file);
        assert(res =~= seq![res[0]] + rest);
        assert forall|k: int|
            0 <= k < spec_words(s, i, file).len() implies {
                let w = #[trigger] spec_words(s, i, file)[k];
                &&& w.file == file
                &&& i <= w.start < w.end <= s.len()
                &&& w.value == s.subrange(w.start, w.end)
                &&& (k + 1 < spec_words(s, i, file).len() ==> w.end <= spec_words(
                    s,
                    i,
                    file,
                )[k + 1].start)
            } by {
            if k == 0 {
                if k + 1 < res.len() {
                    assert(res[1] == rest[0]);
                }
            } else {
                assert(res[k] == rest[k - 1]);
                if k + 1 < res.len() {
                    assert(res[k + 1] == rest[k]);
                }
            }
        }
    }
}

/// Is there a word boundary at position `j`? (`j` must be in bounds.)
fn boundary_at_exec(src: &[u8], j: usize) -> (r: bool)
    requires
        j < src@.len(),
    ensures
        r == boundary_at(src@, j as int),
{
    is_space_byte(src[j]) || src[j] == LEFT_BRACE || src[j] == RIGHT_BRACE || (j + 1 < src.len()
        && ((src[j] == SLASH && src[j + 1] == STAR) || (src[j] == STAR && src[j + 1] == SLASH)))
}

/// Split source bytes into words. Pure: the result is exactly
/// [`spec_words`] of the input.
pub fn tokenize(file: u32, src: &[u8]) -> (words: Vec<Word>)
    ensures
        words@.map_values(|w: Word| w@) == spec_words(src@, 0, file),
{
    let ghost all = spec_words(src@, 0, file);
    let mut words: Vec<Word> = Vec::new();
    let mut i: usize = 0;
    while i < src.len()
        invariant
            i <= src@.len(),
            all == words@.map_values(|w: Word| w@) + spec_words(src@, i as int, file),
            all == spec_words(src@, 0, file),
        decreases src@.len() - i,
    {
        let ghost pre = words@.map_values(|w: Word| w@);
        if is_space_byte(src[i]) {
            i = i + 1;
        } else if src[i] == LEFT_BRACE || src[i] == RIGHT_BRACE {
            let w = Word {
                file,
                span: Span { start: i, end: i + 1 },
                value: crate::bytes::sub_bytes(src, i, i + 1),
            };
            words.push(w);
            assert(words@.map_values(|w: Word| w@) =~= pre + seq![words@[pre.len() as int]@]);
            i = i + 1;
        } else if i + 1 < src.len() && ((src[i] == SLASH && src[i + 1] == STAR) || (src[i] == STAR
            && src[i + 1] == SLASH)) {
            let w = Word {
                file,
                span: Span { start: i, end: i + 2 },
                value: crate::bytes::sub_bytes(src, i, i + 2),
            };
            words.push(w);
            assert(words@.map_values(|w: Word| w@) =~= pre + seq![words@[pre.len() as int]@]);
            i = i + 2;
        } else {
            assert(!boundary_at(src@, i as int));
            let mut j: usize = i + 1;
            while j < src.len() && !boundary_at_exec(src, j)
                invariant
                    i < j <= src@.len(),
                    token_end(src@, i + 1) == token_end(src@, j as int),
                decreases src@.len() - j,
            {
                j = j + 1;
            }
            assert(token_end(src@, j as int) == j);
            let w = Word {
                file,
                span: Span { start: i, end: j },
                value: crate::bytes::sub_bytes(src, i, j),
            };
            words.push(w);
            assert(words@.map_values(|w: Word| w@) =~= pre + seq![words@[pre.len() as int]@]);
            i = j;
        }
    }
    assert(spec_words(src@, i as int, file) =~= Seq::<WordV>::empty());
    assert(words@.map_values(|w: Word| w@) =~= all);
    words
}

} // verus!
