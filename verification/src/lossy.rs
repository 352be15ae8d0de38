//! Lossy UTF-8 decoding: a byte string is cut into chunks, each a run of
//! well-formed text followed by one maximal ill-formed subsequence.
use std::borrow::Cow;
use vstd::prelude::*;
use vstd::slice::*;
use vstd::string::StringExecFns;
use vstd::utf8::*;
use crate::encoding::{
    broken_len, char_width, lemma_broken_len_bounds, lemma_starts_well_formed, lemma_valid_iff_prefix_is_all,
    lemma_valid_prefix, lemma_valid_prefix_step, starts_well_formed, utf8_char_width,
    valid_prefix_len,
};
use crate::text::{str_from_utf8, string_push};

verus! {

/// Where the first chunk of `s` ends: after its well-formed head and, where
/// input is left, the maximal ill-formed subsequence that follows it.
pub open spec fn chunk_end(s: Seq<u8>) -> int {
    let p = valid_prefix_len(s);
    if p < s.len() {
        p + broken_len(s.skip(p))
    } else {
        p
    }
}

/// The first chunk ends past its start and within the input.
pub proof fn lemma_chunk_end_bounds(s: Seq<u8>)
    requires
        s.len() > 0,
    ensures
        0 <= valid_prefix_len(s) <= chunk_end(s) <= s.len(),
        0 < chunk_end(s),
        valid_prefix_len(s) < s.len() ==> valid_prefix_len(s) < chunk_end(s),
{
    lemma_valid_prefix(s);
    let p = valid_prefix_len(s);
    if p < s.len() {
        lemma_broken_len_bounds(s.skip(p));
    }
}

/// A chunk is without ill-formed bytes exactly where all the input that was
/// left is well-formed, so that it is the last chunk.
pub proof fn lemma_chunk_without_broken_is_last(s: Seq<u8>)
    requires
        s.len() > 0,
    ensures
        first_chunk(s).broken.len() == 0 <==> valid_utf8(s),
        first_chunk(s).broken.len() == 0 ==> chunk_end(s) == s.len(),
        1 <= first_chunk(s).broken.len() <= 3 || first_chunk(s).broken.len() == 0,
{
    lemma_chunk_end_bounds(s);
    lemma_valid_iff_prefix_is_all(s);
    let p = valid_prefix_len(s);
    if p < s.len() {
        lemma_valid_prefix(s);
        lemma_broken_len_bounds(s.skip(p));
    }
}

/// The bytes of one chunk: those of its well-formed text, and its ill-formed
/// bytes.
pub struct ChunkBytes {
    pub valid: Seq<u8>,
    pub broken: Seq<u8>,
}

/// The first chunk of a non-empty input.
pub open spec fn first_chunk(s: Seq<u8>) -> ChunkBytes {
    ChunkBytes {
        valid: s.subrange(0, valid_prefix_len(s)),
        broken: s.subrange(valid_prefix_len(s), chunk_end(s)),
    }
}

/// The chunks of `s`, in order. The empty input has none.
pub open spec fn chunks_of(s: Seq<u8>) -> Seq<ChunkBytes>
    decreases s.len(),
{
    if s.len() == 0 {
        Seq::empty()
    } else {
        proof {
            lemma_chunk_end_bounds(s);
        }
        seq![first_chunk(s)] + chunks_of(s.skip(chunk_end(s)))
    }
}

/// The bytes of all chunks, one after another.
pub open spec fn joined(chunks: Seq<ChunkBytes>) -> Seq<u8>
    decreases chunks.len(),
{
    if chunks.len() == 0 {
        Seq::empty()
    } else {
        chunks[0].valid + chunks[0].broken + joined(chunks.drop_first())
    }
}

/// The character that stands in for each maximal ill-formed subsequence.
pub const REPLACEMENT: char = '\u{FFFD}';

/// What stands in for the ill-formed bytes of a chunk: one replacement
/// character, or nothing where the chunk has none.
pub open spec fn marker(broken: Seq<u8>) -> Seq<char> {
    if broken.len() > 0 {
        seq![REPLACEMENT]
    } else {
        Seq::empty()
    }
}

/// The text of the chunks: each one's well-formed text, then one replacement
/// character where it has ill-formed bytes.
pub open spec fn text_of(chunks: Seq<ChunkBytes>) -> Seq<char>
    decreases chunks.len(),
{
    if chunks.len() == 0 {
        Seq::empty()
    } else {
        decode_utf8(chunks[0].valid) + marker(chunks[0].broken) + text_of(chunks.drop_first())
    }
}

/// The lossy conversion of `s` to text.
pub open spec fn lossy_text(s: Seq<u8>) -> Seq<char> {
    text_of(chunks_of(s))
}

/// The lossy text of a non-empty input is that of its first chunk, then that
/// of the rest.
pub proof fn lemma_lossy_text_unfold(s: Seq<u8>)
    requires
        s.len() > 0,
    ensures
        lossy_text(s) == decode_utf8(first_chunk(s).valid) + marker(first_chunk(s).broken)
            + lossy_text(s.skip(chunk_end(s))),
{
    let rest = chunks_of(s.skip(chunk_end(s)));
    assert((seq![first_chunk(s)] + rest).drop_first() =~= rest);
}

/// Byte reconstruction: the bytes of the chunks of `s`, read in order, are
/// `s`.
pub proof fn lemma_chunks_rebuild_input(s: Seq<u8>)
    ensures
        joined(chunks_of(s)) == s,
    decreases s.len(),
{
    if s.len() > 0 {
        lemma_chunk_end_bounds(s);
        let e = chunk_end(s);
        let rest = chunks_of(s.skip(e));
        lemma_chunks_rebuild_input(s.skip(e));
        assert((seq![first_chunk(s)] + rest).drop_first() =~= rest);
        assert(first_chunk(s).valid + first_chunk(s).broken + s.skip(e) =~= s);
    } else {
        assert(s =~= Seq::<u8>::empty());
    }
}

/// Round trip: the lossy conversion of well-formed UTF-8 is the text that it
/// encodes, with no replacement character added.
pub proof fn lemma_lossy_text_of_valid(s: Seq<u8>)
    requires
        valid_utf8(s),
    ensures
        lossy_text(s) == decode_utf8(s),
{
    if s.len() > 0 {
        lemma_valid_iff_prefix_is_all(s);
        lemma_lossy_text_unfold(s);
        assert(s.subrange(0, s.len() as int) =~= s);
        assert(s.skip(s.len() as int) =~= Seq::<u8>::empty());
        assert(s.subrange(s.len() as int, s.len() as int) =~= Seq::<u8>::empty());
        assert(decode_utf8(s) + Seq::<char>::empty() + Seq::<char>::empty() =~= decode_utf8(s));
    }
}

/// Round trip, from the text's side: encoding a text and converting the bytes
/// lossily gives the text back.
pub proof fn lemma_lossy_text_of_encoded(text: Seq<char>)
    ensures
        lossy_text(encode_utf8(text)) == text,
{
    encode_utf8_valid_utf8(text);
    encode_utf8_decode_utf8(text);
    lemma_lossy_text_of_valid(encode_utf8(text));
}

/// Lossy UTF-8 string.
pub struct Utf8Lossy<'a> {
    bytes: &'a [u8],
}

/// One step of lossy decoding: a run of well-formed text, then the ill-formed
/// bytes that ended it. `broken` is empty only in the last chunk of an input.
pub struct Utf8LossyChunk<'a> {
    /// Sequence of valid chars.
    /// Can be empty between broken UTF-8 chars.
    pub valid: &'a str,
    /// Single broken char, empty if none.
    /// Empty iff iterator item is last.
    pub broken: &'a [u8],
}

/// The cursor of a lossy decoding: the bytes not yet handed out.
pub struct Utf8LossyChunksIter<'a> {
    source: &'a [u8],
}

impl<'a> View for Utf8Lossy<'a> {
    type V = Seq<u8>;

    closed spec fn view(&self) -> Seq<u8> {
        self.bytes@
    }
}

impl<'a> View for Utf8LossyChunksIter<'a> {
    type V = Seq<u8>;

    closed spec fn view(&self) -> Seq<u8> {
        self.source@
    }
}

impl<'a> Utf8LossyChunk<'a> {
    /// The bytes that the chunk stands for: its text, encoded, then its
    /// ill-formed bytes.
    pub open spec fn bytes(&self) -> Seq<u8> {
        encode_utf8(self.valid@) + self.broken@
    }
}

impl<'a> Utf8Lossy<'a> {
    pub fn from_str(s: &'a str) -> (r: Utf8Lossy<'a>)
        ensures
            r@ == encode_utf8(s@),
    {
        Utf8Lossy { bytes: s.as_bytes() }
    }

    pub fn from_bytes(bytes: &'a [u8]) -> (r: Utf8Lossy<'a>)
        ensures
            r@ == bytes@,
    {
        Utf8Lossy { bytes }
    }

    /// A cursor at the start of the bytes. Calling it again starts over.
    pub fn chunks(&self) -> (r: Utf8LossyChunksIter<'a>)
        ensures
            r@ == self@,
    {
        Utf8LossyChunksIter { source: self.bytes }
    }

    /// The bytes as text, each maximal ill-formed subsequence replaced by one
    /// replacement character. Well-formed input is lent out as it is; any
    /// other is rebuilt in a text of its own.
    pub fn to_string_lossy(&self) -> (r: Cow<'a, str>)
        ensures
            r@ == lossy_text(self@),
            r matches Cow::Borrowed(_) <==> valid_utf8(self@),
    {
        let ghost s = self@;
        let mut iter = self.chunks();
        let first = match iter.next() {
            None => {
                proof {
                    reveal_strlit("");
                    assert(lossy_text(s) =~= ""@);
                }
                return Cow::Borrowed("");
            },
            Some(chunk) => chunk,
        };
        proof {
            lemma_chunk_end_bounds(s);
            lemma_valid_iff_prefix_is_all(s);
            lemma_lossy_text_unfold(s);
        }
        if first.broken.len() == 0 {
            proof {
                lemma_lossy_text_of_valid(s);
                assert(s.subrange(0, s.len() as int) =~= s);
            }
            return Cow::Borrowed(first.valid);
        }
        let mut res = String::new();
        res.append(first.valid);
        string_push(&mut res, REPLACEMENT);
        loop
            invariant
                res@ + lossy_text(iter@) == lossy_text(s),
            ensures
                res@ == lossy_text(s),
            decreases iter@.len(),
        {
            let ghost rest = iter@;
            let ghost before = res@;
            match iter.next() {
                None => {
                    assert(res@ + lossy_text(rest) =~= res@);
                    break ;
                },
                Some(chunk) => {
                    res.append(chunk.valid);
                    if chunk.broken.len() > 0 {
                        string_push(&mut res, REPLACEMENT);
                    }
                    proof {
                        lemma_chunk_end_bounds(rest);
                        lemma_lossy_text_unfold(rest);
                        assert(res@ + lossy_text(iter@) =~= before + lossy_text(rest));
                    }
                },
            }
        }
        Cow::Owned(res)
    }
}

fn safe_get(xs: &[u8], i: usize) -> (b: u8)
    ensures
        b == (if i < xs@.len() {
            xs@[i as int]
        } else {
            0u8
        }),
{
    if i < xs.len() {
        xs[i]
    } else {
        0
    }
}

fn is_continuation(b: u8) -> (r: bool)
    ensures
        r == is_continuation_byte(b),
{
    0x80 <= b && b <= 0xBF
}

/// Examines the sequence that starts at `i`. Where it is complete and
/// well-formed, the result is its length and `true`; otherwise the length of
/// the maximal ill-formed subsequence that starts there, and `false`.
pub fn sequence_at(source: &[u8], i: usize) -> (r: (usize, bool))
    requires
        i < source@.len(),
    ensures
        r.1 == starts_well_formed(source@.skip(i as int)),
        r.1 ==> r.0 == char_width(source@[i as int]),
        !r.1 ==> r.0 == broken_len(source@.skip(i as int)),
        1 <= r.0 <= 4,
        i + r.0 <= source@.len(),
{
    let byte = source[i];
    if byte < 128 {
        return (1, true);
    }
    let w = utf8_char_width(byte);
    if w == 2 {
        if !is_continuation(safe_get(source, i + 1)) {
            return (1, false);
        }
        (2, true)
    } else if w == 3 {
        let second = safe_get(source, i + 1);
        let fits = if byte == 0xE0 {
            0xA0 <= second && second <= 0xBF
        } else if byte == 0xED {
            0x80 <= second && second <= 0x9F
        } else {
            0x80 <= second && second <= 0xBF
        };
        if !fits {
            return (1, false);
        }
        if !is_continuation(safe_get(source, i + 2)) {
            return (2, false);
        }
        (3, true)
    } else if w == 4 {
        let second = safe_get(source, i + 1);
        let fits = if byte == 0xF0 {
            0x90 <= second && second <= 0xBF
        } else if byte == 0xF4 {
            0x80 <= second && second <= 0x8F
        } else {
            0x80 <= second && second <= 0xBF
        };
        if !fits {
            return (1, false);
        }
        if !is_continuation(safe_get(source, i + 2)) {
            return (2, false);
        }
        if !is_continuation(safe_get(source, i + 3)) {
            return (3, false);
        }
        (4, true)
    } else {
        (1, false)
    }
}

impl<'a> Utf8LossyChunksIter<'a> {
    /// The next chunk, or `None` once the input is used up. The chunk holds
    /// the longest well-formed head of what is left, as text, and the maximal
    /// ill-formed subsequence behind it; the cursor moves past both.
    pub fn next(&mut self) -> (r: Option<Utf8LossyChunk<'a>>)
        ensures
            r is None <==> old(self)@.len() == 0,
            r is None ==> final(self)@ == old(self)@,
            r matches Some(chunk) ==> {
                let s = old(self)@;
                &&& encode_utf8(chunk.valid@) == first_chunk(s).valid
                &&& chunk.valid@ == decode_utf8(first_chunk(s).valid)
                &&& chunk.broken@ == first_chunk(s).broken
                &&& chunk.bytes() == s.subrange(0, chunk_end(s))
                &&& final(self)@ == s.skip(chunk_end(s))
                &&& 0 < chunk_end(s) <= s.len()
            },
    {
        let source = self.source;
        if source.len() == 0 {
            return None;
        }
        let ghost s = source@;
        let mut i: usize = 0;
        proof {
            assert(s.skip(0) =~= s);
            assert(s.subrange(0, 0) =~= Seq::<u8>::empty());
        }
        while i < source.len()
            invariant
                s == source@,
                s == old(self)@,
                s.len() > 0,
                0 <= i <= s.len(),
                valid_prefix_len(s) == i + valid_prefix_len(s.skip(i as int)),
                partial_valid_utf8(s, i as int),
            decreases s.len() - i,
        {
            let (n, well_formed) = sequence_at(source, i);
            if !well_formed {
                let head = slice_subrange(source, 0, i);
                let valid = match str_from_utf8(head) {
                    Some(text) => text,
                    None => vstd::pervasive::unreached(),
                };
                let broken = slice_subrange(source, i, i + n);
                self.source = slice_subrange(source, i + n, source.len());
                proof {
                    decode_utf8_encode_utf8(s.subrange(0, i as int));
                    encode_utf8_decode_utf8(valid@);
                    assert(s.subrange(0, i as int) + s.subrange(i as int, i + n) =~= s.subrange(
                        0,
                        i + n,
                    ));
                }
                return Some(Utf8LossyChunk { valid, broken });
            }
            proof {
                lemma_valid_prefix_step(s, i as int);
                lemma_starts_well_formed(s.skip(i as int));
                partial_valid_utf8_extend(s, i as int);
            }
            i += n;
        }
        let valid = match str_from_utf8(source) {
            Some(text) => text,
            None => {
                proof {
                    assert(s.subrange(0, s.len() as int) =~= s);
                }
                vstd::pervasive::unreached()
            },
        };
        proof {
            assert(s.subrange(0, s.len() as int) =~= s);
            encode_utf8_decode_utf8(valid@);
            assert(s + s.subrange(s.len() as int, s.len() as int) =~= s);
        }
        self.source = slice_subrange(source, i, i);
        Some(Utf8LossyChunk { valid, broken: slice_subrange(source, i, i) })
    }
}

} // verus!
