//! The escaped, quoted rendering of a byte string for diagnostics.
use vstd::prelude::*;
use vstd::std_specs::iter::IteratorSpec;
use vstd::string::StringExecFns;
use vstd::utf8::*;
use crate::lossy::{
    chunk_end, chunks_of, first_chunk, lemma_chunk_end_bounds, ChunkBytes, Utf8Lossy, REPLACEMENT,
};
use crate::text::{escape_debug, string_push};

verus! {

/// The debug escape of `c`: what `char::escape_debug` yields for it, as a
/// sequence of characters.
pub uninterp spec fn escape_debug_of(c: char) -> Seq<char>;

/// A text with each character replaced by its debug escape.
pub open spec fn escaped(text: Seq<char>) -> Seq<char>
    decreases text.len(),
{
    if text.len() == 0 {
        Seq::empty()
    } else {
        escape_debug_of(text[0]) + escaped(text.drop_first())
    }
}

/// The upper-case hexadecimal digit for `n`, which is below 16.
pub open spec fn hex_digit(n: int) -> char
    recommends
        0 <= n < 16,
{
    seq!['0', '1', '2', '3', '4', '5', '6', '7', '8', '9', 'A', 'B', 'C', 'D', 'E', 'F'][n]
}

/// The escape of one ill-formed byte: a backslash, `x`, and two upper-case
/// hexadecimal digits.
pub open spec fn hex_escape(b: u8) -> Seq<char> {
    seq!['\\', 'x', hex_digit(b as int / 16), hex_digit(b as int % 16)]
}

/// The escapes of a run of ill-formed bytes, one for each byte.
pub open spec fn hex_escaped(bytes: Seq<u8>) -> Seq<char>
    decreases bytes.len(),
{
    if bytes.len() == 0 {
        Seq::empty()
    } else {
        hex_escape(bytes[0]) + hex_escaped(bytes.drop_first())
    }
}

/// The rendering of the chunks: each one's text, escaped, then each of its
/// ill-formed bytes as a hexadecimal escape.
pub open spec fn debug_chunks(chunks: Seq<ChunkBytes>) -> Seq<char>
    decreases chunks.len(),
{
    if chunks.len() == 0 {
        Seq::empty()
    } else {
        escaped(decode_utf8(chunks[0].valid)) + hex_escaped(chunks[0].broken) + debug_chunks(
            chunks.drop_first(),
        )
    }
}

/// The rendering of a byte string: its chunks, between double quotes.
pub open spec fn debug_text(s: Seq<u8>) -> Seq<char> {
    seq!['"'] + debug_chunks(chunks_of(s)) + seq!['"']
}

/// Whether the character `c` occurs nowhere in `text`.
pub open spec fn free_of(text: Seq<char>, c: char) -> bool {
    forall|i: int| 0 <= i < text.len() ==> text[i] != c
}

/// The well-formed text of the chunks, one after another, with nothing put in
/// for their ill-formed bytes.
pub open spec fn plain_text(chunks: Seq<ChunkBytes>) -> Seq<char>
    decreases chunks.len(),
{
    if chunks.len() == 0 {
        Seq::empty()
    } else {
        decode_utf8(chunks[0].valid) + plain_text(chunks.drop_first())
    }
}

/// Whether the debug escape of every other character is free of `c`. This
/// speaks of `char::escape_debug` and is not proved here.
pub open spec fn escapes_bring_no(c: char) -> bool {
    forall|d: char| d != c ==> free_of(#[trigger] escape_debug_of(d), c)
}

proof fn lemma_free_of_concat(a: Seq<char>, b: Seq<char>, c: char)
    ensures
        free_of(a + b, c) <==> free_of(a, c) && free_of(b, c),
{
    if free_of(a + b, c) {
        assert forall|i: int| 0 <= i < a.len() implies a[i] != c by {
            assert((a + b)[i] == a[i]);
        }
        assert forall|i: int| 0 <= i < b.len() implies b[i] != c by {
            assert((a + b)[a.len() + i] == b[i]);
        }
    }
}

/// The escapes of ill-formed bytes are made of a backslash, `x` and
/// hexadecimal digits: four characters for each byte, none of them outside
/// ASCII.
pub proof fn lemma_hex_escaped_is_ascii(bytes: Seq<u8>)
    ensures
        hex_escaped(bytes).len() == 4 * bytes.len(),
        forall|i: int| 0 <= i < hex_escaped(bytes).len() ==> (hex_escaped(bytes)[i] as u32) < 0x80,
    decreases bytes.len(),
{
    if bytes.len() > 0 {
        lemma_hex_escaped_is_ascii(bytes.drop_first());
        let head = hex_escape(bytes[0]);
        let tail = hex_escaped(bytes.drop_first());
        assert(0 <= bytes[0] as int / 16 < 16 && 0 <= bytes[0] as int % 16 < 16);
        assert forall|i: int| 0 <= i < (head + tail).len() implies ((head + tail)[i] as u32)
            < 0x80 by {
            if i >= 4 {
                assert((head + tail)[i] == tail[i - 4]);
            }
        }
    }
}

proof fn lemma_escaped_free_of(text: Seq<char>, c: char)
    requires
        escapes_bring_no(c),
        free_of(text, c),
    ensures
        free_of(escaped(text), c),
    decreases text.len(),
{
    if text.len() > 0 {
        assert(text[0] != c);
        assert forall|i: int| 0 <= i < text.drop_first().len() implies text.drop_first()[i]
            != c by {
            assert(text.drop_first()[i] == text[i + 1]);
        }
        lemma_escaped_free_of(text.drop_first(), c);
        lemma_free_of_concat(escape_debug_of(text[0]), escaped(text.drop_first()), c);
    }
}

proof fn lemma_debug_chunks_free_of(chunks: Seq<ChunkBytes>, c: char)
    requires
        escapes_bring_no(c),
        free_of(plain_text(chunks), c),
        c as u32 >= 0x80,
    ensures
        free_of(debug_chunks(chunks), c),
    decreases chunks.len(),
{
    if chunks.len() > 0 {
        let text = decode_utf8(chunks[0].valid);
        let rest = chunks.drop_first();
        lemma_free_of_concat(text, plain_text(rest), c);
        lemma_debug_chunks_free_of(rest, c);
        lemma_escaped_free_of(text, c);
        lemma_hex_escaped_is_ascii(chunks[0].broken);
        lemma_free_of_concat(escaped(text), hex_escaped(chunks[0].broken), c);
        lemma_free_of_concat(
            escaped(text) + hex_escaped(chunks[0].broken),
            debug_chunks(rest),
            c,
        );
    }
}

/// The rendering puts no replacement character in for ill-formed bytes: it
/// holds one only where the well-formed text of the input holds one, as far
/// as the debug escape of another character brings none.
pub proof fn lemma_debug_text_brings_no_replacement(s: Seq<u8>)
    ensures
        escapes_bring_no(REPLACEMENT) && free_of(plain_text(chunks_of(s)), REPLACEMENT)
            ==> free_of(debug_text(s), REPLACEMENT),
{
    if escapes_bring_no(REPLACEMENT) && free_of(plain_text(chunks_of(s)), REPLACEMENT) {
        lemma_debug_chunks_free_of(chunks_of(s), REPLACEMENT);
        let quote = seq!['"'];
        lemma_free_of_concat(quote, debug_chunks(chunks_of(s)), REPLACEMENT);
        lemma_free_of_concat(quote + debug_chunks(chunks_of(s)), quote, REPLACEMENT);
    }
}

/// The upper-case hexadecimal digit for `n`.
pub fn hex_digit_char(n: u8) -> (c: char)
    requires
        n < 16,
    ensures
        c == hex_digit(n as int),
{
    if n < 10 {
        (48 + n) as char
    } else {
        (55 + n) as char
    }
}

/// Writes out a valid unicode string with the correct escape sequences
pub fn write_str_escaped(f: &mut String, s: &str)
    ensures
        final(f)@ == old(f)@ + escaped(s@),
{
    let mut it = s.chars();
    let ghost start = f@;
    proof {
        broadcast use vstd::string::group_string_axioms;
    }
    loop
        invariant
            it.obeys_prophetic_iter_laws(),
            it.decrease() is Some,
            f@ + escaped(it.remaining()) == start + escaped(s@),
        ensures
            f@ == start + escaped(s@),
        decreases it.decrease().unwrap(),
    {
        let ghost before = f@;
        let ghost rest = it.remaining();
        proof {
            broadcast use vstd::string::group_string_axioms;
        }
        match it.next() {
            None => {
                assert(before + escaped(rest) =~= before);
                break ;
            },
            Some(c) => {
                let e = escape_debug(c);
                f.append(e.as_str());
                assert(f@ + escaped(it.remaining()) =~= before + escaped(rest));
            },
        }
    }
}

/// Writes out each byte as a backslash, `x` and two upper-case hexadecimal
/// digits.
pub fn write_hex_escaped(f: &mut String, bytes: &[u8])
    ensures
        final(f)@ == old(f)@ + hex_escaped(bytes@),
{
    let ghost start = f@;
    let mut i: usize = 0;
    assert(bytes@.skip(0) =~= bytes@);
    while i < bytes.len()
        invariant
            i <= bytes@.len(),
            f@ + hex_escaped(bytes@.skip(i as int)) == start + hex_escaped(bytes@),
        decreases bytes@.len() - i,
    {
        let ghost before = f@;
        let b = bytes[i];
        string_push(f, '\\');
        string_push(f, 'x');
        string_push(f, hex_digit_char(b / 16));
        string_push(f, hex_digit_char(b % 16));
        proof {
            let rest = bytes@.skip(i as int);
            assert(rest.drop_first() =~= bytes@.skip(i + 1));
            assert(f@ =~= before + hex_escape(b));
            assert(f@ + hex_escaped(bytes@.skip(i + 1)) =~= before + hex_escaped(rest));
        }
        i += 1;
    }
    assert(f@ + hex_escaped(bytes@.skip(i as int)) =~= f@);
}

/// The rendering of a non-empty input is that of its first chunk, then that
/// of the rest.
pub proof fn lemma_debug_chunks_unfold(s: Seq<u8>)
    requires
        s.len() > 0,
    ensures
        debug_chunks(chunks_of(s)) == escaped(decode_utf8(first_chunk(s).valid)) + hex_escaped(
            first_chunk(s).broken,
        ) + debug_chunks(chunks_of(s.skip(chunk_end(s)))),
{
    let rest = chunks_of(s.skip(chunk_end(s)));
    assert((seq![first_chunk(s)] + rest).drop_first() =~= rest);
}

/// Writes the quoted, escaped rendering of `slice` to `f`: well-formed text
/// with the debug escape of each character, and every ill-formed byte as a
/// hexadecimal escape of its own.
pub fn debug_fmt_bytestring(slice: &[u8], f: &mut String)
    ensures
        final(f)@ == old(f)@ + debug_text(slice@),
{
    let ghost start = f@;
    let ghost s = slice@;
    string_push(f, '"');
    let mut iter = Utf8Lossy::from_bytes(slice).chunks();
    loop
        invariant
            f@ + debug_chunks(chunks_of(iter@)) == start + seq!['"'] + debug_chunks(chunks_of(s)),
        ensures
            f@ == start + seq!['"'] + debug_chunks(chunks_of(s)),
        decreases iter@.len(),
    {
        let ghost before = f@;
        let ghost rest = iter@;
        match iter.next() {
            None => {
                assert(before + debug_chunks(chunks_of(rest)) =~= before);
                break ;
            },
            Some(chunk) => {
                write_str_escaped(f, chunk.valid);
                write_hex_escaped(f, chunk.broken);
                proof {
                    lemma_chunk_end_bounds(rest);
                    lemma_debug_chunks_unfold(rest);
                    assert(f@ + debug_chunks(chunks_of(iter@)) =~= before + debug_chunks(
                        chunks_of(rest),
                    ));
                }
            },
        }
    }
    string_push(f, '"');
    assert(f@ =~= start + debug_text(s));
}

} // verus!
