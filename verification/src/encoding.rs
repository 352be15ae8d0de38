//! The UTF-8 grammar, stated by byte ranges, and its agreement with the
//! definition of well-formed UTF-8 that string views are built on.
use vstd::prelude::*;
use vstd::utf8::*;

verus! {

/// The number of bytes that a sequence led by `b` must have: 1 for ASCII, 2 to
/// 4 for the lead bytes of longer sequences, 0 for a byte that can start none
/// (a continuation byte, `0xC0`, `0xC1`, and `0xF5` and above).
pub open spec fn char_width(b: u8) -> int {
    if b < 0x80 {
        1
    } else if 0xC2 <= b <= 0xDF {
        2
    } else if 0xE0 <= b <= 0xEF {
        3
    } else if 0xF0 <= b <= 0xF4 {
        4
    } else {
        0
    }
}

/// Whether `b` may follow the lead byte `lead` as the second byte of a
/// sequence. The narrowed ranges shut out overlong forms (`0xE0`, `0xF0`),
/// surrogates (`0xED`) and code points past `U+10FFFF` (`0xF4`).
pub open spec fn second_byte_fits(lead: u8, b: u8) -> bool {
    if lead == 0xE0 {
        0xA0 <= b <= 0xBF
    } else if lead == 0xED {
        0x80 <= b <= 0x9F
    } else if lead == 0xF0 {
        0x90 <= b <= 0xBF
    } else if lead == 0xF4 {
        0x80 <= b <= 0x8F
    } else {
        0x80 <= b <= 0xBF
    }
}

/// How many bytes at the head of `s` follow the pattern of one well-formed
/// sequence before the pattern breaks, the input ends, or the sequence is
/// complete. It is 0 only where the first byte can start no sequence.
pub open spec fn matched_len(s: Seq<u8>) -> int
    recommends
        s.len() > 0,
{
    let w = char_width(s[0]);
    if w <= 1 {
        w
    } else if s.len() < 2 || !second_byte_fits(s[0], s[1]) {
        1
    } else if w == 2 {
        2
    } else if s.len() < 3 || !is_continuation_byte(s[2]) {
        2
    } else if w == 3 {
        3
    } else if s.len() < 4 || !is_continuation_byte(s[3]) {
        3
    } else {
        4
    }
}

/// Whether `s` begins with one complete well-formed sequence.
pub open spec fn starts_well_formed(s: Seq<u8>) -> bool {
    s.len() > 0 && char_width(s[0]) > 0 && matched_len(s) == char_width(s[0])
}

/// The length of the maximal ill-formed subsequence at the head of `s`, where
/// `s` does not begin with a well-formed sequence: the longest head of `s`
/// that could still begin a well-formed sequence, and one byte where the first
/// byte can begin none.
pub open spec fn broken_len(s: Seq<u8>) -> int
    recommends
        s.len() > 0,
        !starts_well_formed(s),
{
    if matched_len(s) == 0 {
        1
    } else {
        matched_len(s)
    }
}

/// The length of the longest head of `s` that is a run of complete
/// well-formed sequences.
pub open spec fn valid_prefix_len(s: Seq<u8>) -> int
    decreases s.len(),
{
    if starts_well_formed(s) {
        char_width(s[0]) + valid_prefix_len(s.skip(char_width(s[0])))
    } else {
        0
    }
}

/// For each byte, the width of the sequence that it leads, after RFC 3629.
pub const UTF8_CHAR_WIDTH: [u8; 256] = [
    1, 1, 1, 1, 1, 1, 1, 1, 1, 1, 1, 1, 1, 1, 1, 1,
    1, 1, 1, 1, 1, 1, 1, 1, 1, 1, 1, 1, 1, 1, 1, 1, // 0x1F
    1, 1, 1, 1, 1, 1, 1, 1, 1, 1, 1, 1, 1, 1, 1, 1,
    1, 1, 1, 1, 1, 1, 1, 1, 1, 1, 1, 1, 1, 1, 1, 1, // 0x3F
    1, 1, 1, 1, 1, 1, 1, 1, 1, 1, 1, 1, 1, 1, 1, 1,
    1, 1, 1, 1, 1, 1, 1, 1, 1, 1, 1, 1, 1, 1, 1, 1, // 0x5F
    1, 1, 1, 1, 1, 1, 1, 1, 1, 1, 1, 1, 1, 1, 1, 1,
    1, 1, 1, 1, 1, 1, 1, 1, 1, 1, 1, 1, 1, 1, 1, 1, // 0x7F
    0, 0, 0, 0, 0, 0, 0, 0, 0, 0, 0, 0, 0, 0, 0, 0,
    0, 0, 0, 0, 0, 0, 0, 0, 0, 0, 0, 0, 0, 0, 0, 0, // 0x9F
    0, 0, 0, 0, 0, 0, 0, 0, 0, 0, 0, 0, 0, 0, 0, 0,
    0, 0, 0, 0, 0, 0, 0, 0, 0, 0, 0, 0, 0, 0, 0, 0, // 0xBF
    0, 0, 2, 2, 2, 2, 2, 2, 2, 2, 2, 2, 2, 2, 2, 2,
    2, 2, 2, 2, 2, 2, 2, 2, 2, 2, 2, 2, 2, 2, 2, 2, // 0xDF
    3, 3, 3, 3, 3, 3, 3, 3, 3, 3, 3, 3, 3, 3, 3, 3, // 0xEF
    4, 4, 4, 4, 4, 0, 0, 0, 0, 0, 0, 0, 0, 0, 0, 0, // 0xFF
];

/// Given a first byte, determines how many bytes are in this UTF-8 character.
pub fn utf8_char_width(b: u8) -> (w: usize)
    ensures
        w == char_width(b),
{
    UTF8_CHAR_WIDTH[b as usize] as usize
}

proof fn lemma_two_byte_code_point(b0: u8, b1: u8)
    requires
        0xC0 <= b0 <= 0xDF,
        0x80 <= b1 <= 0xBF,
    ensures
        0x80 <= codepoint_width_2(b0, b1) <==> 0xC2 <= b0,
        codepoint_width_2(b0, b1) < 0x800,
{
    let cp = (((b0 & 0x1F) as u32) << 6) | ((b1 & 0x3F) as u32);
    assert((0x80 <= cp <==> 0xC2 <= b0) && cp < 0x800) by (bit_vector)
        requires
            0xC0 <= b0 <= 0xDF,
            0x80 <= b1 <= 0xBF,
            cp == (((b0 & 0x1F) as u32) << 6) | ((b1 & 0x3F) as u32),
    ;
}

proof fn lemma_three_byte_code_point(b0: u8, b1: u8, b2: u8)
    requires
        0xE0 <= b0 <= 0xEF,
        0x80 <= b1 <= 0xBF,
        0x80 <= b2 <= 0xBF,
    ensures
        (0x800 <= codepoint_width_3(b0, b1, b2) && not_surrogate(codepoint_width_3(b0, b1, b2)))
            <==> second_byte_fits(b0, b1),
{
    let cp = (((b0 & 0x0F) as u32) << 12) | (((b1 & 0x3F) as u32) << 6) | ((b2 & 0x3F) as u32);
    assert((0x800 <= cp && !(0xD800 <= cp <= 0xDFFF)) <==> ((b0 == 0xE0 ==> 0xA0 <= b1) && (b0
        == 0xED ==> b1 <= 0x9F))) by (bit_vector)
        requires
            0xE0 <= b0 <= 0xEF,
            0x80 <= b1 <= 0xBF,
            0x80 <= b2 <= 0xBF,
            cp == (((b0 & 0x0F) as u32) << 12) | (((b1 & 0x3F) as u32) << 6) | ((b2 & 0x3F) as u32),
    ;
}

proof fn lemma_four_byte_code_point(b0: u8, b1: u8, b2: u8, b3: u8)
    requires
        0xF0 <= b0 <= 0xF7,
        0x80 <= b1 <= 0xBF,
        0x80 <= b2 <= 0xBF,
        0x80 <= b3 <= 0xBF,
    ensures
        0x10000 <= codepoint_width_4(b0, b1, b2, b3) <= 0x10FFFF <==> (b0 <= 0xF4
            && second_byte_fits(b0, b1)),
        0x10000 <= codepoint_width_4(b0, b1, b2, b3) ==> not_surrogate(
            codepoint_width_4(b0, b1, b2, b3),
        ),
{
    let cp = (((b0 & 0x07) as u32) << 18) | (((b1 & 0x3F) as u32) << 12) | (((b2 & 0x3F) as u32)
        << 6) | ((b3 & 0x3F) as u32);
    assert((0x10000 <= cp && cp <= 0x10FFFF) <==> (b0 <= 0xF4 && (b0 == 0xF0 ==> 0x90 <= b1) && (b0
        == 0xF4 ==> b1 <= 0x8F))) by (bit_vector)
        requires
            0xF0 <= b0 <= 0xF7,
            0x80 <= b1 <= 0xBF,
            0x80 <= b2 <= 0xBF,
            0x80 <= b3 <= 0xBF,
            cp == (((b0 & 0x07) as u32) << 18) | (((b1 & 0x3F) as u32) << 12) | (((b2
                & 0x3F) as u32) << 6) | ((b3 & 0x3F) as u32),
    ;
}

/// The byte-range grammar accepts exactly the heads that are one well-formed
/// scalar encoding, and gives such a head its length.
pub proof fn lemma_starts_well_formed(s: Seq<u8>)
    ensures
        starts_well_formed(s) <==> valid_first_scalar(s),
        starts_well_formed(s) ==> length_of_first_scalar(s) == char_width(s[0]) && char_width(s[0])
            <= s.len(),
{
    if s.len() > 0 {
        let b0 = s[0];
        if b0 < 0x80 {
        } else if 0xC0 <= b0 <= 0xDF {
            if s.len() >= 2 && is_continuation_byte(s[1]) {
                lemma_two_byte_code_point(b0, s[1]);
            }
        } else if 0xE0 <= b0 <= 0xEF {
            if s.len() >= 3 && is_continuation_byte(s[1]) && is_continuation_byte(s[2]) {
                lemma_three_byte_code_point(b0, s[1], s[2]);
            }
        } else if 0xF0 <= b0 <= 0xF7 {
            if s.len() >= 4 && is_continuation_byte(s[1]) && is_continuation_byte(s[2])
                && is_continuation_byte(s[3]) {
                lemma_four_byte_code_point(b0, s[1], s[2], s[3]);
            }
        }
    }
}

/// A maximal ill-formed subsequence is one to three bytes long and lies
/// within the input.
pub proof fn lemma_broken_len_bounds(s: Seq<u8>)
    requires
        s.len() > 0,
    ensures
        1 <= broken_len(s) <= 4,
        broken_len(s) <= s.len(),
        !starts_well_formed(s) ==> broken_len(s) <= 3,
{
}

/// Whether `p` is the head of one complete well-formed sequence.
pub open spec fn begins_a_sequence(p: Seq<u8>) -> bool {
    exists|t: Seq<u8>|
        #![trigger starts_well_formed(t)]
        starts_well_formed(t) && p.len() <= char_width(t[0]) && t.subrange(0, p.len() as int)
            == p
}

/// A second byte that may follow `lead`.
spec fn a_second_byte(lead: u8) -> u8 {
    if lead == 0xE0 {
        0xA0
    } else if lead == 0xF0 {
        0x90
    } else {
        0x80
    }
}

/// The maximal ill-formed subsequence is the longest head of the input that
/// could still begin a well-formed sequence: the run itself begins one,
/// unless its first byte can begin none, and the run with the byte that
/// follows it begins none.
pub proof fn lemma_broken_run_is_maximal(s: Seq<u8>)
    requires
        s.len() > 0,
        !starts_well_formed(s),
    ensures
        char_width(s[0]) > 0 ==> begins_a_sequence(s.subrange(0, broken_len(s))),
        char_width(s[0]) == 0 ==> broken_len(s) == 1 && !begins_a_sequence(s.subrange(0, 1)),
        broken_len(s) < s.len() ==> !begins_a_sequence(s.subrange(0, broken_len(s) + 1)),
{
    let m = broken_len(s);
    let w = char_width(s[0]);
    if w > 0 {
        let b1 = if m >= 2 {
            s[1]
        } else {
            a_second_byte(s[0])
        };
        let b2 = if m >= 3 {
            s[2]
        } else {
            0x80u8
        };
        let t = seq![s[0], b1, b2, 0x80u8].subrange(0, w);
        assert(starts_well_formed(t));
        assert(t.subrange(0, m) =~= s.subrange(0, m));
    } else {
        let p = s.subrange(0, 1);
        assert forall|t: Seq<u8>| starts_well_formed(t) && p.len() <= char_width(t[0]) implies #[trigger] t.subrange(
            0,
            p.len() as int,
        ) != p by {
            if t.subrange(0, 1) == p {
                assert(t.subrange(0, 1)[0] == p[0]);
            }
        }
    }
    if m < s.len() {
        let p = s.subrange(0, m + 1);
        assert forall|t: Seq<u8>| starts_well_formed(t) && p.len() <= char_width(t[0]) implies #[trigger] t.subrange(
            0,
            p.len() as int,
        ) != p by {
            let h = t.subrange(0, m + 1);
            if h == p {
                assert(h[0] == p[0]);
                assert(h[m] == p[m]);
                assert(m >= 2 ==> h[1] == p[1]);
                assert(m >= 3 ==> h[2] == p[2]);
            }
        }
    }
}

/// The well-formed head of `s` lies within `s`, is itself well-formed UTF-8,
/// and is followed by no further well-formed sequence.
pub proof fn lemma_valid_prefix(s: Seq<u8>)
    ensures
        0 <= valid_prefix_len(s) <= s.len(),
        valid_utf8(s.subrange(0, valid_prefix_len(s))),
        !starts_well_formed(s.skip(valid_prefix_len(s))),
    decreases s.len(),
{
    lemma_starts_well_formed(s);
    if starts_well_formed(s) {
        let w = char_width(s[0]);
        let rest = s.skip(w);
        lemma_valid_prefix(rest);
        let p = valid_prefix_len(rest);
        assert(rest.skip(p) =~= s.skip(w + p));
        assert(partial_valid_utf8(s, 0)) by {
            assert(s.subrange(0, 0) =~= Seq::<u8>::empty());
        }
        assert(s.subrange(0, s.len() as int) =~= s);
        assert(s.skip(0) =~= s);
        partial_valid_utf8_extend(s, 0);
        assert(s.subrange(0, w + p) =~= s.subrange(0, w) + rest.subrange(0, p));
        valid_utf8_concat(s.subrange(0, w), rest.subrange(0, p));
    } else {
        assert(s.subrange(0, 0) =~= Seq::<u8>::empty());
        assert(s.skip(0) =~= s);
    }
}

/// Stepping over one well-formed sequence at `i` keeps the count of the
/// well-formed head.
pub proof fn lemma_valid_prefix_step(s: Seq<u8>, i: int)
    requires
        0 <= i < s.len(),
        valid_prefix_len(s) == i + valid_prefix_len(s.skip(i)),
        starts_well_formed(s.skip(i)),
    ensures
        i + char_width(s[i]) <= s.len(),
        valid_prefix_len(s) == i + char_width(s[i]) + valid_prefix_len(
            s.skip(i + char_width(s[i])),
        ),
{
    let t = s.skip(i);
    lemma_starts_well_formed(t);
    assert(t.skip(char_width(t[0])) =~= s.skip(i + char_width(s[i])));
}

/// Well-formed UTF-8 is its own well-formed head.
pub proof fn lemma_valid_prefix_of_valid(s: Seq<u8>)
    requires
        valid_utf8(s),
    ensures
        valid_prefix_len(s) == s.len(),
    decreases s.len(),
{
    if s.len() > 0 {
        lemma_starts_well_formed(s);
        lemma_valid_prefix_of_valid(s.skip(char_width(s[0])));
    }
}

/// A byte string whose well-formed head is the whole of it is well-formed
/// UTF-8, and only such a one.
pub proof fn lemma_valid_iff_prefix_is_all(s: Seq<u8>)
    ensures
        valid_utf8(s) <==> valid_prefix_len(s) == s.len(),
{
    if valid_utf8(s) {
        lemma_valid_prefix_of_valid(s);
    }
    if valid_prefix_len(s) == s.len() {
        lemma_valid_prefix(s);
        assert(s.subrange(0, s.len() as int) =~= s);
    }
}

} // verus!
