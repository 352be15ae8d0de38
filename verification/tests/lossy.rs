use embedded_ffi::encoding::utf8_char_width;
use embedded_ffi::lossy::{Utf8Lossy, Utf8LossyChunksIter};
use embedded_ffi::os_str::OsStr;
use std::borrow::Cow;

fn collect(bytes: &[u8]) -> Vec<(String, Vec<u8>)> {
    let mut iter: Utf8LossyChunksIter = Utf8Lossy::from_bytes(bytes).chunks();
    let mut out = Vec::new();
    while let Some(chunk) = iter.next() {
        out.push((chunk.valid.to_string(), chunk.broken.to_vec()));
    }
    assert!(iter.next().is_none());
    out
}

fn chunk(valid: &str, broken: &[u8]) -> (String, Vec<u8>) {
    (valid.to_string(), broken.to_vec())
}

fn lossy(bytes: &[u8]) -> String {
    match OsStr::from_bytes(bytes).to_string_lossy() {
        Cow::Borrowed(s) => s.to_string(),
        Cow::Owned(s) => s,
    }
}

#[test]
fn char_width_of_every_byte() {
    for b in 0u8..=255 {
        let expected = match b {
            0x00..=0x7F => 1,
            0xC2..=0xDF => 2,
            0xE0..=0xEF => 3,
            0xF0..=0xF4 => 4,
            _ => 0,
        };
        assert_eq!(utf8_char_width(b), expected, "byte {:#04x}", b);
    }
}

#[test]
fn lone_continuation_byte_is_one_broken_run() {
    let input = b"\x66\x6f\x80\x6f";
    assert_eq!(collect(input), vec![chunk("fo", &[0x80]), chunk("o", &[])]);
    assert_eq!(lossy(input), "fo\u{FFFD}o");
}

#[test]
fn truncated_sequence_at_end_of_input() {
    assert_eq!(collect(b"a\xE2\x82"), vec![chunk("a", &[0xE2, 0x82])]);
    assert_eq!(lossy(b"a\xE2\x82"), "a\u{FFFD}");
    assert_eq!(collect(b"\xF0\x9F\x98"), vec![chunk("", &[0xF0, 0x9F, 0x98])]);
    assert_eq!(collect(b"\xF0\x9F"), vec![chunk("", &[0xF0, 0x9F])]);
    assert_eq!(collect(b"\xF0"), vec![chunk("", &[0xF0])]);
    assert_eq!(collect(b"ab\xC3"), vec![chunk("ab", &[0xC3])]);
}

#[test]
fn empty_input_has_no_chunks() {
    assert_eq!(collect(b""), vec![]);
    assert_eq!(lossy(b""), "");
    assert!(matches!(OsStr::from_bytes(b"").to_string_lossy(), Cow::Borrowed("")));
}

#[test]
fn well_formed_input_is_one_chunk_and_is_lent_out() {
    let text = "h\u{e9}llo, w\u{f6}rld \u{20AC} \u{1D11E}\0";
    assert_eq!(collect(text.as_bytes()), vec![chunk(text, &[])]);
    match OsStr::new(text).to_string_lossy() {
        Cow::Borrowed(s) => assert_eq!(s, text),
        Cow::Owned(_) => panic!("well-formed text was copied"),
    }
    assert!(!lossy(text.as_bytes()).contains('\u{FFFD}'));
}

#[test]
fn ill_formed_input_is_rebuilt() {
    assert!(matches!(OsStr::from_bytes(b"a\xFF").to_string_lossy(), Cow::Owned(_)));
}

#[test]
fn sequence_broken_in_the_middle() {
    assert_eq!(collect(b"\xE2\x82\x41"), vec![chunk("", &[0xE2, 0x82]), chunk("A", &[])]);
    assert_eq!(collect(b"\xC3\x28"), vec![chunk("", &[0xC3]), chunk("(", &[])]);
    assert_eq!(
        collect(b"\xF0\x90\x80\x41"),
        vec![chunk("", &[0xF0, 0x90, 0x80]), chunk("A", &[])]
    );
}

#[test]
fn overlong_surrogate_and_out_of_range_forms() {
    assert_eq!(collect(b"\xC0\x80"), vec![chunk("", &[0xC0]), chunk("", &[0x80])]);
    assert_eq!(
        collect(b"\xE0\x80\x80"),
        vec![chunk("", &[0xE0]), chunk("", &[0x80]), chunk("", &[0x80])]
    );
    assert_eq!(
        collect(b"\xED\xA0\x80"),
        vec![chunk("", &[0xED]), chunk("", &[0xA0]), chunk("", &[0x80])]
    );
    assert_eq!(
        collect(b"\xF4\x90\x80\x80"),
        vec![chunk("", &[0xF4]), chunk("", &[0x90]), chunk("", &[0x80]), chunk("", &[0x80])]
    );
    assert_eq!(collect(b"\xF5\x80"), vec![chunk("", &[0xF5]), chunk("", &[0x80])]);
    assert_eq!(lossy(b"\xED\xA0\x80"), "\u{FFFD}\u{FFFD}\u{FFFD}");
    assert_eq!(lossy(b"\xED\x9F\xBF"), "\u{D7FF}");
    assert_eq!(lossy(b"\xF4\x8F\xBF\xBF"), "\u{10FFFF}");
    assert_eq!(lossy(b"\xE0\xA0\x80"), "\u{800}");
    assert_eq!(lossy(b"\xF0\x90\x80\x80"), "\u{10000}");
}

#[test]
fn consecutive_broken_runs_have_empty_text_between() {
    assert_eq!(
        collect(b"\x80\x80a"),
        vec![chunk("", &[0x80]), chunk("", &[0x80]), chunk("a", &[])]
    );
    assert_eq!(lossy(b"\x80\x80a"), "\u{FFFD}\u{FFFD}a");
}

#[test]
fn input_that_ends_in_a_broken_run_has_no_empty_last_chunk() {
    assert_eq!(collect(b"a\xFF"), vec![chunk("a", &[0xFF])]);
}

#[test]
fn chunks_rebuild_the_input() {
    let inputs: [&[u8]; 6] = [
        b"",
        b"plain",
        b"\x66\x6f\x80\x6f",
        b"\xF0\x9F\x98\x80\xF0\x9F\x98\xE2\x82\xAC\xC0\xAF\xED\xBF\xBF\x00end\xE2",
        b"\xFF\xFE\xFD",
        b"a\xE2\x82",
    ];
    for input in inputs {
        let mut rebuilt = Vec::new();
        for (valid, broken) in collect(input) {
            rebuilt.extend_from_slice(valid.as_bytes());
            rebuilt.extend_from_slice(&broken);
        }
        assert_eq!(rebuilt, input);
    }
}

#[test]
fn lossy_text_agrees_with_the_standard_conversion() {
    let mut state: u32 = 0x2545F491;
    for _ in 0..2000 {
        let mut input = Vec::new();
        state = state.wrapping_mul(1664525).wrapping_add(1013904223);
        let len = (state >> 24) % 12;
        for _ in 0..len {
            state = state.wrapping_mul(1664525).wrapping_add(1013904223);
            let pick = (state >> 16) as u8;
            let byte = match pick % 8 {
                0 => 0x41,
                1 => 0x80 | (pick >> 3),
                2 => 0xC0 | (pick >> 3),
                3 => 0xE0 | ((pick >> 3) & 0x0F),
                4 => 0xF0 | ((pick >> 3) & 0x07),
                5 => 0xA0,
                6 => 0x90,
                _ => pick,
            };
            input.push(byte);
        }
        assert_eq!(lossy(&input), String::from_utf8_lossy(&input), "input {:?}", input);
    }
}

#[test]
fn chunks_can_be_started_again() {
    let lossy = Utf8Lossy::from_bytes(b"a\x80b");
    let mut first = lossy.chunks();
    assert!(first.next().is_some());
    let mut second = lossy.chunks();
    let chunk = second.next().unwrap();
    assert_eq!(chunk.valid, "a");
    assert_eq!(chunk.broken, &[0x80]);
}

#[test]
fn lossy_from_str_is_one_chunk() {
    let mut iter = Utf8Lossy::from_str("gr\u{fc}n").chunks();
    let chunk = iter.next().unwrap();
    assert_eq!(chunk.valid, "gr\u{fc}n");
    assert!(chunk.broken.is_empty());
    assert!(iter.next().is_none());
}
