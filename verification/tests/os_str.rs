use embedded_ffi::os_str::{ArcOsStr, BoxedOsStr, OsStr, OsString, RcOsStr};
use embedded_ffi::sys_common::{AsInner, IntoInner};
use std::cmp::Ordering;

#[test]
fn test_os_string_with_capacity() {
    let os_string = OsString::with_capacity(0);
    assert_eq!(0, os_string.into_inner().into_inner().capacity());

    let os_string = OsString::with_capacity(10);
    assert_eq!(10, os_string.into_inner().into_inner().capacity());

    let mut os_string = OsString::with_capacity(0);
    os_string.push("abc");
    assert!(os_string.into_inner().into_inner().capacity() >= 3);
}

#[test]
fn test_os_string_clear() {
    let mut os_string = OsString::from("abc");
    assert_eq!(3, os_string.clone().into_inner().as_inner().len());

    os_string.clear();
    assert!(&os_string == "");
    assert_eq!(0, os_string.clone().into_inner().as_inner().len());
}

#[test]
fn test_os_string_capacity() {
    let os_string = OsString::with_capacity(0);
    assert_eq!(0, os_string.capacity());

    let os_string = OsString::with_capacity(10);
    assert_eq!(10, os_string.capacity());

    let mut os_string = OsString::with_capacity(0);
    os_string.push("abc");
    assert!(os_string.capacity() >= 3);
}

#[test]
fn test_os_string_reserve() {
    let mut os_string = OsString::new();
    assert_eq!(os_string.capacity(), 0);

    os_string.reserve(2);
    assert!(os_string.capacity() >= 2);

    for _ in 0..16 {
        os_string.push("a");
    }

    assert!(os_string.capacity() >= 16);
    os_string.reserve(16);
    assert!(os_string.capacity() >= 32);

    os_string.push("a");

    os_string.reserve(16);
    assert!(os_string.capacity() >= 33)
}

#[test]
fn test_os_string_reserve_exact() {
    let mut os_string = OsString::new();
    assert_eq!(os_string.capacity(), 0);

    os_string.reserve_exact(2);
    assert!(os_string.capacity() >= 2);

    for _ in 0..16 {
        os_string.push("a");
    }

    assert!(os_string.capacity() >= 16);
    os_string.reserve_exact(16);
    assert!(os_string.capacity() >= 32);

    os_string.push("a");

    os_string.reserve_exact(16);
    assert!(os_string.capacity() >= 33)
}

#[test]
fn test_os_string_default() {
    let os_string: OsString = Default::default();
    assert!("" == &os_string);
}

#[test]
fn test_os_str_is_empty() {
    let mut os_string = OsString::new();
    assert!(os_string.is_empty());

    os_string.push("abc");
    assert!(!os_string.is_empty());

    os_string.clear();
    assert!(os_string.is_empty());
}

#[test]
fn test_os_str_len() {
    let mut os_string = OsString::new();
    assert_eq!(0, os_string.len());

    os_string.push("abc");
    assert_eq!(3, os_string.len());

    os_string.clear();
    assert_eq!(0, os_string.len());
}

#[test]
fn test_os_str_default() {
    let os_str: OsStr = Default::default();
    assert!("" == os_str);
}

#[test]
fn into_boxed() {
    let orig = "Hello, world!";
    let os_str = OsStr::new(orig);
    let boxed: BoxedOsStr = BoxedOsStr::from(os_str);
    let os_string = os_str.to_os_string().into_boxed_os_str().into_os_string();
    assert!(os_str == boxed.as_os_str());
    assert!(boxed.as_os_str() == os_string.as_os_str());
    assert!(os_string.as_os_str() == os_str);
}

#[test]
fn boxed_default() {
    let boxed = <BoxedOsStr>::default();
    assert!(boxed.as_os_str().is_empty());
}

#[test]
fn into_rc() {
    let orig = "Hello, world!";
    let os_str = OsStr::new(orig);
    let rc: RcOsStr = RcOsStr::from(os_str);
    let arc: ArcOsStr = ArcOsStr::from(os_str);

    assert!(rc.as_os_str() == os_str);
    assert!(arc.as_os_str() == os_str);

    let rc2: RcOsStr = RcOsStr::from(os_str.to_os_string());
    let arc2: ArcOsStr = ArcOsStr::from(os_str.to_os_string());

    assert!(rc2.as_os_str() == os_str);
    assert!(arc2.as_os_str() == os_str);
}

#[test]
fn os_str_new_reads_text_as_bytes() {
    let os_str = OsStr::new("foo");
    assert_eq!(os_str.as_bytes(), b"foo");
    assert_eq!(os_str.len(), 3);
    assert!(!os_str.is_empty());
    assert!(OsStr::new("").is_empty());
    assert_eq!(OsStr::new("").len(), 0);
    let owned = String::from("h\u{e9}");
    assert_eq!(OsStr::new(&owned).as_bytes(), &[0x68, 0xC3, 0xA9]);
}

#[test]
fn os_string_from_string_holds_its_encoding() {
    let os_string = OsString::from(String::from("\u{20AC}1"));
    assert_eq!(os_string.clone().into_vec(), vec![0xE2, 0x82, 0xAC, 0x31]);
    assert_eq!(os_string.len(), 4);
}

#[test]
fn os_string_push_appends() {
    let mut os_string = OsString::from("foo");
    os_string.push("bar");
    assert!(os_string.as_os_str() == OsStr::new("foobar"));
    let tail = OsString::from_vec(vec![0xFF, 0x00]);
    os_string.push(&tail);
    os_string.push(OsStr::from_bytes(&[0x80]));
    os_string.push(String::from("!"));
    assert_eq!(os_string.into_vec(), b"foobar\xFF\x00\x80!".to_vec());
}

#[test]
fn os_string_into_string_on_valid_text() {
    let os_string = OsString::from("foo");
    match os_string.into_string() {
        Ok(s) => assert_eq!(s, String::from("foo")),
        Err(_) => panic!("well-formed bytes were refused"),
    }
}

#[test]
fn os_string_into_string_hands_back_ill_formed_bytes() {
    let bytes = vec![0x66, 0x6f, 0x80, 0x6f];
    let os_string = OsString::from_vec(bytes.clone());
    match os_string.into_string() {
        Ok(_) => panic!("ill-formed bytes were accepted"),
        Err(back) => assert_eq!(back.into_vec(), bytes),
    }
}

#[test]
fn os_str_to_str() {
    assert_eq!(OsStr::new("foo").to_str(), Some("foo"));
    assert_eq!(OsStr::from_bytes(b"").to_str(), Some(""));
    assert_eq!(OsStr::from_bytes(&[0x66, 0x80]).to_str(), None);
    assert_eq!(OsStr::from_bytes(&[0xED, 0xA0, 0x80]).to_str(), None);
    assert_eq!(OsStr::from_bytes(&[0xF0, 0x9F, 0x98, 0x80]).to_str(), Some("\u{1F600}"));
}

#[test]
fn os_str_to_os_string_copies() {
    let os_str = OsStr::from_bytes(&[1, 2, 0, 255]);
    let owned = os_str.to_os_string();
    assert!(owned.as_os_str() == os_str);
    assert_eq!(owned.into_vec(), vec![1, 2, 0, 255]);
}

#[test]
fn shrink_to_fit_keeps_the_bytes() {
    let mut s = OsString::from("foo");
    s.reserve(100);
    assert!(s.capacity() >= 100);
    s.shrink_to_fit();
    assert_eq!(3, s.capacity());
    assert!(s.as_os_str() == OsStr::new("foo"));
}

#[test]
fn capacity_never_falls_below_length_and_does_not_shrink_on_growth() {
    let mut s = OsString::new();
    let mut last = s.capacity();
    for round in 0..40usize {
        if round % 3 == 0 {
            s.reserve(round);
            assert!(s.capacity() >= s.len() + round);
        } else if round % 3 == 1 {
            s.reserve_exact(round);
            assert!(s.capacity() >= s.len() + round);
        } else {
            s.push("abcdefg");
        }
        assert!(s.capacity() >= last);
        assert!(s.capacity() >= s.len());
        last = s.capacity();
    }
    let before = s.capacity();
    s.clear();
    assert_eq!(s.capacity(), before);
    assert_eq!(s.len(), 0);
}

#[test]
fn interior_zero_bytes_are_kept() {
    let mut s = OsString::from_vec(vec![0x61, 0x00, 0x62]);
    s.push("\0");
    assert_eq!(s.len(), 4);
    assert_eq!(s.as_os_str().to_str(), Some("a\0b\0"));
}

#[test]
fn display_writes_the_lossy_text() {
    let mut out = String::from("> ");
    OsStr::from_bytes(&[0x66, 0x6f, 0x80, 0x6f]).display(&mut out);
    assert_eq!(out, "> fo\u{FFFD}o");
}

#[test]
fn debug_string_quotes_and_escapes() {
    assert_eq!(OsStr::new("a\tb").debug_string(), "\"a\\tb\"");
    assert_eq!(OsStr::from_bytes(&[0x66, 0x6f, 0x80, 0x6f]).debug_string(), "\"fo\\x80o\"");
}

#[test]
fn equality_is_by_bytes() {
    let a = OsString::from_vec(vec![0x61, 0x80]);
    let mut b = OsString::with_capacity(32);
    b.push(OsStr::from_bytes(&[0x61]));
    assert!(a != b);
    b.push(OsStr::from_bytes(&[0x80]));
    assert!(a == b);
    assert!(a.as_os_str() == b.as_os_str());
    assert!(OsStr::new("ab") != OsStr::new("a"));
    assert!(OsStr::new("ab") != OsStr::new("ac"));
    assert!(OsStr::new("") == OsStr::from_bytes(&[]));
    assert!(a.clone().into_boxed_os_str() == b.clone().into_boxed_os_str());
    assert!(a.clone().into_boxed_os_str() != OsString::new().into_boxed_os_str());
}

#[test]
fn equality_with_text_is_by_encoded_bytes() {
    let os_string = OsString::from("gr\u{fc}n");
    assert!(os_string == "gr\u{fc}n");
    assert!("gr\u{fc}n" == os_string);
    assert!(os_string != "grun");
    assert!(os_string.as_os_str() == "gr\u{fc}n");
    assert!(*"gr\u{fc}n" == os_string.as_os_str());
    assert!(os_string == os_string.as_os_str());
    assert!(os_string.as_os_str() == os_string);
    assert!(OsStr::from_bytes(&[0x80]) != "\u{80}");
}

#[test]
fn total_order_agrees_with_partial_order() {
    let samples: [&[u8]; 7] = [b"", b"a", b"ab", b"b", b"\x00", b"\xFF", b"a\x00"];
    for x in samples {
        for y in samples {
            let a = OsStr::from_bytes(x);
            let b = OsStr::from_bytes(y);
            assert_eq!(a.partial_cmp(&b), Some(a.cmp(&b)));
            assert_eq!(a.partial_cmp(&b), Some(x.cmp(y)));
            assert_eq!(a == b, x == y);
            assert_eq!(a.to_os_string().partial_cmp(&b.to_os_string()), Some(x.cmp(y)));
        }
    }
}

#[test]
fn ordering_is_by_bytes() {
    assert!(OsStr::new("a") < OsStr::new("b"));
    assert!(OsStr::new("a") < OsStr::new("aa"));
    assert!(OsStr::from_bytes(&[0xFF]) > OsStr::new("z"));
    assert!(OsString::from("abc") <= OsString::from("abc"));
}

#[test]
fn clone_has_the_same_bytes() {
    let a = OsString::from_vec(vec![1, 2, 3, 0x80]);
    let b = a.clone();
    assert!(a == b);
    assert_eq!(b.into_vec(), vec![1, 2, 3, 0x80]);
}

#[test]
fn new_string_has_no_capacity() {
    assert_eq!(OsString::new().capacity(), 0);
    assert_eq!(OsString::with_capacity(0).capacity(), 0);
    let fresh: OsString = Default::default();
    assert_eq!(fresh.capacity(), 0);
    assert!(OsString::with_capacity(10).capacity() >= 10);
}

#[test]
fn push_that_fits_keeps_the_capacity() {
    let mut s = OsString::with_capacity(10);
    let c0 = s.capacity();
    s.push("foo");
    assert_eq!(s.capacity(), c0);
    assert_eq!(s.clone().into_vec(), b"foo".to_vec());
    s.push("1234567");
    assert_eq!(s.capacity(), c0);
    s.push("x");
    assert!(s.capacity() >= c0);
    assert!(s.capacity() >= s.len());
}

#[test]
fn reserve_gives_room_and_does_nothing_where_room_is() {
    let mut s = OsString::from("abc");
    let c0 = s.capacity();
    s.reserve(50);
    let c1 = s.capacity();
    assert!(c1 >= c0 && c1 >= 53);
    s.reserve(50);
    assert_eq!(s.capacity(), c1);
    s.reserve_exact(50);
    assert_eq!(s.capacity(), c1);
    s.reserve_exact(200);
    assert!(s.capacity() >= 203 && s.capacity() >= c1);
    assert!(s == "abc");
}

#[test]
fn clear_keeps_the_capacity() {
    let mut s = OsString::from("some text that takes room");
    s.reserve(10);
    let c0 = s.capacity();
    s.clear();
    assert_eq!(s.capacity(), c0);
    assert!(s.is_empty());
}

#[test]
fn shrink_to_fit_lowers_the_capacity_to_the_length() {
    let mut s = OsString::from("foo");
    s.reserve(100);
    let c0 = s.capacity();
    s.shrink_to_fit();
    assert!(s.capacity() <= c0);
    assert!(s.capacity() >= s.len());
    assert_eq!(s.capacity(), 3);
}

#[test]
fn order_against_text_is_by_encoded_bytes() {
    let s = OsString::from("b");
    assert_eq!(s.partial_cmp("a"), Some(Ordering::Greater));
    assert_eq!(s.partial_cmp("b"), Some(Ordering::Equal));
    assert_eq!(s.partial_cmp("ba"), Some(Ordering::Less));
    assert!(s < *"c");
    assert!(OsStr::from_bytes(&[0xFF]) > *"\u{10FFFF}");
    assert_eq!(OsStr::new("").partial_cmp(""), Some(Ordering::Equal));
    assert_eq!(OsStr::new("\u{e9}").partial_cmp("z"), Some(Ordering::Greater));
}
