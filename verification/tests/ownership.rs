use embedded_ffi::os_str::{ArcOsStr, BoxedOsStr, CowOsStr, OsStr, OsString, RcOsStr};

#[test]
fn boxed_round_trip_keeps_the_bytes() {
    let bytes = vec![0x00, 0x80, 0x41, 0xFF];
    let mut s = OsString::with_capacity(64);
    s.push(OsStr::from_bytes(&bytes));
    let boxed = s.into_boxed_os_str();
    assert_eq!(boxed.as_os_str().as_bytes(), &bytes[..]);
    let copy = boxed.clone();
    let back = boxed.into_os_string();
    assert_eq!(back.capacity(), 4);
    assert_eq!(back.into_vec(), bytes);
    assert_eq!(OsString::from(copy).into_vec(), bytes);
}

#[test]
fn boxed_from_owned_string() {
    let boxed = BoxedOsStr::from(OsString::from("hello"));
    assert!(boxed.as_os_str() == OsStr::new("hello"));
}

#[test]
fn shared_and_back_keeps_the_bytes() {
    let bytes = vec![0xC3, 0x28, 0x00, 0x7F];
    let rc = RcOsStr::from(OsString::from_vec(bytes.clone()));
    let other = rc.clone();
    assert_eq!(rc.to_os_string().into_vec(), bytes);
    assert_eq!(other.as_os_str().as_bytes(), &bytes[..]);
    let arc = ArcOsStr::from(OsString::from_vec(bytes.clone()));
    let other = arc.clone();
    drop(arc);
    assert_eq!(other.to_os_string().into_vec(), bytes);
}

#[test]
fn cow_copies_before_the_first_write() {
    let source = OsString::from("foo");
    let mut cow = CowOsStr::from(source.as_os_str());
    assert!(cow.is_borrowed());
    cow.push("bar");
    assert!(cow.is_owned());
    assert!(cow.as_os_str() == OsStr::new("foobar"));
    assert!(source.as_os_str() == OsStr::new("foo"));
    cow.push("!");
    assert!(cow.is_owned());
    assert_eq!(cow.into_owned().into_vec(), b"foobar!".to_vec());
}

#[test]
fn cow_make_owned_keeps_the_bytes() {
    let source = OsString::from_vec(vec![0x80, 0x81]);
    let mut cow = CowOsStr::from(&source);
    assert!(cow.is_borrowed());
    cow.make_owned();
    assert!(cow.is_owned());
    assert_eq!(cow.as_os_str().as_bytes(), &[0x80, 0x81]);
    cow.make_owned();
    assert!(cow.is_owned());
    assert_eq!(OsString::from(cow).into_vec(), vec![0x80, 0x81]);
}

#[test]
fn cow_clear_makes_an_owned_empty_string() {
    let mut cow = CowOsStr::from(OsStr::new("abc"));
    cow.clear();
    assert!(cow.is_owned());
    assert!(cow.as_os_str().is_empty());
}

#[test]
fn cow_from_owned_string_is_owned() {
    let cow = CowOsStr::from(OsString::from("abc"));
    assert!(cow.is_owned());
    assert!(!cow.is_borrowed());
    assert_eq!(cow.into_owned().into_vec(), b"abc".to_vec());
}
