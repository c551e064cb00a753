use rustdirlister::clock::{format_date_time, st_to_date_and_time, DateTimeFields, Timestamp};
use rustdirlister::namemap::NameMap;
use rustdirlister::text::{chars_of, contains_chars, push_chars, push_decimal, push_str, push_zero_padded, str_eq, trim_char_chars, trim_ws_chars};

fn s(v: &[char]) -> String {
    v.iter().collect()
}

#[test]
fn trim_ws_removes_unicode_whitespace() {
    let c = chars_of("\u{3000} \t a b \n\u{a0}");
    assert_eq!(s(&trim_ws_chars(&c)), "a b");
    assert_eq!(s(&trim_ws_chars(&chars_of("   "))), "");
}

#[test]
fn trim_char_removes_only_edges() {
    assert_eq!(s(&trim_char_chars(&chars_of("//a/b//"), '/')), "a/b");
    assert_eq!(s(&trim_char_chars(&chars_of("///"), '/')), "");
    assert_eq!(s(&trim_char_chars(&chars_of("a"), '/')), "a");
}

#[test]
fn contains_and_equality() {
    assert!(contains_chars(&chars_of("readme.md"), &chars_of("me.m")));
    assert!(!contains_chars(&chars_of("readme"), &chars_of("readmes")));
    assert!(contains_chars(&chars_of("x"), &chars_of("")));
    assert!(str_eq("héllo", "héllo"));
    assert!(!str_eq("hello", "hellO"));
    let mut v = vec!['a'];
    push_str(&mut v, "é!");
    push_chars(&mut v, &['z']);
    assert_eq!(s(&v), "aé!z");
}

#[test]
fn decimal_rendering() {
    let mut v = Vec::new();
    push_decimal(&mut v, 0);
    assert_eq!(s(&v), "0");
    let mut v = Vec::new();
    push_decimal(&mut v, 18446744073709551615);
    assert_eq!(s(&v), "18446744073709551615");
    let mut v = vec!['x'];
    push_zero_padded(&mut v, 7, 4);
    assert_eq!(s(&v), "x0007");
    let mut v = Vec::new();
    push_zero_padded(&mut v, 12345, 2);
    assert_eq!(s(&v), "12345");
}

#[test]
fn date_time_format_pads_fields() {
    let f = DateTimeFields { year: 2024, month: 3, day: 5, hour: 7, minute: 8, second: 9 };
    assert_eq!(format_date_time(&f), "2024-03-05 07-08-09");
    let f = DateTimeFields { year: 987, month: 12, day: 31, hour: 23, minute: 59, second: 59 };
    assert_eq!(format_date_time(&f), "0987-12-31 23-59-59");
}

#[test]
fn date_time_format_signs_years_out_of_range() {
    let f = DateTimeFields { year: -1, month: 1, day: 1, hour: 0, minute: 0, second: 0 };
    assert_eq!(format_date_time(&f), "-0001-01-01 00-00-00");
    let f = DateTimeFields { year: 12345, month: 1, day: 1, hour: 0, minute: 0, second: 0 };
    assert_eq!(format_date_time(&f), "+12345-01-01 00-00-00");
}

#[test]
fn local_time_of_epoch_has_the_shape_of_a_date() {
    let t = st_to_date_and_time(Timestamp::unix_epoch()).unwrap();
    let c: Vec<char> = t.chars().collect();
    assert_eq!(c.len(), 19);
    assert!(t.starts_with("1970-01-01 ") || t.starts_with("1969-12-31 "));
    assert_eq!(c[13], '-');
    assert_eq!(c[16], '-');
}

#[test]
fn local_time_out_of_range_is_none() {
    assert!(st_to_date_and_time(Timestamp { secs: i64::MAX, nanos: 0 }).is_none());
}

#[test]
fn name_map_replaces_and_keeps_order() {
    let mut m: NameMap<u64> = NameMap::new();
    assert_eq!(m.len(), 0);
    m.insert("b".to_string(), 1);
    m.insert("a".to_string(), 2);
    m.insert("b".to_string(), 3);
    assert_eq!(m.len(), 2);
    assert_eq!(m.get(&"b".to_string()), Some(&3));
    assert_eq!(m.get(&"a".to_string()), Some(&2));
    assert_eq!(m.get(&"c".to_string()), None);
    let (k, v) = m.entry(0);
    assert_eq!((k.as_str(), *v), ("b", 3));
    let (k, v) = m.entry(1);
    assert_eq!((k.as_str(), *v), ("a", 2));
}

#[test]
fn local_time_is_rendered_across_the_representable_range() {
    let far_future = st_to_date_and_time(Timestamp { secs: 8_000_000_000_000, nanos: 999_999_999 }).unwrap();
    assert!(far_future.starts_with('+'));
    let far_past = st_to_date_and_time(Timestamp { secs: -8_000_000_000_000, nanos: 0 }).unwrap();
    assert!(far_past.starts_with('-'));
    assert!(st_to_date_and_time(Timestamp { secs: 0, nanos: 2_000_000_000 }).is_none());
}
