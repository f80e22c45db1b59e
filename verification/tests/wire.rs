use manytrace::protocol::{CountingWriter, Labels, SliceWriter};
use manytrace::text::{parse_i32, push_decimal, push_signed_decimal, trim};

#[test]
fn counted_bytes_fit_exactly() {
    let chunks: [&[u8]; 3] = [b"abc", b"", b"defg"];
    let mut counting = CountingWriter::new();
    for c in chunks {
        counting.write(c);
    }
    assert_eq!(counting.total_bytes(), 7);
    assert_eq!(counting.write_count(), 3);
    assert_eq!(counting.pos(), 7);

    let mut buf = vec![0u8; counting.total_bytes()];
    let mut writer = SliceWriter::new(&mut buf);
    for c in chunks {
        assert!(writer.write(c).is_ok());
    }
    assert_eq!(writer.written(), 7);
    assert_eq!(writer.pos(), 7);
    assert_eq!(buf, b"abcdefg");

    let mut small = vec![0u8; 6];
    let mut writer = SliceWriter::new(&mut small);
    assert!(writer.write(b"abc").is_ok());
    assert!(writer.write(b"").is_ok());
    match writer.write(b"defg") {
        Err(e) => assert_eq!(e.message(), "not enough space in the buffer"),
        Ok(()) => panic!("too long"),
    }
    assert_eq!(writer.written(), 3);
    assert_eq!(small, b"abc\0\0\0");
}

#[test]
fn what_is_written_stands_in_the_buffer() {
    let mut buf = [0u8; 4];
    let mut writer = SliceWriter::new(&mut buf);
    assert!(writer.write(&[1, 2, 3]).is_ok());
    assert!(writer.write(&[4, 5]).is_err());
    assert!(writer.write(&[6]).is_ok());
    assert!(writer.write(&[7]).is_err());
    assert_eq!(writer.written(), 4);
    assert_eq!(buf, [1, 2, 3, 6]);
}

#[test]
fn labels_keep_one_value_per_name() {
    let mut labels = Labels::default();
    labels.record_str("a", "1");
    labels.record_str("b", "2");
    labels.record_str("a", "3");
    assert_eq!(labels.strings.len(), 2);
    assert_eq!(labels.strings.entry(0), ("a", &"3".to_string()));
    assert_eq!(labels.strings.entry(1), ("b", &"2".to_string()));
    let copy = labels.copied();
    assert_eq!(copy.strings.entry(0), ("a", &"3".to_string()));
    assert_eq!(copy.strings.len(), 2);
    assert_eq!(copy.ints.len(), 0);
}

#[test]
fn numbers_are_written_and_read() {
    let mut s = String::new();
    push_decimal(&mut s, 0);
    push_decimal(&mut s, u64::MAX);
    push_signed_decimal(&mut s, i64::MIN);
    assert_eq!(s, "018446744073709551615-9223372036854775808");
    for text in [
        "", "-", "+", "0", "-0", "+7", "007", "2147483647", "2147483648", "-2147483648",
        "-2147483649", "1a", " 1", "99999999999999999999999", "--1",
    ] {
        assert_eq!(parse_i32(text), text.parse::<i32>().ok(), "{}", text);
    }
}

#[test]
fn white_space_is_trimmed() {
    for text in [
        "", " ", "a", " a b\n", "\u{3000}x\u{2009}", "\u{85}\u{1680}y", "z\u{200b}", "\u{feff}w ",
        "\u{2028}\u{2029}\u{202f}\u{205f}v\u{b}\u{c}",
    ] {
        assert_eq!(trim(text), text.trim());
    }
}
