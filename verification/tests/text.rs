use updown_bot::text::{append_number, characters, contains, find_last, joined, number_text, parse_unsigned, same_text};

#[test]
fn numbers_are_written_and_read() {
    for n in [0, 7, 10, 900, 1767796200, u64::MAX] {
        let text = number_text(n);
        assert_eq!(text, n.to_string());
        assert_eq!(parse_unsigned(&characters(&text), 0), Some(n));
    }
}

#[test]
fn texts_that_are_no_numbers() {
    for text in ["", "+", "-1", "1 ", "12a", "18446744073709551616", "99999999999999999999999"] {
        assert_eq!(parse_unsigned(&characters(text), 0), None, "{text}");
    }
    assert_eq!(parse_unsigned(&characters("+42"), 0), Some(42));
    assert_eq!(parse_unsigned(&characters("0042"), 0), Some(42));
    assert_eq!(parse_unsigned(&characters("abc42"), 3), Some(42));
    assert_eq!(parse_unsigned(&characters("abc"), 3), None);
}

#[test]
fn appending_a_number() {
    let mut text = String::from("order ");
    append_number(&mut text, 12);
    assert_eq!(text, "order 12");
}

#[test]
fn searching_a_text() {
    assert!(contains("executed successfully.", "successfully"));
    assert!(!contains("success", "successfully"));
    assert!(contains("anything", ""));
    assert!(contains("", ""));
    assert!(contains("Grüße", "üß"));
    assert_eq!(find_last(&characters("a-b-c"), '-'), Some(3));
    assert_eq!(find_last(&characters("abc"), '-'), None);
}

#[test]
fn equal_and_joined_texts() {
    assert!(same_text("BUY", "BUY"));
    assert!(!same_text("BUY", "buy"));
    assert!(!same_text("BUY", "BUYS"));
    assert_eq!(joined("a", "b"), "ab");
    assert_eq!(joined("", ""), "");
}
