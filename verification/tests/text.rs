use stozher_kernel::json::Json;
use stozher_kernel::query::param;
use stozher_kernel::text::{is_before, trim};

#[test]
fn white_space_is_a_fixed_set_of_characters() {
    for c in '\0'..=char::MAX {
        let space = matches!(
            u32::from(c),
            0x9..=0xd
                | 0x20
                | 0x85
                | 0xa0
                | 0x1680
                | 0x2000..=0x200a
                | 0x2028
                | 0x2029
                | 0x202f
                | 0x205f
                | 0x3000
        );
        assert_eq!(trim(&c.to_string()).is_empty(), space, "{c:?}");
    }
    assert_eq!(trim("\u{3000} a b\u{200b}\r\n"), "a b\u{200b}");
}

#[test]
fn of_a_parameter_given_twice_the_last_counts() {
    let params = vec![
        ("a".to_owned(), "1".to_owned()),
        ("b".to_owned(), "2".to_owned()),
        ("a".to_owned(), "3".to_owned()),
    ];
    assert_eq!(param(&params, "a"), Some("3"));
    assert_eq!(param(&params, "b"), Some("2"));
    assert_eq!(param(&params, "c"), None);
}

#[test]
fn members_keep_their_order_when_one_is_put_in_or_taken_out() {
    assert!(is_before("a", "ab") && is_before("ab", "b") && !is_before("a", "a"));
    let text = |s: &str| Json::Text(s.to_owned());
    let d = Json::Record(vec![("b".to_owned(), text("1")), ("d".to_owned(), text("2"))]);
    let names = |d: &Json| -> Vec<String> {
        d.as_record().unwrap().iter().map(|(name, _)| name.clone()).collect()
    };
    let d = d.with("c", text("3")).with("a", text("4")).with("e", text("5")).with("c", text("6"));
    assert_eq!(names(&d), ["a", "b", "c", "d", "e"]);
    assert_eq!(d.text_at("c"), Some("6"));
    assert_eq!(names(&d.without("b")), ["a", "c", "d", "e"]);
}
