use gnos::text::{chars_of, find_char_from_exec, find_str_from, int_to_string, join_strings, split_char, str_eq, string_of, sub_string};

fn s(x: &str) -> String {
    String::from(x)
}

#[test]
fn split_then_join_gives_back_the_text() {
    for text in ["a\nb\nc", "", "\n", "one line", "trailing\n", "\n\nx"] {
        let pieces = split_char(text, '\n');
        assert_eq!(join_strings(&pieces, "\n"), text);
    }
    assert_eq!(split_char("a,,b", ','), vec![s("a"), s(""), s("b")]);
    assert_eq!(split_char("", ','), vec![s("")]);
}

#[test]
fn joining() {
    assert_eq!(join_strings(&vec![s("a"), s("b"), s("c")], ", "), "a, b, c");
    assert_eq!(join_strings(&vec![s("a")], ", "), "a");
    assert_eq!(join_strings(&vec![], ", "), "");
}

#[test]
fn integers_as_text() {
    assert_eq!(int_to_string(0), "0");
    assert_eq!(int_to_string(-42), "-42");
    assert_eq!(int_to_string(i64::MIN), "-9223372036854775808");
    assert_eq!(int_to_string(i64::MAX), "9223372036854775807");
}

#[test]
fn searching() {
    let hay = chars_of("inet addr:10.0.0.1 Bcast");
    assert_eq!(find_str_from(&hay, &chars_of("addr:"), 0), Some(5));
    assert_eq!(find_str_from(&hay, &chars_of("addr:"), 6), None);
    assert_eq!(find_char_from_exec(&hay, ' ', 5), Some(18));
    assert_eq!(sub_string(&hay, 10, 18), "10.0.0.1");
    assert_eq!(string_of(&chars_of("héllo")), "héllo");
    assert!(str_eq("abc", "abc"));
    assert!(!str_eq("abc", "abd"));
}
