use proxy_runtime::text::{
    begins, contains_text, decimal_text, insert_sorted, same_texts, space, text_before, trim,
};

fn texts(v: &[&str]) -> Vec<String> {
    v.iter().map(|s| s.to_string()).collect()
}

#[test]
fn white_space_is_that_of_characters() {
    let mut n: u32 = 0;
    while n <= 0x10ffff {
        if let Some(c) = char::from_u32(n) {
            assert_eq!(space(c), c.is_whitespace(), "{:x}", n);
        }
        n += 1;
    }
}

#[test]
fn trimming_takes_both_ends() {
    assert_eq!(trim("\u{3000} a b\t\n"), "a b");
    assert_eq!(trim(" \n"), "");
    assert_eq!(trim("x"), "x");
}

#[test]
fn numbers_are_written_in_decimal() {
    for n in [0, 7, 10, 4095, u64::MAX] {
        assert_eq!(decimal_text(n), n.to_string());
    }
}

#[test]
fn texts_are_searched_and_ordered() {
    assert!(contains_text("abcabd", "abd"));
    assert!(contains_text("x", ""));
    assert!(!contains_text("ab", "abc"));
    assert!(begins("probe-in-3", "probe-in-"));
    assert!(!begins("pro", "probe"));
    assert!(text_before("a", "b") && text_before("a", "aa") && !text_before("b", "a"));
    assert!(!text_before("a", "a"));
    let mut list = Vec::new();
    for s in ["m", "a", "m", "z", "b"] {
        insert_sorted(&mut list, s);
    }
    assert_eq!(list, texts(&["a", "b", "m", "z"]));
    assert!(same_texts(&texts(&["a", "b"]), &texts(&["a", "b"])));
    assert!(!same_texts(&texts(&["a", "b"]), &texts(&["b", "a"])));
    assert!(!same_texts(&texts(&["a"]), &texts(&["a", "b"])));
}
