use neotop::row::SortKey;
use neotop::text::{chars_contain, chars_of, str_eq, str_lt};

fn chars(s: &str) -> Vec<char> {
    s.chars().collect()
}

#[test]
fn chars_of_lists_the_characters() {
    assert_eq!(chars_of("a\u{e9}\u{4e16}!"), vec!['a', '\u{e9}', '\u{4e16}', '!']);
    assert_eq!(chars_of(""), Vec::<char>::new());
}

#[test]
fn str_lt_is_lexicographic() {
    assert!(str_lt("a", "b"));
    assert!(!str_lt("b", "a"));
    assert!(str_lt("", "a"));
    assert!(!str_lt("a", ""));
    assert!(!str_lt("", ""));
    assert!(!str_lt("abc", "abc"));
    assert!(str_lt("ab", "abc"));
    assert!(!str_lt("abc", "ab"));
    assert!(str_lt("abd", "abe"));
    assert!(str_lt("Z", "a"));
    assert!(str_lt("z", "\u{e9}"));
}

#[test]
fn str_lt_agrees_with_the_standard_order() {
    let words = ["", "a", "ab", "abc", "b", "B", "sh", "zsh", "bash", "\u{e9}t\u{e9}", "~"];
    for x in words {
        for y in words {
            assert_eq!(str_lt(x, y), x < y);
        }
    }
}

#[test]
fn chars_contain_finds_substrings() {
    assert!(chars_contain(&chars("bash"), &chars("sh")));
    assert!(chars_contain(&chars("bash"), &chars("bash")));
    assert!(chars_contain(&chars("bash"), &chars("ba")));
    assert!(chars_contain(&chars("bash"), &chars("")));
    assert!(chars_contain(&chars(""), &chars("")));
    assert!(!chars_contain(&chars(""), &chars("a")));
    assert!(!chars_contain(&chars("bash"), &chars("bs")));
    assert!(!chars_contain(&chars("bash"), &chars("bashh")));
    assert!(!chars_contain(&chars("bash"), &chars("SH")));
    assert!(chars_contain(&chars("aab"), &chars("ab")));
}

#[test]
fn str_eq_compares_texts() {
    assert!(str_eq("", ""));
    assert!(str_eq("cpu", "cpu"));
    assert!(!str_eq("cpu", "cpus"));
    assert!(!str_eq("cpu", "cp"));
    assert!(!str_eq("cpu", "Cpu"));
    assert!(!str_eq("", "a"));
}

#[test]
fn sort_keys_have_names() {
    assert_eq!(SortKey::from_name("pid"), Some(SortKey::Pid));
    assert_eq!(SortKey::from_name("count"), Some(SortKey::Pid));
    assert_eq!(SortKey::from_name("command"), Some(SortKey::Command));
    assert_eq!(SortKey::from_name("cpu"), Some(SortKey::Cpu));
    assert_eq!(SortKey::from_name("mem"), Some(SortKey::Mem));
    assert_eq!(SortKey::from_name("CPU"), None);
    assert_eq!(SortKey::from_name(""), None);
    assert_eq!(SortKey::from_name("memory"), None);
    assert_eq!(SortKey::from_name(" pid"), None);
}
