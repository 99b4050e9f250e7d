use rtest::paths::{file_name, join_path, path_is_absolute, strip_root};
use rtest::pattern::matches_any;
use rtest::text::{
    chars_eq, contains, decimal_string, ends_with, find_after_last, find_char, find_from,
    join_strings, less_than, same_texts, split, starts_with, str_eq, string_of, to_chars,
};

fn chars(s: &str) -> Vec<char> {
    s.chars().collect()
}

#[test]
fn test_glob_matches_whole_names() {
    assert!(rtest::pattern::matches("test_*.py", "test_a.py"));
    assert!(rtest::pattern::matches("test_*.py", "test_.py"));
    assert!(!rtest::pattern::matches("test_*.py", "test_a.pyc"));
    assert!(!rtest::pattern::matches("test_*.py", "my_test_a.py"));
    assert!(rtest::pattern::matches("*_test.py", "a_test.py"));
    assert!(rtest::pattern::matches("Test*", "Test"));
    assert!(rtest::pattern::matches("Test*", "TestCase"));
    assert!(!rtest::pattern::matches("Test*", "test"));
    assert!(rtest::pattern::matches("test*", "testCamel"));
    assert!(rtest::pattern::matches("?", "a"));
    assert!(!rtest::pattern::matches("?", ""));
    assert!(!rtest::pattern::matches("?", "ab"));
    assert!(rtest::pattern::matches("a?c", "abc"));
    assert!(rtest::pattern::matches("*", ""));
    assert!(rtest::pattern::matches("*", "anything at all"));
    assert!(rtest::pattern::matches("", ""));
    assert!(!rtest::pattern::matches("", "a"));
    assert!(rtest::pattern::matches("a*b*c", "aXbYc"));
    assert!(rtest::pattern::matches("a*b*c", "abbbc"));
    assert!(!rtest::pattern::matches("a*b*c", "aXbY"));
    assert!(rtest::pattern::matches("**", "x"));
    assert!(rtest::pattern::matches("*.egg", "pkg.egg"));
    assert!(rtest::pattern::matches(".*", ".git"));
    assert!(!rtest::pattern::matches(".*", "git"));
    assert!(rtest::pattern::matches("[ab]", "[ab]"));
    assert!(!rtest::pattern::matches("[ab]", "a"));
    assert!(rtest::pattern::matches("caf?", "café"));
    assert!(rtest::pattern::matches("*é*", "xéy"));
    assert!(rtest::pattern::matches(&"a*".repeat(30), &"a".repeat(60)));
    assert!(!rtest::pattern::matches(&format!("{}b", "a*".repeat(30)), &"a".repeat(60)));
}

#[test]
fn test_matches_any_pattern() {
    let patterns = vec!["test_*.py".to_string(), "*_test.py".to_string()];
    assert!(matches_any(&patterns, "test_x.py"));
    assert!(matches_any(&patterns, "x_test.py"));
    assert!(!matches_any(&patterns, "conftest.py"));
    assert!(!matches_any(&vec![], "test_x.py"));
}

#[test]
fn test_text_helpers() {
    assert_eq!(to_chars("añb"), vec!['a', 'ñ', 'b']);
    assert_eq!(string_of(&chars("añb")), "añb");
    assert!(str_eq("abc", "abc"));
    assert!(!str_eq("abc", "abd"));
    assert!(!str_eq("abc", "ab"));
    assert!(chars_eq(&chars(""), &chars("")));
    assert_eq!(find_from(&chars("a::b::c"), &chars("::"), 0), Some(1));
    assert_eq!(find_from(&chars("a::b::c"), &chars("::"), 2), Some(4));
    assert_eq!(find_from(&chars("a::b::c"), &chars("::"), 5), None);
    assert_eq!(find_from(&chars("abc"), &chars(""), 3), Some(3));
    assert_eq!(find_from(&chars("abc"), &chars(""), 4), None);
    assert_eq!(find_from(&chars("ab"), &chars("abc"), 0), None);
    assert!(contains(&chars("path/to/venv/x"), &chars("venv")));
    assert!(!contains(&chars("path"), &chars("venv")));
    assert!(starts_with(&chars("abc"), &chars("ab")));
    assert!(!starts_with(&chars("abc"), &chars("bc")));
    assert!(ends_with(&chars("a.py"), &chars(".py")));
    assert!(!ends_with(&chars("py"), &chars(".py")));
    assert_eq!(find_char(&chars("a[b[c"), '[', 0), 1);
    assert_eq!(find_char(&chars("a[b[c"), '[', 2), 3);
    assert_eq!(find_char(&chars("abc"), '[', 0), 3);
    assert_eq!(find_char(&chars("abc"), 'a', 9), 3);
    assert_eq!(find_after_last(&chars("a/b/c"), '/'), 4);
    assert_eq!(find_after_last(&chars("abc"), '/'), 0);
    assert_eq!(decimal_string(0), "0");
    assert_eq!(decimal_string(9), "9");
    assert_eq!(decimal_string(10), "10");
    assert_eq!(decimal_string(18446744073709551615), "18446744073709551615");
    assert!(less_than(&chars("a"), &chars("b")));
    assert!(less_than(&chars("a"), &chars("ab")));
    assert!(less_than(&chars(""), &chars("a")));
    assert!(!less_than(&chars("a"), &chars("a")));
    assert!(!less_than(&chars("b"), &chars("ab")));
    assert!(less_than(&chars("Z"), &chars("a")));
    assert!(less_than(&chars("z"), &chars("é")));
    let mut words = vec!["b", "é", "a", "ab", "", "Z", "z", "日本", "~"];
    let mut by_library = words.clone();
    by_library.sort_by(|x, y| {
        if less_than(&chars(x), &chars(y)) {
            std::cmp::Ordering::Less
        } else if less_than(&chars(y), &chars(x)) {
            std::cmp::Ordering::Greater
        } else {
            std::cmp::Ordering::Equal
        }
    });
    words.sort();
    assert_eq!(by_library, words);
    assert_eq!(join_strings(&vec![], "-"), "");
    assert_eq!(join_strings(&vec!["a".to_string()], "-"), "a");
    assert_eq!(join_strings(&vec!["a".to_string(), "".to_string(), "b".to_string()], "-"), "a--b");
    assert_eq!(split("a.b.c", '.'), vec!["a", "b", "c"]);
    assert_eq!(split("", '.'), vec![""]);
    assert_eq!(split(".a.", '.'), vec!["", "a", ""]);
    assert!(same_texts(&vec!["a".to_string()], &vec!["a".to_string()]));
    assert!(!same_texts(&vec!["a".to_string()], &vec!["b".to_string()]));
    assert!(!same_texts(&vec!["a".to_string()], &vec![]));
}

#[test]
fn test_paths() {
    assert_eq!(file_name("a/b/test_c.py"), "test_c.py");
    assert_eq!(file_name("test_c.py"), "test_c.py");
    assert_eq!(file_name("a/b/"), "");
    assert!(path_is_absolute("/a"));
    assert!(!path_is_absolute("a/b"));
    assert!(!path_is_absolute(""));
    assert_eq!(join_path("/root", "tests/a.py"), "/root/tests/a.py");
    assert_eq!(join_path("/root/", "tests"), "/root/tests");
    assert_eq!(join_path("/root", "/abs/a.py"), "/abs/a.py");
    assert_eq!(join_path("", "rel"), "rel");
    assert_eq!(strip_root("/root/tests/a.py", "/root"), "tests/a.py");
    assert_eq!(strip_root("/root/tests/a.py", "/root/"), "tests/a.py");
    assert_eq!(strip_root("/root", "/root"), "");
    assert_eq!(strip_root("/root", "/root/"), "");
    assert_eq!(strip_root("/rootless/a.py", "/root"), "/rootless/a.py");
    assert_eq!(strip_root("/other/a.py", "/root"), "/other/a.py");
    assert_eq!(strip_root("tests/a.py", ""), "tests/a.py");
}
