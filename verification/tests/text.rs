//! Texts, names and tables.

use xlang::codegen::builtins;
use xlang::names::{NameMap, NameSet, PairSet};
use xlang::scopes::Scopes;
use xlang::text;

#[test]
fn joins_and_concatenates() {
    let parts = vec!["a".to_string(), "".to_string(), "é".to_string()];
    assert_eq!(text::join(&parts, ", "), "a, , é");
    assert_eq!(text::join(&Vec::new(), ", "), "");
    assert_eq!(text::cat2("a", "b"), "ab");
    assert_eq!(text::cat7("a", "b", "c", "d", "e", "f", "g"), "abcdefg");
}

#[test]
fn orders_texts() {
    let words = ["", "A", "Vec_i32", "__xlang", "a", "aa", "ab", "b", "é", "😀"];
    for (i, a) in words.iter().enumerate() {
        for (j, b) in words.iter().enumerate() {
            assert_eq!(text::comes_before(a, b), i < j, "{a} {b}");
            assert_eq!(text::comes_before(a, b), a < b);
            assert_eq!(text::same(a, b), i == j);
        }
    }
}

#[test]
fn searches_and_replaces() {
    assert!(text::contains_name("ab cab.x", "cab"));
    assert!(!text::contains_name("abcabc", "cab"));
    assert!(text::contains_name("Tree *data", "Tree"));
    assert!(!text::contains_name("Vec_Tree kids", "Tree"));
    assert!(!text::contains_name("Trees", "Tree"));
    assert!(text::contains_name("x Tree", "Tree"));
    assert!(text::has_prefix("Vec_i32", "Vec_"));
    assert!(!text::has_prefix("Vec", "Vec_"));
    assert_eq!(text::replace_all("aXbXXc", "X", "--"), "a--b----c");
    assert_eq!(text::replace_all("aaa", "aa", "b"), "ba");
    assert_eq!(text::replace_all("abc", "x", "y"), "abc");
}

#[test]
fn trims_white_space() {
    assert_eq!(text::trim(" \t\u{a0}a b\u{3000}\n"), "a b");
    assert_eq!(text::trim_end(" a \r\n"), " a");
    assert_eq!(text::trim(" \n"), "");
    for c in (0u32..0x3100).filter_map(char::from_u32) {
        assert_eq!(text::space(c), c.is_whitespace(), "{c:?}");
    }
}

#[test]
fn writes_and_reads_numbers() {
    for n in [0u64, 9, 10, 99, 100, 1234567890, u64::MAX] {
        assert_eq!(text::decimal(n), n.to_string());
    }
    for n in [0i32, -1, 7, i32::MAX, i32::MIN] {
        assert_eq!(text::decimal_signed(n), n.to_string());
    }
    for s in ["0", "007", "+7", "42", "", "+", "-1", " 1", "1 ", "1_0", "x", "18446744073709551615", "18446744073709551616", "٣"] {
        assert_eq!(text::parse_size(s), s.parse::<usize>().ok(), "{s}");
    }
}

#[test]
fn names_map_to_the_last_value() {
    let mut m: NameMap<String> = NameMap::new();
    assert!(m.get("a").is_none());
    m.insert("a", "1".to_string());
    m.insert("b", "2".to_string());
    m.insert("a", "3".to_string());
    assert_eq!(m.get("a").map(|s| s.as_str()), Some("3"));
    assert_eq!(m.get("b").map(|s| s.as_str()), Some("2"));
    let mut s = NameSet::new();
    s.insert("x");
    s.insert("x");
    assert!(s.contains("x") && !s.contains("y"));
    let mut p = PairSet::new();
    p.insert("a", "b");
    assert!(p.contains("a", "b") && !p.contains("b", "a") && !p.contains("ab", ""));
}

#[test]
fn inner_scopes_hide_outer_ones() {
    let mut s: Scopes<bool> = Scopes::new();
    s.declare("x", true);
    assert!(s.lookup("x").is_none());
    s.push();
    s.declare("x", true);
    s.push();
    assert_eq!(s.lookup("x"), Some(&true));
    s.declare("x", false);
    assert_eq!(s.lookup("x"), Some(&false));
    s.pop();
    assert_eq!(s.lookup("x"), Some(&true));
    s.pop();
    assert!(s.lookup("x").is_none());
    s.pop();
}

#[test]
fn knows_the_builtins() {
    assert_eq!(builtins::plain("fork"), Some("fork()".to_string()));
    assert_eq!(builtins::plain("print_i32"), None);
    assert_eq!(builtins::print("print_str", "s").as_deref(), Some("printf(\"%s\\n\", s)"));
    assert_eq!(builtins::print("print_raw", "s"), None);
    assert_eq!(builtins::arity("str_len"), Some(1));
    assert_eq!(builtins::arity("mknod_dev"), Some(4));
    assert_eq!(builtins::arity("main"), None);
    let args = |n: usize| ["a", "b", "c", "d"][..n].iter().map(|s| s.to_string()).collect::<Vec<_>>();
    assert_eq!(builtins::call("pad_int", &args(2)), "__xlang_pad_int(a, b)");
    assert_eq!(builtins::call("cat_show", &args(3)), "__xlang_cat_show(a, b, c)");
    assert_eq!(builtins::call("sendfile_range", &args(4)), "__xlang_sendfile_range(a, b, c, d)");
    assert_eq!(builtins::call("getenv", &args(1)), "(getenv(a) ? getenv(a) : \"\")");
    assert_eq!(builtins::call("send_str", &args(2)), "send(a, b, strlen(b), 0)");
    assert_eq!(builtins::call("flush_stdout", &args(1)), "fflush(stdout)");
    assert_eq!(builtins::call("str_char_at", &args(2)), "(int32_t)(unsigned char)(a[b])");
    for name in ["tls_ctx_new", "tls_accept", "tls_write", "tls_read", "tls_close"] {
        assert!(builtins::uses_tls(name) && builtins::arity(name).is_some());
    }
    assert!(!builtins::uses_tls("tls_other"));
}

#[test]
fn every_builtin_uses_one_to_four_arguments() {
    for row in builtins::CALLS {
        let n = builtins::arity(row.0).expect("a builtin");
        assert!((1..=4).contains(&n), "{}", row.0);
        let args: Vec<String> = (0..n).map(|i| format!("<{i}>")).collect();
        let c = builtins::call(row.0, &args);
        for a in &args {
            assert_eq!(c.matches(a.as_str()).count(), 1, "{c}");
        }
    }
}

#[test]
fn splits_a_text_into_lines() {
    assert_eq!(text::split_lines(""), [""]);
    assert_eq!(text::split_lines("one"), ["one"]);
    assert_eq!(text::split_lines("a\n\n\u{e9}b\n"), ["a", "", "\u{e9}b", ""]);
}
