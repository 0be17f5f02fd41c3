use rara::path::{
    components_exec, extension_exec, file_name_exec, is_absolute_exec, join_path_exec, path_order_exec, PathComponent,
};
use rara::text::{
    ascii_lower_exec, byte_len, chars_of, join_exec, lex_order_str, lines_exec, split_exec, string_from_chars,
    trim_str, truncate_with_ellipsis_exec, words_exec,
};

fn cs(s: &str) -> Vec<char> {
    s.chars().collect()
}

fn strs(v: Vec<Vec<char>>) -> Vec<String> {
    v.into_iter().map(|c| c.into_iter().collect()).collect()
}

#[test]
fn paths_split_into_components_as_std_does() {
    assert_eq!(
        components_exec(&cs("/repo//src/./lib.rs")),
        vec![PathComponent::RootDir, PathComponent::Normal(cs("repo")), PathComponent::Normal(cs("src")), PathComponent::Normal(cs("lib.rs"))]
    );
    assert_eq!(components_exec(&cs("./a/../b")), vec![PathComponent::CurDir, PathComponent::Normal(cs("a")), PathComponent::ParentDir, PathComponent::Normal(cs("b"))]);
    assert_eq!(path_order_exec(&cs("/a/b"), &cs("/a//b/")), 0);
    assert_eq!(path_order_exec(&cs("/a/b"), &cs("/a/c")), -1);
    assert_eq!(path_order_exec(&cs("/a/c"), &cs("/a/b")), 1);
    assert_eq!(string_from_chars(&join_path_exec(&cs("/repo"), &cs("src/lib.rs"))), "/repo/src/lib.rs");
    assert_eq!(string_from_chars(&join_path_exec(&cs("/repo/"), &cs("x"))), "/repo/x");
    assert_eq!(string_from_chars(&join_path_exec(&cs("/repo"), &cs("/abs"))), "/abs");
    assert_eq!(extension_exec(&cs("/repo/lib.rs")), Some(cs("rs")));
    assert_eq!(extension_exec(&cs("/repo/.hidden")), None);
    assert_eq!(extension_exec(&cs("/repo/archive.tar.gz")), Some(cs("gz")));
    assert_eq!(file_name_exec(&cs("/repo/lib.rs")), Some(cs("lib.rs")));
    assert_eq!(file_name_exec(&cs("/repo/..")), None);
    assert!(is_absolute_exec(&cs("/x")));
    assert!(!is_absolute_exec(&cs("x")));
}

#[test]
fn text_helpers_follow_str_semantics() {
    assert_eq!(trim_str("  a b \n"), "a b");
    assert_eq!(strs(lines_exec(&cs("a\r\nb\n\nc"))), vec!["a", "b", "", "c"]);
    assert_eq!(strs(split_exec(&cs("a&&b&"), &cs("&"))), vec!["a", "", "b", ""]);
    assert_eq!(strs(words_exec(&cs("  one\ttwo \n three "))), vec!["one", "two", "three"]);
    assert_eq!(string_from_chars(&join_exec(&vec![cs("a"), cs("b"), cs("c")], &cs(", "))), "a, b, c");
    assert_eq!(lex_order_str("abc", "abd"), -1);
    assert_eq!(lex_order_str("ab", "ab"), 0);
    assert_eq!(lex_order_str("b", "ab"), 1);
    assert_eq!(string_from_chars(&truncate_with_ellipsis_exec(&cs("abcdef"), 4)), "abcd...");
    assert_eq!(string_from_chars(&ascii_lower_exec(&cs("HeLLo-É"))), "hello-É");
    assert_eq!(byte_len(&"héllo".to_string()), 6);
    assert_eq!(chars_of("hé"), vec!['h', 'é']);
}
