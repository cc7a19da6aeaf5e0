use akgine::text::{
    join_exec, push_i64_decimal, push_u64_decimal, split_exec, str_equal, to_owned_string,
    trim_char_exec, trim_white_exec,
};

#[test]
fn split_then_join_gives_the_text_back() {
    for s in ["a/b/c", "", "/", "a//b", "x/"] {
        let pieces = split_exec(s, '/');
        assert_eq!(join_exec(&pieces, "/"), s);
    }
    assert_eq!(split_exec("a//b", '/'), vec!["a", "", "b"]);
}

#[test]
fn trimming() {
    assert_eq!(trim_char_exec("//a/b//", '/'), "a/b");
    assert_eq!(trim_char_exec("////", '/'), "");
    assert_eq!(trim_white_exec("\t x y \u{3000}\n"), "x y");
    assert_eq!(trim_white_exec("\u{a0}\u{2003}"), "");
    assert_eq!(trim_white_exec("none"), "none");
}

#[test]
fn decimals() {
    let mut s = String::from("n=");
    push_u64_decimal(&mut s, 0);
    s.push(',');
    push_u64_decimal(&mut s, 1234567890);
    s.push(',');
    push_i64_decimal(&mut s, -42);
    s.push(',');
    push_i64_decimal(&mut s, i64::MIN);
    assert_eq!(s, "n=0,1234567890,-42,-9223372036854775808");
}

#[test]
fn string_helpers() {
    assert!(str_equal("abc", "abc"));
    assert!(!str_equal("abc", "abd"));
    assert!(!str_equal("ab", "abc"));
    assert_eq!(to_owned_string("x"), String::from("x"));
}
