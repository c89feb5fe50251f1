use helium::text::{find, matches_at, same, split_once, to_chars, to_text};

fn chars(s: &str) -> Vec<char> {
    s.chars().collect()
}

#[test]
fn to_chars_lists_the_characters_in_order() {
    assert_eq!(to_chars("a/é"), vec!['a', '/', 'é']);
    assert_eq!(to_chars(""), Vec::<char>::new());
}

#[test]
fn to_text_builds_the_string_of_the_characters() {
    assert_eq!(to_text(&['G', 'E', 'T']), "GET");
    assert_eq!(to_text(&['é', ' ', 'x']), "é x");
    assert_eq!(to_text(&[]), "");
}

#[test]
fn to_text_undoes_to_chars() {
    let message = "GET /?a=1 HTTP/1.1\r\n";
    assert_eq!(to_text(&to_chars(message)), message);
}

#[test]
fn same_compares_lengths_and_characters() {
    assert!(same(&chars("abc"), &chars("abc")));
    assert!(!same(&chars("abc"), &chars("abd")));
    assert!(!same(&chars("abc"), &chars("ab")));
    assert!(same(&[], &[]));
}

#[test]
fn matches_at_checks_one_offset() {
    let s = chars("a\r\nb");
    assert!(matches_at(&s, &chars("\r\n"), 1));
    assert!(!matches_at(&s, &chars("\r\n"), 0));
    assert!(!matches_at(&s, &chars("\r\n"), 3));
    assert!(!matches_at(&s, &chars("\r\n"), 9));
    assert!(matches_at(&s, &[], 4));
}

#[test]
fn find_returns_the_first_of_several_occurrences() {
    assert_eq!(find(&chars("a b c"), &[' ']), Some(1));
    assert_eq!(find(&chars("x\r\n\r\ny\r\n\r\n"), &chars("\r\n\r\n")), Some(1));
    assert_eq!(find(&chars("abc"), &chars("c")), Some(2));
}

#[test]
fn find_returns_none_without_an_occurrence() {
    assert_eq!(find(&chars("abc"), &[' ']), None);
    assert_eq!(find(&chars("a\rb\nc"), &chars("\r\n")), None);
    assert_eq!(find(&[], &[' ']), None);
    assert_eq!(find(&chars("ab"), &chars("abc")), None);
}

#[test]
fn split_once_leaves_the_separator_out() {
    let s = chars("key=value=more");
    let (a, b) = split_once(&s, &['=']).unwrap();
    assert_eq!(to_text(a), "key");
    assert_eq!(to_text(b), "value=more");
}

#[test]
fn split_once_gives_empty_halves_at_the_edges() {
    let s = chars("=");
    let (a, b) = split_once(&s, &['=']).unwrap();
    assert!(a.is_empty());
    assert!(b.is_empty());
    assert!(split_once(&chars("abc"), &['=']).is_none());
}
