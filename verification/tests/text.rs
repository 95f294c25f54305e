use atletiek_nu_api::text::{
    chars_of, contains, copy_of, find, first_nonblank, nonblank, replace, same_text, split_first,
    string_of,
};
use atletiek_nu_api::util::clean_html;

#[test]
fn replace_does_what_std_does() {
    for (text, from, to) in [
        ("Jane  Doe", "  ", " "),
        ("a    b", "  ", " "),
        ("a   b", "  ", " "),
        ("1,5", ",", "."),
        ("+ 1 . 2 m/s", " ", ""),
        ("AV Test -", " -", ""),
        ("&lt;li&gt;", "&lt;", "<"),
        ("aaa", "aa", "b"),
        ("", "x", "y"),
        ("abc", "abcd", "x"),
        ("caf\u{e9}\u{a0}x", "\u{a0}", ""),
    ] {
        assert_eq!(replace(text, from, to), text.replace(from, to), "{:?} {:?} {:?}", text, from, to);
    }
}

#[test]
fn replace_of_nothing_changes_nothing() {
    assert_eq!(replace("abc", "", "x"), "abc");
}

#[test]
fn contains_does_what_std_does() {
    for (text, part) in [
        ("Club members only", "members"),
        ("abc", "abcd"),
        ("abc", ""),
        ("", ""),
        ("", "a"),
        ("notThatImportant odd", "notThatImportant"),
        ("12cm", "cm"),
        ("12c m", "cm"),
    ] {
        assert_eq!(contains(text, part), text.contains(part), "{:?} {:?}", text, part);
    }
}

#[test]
fn find_gives_the_leftmost_place() {
    let text = chars_of("a, b, c");
    assert_eq!(find(&text, &chars_of(", ")), Some(1));
    assert_eq!(find(&text, &chars_of("c")), Some(6));
    assert_eq!(find(&text, &chars_of("d")), None);
    assert_eq!(find(&text, &chars_of("")), Some(0));
    assert_eq!(find(&chars_of(""), &chars_of("")), Some(0));
}

#[test]
fn split_first_cuts_at_the_first_separator() {
    assert_eq!(split_first("AV Club, Venlo", ", "), Some(("AV Club".to_string(), "Venlo".to_string())));
    assert_eq!(split_first("a, b, c", ", "), Some(("a".to_string(), "b, c".to_string())));
    assert_eq!(split_first("abc", ", "), None);
    assert_eq!(split_first(", x", ", "), Some(("".to_string(), "x".to_string())));
}

#[test]
fn strings_and_characters_convert_both_ways() {
    let text = "h\u{e9}llo w\u{f6}rld";
    assert_eq!(string_of(&chars_of(text)), text);
    assert_eq!(copy_of(text), text);
    assert!(same_text("abc", "abc"));
    assert!(!same_text("abc", "abd"));
    assert!(!same_text("abc", "ab"));
}

#[test]
fn blank_texts_are_passed_over() {
    let texts = vec!["  ".to_string(), "\n".to_string(), " Jane ".to_string(), "x".to_string()];
    assert_eq!(first_nonblank(&texts), Some("Jane".to_string()));
    assert_eq!(nonblank(&texts), vec!["Jane".to_string(), "x".to_string()]);
    assert_eq!(first_nonblank(&vec![" ".to_string()]), None);
    assert_eq!(nonblank(&Vec::new()), Vec::<String>::new());
}

#[test]
fn clean_html_keeps_the_top_level_text() {
    assert_eq!(clean_html("Venlo <span class=\"clubmembersonly\">Club only</span> NL"), "Venlo  NL");
    assert_eq!(clean_html("plain"), "plain");
    assert_eq!(clean_html("<b>all inside</b>"), "");
    assert_eq!(clean_html(""), "");
    assert_eq!(clean_html("a<i>b<u>c</u>d</i>e"), "ae");
}

#[test]
fn clean_html_takes_a_slash_for_closing_only_after_the_bracket() {
    assert_eq!(clean_html("<a href='/x'>t</a>y"), "y");
    assert_eq!(clean_html("x<a href=\"/p/q\"><b>in</b></a>y"), "xy");
    assert_eq!(clean_html("a<br>b</br>c"), "ac");
    assert_eq!(clean_html("a</b>c"), "a");
}

#[test]
fn clean_html_passes_over_a_tag_that_closes_itself() {
    assert_eq!(clean_html("a<br/>b"), "ab");
    assert_eq!(clean_html("Venlo<img src=\"/flags/nl.png\"/> NL"), "Venlo NL");
    assert_eq!(clean_html("<span>in <br/> still in</span>out"), "out");
}

#[test]
fn clean_html_keeps_a_bracket_that_ends_no_tag() {
    assert_eq!(clean_html("a > b"), "a > b");
    assert_eq!(clean_html("1 / 2"), "1 / 2");
}
