use modeling::sorting::{arrange, collapse_order, less_chars, lower_keys_of, stable_order};
use modeling::text::{
    byte_length, chars_of, concat_strings, contains_text, ends_with, find_text, join_strings,
    holds_text, remove_first_occurrence, same_text, same_text_ignoring_ascii_case, split,
    substring,
};
use modeling::{count_thread, files_by_thread};

fn names(list: &[&str]) -> Vec<String> {
    list.iter().map(|name| name.to_string()).collect()
}

#[test]
fn split_keeps_empty_pieces() {
    assert_eq!(names(&[""]), split("", ','));
    assert_eq!(names(&["a"]), split("a", ','));
    assert_eq!(names(&["a", "b", "c"]), split("a,b,c", ','));
    assert_eq!(names(&["", "a", "", ""]), split(",a,,", ','));
    assert_eq!(names(&["é", "ü"]), split("é.ü", '.'));
}

#[test]
fn first_occurrence_is_removed() {
    assert_eq!("a b a", remove_first_occurrence("a ab b a", "ab "));
    assert_eq!("abc", remove_first_occurrence("abc", "x"));
    assert_eq!("abc", remove_first_occurrence("abc", ""));
    assert_eq!("", remove_first_occurrence("abc", "abc"));
    assert_eq!("ab", remove_first_occurrence("aab", "a"));
    assert_eq!("abc", remove_first_occurrence("abc", "abcd"));
}

#[test]
fn beginnings_endings_and_parts() {
    assert!(ends_with("UserService", "Service"));
    assert!(ends_with("abc", ""));
    assert!(!ends_with("Service", "UserService"));
    assert!(contains_text("CustomModel.java", "Model"));
    assert!(contains_text("abc", ""));
    assert!(!contains_text("abc", "cb"));
    assert_eq!("bc", substring("abcd", 1, 3));
    assert_eq!("", substring("abcd", 2, 2));
    assert_eq!(vec!['a', 'é', 'b'], chars_of("aéb"));
    assert_eq!(4, byte_length("aéb"));
}

#[test]
fn texts_are_compared() {
    assert!(same_text("abc", "abc"));
    assert!(!same_text("abc", "abd"));
    assert!(!same_text("abc", "ab"));
    assert!(same_text_ignoring_ascii_case("MethodName", "methodNAME"));
    assert!(!same_text_ignoring_ascii_case("a_b", "A?b"));
    assert!(!same_text_ignoring_ascii_case("É", "é"));
    assert!(!same_text_ignoring_ascii_case("@", "`"));
    assert!(!same_text_ignoring_ascii_case("[", "{"));
    assert!(less_chars(&chars_of("ab"), &chars_of("abc")));
    assert!(less_chars(&chars_of("Zed"), &chars_of("alpha")));
    assert!(less_chars(&chars_of(""), &chars_of("a")));
    assert!(!less_chars(&chars_of("a"), &chars_of("a")));
    assert!(!less_chars(&chars_of("b"), &chars_of("a")));
}

#[test]
fn texts_are_joined() {
    assert_eq!("a, b, c", join_strings(&names(&["a", "b", "c"]), ", "));
    assert_eq!("a", join_strings(&names(&["a"]), ", "));
    assert_eq!("", join_strings(&vec![], ", "));
    assert_eq!(", ", join_strings(&names(&["", ""]), ", "));
    assert_eq!("abc", concat_strings(&names(&["a", "", "bc"])));
    assert_eq!(Some(1), find_text(&names(&["a", "b", "b"]), "b"));
    assert_eq!(None, find_text(&names(&["a", "b"]), "c"));
    assert!(holds_text(&names(&["a", "b"]), "b"));
    assert!(!holds_text(&names(&["a", "b"]), "ab"));
}

#[test]
fn order_is_stable() {
    assert_eq!(vec![1, 3, 0, 2], stable_order(&names(&["b", "a", "b", "a"])));
    assert!(stable_order(&vec![]).is_empty());
    let all = names(&["b", "a", "B", "a"]);
    assert_eq!(vec![1, 0], collapse_order(&vec![1, 3, 0, 2], &all, true));
    assert_eq!(vec![1, 0, 2], collapse_order(&vec![1, 3, 0, 2], &all, false));
}

#[test]
fn names_are_arranged_by_lowercase_form() {
    assert_eq!(names(&["straße", "éa", "abc"]), lower_keys_of(&names(&["Straße", "ÉA", "abc"])));
    let all = names(&["a", "B", "A", "b"]);
    assert_eq!(vec![0, 2, 1, 3], arrange(&all, false));
    assert_eq!(vec![0, 1], arrange(&all, true));
}

#[test]
fn shards_are_counted_and_filled() {
    assert_eq!(0, count_thread(&vec![]));
    assert_eq!(3, count_thread(&names(&["a", "b", "c"])));
    let many: Vec<String> = (0..20).map(|i| format!("f{}", i)).collect();
    assert_eq!(8, count_thread(&many));
    assert_eq!(
        names(&["a\nc\ne\n", "b\nd\n"]),
        files_by_thread(names(&["a", "b", "c", "d", "e"]), 2)
    );
    assert_eq!(names(&["a\n", "", ""]), files_by_thread(names(&["a"]), 3));
    assert!(files_by_thread(vec![], 0).is_empty());
}
