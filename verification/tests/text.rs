use svd2pac::ir::{Register, Interrupt};
use svd2pac::ordered::{find, upsert};
use svd2pac::text::{chars_of, clone_strings, contains_char, join, replace_all, same_strings, string_from};

fn named(name: &str, offset: u32) -> Register {
    let mut r = Register::default();
    r.name = name.to_string();
    r.offset = offset;
    r
}

#[test]
fn characters_of_a_string_and_back() {
    let chars = chars_of("aé!");
    assert_eq!(chars, vec!['a', 'é', '!']);
    assert_eq!(string_from(&chars, 0), "aé!");
    assert_eq!(string_from(&chars, 1), "é!");
    assert_eq!(string_from(&chars, 3), "");
}

#[test]
fn replacement_is_from_the_left_without_overlap() {
    assert_eq!(replace_all("aaa", "aa", "b"), "ba");
    assert_eq!(replace_all("a\\nb\\n", "\\n", "\n"), "a\nb\n");
    assert_eq!(replace_all("abc", "", "x"), "abc");
    assert_eq!(replace_all("ab", "abc", "x"), "ab");
    assert_eq!(replace_all("", "a", "x"), "");
    assert_eq!(replace_all("xyxy", "xy", ""), "");
    assert_eq!(replace_all("[%s]", "%s", "0"), "[0]");
}

#[test]
fn search_for_a_character() {
    assert!(contains_char("a.b", '.'));
    assert!(!contains_char("ab", '.'));
    assert!(!contains_char("", '.'));
}

#[test]
fn joining_puts_the_separator_between_neighbours() {
    let parts = vec!["a".to_string(), "b".to_string(), "c".to_string()];
    assert_eq!(join(&parts, "."), "a.b.c");
    assert_eq!(join(&parts[..1].to_vec(), "."), "a");
    assert_eq!(join(&Vec::new(), "."), "");
    assert_eq!(join(&vec![String::new(), String::new()], "::"), "::");
}

#[test]
fn copies_of_string_lists_are_equal_to_their_source() {
    let parts = vec!["a".to_string(), "b".to_string()];
    let copy = clone_strings(&parts);
    assert_eq!(copy, parts);
    assert!(same_strings(&copy, &parts));
    assert!(!same_strings(&copy, &vec!["a".to_string()]));
    assert!(!same_strings(&copy, &vec!["a".to_string(), "c".to_string()]));
}

#[test]
fn insertion_appends_a_new_name() {
    let mut list = vec![named("A", 0), named("B", 4)];
    upsert(&mut list, named("C", 8));
    let names: Vec<&str> = list.iter().map(|r| r.name.as_str()).collect();
    assert_eq!(names, vec!["A", "B", "C"]);
}

#[test]
fn insertion_replaces_a_known_name_and_moves_it_to_the_end() {
    let mut list = vec![named("A", 0), named("B", 4), named("C", 8)];
    upsert(&mut list, named("A", 12));
    let names: Vec<&str> = list.iter().map(|r| r.name.as_str()).collect();
    assert_eq!(names, vec!["B", "C", "A"]);
    assert_eq!(list[2].offset, 12);
}

#[test]
fn search_by_name_finds_the_first() {
    let list = vec![named("A", 0), named("B", 4), named("A", 8)];
    assert_eq!(find(&list, &"A".to_string()), Some(0));
    assert_eq!(find(&list, &"B".to_string()), Some(1));
    assert_eq!(find(&list, &"C".to_string()), None);
}

#[test]
fn copy_of_an_interrupt_is_equal_to_it() {
    let i = Interrupt { name: "I".to_string(), value: 3, description: "d".to_string() };
    assert_eq!(i.clone(), i);
}
