use yalich::text::{
    chars_of, compare, find, first_index, last_index, same_text, starts_with, Order,
};

#[test]
fn compare_orders_by_first_difference() {
    assert_eq!(compare("requests", "serde"), Order::Before);
    assert_eq!(compare("serde", "requests"), Order::After);
    assert_eq!(compare("serde", "serde"), Order::Same);
}

#[test]
fn compare_puts_a_prefix_first() {
    assert_eq!(compare("serde", "serde_json"), Order::Before);
    assert_eq!(compare("serde_json", "serde"), Order::After);
    assert_eq!(compare("", "a"), Order::Before);
    assert_eq!(compare("", ""), Order::Same);
}

#[test]
fn compare_orders_capitals_before_small_letters() {
    assert_eq!(compare("Zope", "apple"), Order::Before);
    assert_eq!(compare("@types/node", "lodash"), Order::Before);
}

#[test]
fn compare_agrees_with_the_order_of_strings() {
    let names = ["", "a", "A", "ab", "b", "é", "e", "日本", "z", "@x/y", "a-b", "a_b", "a1"];
    for a in names.iter() {
        for b in names.iter() {
            let expected = match a.cmp(b) {
                std::cmp::Ordering::Less => Order::Before,
                std::cmp::Ordering::Equal => Order::Same,
                std::cmp::Ordering::Greater => Order::After,
            };
            assert_eq!(compare(a, b), expected);
        }
    }
}

#[test]
fn same_text_compares_all_characters() {
    assert!(same_text("Other", "Other"));
    assert!(!same_text("Other", "other"));
    assert!(!same_text("Other", "Others"));
    assert!(!same_text("Other", ""));
    assert!(same_text("", ""));
}

#[test]
fn starts_with_finds_prefixes() {
    assert!(starts_with("../sibling", "../"));
    assert!(!starts_with("./sibling", "../"));
    assert!(!starts_with("..", "../"));
    assert!(starts_with("anything", ""));
    assert!(starts_with("", ""));
    assert!(!starts_with("", "a"));
    assert!(starts_with("@fortawesome/pro-solid-svg-icons", "@fortawesome/pro"));
    assert!(!starts_with("@fortawesome/free-solid-svg-icons", "@fortawesome/pro"));
}

#[test]
fn chars_of_keeps_every_character() {
    assert_eq!(chars_of("añb"), vec!['a', 'ñ', 'b']);
    assert_eq!(chars_of(""), Vec::<char>::new());
}

#[test]
fn first_index_finds_the_first_of_several() {
    let text = chars_of("a#b#c");
    assert_eq!(first_index(&text, '#'), Some(1));
    assert_eq!(first_index(&text, 'c'), Some(4));
    assert_eq!(first_index(&text, 'x'), None);
    assert_eq!(first_index(&chars_of(""), '#'), None);
}

#[test]
fn last_index_finds_the_last_of_several() {
    let text = chars_of("/a/b/c");
    assert_eq!(last_index(&text, '/'), Some(4));
    assert_eq!(last_index(&text, 'a'), Some(1));
    assert_eq!(last_index(&text, 'x'), None);
    assert_eq!(last_index(&chars_of(""), '/'), None);
}

#[test]
fn find_gives_the_first_place_of_a_pattern() {
    let text = chars_of("https://github.com/github.com");
    let marker = chars_of("github.com");
    assert_eq!(find(&text, &marker), Some(8));
    assert_eq!(find(&chars_of("https://github.co"), &marker), None);
    assert_eq!(find(&chars_of("xgithub.com"), &marker), Some(1));
    assert_eq!(find(&text, &chars_of("gitlab")), None);
    assert_eq!(find(&text, &chars_of("")), Some(0));
    assert_eq!(find(&chars_of(""), &chars_of("")), Some(0));
    assert_eq!(find(&chars_of("ab"), &chars_of("abc")), None);
    assert_eq!(find(&chars_of("aab"), &chars_of("ab")), Some(1));
}
