use tinycd::env_table::EnvTable;
use tinycd::text::{
    contains, contains_char, first_word, join_texts, lines, second_word, split_once, starts_with,
    strip_prefix, trim,
};

const SAMPLES: [&str; 14] = [
    "",
    " ",
    "a",
    " a b ",
    "\t\u{a0}x\u{2003}",
    "a\nb",
    "a\r\nb\r\n",
    "\n",
    "a\r",
    "\u{85}y",
    "key=value=more",
    "=",
    "\u{200b}z",
    "one  two",
];

#[test]
fn strings_behave_like_those_of_the_standard_library() {
    for sample in SAMPLES {
        assert_eq!(trim(sample), sample.trim());
        assert_eq!(lines(sample), sample.lines().collect::<Vec<_>>());
        assert_eq!(
            first_word(sample).as_deref(),
            sample.split_whitespace().next()
        );
        assert_eq!(
            second_word(sample).as_deref(),
            sample.split_whitespace().nth(1)
        );
        assert_eq!(
            split_once(sample, '='),
            sample
                .split_once('=')
                .map(|(key, value)| (key.to_owned(), value.to_owned()))
        );
        assert_eq!(contains_char(sample, 'b'), sample.contains('b'));
        for part in ["", "a", "=v", "wo", "zz"] {
            assert_eq!(contains(sample, part), sample.contains(part));
            assert_eq!(starts_with(sample, part), sample.starts_with(part));
            assert_eq!(
                strip_prefix(sample, part).as_deref(),
                sample.strip_prefix(part)
            );
        }
    }
    for c in (0..=0x3100).filter_map(char::from_u32) {
        assert_eq!(trim(&c.to_string()).is_empty(), c.is_whitespace());
    }
}

#[test]
fn parts_are_joined() {
    let parts: Vec<String> = vec!["a".to_owned(), String::new(), "b".to_owned()];
    assert_eq!(join_texts(&parts, ", "), "a, , b");
    assert_eq!(join_texts(&vec![], ", "), "");
    assert_eq!(join_texts(&vec!["x".to_owned()], ", "), "x");
}

#[test]
fn a_table_is_kept_in_order() {
    let mut table = EnvTable::new();
    for (name, value) in [("b", "1"), ("a", "2"), ("c", "3"), ("b", "4")] {
        table.insert(name.to_owned(), value.to_owned());
    }
    assert_eq!(table.len(), 3);
    let pairs: Vec<(&str, &str)> = (0..table.len())
        .map(|i| (table.name(i), table.value(i)))
        .collect();
    assert_eq!(pairs, vec![("a", "2"), ("b", "4"), ("c", "3")]);
    let mut other = EnvTable::new();
    other.insert("c".to_owned(), "5".to_owned());
    other.insert("d".to_owned(), "6".to_owned());
    table.extend(&other);
    assert_eq!(table.get("c"), Some("5"));
    assert_eq!(table.get("d"), Some("6"));
    assert_eq!(table.get("a"), Some("2"));
    assert_eq!(table.get("e"), None);
}
