use dnq::index::KeywordIndex;
use dnq::objects::{new_inline_query_result_cached_voice, set_quotes, InlineQuery, Quote, Update};

fn quote(id: &str, caption: &str, matches: &[&str]) -> Quote {
    Quote {
        id: id.to_string(),
        caption: caption.to_string(),
        matches: matches.iter().map(|m| m.to_string()).collect(),
    }
}

fn fixture_index() -> KeywordIndex {
    let index = KeywordIndex::new();
    index.bulk_insert(&vec![Quote {
        id: "AwACAgIAAxkDAAMRX3J5RTS6ijieWbCFrX68h8-o4ZoAAg8HAAKguZhLPoXn4iWWE2QbBA".to_string(),
        caption: "Come get some!".to_string(),
        matches: vec!["come", "get", "some", "come get some", ""]
            .iter()
            .map(|x| x.to_string())
            .collect(),
    }]);
    index
}

#[test]
fn test_new_inline_query_result_cached_voice() {
    let index = fixture_index();
    index.bulk_insert(&vec![quote("test", "value", &["hehe"])]);

    let update = Update {
        id: 1337,
        inline_query: Some(InlineQuery {
            id: "133733".to_string(),
            query: "hehe".to_string(),
            from: None,
            offset: String::new(),
        }),
        message: None,
    };

    let answer = new_inline_query_result_cached_voice(&index, &update);
    assert_eq!(1, answer.len(), "answer should be have one item");
}

#[test]
fn test_set_qs() {
    let new_quotes = vec![quote("1", "", &["test"]), quote("2", "", &["me"])];

    let index = fixture_index();
    let expected = index.len();

    set_quotes(&index, &new_quotes);
    assert_eq!(expected + 2, index.len());
}

#[test]
fn mixed_case_lookup_hits_and_miss_is_empty() {
    let index = KeywordIndex::new();
    index.bulk_insert(&vec![quote("Q1", "Hi", &["hello", "hey"])]);

    let hit = index.lookup("HELLO");
    assert_eq!(1, hit.len());
    assert_eq!("Hi", hit[0].caption.as_str());

    let miss = index.lookup("bye");
    assert!(miss.is_empty());
}

#[test]
fn lookup_normalizes_both_sides() {
    let index = KeywordIndex::new();
    index.bulk_insert(&vec![quote("Q1", "Hi", &["  Hello "])]);

    let hit = index.lookup(" hello\t");
    assert_eq!(1, hit.len());
    assert_eq!("Q1", hit[0].id.as_str());
}

#[test]
fn unmatched_query_falls_back_to_default_bucket() {
    let index = KeywordIndex::new();
    index.bulk_insert(&vec![quote("D", "Default", &[""])]);

    let answer = index.lookup("anything-unmatched");
    assert_eq!(1, answer.len());
    assert_eq!("Default", answer[0].caption.as_str());
    assert_eq!("D", answer[0].id.as_str());
}

#[test]
fn lookup_is_idempotent_without_inserts() {
    let index = KeywordIndex::new();
    index.bulk_insert(&vec![
        quote("Q1", "Hi", &["hello"]),
        quote("Q2", "Yo", &["hello", "yo"]),
    ]);

    let first = index.lookup("hello");
    let second = index.lookup("hello");
    let third = index.lookup("hello");
    assert_eq!(first, second);
    assert_eq!(second, third);
}

#[test]
fn bulk_insert_is_additive() {
    let index = KeywordIndex::new();
    index.bulk_insert(&vec![quote("A1", "first", &["greet"])]);

    let before = index.lookup("greet");
    assert_eq!(1, before.len());

    index.bulk_insert(&vec![quote("B1", "second", &["greet"])]);

    let after = index.lookup("greet");
    assert_eq!(2, after.len());
    assert_eq!(before[0], after[0]);
    assert_eq!("second", after[1].caption.as_str());
}

#[test]
fn record_appears_once_per_keyword_bucket() {
    let index = KeywordIndex::new();
    index.bulk_insert(&vec![quote("Q1", "Hi", &["hello", "hey"])]);

    assert_eq!(1, index.lookup("hello").len());
    assert_eq!(1, index.lookup("hey").len());
    assert_eq!(2, index.len());
}

#[test]
fn empty_index_lookup_is_empty_not_an_error() {
    let index = KeywordIndex::new();
    assert!(index.lookup("anything").is_empty());
    assert_eq!(0, index.len());
}
