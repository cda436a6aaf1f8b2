use dnq::index::KeywordIndex;
use dnq::objects::{new_answer_inline, InlineQuery, Quote, Update, UpdateType};

#[test]
fn update_type_tells_the_kinds_apart() {
    let inline = Update {
        id: 1,
        message: None,
        inline_query: Some(InlineQuery {
            id: "5".to_string(),
            from: None,
            query: "hi".to_string(),
            offset: String::new(),
        }),
    };
    assert!(matches!(inline.update_type(), UpdateType::Inline));

    let unknown = Update::default();
    assert!(matches!(unknown.update_type(), UpdateType::Unknown));
}

#[test]
fn default_update_is_empty() {
    let u = Update::default();
    assert_eq!(0, u.id);
    assert!(u.message.is_none());
    assert!(u.inline_query.is_none());
}

#[test]
fn answer_carries_query_id_and_projected_quotes() {
    let index = KeywordIndex::new();
    index.bulk_insert(&vec![Quote {
        id: "clip-1".to_string(),
        caption: "Hi".to_string(),
        matches: vec!["hello".to_string()],
    }]);

    let update = Update {
        id: 7,
        message: None,
        inline_query: Some(InlineQuery {
            id: "q-77".to_string(),
            from: None,
            query: "HELLO".to_string(),
            offset: String::new(),
        }),
    };

    let answer = new_answer_inline(&index, &update);
    assert_eq!("q-77", answer.id.as_str());
    assert_eq!(1, answer.results.len());
    let entry = &answer.results[0];
    assert_eq!("voice", entry.kind.as_str());
    assert_eq!("Hi", entry.caption.as_str());
    assert_eq!("Hi", entry.title.as_str());
    assert_eq!(Some("clip-1".to_string()), entry.voice_file_id);
    assert_eq!(36, entry.id.len());
}

#[test]
fn fresh_result_ids_differ_between_entries() {
    let index = KeywordIndex::new();
    index.bulk_insert(&vec![
        Quote {
            id: "clip-1".to_string(),
            caption: "one".to_string(),
            matches: vec!["k".to_string()],
        },
        Quote {
            id: "clip-2".to_string(),
            caption: "two".to_string(),
            matches: vec!["k".to_string()],
        },
    ]);
    let update = Update {
        id: 1,
        message: None,
        inline_query: Some(InlineQuery {
            id: "i".to_string(),
            from: None,
            query: "k".to_string(),
            offset: String::new(),
        }),
    };
    let answer = new_answer_inline(&index, &update);
    assert_eq!(2, answer.results.len());
    assert_ne!(answer.results[0].id, answer.results[1].id);
}

#[test]
fn update_without_query_gets_empty_answer_id() {
    let index = KeywordIndex::new();
    let answer = new_answer_inline(&index, &Update::default());
    assert_eq!("", answer.id.as_str());
    assert!(answer.results.is_empty());
}
