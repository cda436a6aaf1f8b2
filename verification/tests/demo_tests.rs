use std::collections::HashMap;

use dnq::demo::{Container, Poster};

#[test]
fn test_internal_object() {
    let container = Container { id: "test", contents: vec!["this", "is", "test"] };
    println!("container: {:?}", container);
}

#[test]
fn test_copy() {
    let mut map: HashMap<&str, Vec<Container>> = HashMap::new();
    let sources = vec![
        Container { id: "test", contents: vec!["this", "is", "a", "test"] },
        Container { id: "me", contents: vec!["me", "mine"] },
    ];
    for container in sources {
        if !map.contains_key(container.id) {
            map.insert(container.id, Vec::new());
        }
        match map.get_mut(container.id) {
            Some(bucket) => bucket.push(container),
            None => panic!("the bucket was just inserted"),
        }
    }

    assert_eq!(2, map.len());
}

#[test]
fn poster_endpoint_joins_base_token_and_method() {
    let poster = Poster { api_url: "http://localhost:3000/bot", token: "secrettoken" };
    assert_eq!(
        "http://localhost:3000/botsecrettoken/answerInlineQuery",
        poster.endpoint("answerInlineQuery").as_str()
    );
}
