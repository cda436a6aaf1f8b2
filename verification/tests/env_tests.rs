use dnq::env::Env;

#[test]
fn test_env_from_string_default() {
    let e = Env::with("test", String::from("default"));
    assert_eq!(String::from("default"), e.resolve(None));
}

#[test]
fn test_env_from_string_env() {
    assert_eq!(
        String::from("just a string value"),
        Env::with("TEST_VALUE", String::from("default"))
            .resolve(Some(String::from("just a string value")))
    );
}

#[test]
fn test_env_from_i32() {
    let e = Env::with("TEST_VALUE", 1337);
    assert_eq!(1337, e.resolve(Some(String::from("1337"))));
}

#[test]
fn test_env_from_i32_chain() {
    assert_eq!(
        1337,
        Env::with("TEST_VALUE", 1337i32).resolve(Some(String::from("1337")))
    );
}

#[test]
fn unparseable_text_falls_back_to_the_default() {
    let e = Env::with("TEST_VALUE", 42u8);
    assert_eq!(42, e.resolve(Some(String::from("not a number"))));
}
