use dnq::client::{check_status, Client, Error, Method, Request, BOT_API_URL, HTTP_200_OK};

#[test]
fn test_client_new() {
    let client = Client::new("this is a token");
    assert_eq!(BOT_API_URL, client.api_url.as_str());
}

#[test]
fn client_url_joins_base_token_and_endpoint() {
    let mut client = Client::new("secrettoken");
    client.api_url = String::from("http://localhost:3000/bot");
    assert_eq!(
        "http://localhost:3000/botsecrettoken/answerInlineQuery",
        client.url("answerInlineQuery").as_str()
    );
}

#[test]
fn request_carries_method_body_and_expected_status() {
    let request = Request::new(Method::AnswerInlineQuery, String::from("{}"));
    assert_eq!("answerInlineQuery", request.endpoint());
    assert_eq!("{}", request.body.as_str());
    assert_eq!(HTTP_200_OK, request.expected_status);
}

#[test]
fn expected_status_passes() {
    assert!(check_status(200, HTTP_200_OK).is_ok());
}

#[test]
fn unexpected_status_is_reported() {
    match check_status(404, HTTP_200_OK) {
        Err(Error::UnexpectedStatus(status)) => assert_eq!(404, status),
        _ => panic!("a wrong status must be refused"),
    }
}
