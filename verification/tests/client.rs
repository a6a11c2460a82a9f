use bytes::Bytes;
use tributary::mlx_client::{shape_from_response, Body, Field, Method, MlxClient, Request, ResponseError, Tensor};

fn client() -> MlxClient {
    MlxClient::new("http://localhost:8765".to_string())
}

fn tensor() -> Tensor {
    Tensor { data: Bytes::from(vec![1, 2, 3]), shape: "1,1,3072".to_string() }
}

fn tensor_request(url: &str, query: Vec<Field>) -> Request {
    Request {
        method: Method::Post,
        url: url.to_string(),
        query,
        headers: vec![Field::new("X-Shape", "1,1,3072"), Field::new("X-Dtype", "float16")],
        body: Body::Raw { data: Bytes::from(vec![1, 2, 3]) },
    }
}

fn json_request(url: &str, text: &str) -> Request {
    Request {
        method: Method::Post,
        url: url.to_string(),
        query: vec![],
        headers: vec![Field::new("Content-Type", "application/json")],
        body: Body::Json { text: text.to_string() },
    }
}

fn bare_request(method: Method, url: &str) -> Request {
    Request { method, url: url.to_string(), query: vec![], headers: vec![], body: Body::Empty }
}

#[test]
fn plain_questions() {
    assert_eq!(client().info(), bare_request(Method::Get, "http://localhost:8765/info"));
    assert_eq!(client().reset(), bare_request(Method::Post, "http://localhost:8765/reset"));
}

#[test]
fn texts_are_sent_as_json() {
    assert_eq!(
        client().tokenize("Hello, world"),
        json_request("http://localhost:8765/tokenize", "{\"text\":\"Hello, world\"}")
    );
    assert_eq!(client().tokenize(""), json_request("http://localhost:8765/tokenize", "{\"text\":\"\"}"));
}

#[test]
fn texts_are_escaped() {
    let text = "\"\\/\u{8}\u{c}\n\r\t\u{0}\u{1f}\u{7f}\u{e9}\u{1f600}";
    let expected = concat_text(&[
        "{\"text\":\"",
        "\\\"",
        "\\\\",
        "/",
        "\\b",
        "\\f",
        "\\n",
        "\\r",
        "\\t",
        "\\u0000",
        "\\u001f",
        "\u{7f}\u{e9}\u{1f600}",
        "\"}",
    ]);
    assert_eq!(client().tokenize(text), json_request("http://localhost:8765/tokenize", &expected));
}

fn concat_text(parts: &[&str]) -> String {
    let mut text = String::new();
    for part in parts {
        text.push_str(part);
    }
    text
}

#[test]
fn tokens_are_sent_as_json() {
    assert_eq!(
        client().detokenize(&[128009]),
        json_request("http://localhost:8765/detokenize", "{\"token_ids\":[128009]}")
    );
    assert_eq!(
        client().embed(&[0, 4294967295, 7]),
        json_request("http://localhost:8765/embed", "{\"token_ids\":[0,4294967295,7]}")
    );
    assert_eq!(client().embed(&[]), json_request("http://localhost:8765/embed", "{\"token_ids\":[]}"));
}

#[test]
fn tensors_are_sent_with_their_shape() {
    let c = client();
    let t = tensor();
    assert_eq!(
        c.forward(&t, "prefill"),
        tensor_request("http://localhost:8765/forward", vec![Field::new("mode", "prefill")])
    );
    assert_eq!(
        c.logits(&t),
        tensor_request("http://localhost:8765/logits", vec![Field::new("last_only", "true")])
    );
    assert_eq!(c.sample(&t), tensor_request("http://localhost:8765/sample", vec![]));
    assert_eq!(c.argmax(&t), tensor_request("http://localhost:8765/argmax", vec![]));
    assert_eq!(t.data, Bytes::from(vec![1, 2, 3]));
}

#[test]
fn drafts_and_trims_are_asked_for() {
    let mut draft = bare_request(Method::Post, "http://localhost:8765/draft");
    draft.query = vec![Field::new("token_id", "17"), Field::new("k", "4")];
    assert_eq!(client().draft(17, 4), draft);
    let mut trim = bare_request(Method::Post, "http://localhost:8765/trim");
    trim.query = vec![Field::new("n", "0")];
    assert_eq!(client().trim(0), trim);
}

#[test]
fn an_answer_says_its_shape() {
    let bytes: &[u8] = b"1,1,\t 128256~";
    assert_eq!(shape_from_response(Some(bytes)), Ok("1,1,\t 128256~".to_string()));
    let empty: &[u8] = b"";
    assert_eq!(shape_from_response(Some(empty)), Ok(String::new()));
}

#[test]
fn an_answer_without_shape_is_refused() {
    assert_eq!(shape_from_response(None), Err(ResponseError::MissingShape));
    assert_eq!(ResponseError::MissingShape.message(), "response missing X-Shape header");
    for byte in [0u8, 8, 10, 31, 127, 128, 255] {
        let bytes = [b'1', byte];
        assert_eq!(shape_from_response(Some(&bytes)), Err(ResponseError::UnreadableShape));
    }
    assert_eq!(ResponseError::UnreadableShape.message(), "failed to convert header to a str");
}
