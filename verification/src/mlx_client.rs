//! What is asked of a model server, and what it answers.
//!
//! A client turns each question into a request: plain data that a transport sends as it
//! stands.
use crate::json::{array_value, json_array, json_object, json_string, object_of, string_value};
use crate::payload::{contents, empty_buf, share_buf};
use crate::text::{decimal, digits};
use bytes::Bytes;
use vstd::prelude::*;

verus! {

/// A tensor as the servers exchange it: raw data, and the text of its shape.
#[derive(PartialEq, Eq, Debug)]
pub struct Tensor {
    pub data: Bytes,
    pub shape: String,
}

/// What a tensor holds.
#[verifier::ext_equal]
pub struct TensorView {
    pub data: Seq<u8>,
    pub shape: Seq<char>,
}

impl View for Tensor {
    type V = TensorView;

    open spec fn view(&self) -> TensorView {
        TensorView { data: contents(self.data), shape: self.shape@ }
    }
}

/// The tensor without data and without a shape.
pub open spec fn no_tensor() -> TensorView {
    TensorView { data: Seq::empty(), shape: Seq::empty() }
}

impl Tensor {
    /// A tensor without data and without a shape.
    pub fn empty() -> (t: Tensor)
        ensures
            t@ == no_tensor(),
    {
        let t = Tensor { data: empty_buf(), shape: String::new() };
        assert(t@ =~= no_tensor());
        t
    }
}

/// The layers that a server runs: `start_layer..end_layer` of `num_layers`.
#[derive(Clone, Copy, PartialEq, Eq, Debug, Structural)]
pub struct Info {
    pub start_layer: u32,
    pub end_layer: u32,
    pub num_layers: u32,
    pub is_first: bool,
}

/// The method of a request.
#[derive(Clone, Copy, PartialEq, Eq, Debug, Structural)]
pub enum Method {
    Get,
    Post,
}

/// A name and its value, in a query or among the headers.
#[derive(PartialEq, Eq, Debug)]
pub struct Field {
    pub name: String,
    pub value: String,
}

impl View for Field {
    type V = (Seq<char>, Seq<char>);

    open spec fn view(&self) -> (Seq<char>, Seq<char>) {
        (self.name@, self.value@)
    }
}

impl Field {
    /// A field of the given name and value.
    pub fn new(name: &str, value: &str) -> (field: Field)
        ensures
            field@ == (name@, value@),
    {
        let mut n = String::new();
        n.append(name);
        let mut v = String::new();
        v.append(value);
        assert(n@ =~= name@);
        assert(v@ =~= value@);
        Field { name: n, value: v }
    }
}

/// What fields say, in order.
pub open spec fn fields_view(fields: Seq<Field>) -> Seq<(Seq<char>, Seq<char>)> {
    Seq::new(fields.len(), |i: int| fields[i]@)
}

/// What a request carries.
#[derive(PartialEq, Eq, Debug)]
pub enum Body {
    Empty,
    Json { text: String },
    Raw { data: Bytes },
}

/// The contents of a body.
#[verifier::ext_equal]
pub enum BodyView {
    Empty,
    Json { text: Seq<char> },
    Raw { data: Seq<u8> },
}

impl View for Body {
    type V = BodyView;

    open spec fn view(&self) -> BodyView {
        match self {
            Body::Empty => BodyView::Empty,
            Body::Json { text } => BodyView::Json { text: text@ },
            Body::Raw { data } => BodyView::Raw { data: contents(*data) },
        }
    }
}

/// A request to a model server.
#[derive(PartialEq, Eq, Debug)]
pub struct Request {
    pub method: Method,
    pub url: String,
    /// What is added to the URL as a query, not yet encoded.
    pub query: Vec<Field>,
    pub headers: Vec<Field>,
    pub body: Body,
}

/// What a request says.
#[verifier::ext_equal]
pub struct RequestView {
    pub method: Method,
    pub url: Seq<char>,
    pub query: Seq<(Seq<char>, Seq<char>)>,
    pub headers: Seq<(Seq<char>, Seq<char>)>,
    pub body: BodyView,
}

impl View for Request {
    type V = RequestView;

    open spec fn view(&self) -> RequestView {
        RequestView {
            method: self.method,
            url: self.url@,
            query: fields_view(self.query@),
            headers: fields_view(self.headers@),
            body: self.body@,
        }
    }
}

/// A request without query, headers and body.
pub open spec fn bare_request(method: Method, url: Seq<char>) -> RequestView {
    RequestView {
        method,
        url,
        query: Seq::empty(),
        headers: Seq::empty(),
        body: BodyView::Empty,
    }
}

/// A request that posts JSON.
pub open spec fn json_request(url: Seq<char>, text: Seq<char>) -> RequestView {
    RequestView {
        headers: seq![("Content-Type"@, "application/json"@)],
        body: BodyView::Json { text },
        ..bare_request(Method::Post, url)
    }
}

/// A request that posts a tensor: its data as the body, its shape and type as headers.
pub open spec fn tensor_request(url: Seq<char>, t: TensorView) -> RequestView {
    RequestView {
        headers: seq![("X-Shape"@, t.shape), ("X-Dtype"@, "float16"@)],
        body: BodyView::Raw { data: t.data },
        ..bare_request(Method::Post, url)
    }
}

/// The request with one more field in its query.
pub open spec fn with_query(
    request: RequestView,
    name: Seq<char>,
    value: Seq<char>,
) -> RequestView {
    RequestView { query: request.query.push((name, value)), ..request }
}

impl Request {
    fn bare(method: Method, url: String) -> (request: Request)
        ensures
            request@ == bare_request(method, url@),
    {
        let request = Request {
            method,
            url,
            query: Vec::new(),
            headers: Vec::new(),
            body: Body::Empty,
        };
        assert(request@ =~= bare_request(method, url@));
        request
    }

    fn json(url: String, text: String) -> (request: Request)
        ensures
            request@ == json_request(url@, text@),
    {
        let mut headers: Vec<Field> = Vec::new();
        headers.push(Field::new("Content-Type", "application/json"));
        let request = Request {
            method: Method::Post,
            url,
            query: Vec::new(),
            headers,
            body: Body::Json { text },
        };
        assert(request@ =~= json_request(url@, text@));
        request
    }

    fn tensor(url: String, t: &Tensor) -> (request: Request)
        ensures
            request@ == tensor_request(url@, t@),
    {
        let mut headers: Vec<Field> = Vec::new();
        headers.push(Field::new("X-Shape", t.shape.as_str()));
        headers.push(Field::new("X-Dtype", "float16"));
        let request = Request {
            method: Method::Post,
            url,
            query: Vec::new(),
            headers,
            body: Body::Raw { data: share_buf(&t.data) },
        };
        assert(request@ =~= tensor_request(url@, t@));
        request
    }

    fn ask(&mut self, name: &str, value: &str)
        ensures
            final(self)@ == with_query(old(self)@, name@, value@),
    {
        self.query.push(Field::new(name, value));
        assert(self@ =~= with_query(old(self)@, name@, value@));
    }
}

/// The question on a server's layers.
pub open spec fn info_request(base: Seq<char>) -> RequestView {
    bare_request(Method::Get, base + "/info"@)
}

/// The request to empty a server's cache.
pub open spec fn reset_request(base: Seq<char>) -> RequestView {
    bare_request(Method::Post, base + "/reset"@)
}

/// The question on the tokens of a text.
pub open spec fn tokenize_request(base: Seq<char>, text: Seq<char>) -> RequestView {
    json_request(base + "/tokenize"@, json_object("text"@, json_string(text)))
}

/// The question on the text of tokens.
pub open spec fn detokenize_request(base: Seq<char>, token_ids: Seq<u32>) -> RequestView {
    json_request(base + "/detokenize"@, json_object("token_ids"@, json_array(token_ids)))
}

/// The question on the embedding of tokens.
pub open spec fn embed_request(base: Seq<char>, token_ids: Seq<u32>) -> RequestView {
    json_request(base + "/embed"@, json_object("token_ids"@, json_array(token_ids)))
}

/// The request for a pass through a server's layers.
pub open spec fn forward_request(base: Seq<char>, x: TensorView, mode: Seq<char>) -> RequestView {
    with_query(tensor_request(base + "/forward"@, x), "mode"@, mode)
}

/// The question on the logits of the last position.
pub open spec fn logits_request(base: Seq<char>, x: TensorView) -> RequestView {
    with_query(tensor_request(base + "/logits"@, x), "last_only"@, "true"@)
}

/// The question on a sample from logits, without its temperature.
pub open spec fn sample_request(base: Seq<char>, logits: TensorView) -> RequestView {
    tensor_request(base + "/sample"@, logits)
}

/// The question on the model's first choice behind each position.
pub open spec fn argmax_request(base: Seq<char>, x: TensorView) -> RequestView {
    tensor_request(base + "/argmax"@, x)
}

/// The question on a draft of `k` tokens behind `token`.
pub open spec fn draft_request(base: Seq<char>, token: u32, k: u32) -> RequestView {
    with_query(
        with_query(
            bare_request(Method::Post, base + "/draft"@),
            "token_id"@,
            digits(token as nat),
        ),
        "k"@,
        digits(k as nat),
    )
}

/// The request to drop the last `n` positions from a server's cache.
pub open spec fn trim_request(base: Seq<char>, n: u32) -> RequestView {
    with_query(bare_request(Method::Post, base + "/trim"@), "n"@, digits(n as nat))
}

/// The questions that can be put to the server at one address.
pub struct MlxClient {
    base: String,
}

impl View for MlxClient {
    type V = Seq<char>;

    /// The address of the server.
    closed spec fn view(&self) -> Seq<char> {
        self.base@
    }
}

impl MlxClient {
    /// A client of the server at `base`.
    pub fn new(base: String) -> (client: MlxClient)
        ensures
            client@ == base@,
    {
        MlxClient { base }
    }

    fn url(&self, path: &str) -> (url: String)
        ensures
            url@ == self@ + path@,
    {
        let mut url = String::new();
        url.append(self.base.as_str());
        url.append(path);
        assert(url@ =~= self@ + path@);
        url
    }

    /// Asks which layers the server runs.
    pub fn info(&self) -> (request: Request)
        ensures
            request@ == bare_request(Method::Get, self@ + "/info"@),
            request@ == info_request(self@),
    {
        Request::bare(Method::Get, self.url("/info"))
    }

    /// Asks the server to empty its cache.
    pub fn reset(&self) -> (request: Request)
        ensures
            request@ == bare_request(Method::Post, self@ + "/reset"@),
            request@ == reset_request(self@),
    {
        Request::bare(Method::Post, self.url("/reset"))
    }

    /// Asks for the tokens of a text.
    pub fn tokenize(&self, text: &str) -> (request: Request)
        ensures
            request@ == json_request(
                self@ + "/tokenize"@,
                json_object("text"@, json_string(text@)),
            ),
            request@ == tokenize_request(self@, text@),
    {
        let value = string_value(text);
        Request::json(self.url("/tokenize"), object_of("text", value.as_str()))
    }

    /// Asks for the text of tokens.
    pub fn detokenize(&self, token_ids: &[u32]) -> (request: Request)
        ensures
            request@ == json_request(
                self@ + "/detokenize"@,
                json_object("token_ids"@, json_array(token_ids@)),
            ),
            request@ == detokenize_request(self@, token_ids@),
    {
        let value = array_value(token_ids);
        Request::json(self.url("/detokenize"), object_of("token_ids", value.as_str()))
    }

    /// Asks for the embedding of tokens.
    pub fn embed(&self, token_ids: &[u32]) -> (request: Request)
        ensures
            request@ == json_request(
                self@ + "/embed"@,
                json_object("token_ids"@, json_array(token_ids@)),
            ),
            request@ == embed_request(self@, token_ids@),
    {
        let value = array_value(token_ids);
        Request::json(self.url("/embed"), object_of("token_ids", value.as_str()))
    }

    /// Asks for a pass through the server's layers.
    pub fn forward(&self, x: &Tensor, mode: &str) -> (request: Request)
        ensures
            request@ == with_query(
                tensor_request(self@ + "/forward"@, x@),
                "mode"@,
                mode@,
            ),
            request@ == forward_request(self@, x@, mode@),
    {
        let mut request = Request::tensor(self.url("/forward"), x);
        request.ask("mode", mode);
        request
    }

    /// Asks for the logits of the last position.
    pub fn logits(&self, x: &Tensor) -> (request: Request)
        ensures
            request@ == with_query(
                tensor_request(self@ + "/logits"@, x@),
                "last_only"@,
                "true"@,
            ),
            request@ == logits_request(self@, x@),
    {
        let mut request = Request::tensor(self.url("/logits"), x);
        request.ask("last_only", "true");
        request
    }

    /// Asks for a sample from logits. The query lacks the temperature, a floating-point number
    /// that the transport adds.
    pub fn sample(&self, logits: &Tensor) -> (request: Request)
        ensures
            request@ == tensor_request(self@ + "/sample"@, logits@),
            request@ == sample_request(self@, logits@),
    {
        Request::tensor(self.url("/sample"), logits)
    }

    /// Asks for the model's first choice behind each position.
    pub fn argmax(&self, x: &Tensor) -> (request: Request)
        ensures
            request@ == tensor_request(self@ + "/argmax"@, x@),
            request@ == argmax_request(self@, x@),
    {
        Request::tensor(self.url("/argmax"), x)
    }

    /// Asks for a draft of `k` tokens behind `token`.
    pub fn draft(&self, token: u32, k: u32) -> (request: Request)
        ensures
            request@ == with_query(
                with_query(
                    bare_request(Method::Post, self@ + "/draft"@),
                    "token_id"@,
                    digits(token as nat),
                ),
                "k"@,
                digits(k as nat),
            ),
            request@ == draft_request(self@, token, k),
    {
        let mut request = Request::bare(Method::Post, self.url("/draft"));
        let token_text = decimal(token as u128);
        request.ask("token_id", token_text.as_str());
        let k_text = decimal(k as u128);
        request.ask("k", k_text.as_str());
        request
    }

    /// Asks the server to drop the last `n` positions from its cache.
    pub fn trim(&self, n: u32) -> (request: Request)
        ensures
            request@ == with_query(
                bare_request(Method::Post, self@ + "/trim"@),
                "n"@,
                digits(n as nat),
            ),
            request@ == trim_request(self@, n),
    {
        let mut request = Request::bare(Method::Post, self.url("/trim"));
        let n_text = decimal(n as u128);
        request.ask("n", n_text.as_str());
        request
    }
}

/// Why an answer gives no tensor.
#[derive(Clone, Copy, PartialEq, Eq, Debug, Structural)]
pub enum ResponseError {
    /// The answer does not say what shape its data has.
    MissingShape,
    /// The shape is not made of visible ASCII characters, spaces and tabs.
    UnreadableShape,
}

impl ResponseError {
    /// The text of the error.
    pub open spec fn spec_message(self) -> Seq<char> {
        match self {
            ResponseError::MissingShape => "response missing X-Shape header"@,
            ResponseError::UnreadableShape => "failed to convert header to a str"@,
        }
    }

    /// The text of the error.
    pub fn message(&self) -> (text: &'static str)
        ensures
            text@ == self.spec_message(),
    {
        match self {
            ResponseError::MissingShape => "response missing X-Shape header",
            ResponseError::UnreadableShape => "failed to convert header to a str",
        }
    }
}

/// Whether a byte of a header stands for a character: a visible one, a space or a tab.
pub open spec fn is_header_char(byte: u8) -> bool {
    32 <= byte < 127 || byte == 9
}

/// Whether every byte of a header stands for a character.
pub open spec fn is_header_text(bytes: Seq<u8>) -> bool {
    forall|i: int| 0 <= i < bytes.len() ==> is_header_char(#[trigger] bytes[i])
}

/// The text that the bytes of a header stand for.
pub open spec fn header_text(bytes: Seq<u8>) -> Seq<char> {
    Seq::new(bytes.len(), |i: int| bytes[i] as char)
}

/// The shape that the bytes of an answer's `X-Shape` header give, or why they give none.
pub open spec fn shape_of_header(header: Option<Seq<u8>>) -> Result<Seq<char>, ResponseError> {
    match header {
        None => Err(ResponseError::MissingShape),
        Some(bytes) => if is_header_text(bytes) {
            Ok(header_text(bytes))
        } else {
            Err(ResponseError::UnreadableShape)
        },
    }
}

/// The shape that an answer gives for its data, in the bytes of its `X-Shape` header. Any text
/// is taken for a shape here.
pub fn shape_from_response(header: Option<&[u8]>) -> (shape: Result<String, ResponseError>)
    ensures
        match header {
            None => shape == Err::<String, ResponseError>(ResponseError::MissingShape),
            Some(bytes) => if is_header_text(bytes@) {
                shape is Ok && shape->Ok_0@ == header_text(bytes@)
            } else {
                shape == Err::<String, ResponseError>(ResponseError::UnreadableShape)
            },
        },
        ({
            let given = match header {
                None => None,
                Some(bytes) => Some(bytes@),
            };
            match shape {
                Ok(text) => shape_of_header(given) == Ok::<Seq<char>, ResponseError>(text@),
                Err(e) => shape_of_header(given) == Err::<Seq<char>, ResponseError>(e),
            }
        }),
{
    let bytes = match header {
        None => {
            return Err(ResponseError::MissingShape);
        },
        Some(bytes) => bytes,
    };
    let mut text = String::new();
    let mut i: usize = 0;
    while i < bytes.len()
        invariant
            header == Some(bytes),
            0 <= i <= bytes.len(),
            forall|j: int| 0 <= j < i ==> is_header_char(#[trigger] bytes@[j]),
            text@ =~= header_text(bytes@.take(i as int)),
        decreases bytes.len() - i,
    {
        let byte = bytes[i];
        if !(32 <= byte && byte < 127 || byte == 9) {
            assert(!is_header_char(bytes@[i as int]));
            assert(!is_header_text(bytes@));
            return Err(ResponseError::UnreadableShape);
        }
        text.push(byte as char);
        i = i + 1;
    }
    assert(bytes@.take(i as int) =~= bytes@);
    Ok(text)
}

} // verus!
