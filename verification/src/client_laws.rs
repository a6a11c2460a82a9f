//! What holds of the requests to a model server, field by field.
use crate::json::{json_array, json_chars, json_object, json_string};
use crate::mlx_client::{argmax_request, bare_request, detokenize_request, draft_request, embed_request, forward_request, header_text, info_request, is_header_text, json_request, logits_request, no_tensor, reset_request, sample_request, shape_of_header, tensor_request, tokenize_request, trim_request, with_query, Body, Method, Request, RequestView, ResponseError, Tensor};
use crate::payload::contents;
use crate::text::digits;
use vstd::prelude::*;

verus! {

/// The view of a tensor is its data and its shape.
pub proof fn tensor_view_is_its_fields(t: Tensor)
    ensures
        t@.data == contents(t.data),
        t@.shape == t.shape@,
        no_tensor().data.len() == 0,
        no_tensor().shape.len() == 0,
{
}

/// The view of a request is its fields: the method, the URL, each name with its value in the
/// query and among the headers, in order, and the body with what it carries.
pub proof fn request_view_is_its_fields(r: Request, i: int)
    ensures
        r@.method == r.method,
        r@.url == r.url@,
        r@.query.len() == r.query@.len(),
        0 <= i < r.query@.len() ==> r@.query[i].0 == r.query@[i].name@ && r@.query[i].1
            == r.query@[i].value@,
        r@.headers.len() == r.headers@.len(),
        0 <= i < r.headers@.len() ==> r@.headers[i].0 == r.headers@[i].name@ && r@.headers[i].1
            == r.headers@[i].value@,
        match r.body {
            Body::Empty => r@.body is Empty,
            Body::Json { text } => r@.body is Json && r@.body->text == text@,
            Body::Raw { data } => r@.body is Raw && r@.body->data == contents(data),
        },
{
}

/// A request that posts a tensor has exactly two headers, `X-Shape` with the text of the tensor's
/// shape and `X-Dtype` with `float16`, and the tensor's data as its body, whatever that data is.
pub proof fn tensor_posts_say_shape_and_type(url: Seq<char>, t: Tensor)
    ensures
        ({
            let r = tensor_request(url, t@);
            &&& r.method == Method::Post
            &&& r.url == url
            &&& r.query.len() == 0
            &&& r.headers.len() == 2
            &&& r.headers[0].0 == "X-Shape"@ && r.headers[0].1 == t.shape@
            &&& r.headers[1].0 == "X-Dtype"@ && r.headers[1].1 == "float16"@
            &&& r.body is Raw
            &&& r.body->data == contents(t.data)
        }),
{
}

/// A request that posts JSON says so in its one header and carries the text as it is; a bare one
/// has neither query nor headers nor body.
pub proof fn json_posts_say_their_type(method: Method, url: Seq<char>, text: Seq<char>)
    ensures
        ({
            let r = json_request(url, text);
            &&& r.method == Method::Post
            &&& r.url == url
            &&& r.query.len() == 0
            &&& r.headers.len() == 1
            &&& r.headers[0].0 == "Content-Type"@ && r.headers[0].1 == "application/json"@
            &&& r.body is Json
            &&& r.body->text == text
        }),
        ({
            let r = bare_request(method, url);
            &&& r.method == method
            &&& r.url == url
            &&& r.query.len() == 0
            &&& r.headers.len() == 0
            &&& r.body is Empty
        }),
{
}

/// One more question is one more field at the end of the query, and nothing else changes.
pub proof fn a_question_joins_the_query(r: RequestView, name: Seq<char>, value: Seq<char>, i: int)
    ensures
        ({
            let asked = with_query(r, name, value);
            &&& asked.query.len() == r.query.len() + 1
            &&& asked.query.last().0 == name && asked.query.last().1 == value
            &&& 0 <= i < r.query.len() ==> asked.query[i] == r.query[i]
            &&& asked.method == r.method
            &&& asked.url == r.url
            &&& asked.headers == r.headers
            &&& asked.body == r.body
        }),
{
}

/// A JSON string is its characters between quotes: quotes and backslashes behind a backslash, the
/// other characters below the space by their short escapes or as `\u00` and two hexadecimal
/// digits, all others as they are.
pub proof fn json_strings_by_character(text: Seq<char>, c: char)
    ensures
        json_string(text) == seq!['"'] + json_chars(text) + seq!['"'],
        json_chars(Seq::empty()) == Seq::<char>::empty(),
        ({
            let written = json_chars(text.push(c));
            let before = json_chars(text);
            let code = c as int;
            let hex = |d: int| if d < 10 { (48 + d) as char } else { (87 + d) as char };
            &&& code >= 32 && c != '"' && c != '\\' ==> written == before.push(c)
            &&& c == '"' || c == '\\' ==> written == before.push('\\').push(c)
            &&& code == 8 ==> written == before.push('\\').push('b')
            &&& code == 9 ==> written == before.push('\\').push('t')
            &&& code == 10 ==> written == before.push('\\').push('n')
            &&& code == 12 ==> written == before.push('\\').push('f')
            &&& code == 13 ==> written == before.push('\\').push('r')
            &&& code < 8 || code == 11 || 13 < code < 32 ==> written == before.push('\\').push(
                'u',
            ).push('0').push('0').push(hex(code / 16)).push(hex(code % 16))
        }),
{
    assert(text.push(c).drop_last() =~= text);
    let before = json_chars(text);
    let code = c as int;
    let hex = |d: int| if d < 10 { (48 + d) as char } else { (87 + d) as char };
    let written = json_chars(text.push(c));
    if code >= 32 && c != '"' && c != '\\' {
        assert(written =~= before.push(c));
    } else if c == '"' || c == '\\' {
        assert(written =~= before.push('\\').push(c));
    } else if code == 8 {
        assert(written =~= before.push('\\').push('b'));
    } else if code == 9 {
        assert(written =~= before.push('\\').push('t'));
    } else if code == 10 {
        assert(written =~= before.push('\\').push('n'));
    } else if code == 12 {
        assert(written =~= before.push('\\').push('f'));
    } else if code == 13 {
        assert(written =~= before.push('\\').push('r'));
    } else {
        assert(written =~= before.push('\\').push('u').push('0').push('0').push(
            hex(code / 16),
        ).push(hex(code % 16)));
    }
}

/// A JSON array is its numerals between brackets, with a comma between each two, and an object of
/// one field is the field's name between quotes, a colon and its value between braces.
pub proof fn json_arrays_by_number(numbers: Seq<u32>, n: u32, key: Seq<char>, value: Seq<char>)
    ensures
        json_array(Seq::empty()) == seq!['[', ']'],
        json_array(seq![n]) == seq!['['] + digits(n as nat) + seq![']'],
        numbers.len() > 0 ==> json_array(numbers.push(n)) == json_array(numbers).drop_last().push(
            ',',
        ) + digits(n as nat) + seq![']'],
        json_object(key, value) == seq!['{', '"'] + key + seq!['"', ':'] + value + seq!['}'],
{
    assert(json_array(Seq::empty()) =~= seq!['[', ']']);
    assert(numbers.push(n).drop_last() =~= numbers);
    if numbers.len() > 0 {
        assert(json_array(numbers.push(n)) =~= json_array(numbers).drop_last().push(',') + digits(
            n as nat,
        ) + seq![']']);
    }
}

/// A header is text exactly where all its bytes are visible ASCII characters, spaces and tabs,
/// and each of them is then the character of that code.
pub proof fn headers_are_visible_ascii(bytes: Seq<u8>, i: int)
    ensures
        is_header_text(bytes) <==> forall|j: int|
            0 <= j < bytes.len() ==> 32 <= #[trigger] bytes[j] <= 126 || bytes[j] == 9,
        header_text(bytes).len() == bytes.len(),
        0 <= i < bytes.len() && is_header_text(bytes) ==> header_text(bytes)[i] as int == bytes[i],
{
}

/// What the errors on an answer say.
pub proof fn response_errors_say_why()
    ensures
        ResponseError::MissingShape.spec_message() == "response missing X-Shape header"@,
        ResponseError::UnreadableShape.spec_message() == "failed to convert header to a str"@,
{
}

/// Where each question goes and what it asks, at the server's own address: the layers are got,
/// everything else is posted. A text and tokens go as JSON under their names, tensors as raw data,
/// and what is asked of them in the query.
pub proof fn questions_go_to_their_endpoints(
    base: Seq<char>,
    text: Seq<char>,
    ids: Seq<u32>,
    x: Tensor,
    mode: Seq<char>,
    token: u32,
    k: u32,
)
    ensures
        ({
            let r = info_request(base);
            r.method is Get && r.url == base + "/info"@ && r.query.len() == 0 && r.body is Empty
        }),
        ({
            let r = reset_request(base);
            r.method is Post && r.url == base + "/reset"@ && r.query.len() == 0 && r.body is Empty
        }),
        ({
            let r = tokenize_request(base, text);
            &&& r.method is Post && r.url == base + "/tokenize"@ && r.query.len() == 0
            &&& r.headers == seq![("Content-Type"@, "application/json"@)]
            &&& r.body is Json && r.body->text == seq!['{', '"'] + "text"@ + seq!['"', ':']
                + json_string(text) + seq!['}']
        }),
        ({
            let r = detokenize_request(base, ids);
            &&& r.method is Post && r.url == base + "/detokenize"@ && r.query.len() == 0
            &&& r.headers == seq![("Content-Type"@, "application/json"@)]
            &&& r.body is Json && r.body->text == seq!['{', '"'] + "token_ids"@ + seq!['"', ':']
                + json_array(ids) + seq!['}']
        }),
        ({
            let r = embed_request(base, ids);
            &&& r.method is Post && r.url == base + "/embed"@ && r.query.len() == 0
            &&& r.headers == seq![("Content-Type"@, "application/json"@)]
            &&& r.body is Json && r.body->text == seq!['{', '"'] + "token_ids"@ + seq!['"', ':']
                + json_array(ids) + seq!['}']
        }),
        ({
            let r = forward_request(base, x@, mode);
            &&& r.method is Post && r.url == base + "/forward"@
            &&& r.query.len() == 1 && r.query[0].0 == "mode"@ && r.query[0].1 == mode
            &&& posts_tensor(r, x)
        }),
        ({
            let r = logits_request(base, x@);
            &&& r.method is Post && r.url == base + "/logits"@
            &&& r.query.len() == 1 && r.query[0].0 == "last_only"@ && r.query[0].1 == "true"@
            &&& posts_tensor(r, x)
        }),
        ({
            let r = sample_request(base, x@);
            &&& r.method is Post && r.url == base + "/sample"@ && r.query.len() == 0
            &&& posts_tensor(r, x)
        }),
        ({
            let r = argmax_request(base, x@);
            &&& r.method is Post && r.url == base + "/argmax"@ && r.query.len() == 0
            &&& posts_tensor(r, x)
        }),
        ({
            let r = draft_request(base, token, k);
            &&& r.method is Post && r.url == base + "/draft"@ && r.body is Empty
            &&& r.query.len() == 2
            &&& r.query[0].0 == "token_id"@ && r.query[0].1 == digits(token as nat)
            &&& r.query[1].0 == "k"@ && r.query[1].1 == digits(k as nat)
        }),
        ({
            let r = trim_request(base, k);
            &&& r.method is Post && r.url == base + "/trim"@ && r.body is Empty
            &&& r.query.len() == 1 && r.query[0].0 == "n"@ && r.query[0].1 == digits(k as nat)
        }),
{
}

/// Whether a request carries a tensor: its data, and its shape and type in two headers.
pub open spec fn posts_tensor(r: RequestView, t: Tensor) -> bool {
    &&& r.headers.len() == 2
    &&& r.headers[0].0 == "X-Shape"@ && r.headers[0].1 == t.shape@
    &&& r.headers[1].0 == "X-Dtype"@ && r.headers[1].1 == "float16"@
    &&& r.body is Raw && r.body->data == contents(t.data)
}

/// An answer without the header has no shape; one whose header holds anything but visible ASCII
/// characters, spaces and tabs cannot be read; every other header is the shape, as it is.
pub proof fn answers_give_their_shape(bytes: Seq<u8>, i: int)
    ensures
        shape_of_header(None) == Err::<Seq<char>, ResponseError>(ResponseError::MissingShape),
        0 <= i < bytes.len() && !(32 <= bytes[i] <= 126 || bytes[i] == 9) ==> shape_of_header(
            Some(bytes),
        ) == Err::<Seq<char>, ResponseError>(ResponseError::UnreadableShape),
        (forall|j: int| 0 <= j < bytes.len() ==> 32 <= #[trigger] bytes[j] <= 126 || bytes[j] == 9)
            ==> {
            &&& shape_of_header(Some(bytes)) is Ok
            &&& shape_of_header(Some(bytes))->Ok_0.len() == bytes.len()
            &&& 0 <= i < bytes.len() ==> shape_of_header(Some(bytes))->Ok_0[i] as int == bytes[i]
        },
{
    headers_are_visible_ascii(bytes, i);
}

} // verus!
