use vstd::prelude::*;
use vstd::string::*;
use vstd::utf8::*;
use crate::missing::Missing;
use crate::text::opt_text;

verus! {

/// What a page hands back to be sent.
pub enum ContentType {
    /// A media type and the bytes that go under it.
    Binary(String, Vec<u8>),
    /// A finished document and, where it has one, its title.
    Markup(String, Option<String>),
    PlainText(String),
}

/// A response, as far as it is decided here: the transport adds nothing
/// but itself.
pub struct Response {
    pub status: u16,
    pub content_type: Option<String>,
    pub location: Option<String>,
    pub content_length: Option<u64>,
    pub body: Vec<u8>,
}

pub struct ResponseView {
    pub status: u16,
    pub content_type: Option<Seq<char>>,
    pub location: Option<Seq<char>>,
    pub content_length: Option<u64>,
    pub body: Seq<u8>,
}

impl View for Response {
    type V = ResponseView;

    open spec fn view(&self) -> ResponseView {
        ResponseView {
            status: self.status,
            content_type: opt_text(self.content_type),
            location: opt_text(self.location),
            content_length: self.content_length,
            body: self.body@,
        }
    }
}

/// The response that carries `body` under a media type.
pub open spec fn served(content_type: Seq<char>, body: Seq<u8>) -> ResponseView {
    ResponseView {
        status: 200,
        content_type: Some(content_type),
        location: None,
        content_length: Some(body.len() as u64),
        body,
    }
}

/// The response to what was asked for.
///
/// Content goes out with its media type and length. What is nowhere is
/// answered with status 402, what is elsewhere with status 302 and the
/// place; both say `sorry`.
pub open spec fn response_to(content: Result<ContentType, Missing>) -> ResponseView {
    match content {
        Ok(ContentType::Markup(document, _)) => served("text/html"@, encode_utf8(document@)),
        Ok(ContentType::Binary(content_type, body)) => served(content_type@, body@),
        Ok(ContentType::PlainText(text)) => served("text/plain"@, encode_utf8(text@)),
        Err(Missing::Nowhere) => ResponseView {
            status: 402,
            content_type: None,
            location: None,
            content_length: None,
            body: encode_utf8("sorry"@),
        },
        Err(Missing::Elsewhere(place)) => ResponseView {
            status: 302,
            content_type: None,
            location: Some(place@),
            content_length: None,
            body: encode_utf8("sorry"@),
        },
    }
}

fn serve(content_type: String, body: Vec<u8>) -> (r: Response)
    ensures
        r@ == served(content_type@, body@),
{
    Response {
        status: 200,
        content_type: Some(content_type),
        location: None,
        content_length: Some(body.len() as u64),
        body,
    }
}

/// Decides the response to what a page handed back.
pub fn respond(content: Result<ContentType, Missing>) -> (r: Response)
    ensures
        r@ == response_to(content),
{
    match content {
        Ok(ContentType::Markup(document, _)) => serve(
            "text/html".to_owned(),
            document.as_str().as_bytes_vec(),
        ),
        Ok(ContentType::Binary(content_type, body)) => serve(content_type, body),
        Ok(ContentType::PlainText(text)) => serve(
            "text/plain".to_owned(),
            text.as_str().as_bytes_vec(),
        ),
        Err(Missing::Nowhere) => Response {
            status: 402,
            content_type: None,
            location: None,
            content_length: None,
            body: "sorry".as_bytes_vec(),
        },
        Err(Missing::Elsewhere(place)) => Response {
            status: 302,
            content_type: None,
            location: Some(place),
            content_length: None,
            body: "sorry".as_bytes_vec(),
        },
    }
}

} // verus!
