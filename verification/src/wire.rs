//! The shapes that cross the host boundary.
//!
//! Both are made of texts, numbers, byte strings and sequences only, so that
//! a host callback can take one and hand the other back. Headers travel as an
//! ordered list of pairs, not as a mapping: a name may occur more than once.

use vstd::prelude::*;

verus! {

/// A request as the host callback receives it.
#[derive(Clone, Debug, PartialEq, Eq)]
pub struct Request {
    /// The absolute URL, serialised.
    pub url: String,
    /// The method's canonical text, such as `GET`.
    pub method: String,
    /// The headers, one pair per header.
    pub headers: Vec<(String, String)>,
    /// The body; `None` where the request has none.
    pub body: Option<String>,
    /// Whether redirects are to be followed.
    pub follow: bool,
}

/// A response as the host callback returns it.
#[derive(Clone, Debug, PartialEq, Eq)]
pub struct Response {
    /// The HTTP status code.
    pub status: u16,
    /// The headers, one pair per header.
    pub headers: Vec<(String, String)>,
    /// The raw body.
    pub bytes: Vec<u8>,
}

/// What a wire [`Request`] holds.
pub ghost struct RequestView {
    pub url: Seq<char>,
    pub method: Seq<char>,
    pub headers: Seq<(Seq<char>, Seq<char>)>,
    pub body: Option<Seq<char>>,
    pub follow: bool,
}

/// What a wire [`Response`] holds.
pub ghost struct ResponseView {
    pub status: u16,
    pub headers: Seq<(Seq<char>, Seq<char>)>,
    pub bytes: Seq<u8>,
}

impl View for Request {
    type V = RequestView;

    open spec fn view(&self) -> RequestView {
        RequestView {
            url: self.url@,
            method: self.method@,
            headers: self.headers.deep_view(),
            body: self.body.deep_view(),
            follow: self.follow,
        }
    }
}

impl View for Response {
    type V = ResponseView;

    open spec fn view(&self) -> ResponseView {
        ResponseView {
            status: self.status,
            headers: self.headers.deep_view(),
            bytes: self.bytes@,
        }
    }
}

/// A field of the record that a wire [`Request`] is written as.
#[derive(Clone, Copy, Debug, PartialEq, Eq, Structural)]
pub enum Field {
    Url,
    Method,
    Headers,
    Body,
    Follow,
}

impl Field {
    /// The name under which the field is written.
    pub open spec fn key(self) -> Seq<char> {
        match self {
            Field::Url => "url"@,
            Field::Method => "method"@,
            Field::Headers => "headers"@,
            Field::Body => "body"@,
            Field::Follow => "follow"@,
        }
    }

    /// The name under which the field is written.
    pub fn name(&self) -> (name: &'static str)
        ensures
            name@ == self.key(),
    {
        match self {
            Field::Url => "url",
            Field::Method => "method",
            Field::Headers => "headers",
            Field::Body => "body",
            Field::Follow => "follow",
        }
    }
}

/// The fields of the record for a request, in the order in which they are
/// written: `body` is left out where there is no body, never written as an
/// empty marker, and `follow` is always there.
pub open spec fn record_fields(has_body: bool) -> Seq<Field> {
    if has_body {
        seq![Field::Url, Field::Method, Field::Headers, Field::Body, Field::Follow]
    } else {
        seq![Field::Url, Field::Method, Field::Headers, Field::Follow]
    }
}

impl Request {
    /// The fields to write for this request, in order: four, and `body` as
    /// a fifth where the request has one.
    pub fn fields(&self) -> (fields: Vec<Field>)
        ensures
            fields@ == record_fields(self.body is Some),
            fields@.len() == 4 + if self.body is Some { 1int } else { 0int },
    {
        let mut fields: Vec<Field> = Vec::new();
        fields.push(Field::Url);
        fields.push(Field::Method);
        fields.push(Field::Headers);
        if self.body.is_some() {
            fields.push(Field::Body);
        }
        fields.push(Field::Follow);
        assert(fields@ =~= record_fields(self.body is Some));
        fields
    }
}

} // verus!
