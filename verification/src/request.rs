//! The immutable snapshot of one inbound HTTP request. It is built once
//! per call from the transport request and every matcher reads only this
//! value.

use vstd::prelude::*;
use vstd::utf8::encode_utf8;

verus! {

/// One decoded query parameter, in URL order.
pub struct QueryParam {
    pub key: String,
    pub value: String,
}

/// One header field: the name and the raw value bytes. Header names repeat
/// when a header occurs on several lines.
pub struct HeaderField {
    pub name: String,
    pub value: Vec<u8>,
}

/// The request snapshot the matchers evaluate.
pub struct Request {
    pub method: String,
    pub path: String,
    pub query: Vec<QueryParam>,
    pub headers: Vec<HeaderField>,
    pub body: Vec<u8>,
}

/// The mathematical model of a request: each textual part as its UTF-8
/// bytes, the headers and the body as raw bytes.
pub struct RequestModel {
    pub method: Seq<u8>,
    pub path: Seq<u8>,
    pub query: Seq<(Seq<u8>, Seq<u8>)>,
    pub headers: Seq<(Seq<u8>, Seq<u8>)>,
    pub body: Seq<u8>,
}

impl View for Request {
    type V = RequestModel;

    open spec fn view(&self) -> RequestModel {
        RequestModel {
            method: encode_utf8(self.method@),
            path: encode_utf8(self.path@),
            query: Seq::new(
                self.query@.len(),
                |i: int| (encode_utf8(self.query@[i].key@), encode_utf8(self.query@[i].value@)),
            ),
            headers: Seq::new(
                self.headers@.len(),
                |i: int| (encode_utf8(self.headers@[i].name@), self.headers@[i].value@),
            ),
            body: self.body@,
        }
    }
}

} // verus!
