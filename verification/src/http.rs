//! Exchanging a request for a response over HTTP.
//!
//! The library makes the message to send and judges the answer. Sending is left to its caller.
use crate::der;
use crate::error::Error;
use crate::oids;
use crate::request;
use crate::request::encode_request;
use crate::response;
use crate::response::get_timestamp_response;
use crate::rfc3161;
use crate::rfc3161::{TimeStampReq, TimeStampReqView};
use crate::verify;
use crate::verify::{verify_timestamp, CoseValidator};
use vstd::prelude::*;

verus! {

/// How many octets of an answer are read at most.
pub const RESPONSE_LIMIT: u64 = 1000000;

/// How long an answer is taken to be that does not say so.
pub const RESPONSE_LEN: usize = 20000;

/// A message to post.
#[derive(Clone, Debug, PartialEq, Eq)]
pub struct HttpRequest {
    /// The headers to set, in order.
    pub headers: Vec<(String, String)>,
    pub body: Vec<u8>,
}

/// A request, and the message that posts it.
#[derive(Clone, Debug, PartialEq, Eq)]
pub struct HttpExchange {
    pub request: TimeStampReq,
    pub message: HttpRequest,
}

/// The view of headers.
pub open spec fn headers_view(v: Seq<(String, String)>) -> Seq<(Seq<char>, Seq<char>)> {
    v.map_values(|h: (String, String)| (h.0@, h.1@))
}

/// The headers to set: those that are given, and the type of a request behind them.
pub open spec fn request_headers(headers: Option<Vec<(String, String)>>) -> Seq<
    (Seq<char>, Seq<char>),
> {
    let given = match headers {
        Some(v) => headers_view(v@),
        None => Seq::empty(),
    };
    given.push(("Content-Type"@, "application/timestamp-query"@))
}

/// Whether the head of an answer is that of a response.
pub open spec fn is_reply(status: u16, content_type: Seq<char>) -> bool {
    status == 200 && content_type == "application/timestamp-reply"@
}

/// Whether `body` answers a request with the nonce `nonce`: it is a response, and where it grants a
/// token that states anything, that repeats the nonce.
pub open spec fn is_answer(nonce: Option<Seq<u8>>, body: Seq<u8>) -> bool {
    match rfc3161::response(body) {
        Some(r) => response::is_granted(r.status.status) ==> match response::tst_info_of(r) {
            Ok(Some(t)) => t.nonce == nonce,
            Ok(None) => true,
            Err(_) => false,
        },
        None => false,
    }
}

/// Makes the message that posts `request`.
pub fn time_stamp_request_message(
    headers: Option<Vec<(String, String)>>,
    request: &TimeStampReq,
) -> (res: HttpRequest)
    requires
        request::request_fits(request@),
    ensures
        headers_view(res.headers@) == request_headers(headers),
        res.body@ == request::request_encoding(request@),
{
    let mut all = match headers {
        Some(v) => v,
        None => Vec::new(),
    };
    let ghost given = all@;
    all.push(("Content-Type".to_owned(), "application/timestamp-query".to_owned()));
    assert(headers_view(all@) =~= request_headers(headers)) by {
        if headers is None {
            assert(headers_view(given) =~= Seq::<(Seq<char>, Seq<char>)>::empty());
        }
    }
    HttpRequest { headers: all, body: encode_request(request) }
}

/// Judges the head of an answer.
pub fn check_reply_head(status: u16, content_type: &String) -> (res: Result<(), Error>)
    ensures
        res == if is_reply(status, content_type@) {
            Ok::<(), Error>(())
        } else {
            Err(Error::CoseTimeStampGeneration)
        },
{
    let expected = "application/timestamp-reply".to_owned();
    if status == 200 && *content_type == expected {
        Ok(())
    } else {
        Err(Error::CoseTimeStampGeneration)
    }
}

/// Whether two nonces are the same.
fn check_nonce(a: &Option<Vec<u8>>, b: &Option<Vec<u8>>) -> (res: bool)
    ensures
        res == (der::opt_view(*a) == der::opt_view(*b)),
{
    match (a, b) {
        (Some(a), Some(b)) => oids::vec_compare(a, b),
        (None, None) => true,
        _ => false,
    }
}

/// Judges the body of an answer to `request`.
pub fn check_reply_body(request: &TimeStampReq, body: Vec<u8>) -> (res: Result<Vec<u8>, Error>)
    ensures
        res == if is_answer(request@.nonce, body@) {
            Ok(body)
        } else {
            Err(Error::CoseTimeStampGeneration)
        },
{
    let r = match get_timestamp_response(&body) {
        Ok(r) => r,
        Err(_) => {
            return Err(Error::CoseTimeStampGeneration);
        },
    };
    if r.is_success() {
        match r.tst_info() {
            Ok(Some(t)) => {
                if !check_nonce(&t.nonce, &request.nonce) {
                    return Err(Error::CoseTimeStampGeneration);
                }
            },
            Ok(None) => {},
            Err(_) => {
                return Err(Error::CoseTimeStampGeneration);
            },
        }
    }
    Ok(body)
}

/// Reads the request `data` and makes the message that posts it.
pub fn default_rfc3161_request(headers: Option<Vec<(String, String)>>, data: &[u8]) -> (res: Result<
    HttpExchange,
    Error,
>)
    requires
        rfc3161::request(data@) matches Some(r) ==> request::request_fits(r),
    ensures
        match res {
            Ok(x) => rfc3161::request(data@) == Some(x.request@) && headers_view(x.message.headers@)
                == request_headers(headers) && x.message.body@ == request::request_encoding(
                x.request@,
            ),
            Err(e) => rfc3161::request(data@) is None && e == Error::CoseTimeStampGeneration,
        },
{
    match rfc3161::read_request(data) {
        Some(request) => {
            let message = time_stamp_request_message(headers, &request);
            Ok(HttpExchange { request, message })
        },
        None => Err(Error::CoseTimeStampGeneration),
    }
}

impl HttpExchange {
    /// Judges the body of the answer, and verifies the time stamp in it against `message`.
    pub fn finish<V: CoseValidator>(&self, body: Vec<u8>, message: &[u8], validator: &V) -> (res:
        Result<Vec<u8>, Error>)
        ensures
            !is_answer(self.request@.nonce, body@) ==> res == Err::<Vec<u8>, Error>(
                Error::CoseTimeStampGeneration,
            ),
            is_answer(self.request@.nonce, body@) ==> match res {
                Ok(ts) => ts == body && exists|t: rfc3161::TstInfoView| #[trigger]
                    verify::may_verify(body@, message@, *validator, Ok::<_, Error>(t)),
                Err(e) => verify::may_verify(
                    body@,
                    message@,
                    *validator,
                    Err::<rfc3161::TstInfoView, _>(e),
                ),
            },
    {
        match check_reply_body(&self.request, body) {
            Ok(ts) => match verify_timestamp(&ts, message, validator) {
                Ok(_) => Ok(ts),
                Err(e) => Err(e),
            },
            Err(e) => Err(e),
        }
    }
}

} // verus!
