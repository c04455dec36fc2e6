//! Time-stamp requests, responses and tokens, as RFC 3161 defines them.
use crate::der;
use crate::encode;
use crate::outside;
use crate::rfc5652::{ContentInfo, ContentInfoView};
use crate::rfc5652;
use crate::time::GeneralizedTime;
use crate::x509;
use crate::x509::{AlgorithmIdentifier, AlgorithmIdentifierView, Extension, ExtensionView};
use vstd::prelude::*;
use vstd::slice::{slice_subrange, slice_to_vec};

verus! {

/// The digest of what is time-stamped.
///
/// ```ASN.1
/// MessageImprint ::= SEQUENCE  {
///      hashAlgorithm                AlgorithmIdentifier,
///      hashedMessage                OCTET STRING  }
/// ```
#[derive(Clone, Debug, PartialEq, Eq)]
pub struct MessageImprint {
    pub hash_algorithm: AlgorithmIdentifier,
    pub hashed_message: Vec<u8>,
}

/// A time-stamp request. Numbers are the contents of their encodings.
///
/// ```ASN.1
/// TimeStampReq ::= SEQUENCE  {
///    version                  INTEGER  { v1(1) },
///    messageImprint           MessageImprint,
///    reqPolicy                TSAPolicyId                OPTIONAL,
///    nonce                    INTEGER                    OPTIONAL,
///    certReq                  BOOLEAN                    DEFAULT FALSE,
///    extensions               [0] IMPLICIT Extensions    OPTIONAL  }
/// ```
#[derive(Clone, Debug, PartialEq, Eq)]
pub struct TimeStampReq {
    pub version: Vec<u8>,
    pub message_imprint: MessageImprint,
    pub req_policy: Option<Vec<u8>>,
    pub nonce: Option<Vec<u8>>,
    pub cert_req: Option<bool>,
    pub extensions: Option<Vec<Extension>>,
}

/// How a request was answered.
#[derive(Clone, Copy, Debug, PartialEq, Eq, Structural)]
pub enum PkiStatus {
    Granted,
    GrantedWithMods,
    Rejection,
    Waiting,
    RevocationWarning,
    RevocationNotification,
}

/// Why a request was refused.
#[derive(Clone, Copy, Debug, PartialEq, Eq, Structural)]
pub enum PkiFailureInfo {
    BadAlg,
    BadRequest,
    BadDataFormat,
    TimeNotAvailable,
    UnacceptedPolicy,
    UnacceptedExtension,
    AddInfoNotAvailable,
    SystemFailure,
}

/// The status of a response.
///
/// ```ASN.1
/// PKIStatusInfo ::= SEQUENCE {
///     status        PKIStatus,
///     statusString  PKIFreeText     OPTIONAL,
///     failInfo      PKIFailureInfo  OPTIONAL  }
/// ```
#[derive(Clone, Debug, PartialEq, Eq)]
pub struct PkiStatusInfo {
    pub status: PkiStatus,
    pub status_string: Option<Vec<Vec<u8>>>,
    pub fail_info: Option<PkiFailureInfo>,
}

/// A time-stamp response.
///
/// ```ASN.1
/// TimeStampResp ::= SEQUENCE  {
///      status                  PKIStatusInfo,
///      timeStampToken          TimeStampToken     OPTIONAL  }
/// ```
#[derive(Clone, Debug, PartialEq, Eq)]
pub struct TimeStampResp {
    pub status: PkiStatusInfo,
    pub time_stamp_token: Option<ContentInfo>,
}

/// How far the time of a token may be off.
///
/// ```ASN.1
/// Accuracy ::= SEQUENCE {
///                 seconds        INTEGER           OPTIONAL,
///                 millis     [0] INTEGER  (1..999) OPTIONAL,
///                 micros     [1] INTEGER  (1..999) OPTIONAL  }
/// ```
#[derive(Clone, Debug, PartialEq, Eq)]
pub struct Accuracy {
    pub seconds: Option<Vec<u8>>,
    pub millis: Option<Vec<u8>>,
    pub micros: Option<Vec<u8>>,
}

/// What a token states. Numbers are the contents of their encodings.
///
/// ```ASN.1
/// TSTInfo ::= SEQUENCE  {
///     version                      INTEGER  { v1(1) },
///     policy                       TSAPolicyId,
///     messageImprint               MessageImprint,
///     serialNumber                 INTEGER,
///     genTime                      GeneralizedTime,
///     accuracy                     Accuracy                 OPTIONAL,
///     ordering                     BOOLEAN             DEFAULT FALSE,
///     nonce                        INTEGER                  OPTIONAL,
///     tsa                          [0] GeneralName          OPTIONAL,
///     extensions                   [1] IMPLICIT Extensions  OPTIONAL   }
/// ```
#[derive(Clone, Debug, PartialEq, Eq)]
pub struct TstInfo {
    pub version: Vec<u8>,
    pub policy: Vec<u8>,
    pub message_imprint: MessageImprint,
    pub serial_number: Vec<u8>,
    pub gen_time: GeneralizedTime,
    pub accuracy: Option<Accuracy>,
    pub ordering: Option<bool>,
    pub nonce: Option<Vec<u8>>,
    /// The encoded name of the authority.
    pub tsa: Option<Vec<u8>>,
    pub extensions: Option<Vec<Extension>>,
}

pub struct MessageImprintView {
    pub hash_algorithm: AlgorithmIdentifierView,
    pub hashed_message: Seq<u8>,
}

impl View for MessageImprint {
    type V = MessageImprintView;

    open spec fn view(&self) -> MessageImprintView {
        MessageImprintView {
            hash_algorithm: self.hash_algorithm@,
            hashed_message: self.hashed_message@,
        }
    }
}

pub struct TimeStampReqView {
    pub version: Seq<u8>,
    pub message_imprint: MessageImprintView,
    pub req_policy: Option<Seq<u8>>,
    pub nonce: Option<Seq<u8>>,
    pub cert_req: Option<bool>,
    pub extensions: Option<Seq<ExtensionView>>,
}

impl View for TimeStampReq {
    type V = TimeStampReqView;

    open spec fn view(&self) -> TimeStampReqView {
        TimeStampReqView {
            version: self.version@,
            message_imprint: self.message_imprint@,
            req_policy: der::opt_view(self.req_policy),
            nonce: der::opt_view(self.nonce),
            cert_req: self.cert_req,
            extensions: x509::opt_extensions_view(self.extensions),
        }
    }
}

pub struct PkiStatusInfoView {
    pub status: PkiStatus,
    pub status_string: Option<Seq<Seq<u8>>>,
    pub fail_info: Option<PkiFailureInfo>,
}

pub open spec fn strings_view(v: Seq<Vec<u8>>) -> Seq<Seq<u8>> {
    v.map_values(|s: Vec<u8>| s@)
}

impl View for PkiStatusInfo {
    type V = PkiStatusInfoView;

    open spec fn view(&self) -> PkiStatusInfoView {
        PkiStatusInfoView {
            status: self.status,
            status_string: match self.status_string {
                Some(v) => Some(strings_view(v@)),
                None => None,
            },
            fail_info: self.fail_info,
        }
    }
}

pub struct TimeStampRespView {
    pub status: PkiStatusInfoView,
    pub time_stamp_token: Option<ContentInfoView>,
}

impl View for TimeStampResp {
    type V = TimeStampRespView;

    open spec fn view(&self) -> TimeStampRespView {
        TimeStampRespView {
            status: self.status@,
            time_stamp_token: match self.time_stamp_token {
                Some(t) => Some(t@),
                None => None,
            },
        }
    }
}

pub struct AccuracyView {
    pub seconds: Option<Seq<u8>>,
    pub millis: Option<Seq<u8>>,
    pub micros: Option<Seq<u8>>,
}

impl View for Accuracy {
    type V = AccuracyView;

    open spec fn view(&self) -> AccuracyView {
        AccuracyView {
            seconds: der::opt_view(self.seconds),
            millis: der::opt_view(self.millis),
            micros: der::opt_view(self.micros),
        }
    }
}

pub struct TstInfoView {
    pub version: Seq<u8>,
    pub policy: Seq<u8>,
    pub message_imprint: MessageImprintView,
    pub serial_number: Seq<u8>,
    pub gen_time: GeneralizedTime,
    pub accuracy: Option<AccuracyView>,
    pub ordering: Option<bool>,
    pub nonce: Option<Seq<u8>>,
    pub tsa: Option<Seq<u8>>,
    pub extensions: Option<Seq<ExtensionView>>,
}

impl View for TstInfo {
    type V = TstInfoView;

    open spec fn view(&self) -> TstInfoView {
        TstInfoView {
            version: self.version@,
            policy: self.policy@,
            message_imprint: self.message_imprint@,
            serial_number: self.serial_number@,
            gen_time: self.gen_time,
            accuracy: match self.accuracy {
                Some(a) => Some(a@),
                None => None,
            },
            ordering: self.ordering,
            nonce: der::opt_view(self.nonce),
            tsa: der::opt_view(self.tsa),
            extensions: x509::opt_extensions_view(self.extensions),
        }
    }
}

/// A message imprint at the front of `s`.
pub open spec fn message_imprint(s: Seq<u8>) -> Option<(MessageImprintView, Seq<u8>)> {
    match der::constructed(s, der::SEQUENCE) {
        Some((c, rest)) => match x509::algorithm(c) {
            Some((hash_algorithm, c1)) => match der::octets(c1) {
                Some((hashed_message, c2)) => if c2.len() == 0 {
                    Some((MessageImprintView { hash_algorithm, hashed_message }, rest))
                } else {
                    None
                },
                None => None,
            },
            None => None,
        },
        None => None,
    }
}

/// The extensions of a value `tag` at the front of `s`, if it is there.
pub open spec fn opt_tagged_extensions(s: Seq<u8>, tag: u8) -> Option<
    (Option<Seq<ExtensionView>>, Seq<u8>),
> {
    match der::opt_constructed(s, tag) {
        Some((Some(c), rest)) => match x509::extension_sequence(c) {
            Some(e) => Some((Some(e), rest)),
            None => None,
        },
        Some((None, rest)) => Some((None, rest)),
        None => None,
    }
}

/// The request with the contents `c`.
pub open spec fn request_content(c: Seq<u8>) -> Option<TimeStampReqView> {
    match der::integer(c) {
        Some((version, c1)) => match message_imprint(c1) {
            Some((message_imprint, c2)) => match der::opt_oid(c2) {
                Some((req_policy, c3)) => match der::opt_integer(c3) {
                    Some((nonce, c4)) => match der::opt_boolean(c4) {
                        Some((cert_req, c5)) => match opt_tagged_extensions(c5, der::CTX_0) {
                            Some((extensions, c6)) => if c6.len() == 0 {
                                Some(
                                    TimeStampReqView {
                                        version,
                                        message_imprint,
                                        req_policy,
                                        nonce,
                                        cert_req,
                                        extensions,
                                    },
                                )
                            } else {
                                None
                            },
                            None => None,
                        },
                        None => None,
                    },
                    None => None,
                },
                None => None,
            },
            None => None,
        },
        None => None,
    }
}

/// The request that `s` starts with. What follows it does not matter.
#[verifier::opaque]
pub open spec fn request(s: Seq<u8>) -> Option<TimeStampReqView> {
    match der::constructed(s, der::SEQUENCE) {
        Some((c, _)) => request_content(c),
        None => None,
    }
}

/// The status with the code `v`.
pub open spec fn status_from(v: u8) -> Option<PkiStatus> {
    if v == 0 {
        Some(PkiStatus::Granted)
    } else if v == 1 {
        Some(PkiStatus::GrantedWithMods)
    } else if v == 2 {
        Some(PkiStatus::Rejection)
    } else if v == 3 {
        Some(PkiStatus::Waiting)
    } else if v == 4 {
        Some(PkiStatus::RevocationWarning)
    } else if v == 5 {
        Some(PkiStatus::RevocationNotification)
    } else {
        None
    }
}

/// The reason for a failure with the code `v`.
pub open spec fn failure_from(v: u8) -> Option<PkiFailureInfo> {
    if v == 0 {
        Some(PkiFailureInfo::BadAlg)
    } else if v == 1 {
        Some(PkiFailureInfo::BadRequest)
    } else if v == 5 {
        Some(PkiFailureInfo::BadDataFormat)
    } else if v == 14 {
        Some(PkiFailureInfo::TimeNotAvailable)
    } else if v == 15 {
        Some(PkiFailureInfo::UnacceptedPolicy)
    } else if v == 16 {
        Some(PkiFailureInfo::UnacceptedExtension)
    } else if v == 17 {
        Some(PkiFailureInfo::AddInfoNotAvailable)
    } else if v == 25 {
        Some(PkiFailureInfo::SystemFailure)
    } else {
        None
    }
}

/// The strings that make up `s`.
pub open spec fn free_text(s: Seq<u8>) -> Option<Seq<Seq<u8>>>
    decreases s.len(),
{
    match der::opt_primitive(s, der::UTF8_STRING) {
        None => None,
        Some((None, rest)) => if rest.len() == 0 {
            Some(Seq::empty())
        } else {
            None
        },
        Some((Some(c), rest)) => if outside::utf8_accepted(c) && rest.len() < s.len() {
            match free_text(rest) {
                Some(tail) => Some(seq![c] + tail),
                None => None,
            }
        } else {
            None
        },
    }
}

/// The status information at the front of `s`.
pub open spec fn status_info(s: Seq<u8>) -> Option<(PkiStatusInfoView, Seq<u8>)> {
    match der::constructed(s, der::SEQUENCE) {
        Some((c, rest)) => match status_info_content(c) {
            Some(i) => Some((i, rest)),
            None => None,
        },
        None => None,
    }
}

/// The status information with the contents `c`.
pub open spec fn status_info_content(c: Seq<u8>) -> Option<PkiStatusInfoView> {
    match der::small_integer(c) {
        Some((v, c1)) => match (status_from(v), opt_free_text(c1)) {
            (Some(status), Some((status_string, c2))) => match opt_failure(c2) {
                Some((fail_info, c3)) => if c3.len() == 0 {
                    Some(PkiStatusInfoView { status, status_string, fail_info })
                } else {
                    None
                },
                None => None,
            },
            _ => None,
        },
        None => None,
    }
}

/// Optional free text at the front of `s`.
pub open spec fn opt_free_text(s: Seq<u8>) -> Option<(Option<Seq<Seq<u8>>>, Seq<u8>)> {
    match der::opt_constructed(s, der::SEQUENCE) {
        Some((Some(c), rest)) => match free_text(c) {
            Some(t) => Some((Some(t), rest)),
            None => None,
        },
        Some((None, rest)) => Some((None, rest)),
        None => None,
    }
}

/// An optional reason for a failure at the front of `s`.
pub open spec fn opt_failure(s: Seq<u8>) -> Option<(Option<PkiFailureInfo>, Seq<u8>)> {
    match der::opt_small_integer(s) {
        Some((Some(v), rest)) => match failure_from(v) {
            Some(f) => Some((Some(f), rest)),
            None => None,
        },
        Some((None, rest)) => Some((None, rest)),
        None => None,
    }
}

/// The response with the contents `c`.
pub open spec fn response_content(c: Seq<u8>) -> Option<TimeStampRespView> {
    match status_info(c) {
        Some((status, c1)) => match rfc5652::opt_content_info(c1) {
            Some((time_stamp_token, c2)) => if c2.len() == 0 {
                Some(TimeStampRespView { status, time_stamp_token })
            } else {
                None
            },
            None => None,
        },
        None => None,
    }
}

/// The response that `s` starts with. What follows it does not matter.
#[verifier::opaque]
pub open spec fn response(s: Seq<u8>) -> Option<TimeStampRespView> {
    match der::constructed(s, der::SEQUENCE) {
        Some((c, _)) => response_content(c),
        None => None,
    }
}

/// An INTEGER wrapped in an optional value `tag` at the front of `s`.
pub open spec fn opt_tagged_integer(s: Seq<u8>, tag: u8) -> Option<(Option<Seq<u8>>, Seq<u8>)> {
    match der::opt_constructed(s, tag) {
        Some((Some(c), rest)) => match der::integer(c) {
            Some((v, after)) => if after.len() == 0 {
                Some((Some(v), rest))
            } else {
                None
            },
            None => None,
        },
        Some((None, rest)) => Some((None, rest)),
        None => None,
    }
}

/// The accuracy with the contents `c`.
pub open spec fn accuracy_content(c: Seq<u8>) -> Option<AccuracyView> {
    match der::opt_integer(c) {
        Some((seconds, c1)) => match opt_tagged_integer(c1, der::CTX_0) {
            Some((millis, c2)) => match opt_tagged_integer(c2, der::CTX_1) {
                Some((micros, c3)) => if c3.len() == 0 {
                    Some(AccuracyView { seconds, millis, micros })
                } else {
                    None
                },
                None => None,
            },
            None => None,
        },
        None => None,
    }
}

/// An optional accuracy at the front of `s`.
pub open spec fn opt_accuracy(s: Seq<u8>) -> Option<(Option<AccuracyView>, Seq<u8>)> {
    match der::opt_constructed(s, der::SEQUENCE) {
        Some((Some(c), rest)) => match accuracy_content(c) {
            Some(a) => Some((Some(a), rest)),
            None => None,
        },
        Some((None, rest)) => Some((None, rest)),
        None => None,
    }
}

/// A GeneralizedTime at the front of `s`. The fraction of its second has at most nine digits.
pub open spec fn generalized_time(s: Seq<u8>) -> Option<(GeneralizedTime, Seq<u8>)> {
    match der::primitive(s, der::GENERALIZED_TIME) {
        Some((c, rest)) => if outside::long_fraction(c) {
            None
        } else {
            match outside::generalized_time_at(c) {
                Some(t) => Some((t, rest)),
                None => None,
            }
        },
        None => None,
    }
}

/// The optional name of an authority at the front of `s`: the contents of a value `[0]`.
pub open spec fn opt_tsa(s: Seq<u8>) -> Option<(Option<Seq<u8>>, Seq<u8>)> {
    match der::opt_constructed(s, der::CTX_0) {
        Some((Some(c), rest)) => if outside::general_name_accepted(s.take(s.len() - rest.len())) {
            Some((Some(c), rest))
        } else {
            None
        },
        Some((None, rest)) => Some((None, rest)),
        None => None,
    }
}

/// What a token states from its accuracy on.
pub struct TstInfoTail {
    pub accuracy: Option<AccuracyView>,
    pub ordering: Option<bool>,
    pub nonce: Option<Seq<u8>>,
    pub tsa: Option<Seq<u8>>,
    pub extensions: Option<Seq<ExtensionView>>,
}

/// The optional parts of what a token states, which make up `c`.
pub open spec fn tst_info_tail(c: Seq<u8>) -> Option<TstInfoTail> {
    match opt_accuracy(c) {
        Some((accuracy, c1)) => match der::opt_boolean(c1) {
            Some((ordering, c2)) => match der::opt_integer(c2) {
                Some((nonce, c3)) => match opt_tsa(c3) {
                    Some((tsa, c4)) => match opt_tagged_extensions(c4, der::CTX_1) {
                        Some((extensions, c5)) => if c5.len() == 0 {
                            Some(TstInfoTail { accuracy, ordering, nonce, tsa, extensions })
                        } else {
                            None
                        },
                        None => None,
                    },
                    None => None,
                },
                None => None,
            },
            None => None,
        },
        None => None,
    }
}

/// What the token with the contents `c` states.
pub open spec fn tst_info_content(c: Seq<u8>) -> Option<TstInfoView> {
    match der::integer(c) {
        Some((version, c1)) => match der::oid(c1) {
            Some((policy, c2)) => match message_imprint(c2) {
                Some((message_imprint, c3)) => match der::integer(c3) {
                    Some((serial_number, c4)) => match generalized_time(c4) {
                        Some((gen_time, c5)) => match tst_info_tail(c5) {
                            Some(tail) => Some(
                                TstInfoView {
                                    version,
                                    policy,
                                    message_imprint,
                                    serial_number,
                                    gen_time,
                                    accuracy: tail.accuracy,
                                    ordering: tail.ordering,
                                    nonce: tail.nonce,
                                    tsa: tail.tsa,
                                    extensions: tail.extensions,
                                },
                            ),
                            None => None,
                        },
                        None => None,
                    },
                    None => None,
                },
                None => None,
            },
            None => None,
        },
        None => None,
    }
}

/// What the token that `s` starts with states. What follows it does not matter.
#[verifier::opaque]
pub open spec fn tst_info(s: Seq<u8>) -> Option<TstInfoView> {
    match der::constructed(s, der::SEQUENCE) {
        Some((c, _)) => tst_info_content(c),
        None => None,
    }
}

/// Reads a message imprint.
pub fn read_message_imprint<'a>(s: &'a [u8]) -> (res: Option<(MessageImprint, &'a [u8])>)
    ensures
        match res {
            Some((m, rest)) => message_imprint(s@) == Some((m@, rest@)),
            None => message_imprint(s@) is None,
        },
{
    match der::read_constructed(s, der::SEQUENCE) {
        Some((c, rest)) => match x509::read_algorithm(c) {
            Some((hash_algorithm, c1)) => match der::read_octets(c1) {
                Some((hashed, c2)) => if c2.len() == 0 {
                    Some((MessageImprint { hash_algorithm, hashed_message: slice_to_vec(hashed) }, rest))
                } else {
                    None
                },
                None => None,
            },
            None => None,
        },
        None => None,
    }
}

/// Reads optional extensions in a value `tag`.
pub fn read_opt_tagged_extensions<'a>(s: &'a [u8], tag: u8) -> (res: Option<
    (Option<Vec<Extension>>, &'a [u8]),
>)
    ensures
        match res {
            Some((e, rest)) => opt_tagged_extensions(s@, tag) == Some(
                (x509::opt_extensions_view(e), rest@),
            ),
            None => opt_tagged_extensions(s@, tag) is None,
        },
{
    match der::read_opt_constructed(s, tag) {
        Some((Some(c), rest)) => match x509::read_extension_sequence(c) {
            Some(e) => Some((Some(e), rest)),
            None => None,
        },
        Some((None, rest)) => Some((None, rest)),
        None => None,
    }
}

/// Reads the contents of a request.
fn read_request_content(c: &[u8]) -> (res: Option<TimeStampReq>)
    ensures
        match res {
            Some(r) => request_content(c@) == Some(r@),
            None => request_content(c@) is None,
        },
{
    let (version, c1) = match der::read_integer(c) {
        Some(r) => r,
        None => {
            return None;
        },
    };
    let (message_imprint, c2) = match read_message_imprint(c1) {
        Some(r) => r,
        None => {
            return None;
        },
    };
    let (req_policy, c3) = match der::read_opt_oid(c2) {
        Some(r) => r,
        None => {
            return None;
        },
    };
    let (nonce, c4) = match der::read_opt_integer(c3) {
        Some(r) => r,
        None => {
            return None;
        },
    };
    let (cert_req, c5) = match der::read_opt_boolean(c4) {
        Some(r) => r,
        None => {
            return None;
        },
    };
    let (extensions, c6) = match read_opt_tagged_extensions(c5, der::CTX_0) {
        Some(r) => r,
        None => {
            return None;
        },
    };
    if c6.len() == 0 {
        Some(
            TimeStampReq {
                version: slice_to_vec(version),
                message_imprint,
                req_policy: der::opt_to_vec(req_policy),
                nonce: der::opt_to_vec(nonce),
                cert_req,
                extensions,
            },
        )
    } else {
        None
    }
}

/// Reads a request. What follows it is left alone.
pub fn read_request(s: &[u8]) -> (res: Option<TimeStampReq>)
    ensures
        match res {
            Some(r) => request(s@) == Some(r@),
            None => request(s@) is None,
        },
{
    reveal(request);
    match der::read_constructed(s, der::SEQUENCE) {
        Some((c, _)) => read_request_content(c),
        None => None,
    }
}

/// The status with the code `v`.
pub fn to_status(v: u8) -> (res: Option<PkiStatus>)
    ensures
        res == status_from(v),
{
    if v == 0 {
        Some(PkiStatus::Granted)
    } else if v == 1 {
        Some(PkiStatus::GrantedWithMods)
    } else if v == 2 {
        Some(PkiStatus::Rejection)
    } else if v == 3 {
        Some(PkiStatus::Waiting)
    } else if v == 4 {
        Some(PkiStatus::RevocationWarning)
    } else if v == 5 {
        Some(PkiStatus::RevocationNotification)
    } else {
        None
    }
}

/// The reason for a failure with the code `v`.
pub fn to_failure(v: u8) -> (res: Option<PkiFailureInfo>)
    ensures
        res == failure_from(v),
{
    if v == 0 {
        Some(PkiFailureInfo::BadAlg)
    } else if v == 1 {
        Some(PkiFailureInfo::BadRequest)
    } else if v == 5 {
        Some(PkiFailureInfo::BadDataFormat)
    } else if v == 14 {
        Some(PkiFailureInfo::TimeNotAvailable)
    } else if v == 15 {
        Some(PkiFailureInfo::UnacceptedPolicy)
    } else if v == 16 {
        Some(PkiFailureInfo::UnacceptedExtension)
    } else if v == 17 {
        Some(PkiFailureInfo::AddInfoNotAvailable)
    } else if v == 25 {
        Some(PkiFailureInfo::SystemFailure)
    } else {
        None
    }
}

/// Reads the strings that make up `s`.
pub fn read_free_text(s: &[u8]) -> (res: Option<Vec<Vec<u8>>>)
    ensures
        match res {
            Some(v) => free_text(s@) == Some(strings_view(v@)),
            None => free_text(s@) is None,
        },
{
    let mut out: Vec<Vec<u8>> = Vec::new();
    let mut rest = s;
    assert(strings_view(out@) =~= Seq::<Seq<u8>>::empty());
    loop
        invariant
            free_text(s@) == match free_text(rest@) {
                Some(tail) => Some(strings_view(out@) + tail),
                None => None,
            },
        decreases rest@.len(),
    {
        match der::read_opt_primitive(rest, der::UTF8_STRING) {
            None => {
                return None;
            },
            Some((None, after)) => {
                if after.len() == 0 {
                    assert(strings_view(out@) + Seq::<Seq<u8>>::empty() =~= strings_view(out@));
                    return Some(out);
                }
                return None;
            },
            Some((Some(c), after)) => {
                proof {
                    encode::lemma_tlv_canonical(rest@, der::UTF8_STRING);
                }
                if !outside::accept_utf8(c) {
                    return None;
                }
                let ghost before = out@;
                out.push(slice_to_vec(c));
                rest = after;
                proof {
                    assert(strings_view(out@) =~= strings_view(before).push(c@));
                    if let Some(tail) = free_text(after@) {
                        assert(strings_view(before) + (seq![c@] + tail) =~= strings_view(out@)
                            + tail);
                    }
                }
            },
        }
    }
}

/// Reads the contents of status information.
fn read_status_info_content(c: &[u8]) -> (res: Option<PkiStatusInfo>)
    ensures
        match res {
            Some(i) => status_info_content(c@) == Some(i@),
            None => status_info_content(c@) is None,
        },
{
    let (code, c1) = match der::read_small_integer(c) {
        Some(r) => r,
        None => {
            return None;
        },
    };
    let status = match to_status(code) {
        Some(status) => status,
        None => {
            return None;
        },
    };
    let (text, c2) = match der::read_opt_constructed(c1, der::SEQUENCE) {
        Some(r) => r,
        None => {
            return None;
        },
    };
    let status_string = match text {
        Some(t) => match read_free_text(t) {
            Some(strings) => Some(strings),
            None => {
                return None;
            },
        },
        None => None,
    };
    let (failure, c3) = match der::read_opt_small_integer(c2) {
        Some(r) => r,
        None => {
            return None;
        },
    };
    let fail_info = match failure {
        Some(v) => match to_failure(v) {
            Some(f) => Some(f),
            None => {
                return None;
            },
        },
        None => None,
    };
    if c3.len() == 0 {
        Some(PkiStatusInfo { status, status_string, fail_info })
    } else {
        None
    }
}

/// Reads a response. What follows it is left alone.
pub fn read_response(s: &[u8]) -> (res: Option<TimeStampResp>)
    ensures
        match res {
            Some(r) => response(s@) == Some(r@),
            None => response(s@) is None,
        },
{
    reveal(response);
    let c = match der::read_constructed(s, der::SEQUENCE) {
        Some((c, _)) => c,
        None => {
            return None;
        },
    };
    let (i, c1) = match der::read_constructed(c, der::SEQUENCE) {
        Some(r) => r,
        None => {
            return None;
        },
    };
    let status = match read_status_info_content(i) {
        Some(status) => status,
        None => {
            return None;
        },
    };
    match rfc5652::read_opt_content_info(c1) {
        Some((time_stamp_token, c2)) => if c2.len() == 0 {
            Some(TimeStampResp { status, time_stamp_token })
        } else {
            None
        },
        None => None,
    }
}

/// Reads an INTEGER in an optional value `tag`.
fn read_opt_tagged_integer<'a>(s: &'a [u8], tag: u8) -> (res: Option<
    (Option<&'a [u8]>, &'a [u8]),
>)
    ensures
        der::opt_read_view(res) == opt_tagged_integer(s@, tag),
{
    match der::read_opt_constructed(s, tag) {
        Some((Some(c), rest)) => match der::read_integer(c) {
            Some((v, after)) => if after.len() == 0 {
                Some((Some(v), rest))
            } else {
                None
            },
            None => None,
        },
        r => r,
    }
}

/// Reads the contents of an accuracy.
fn read_accuracy_content(c: &[u8]) -> (res: Option<Accuracy>)
    ensures
        match res {
            Some(a) => accuracy_content(c@) == Some(a@),
            None => accuracy_content(c@) is None,
        },
{
    match der::read_opt_integer(c) {
        Some((seconds, c1)) => match read_opt_tagged_integer(c1, der::CTX_0) {
            Some((millis, c2)) => match read_opt_tagged_integer(c2, der::CTX_1) {
                Some((micros, c3)) => if c3.len() == 0 {
                    Some(
                        Accuracy {
                            seconds: der::opt_to_vec(seconds),
                            millis: der::opt_to_vec(millis),
                            micros: der::opt_to_vec(micros),
                        },
                    )
                } else {
                    None
                },
                None => None,
            },
            None => None,
        },
        None => None,
    }
}

/// Whether `content` has ten or more digits in the fraction of its second.
fn has_long_fraction(content: &[u8]) -> (res: bool)
    ensures
        res == outside::long_fraction(content@),
{
    if content.len() < 25 || content[14] != 0x2e {
        return false;
    }
    let mut i: usize = 15;
    while i < 25
        invariant
            15 <= i <= 25,
            content@.len() >= 25,
            forall|j: int| 15 <= j < i ==> 0x30 <= #[trigger] content@[j] <= 0x39,
        decreases 25 - i,
    {
        if content[i] < 0x30 || content[i] > 0x39 {
            return false;
        }
        i = i + 1;
    }
    true
}

/// Reads a GeneralizedTime.
pub fn read_generalized_time<'a>(s: &'a [u8]) -> (res: Option<(GeneralizedTime, &'a [u8])>)
    ensures
        match res {
            Some((t, rest)) => generalized_time(s@) == Some((t, rest@)),
            None => generalized_time(s@) is None,
        },
{
    match der::read_primitive(s, der::GENERALIZED_TIME) {
        Some((c, rest)) => if has_long_fraction(c) {
            None
        } else {
            match outside::parse_generalized_time(c) {
                Some(t) => Some((t, rest)),
                None => None,
            }
        },
        None => None,
    }
}

/// Reads the optional name of an authority.
fn read_opt_tsa<'a>(s: &'a [u8]) -> (res: Option<(Option<&'a [u8]>, &'a [u8])>)
    ensures
        der::opt_read_view(res) == opt_tsa(s@),
{
    match der::read_opt_constructed(s, der::CTX_0) {
        Some((Some(c), rest)) => {
            proof {
                encode::lemma_tlv_canonical(s@, der::CTX_0);
            }
            let value = slice_subrange(s, 0, s.len() - rest.len());
            assert(value@ =~= s@.take(s@.len() - rest@.len()));
            if outside::accept_general_name(value) {
                Some((Some(c), rest))
            } else {
                None
            }
        },
        r => r,
    }
}

/// The optional parts of what a token states.
struct TstInfoOptions {
    accuracy: Option<Accuracy>,
    ordering: Option<bool>,
    nonce: Option<Vec<u8>>,
    tsa: Option<Vec<u8>>,
    extensions: Option<Vec<Extension>>,
}

impl TstInfoOptions {
    spec fn tail(self) -> TstInfoTail {
        TstInfoTail {
            accuracy: match self.accuracy {
                Some(a) => Some(a@),
                None => None,
            },
            ordering: self.ordering,
            nonce: der::opt_view(self.nonce),
            tsa: der::opt_view(self.tsa),
            extensions: x509::opt_extensions_view(self.extensions),
        }
    }
}

/// Reads the optional parts of what a token states.
fn read_tst_info_tail(c: &[u8]) -> (res: Option<TstInfoOptions>)
    ensures
        match res {
            Some(t) => tst_info_tail(c@) == Some(t.tail()),
            None => tst_info_tail(c@) is None,
        },
{
    let (a, c1) = match der::read_opt_constructed(c, der::SEQUENCE) {
        Some(r) => r,
        None => {
            return None;
        },
    };
    let accuracy = match a {
        Some(a) => match read_accuracy_content(a) {
            Some(accuracy) => Some(accuracy),
            None => {
                return None;
            },
        },
        None => None,
    };
    let (ordering, c2) = match der::read_opt_boolean(c1) {
        Some(r) => r,
        None => {
            return None;
        },
    };
    let (nonce, c3) = match der::read_opt_integer(c2) {
        Some(r) => r,
        None => {
            return None;
        },
    };
    let (tsa, c4) = match read_opt_tsa(c3) {
        Some(r) => r,
        None => {
            return None;
        },
    };
    let (extensions, c5) = match read_opt_tagged_extensions(c4, der::CTX_1) {
        Some(r) => r,
        None => {
            return None;
        },
    };
    if c5.len() == 0 {
        Some(
            TstInfoOptions {
                accuracy,
                ordering,
                nonce: der::opt_to_vec(nonce),
                tsa: der::opt_to_vec(tsa),
                extensions,
            },
        )
    } else {
        None
    }
}

/// Reads the contents of what a token states.
fn read_tst_info_content(c: &[u8]) -> (res: Option<TstInfo>)
    ensures
        match res {
            Some(t) => tst_info_content(c@) == Some(t@),
            None => tst_info_content(c@) is None,
        },
{
    let (version, c1) = match der::read_integer(c) {
        Some(r) => r,
        None => {
            return None;
        },
    };
    let (policy, c2) = match der::read_oid(c1) {
        Some(r) => r,
        None => {
            return None;
        },
    };
    let (message_imprint, c3) = match read_message_imprint(c2) {
        Some(r) => r,
        None => {
            return None;
        },
    };
    let (serial_number, c4) = match der::read_integer(c3) {
        Some(r) => r,
        None => {
            return None;
        },
    };
    let (gen_time, c5) = match read_generalized_time(c4) {
        Some(r) => r,
        None => {
            return None;
        },
    };
    let tail = match read_tst_info_tail(c5) {
        Some(tail) => tail,
        None => {
            return None;
        },
    };
    Some(
        TstInfo {
            version: slice_to_vec(version),
            policy: slice_to_vec(policy),
            message_imprint,
            serial_number: slice_to_vec(serial_number),
            gen_time,
            accuracy: tail.accuracy,
            ordering: tail.ordering,
            nonce: tail.nonce,
            tsa: tail.tsa,
            extensions: tail.extensions,
        },
    )
}

/// Reads what a token states. What follows it is left alone.
pub fn read_tst_info(s: &[u8]) -> (res: Option<TstInfo>)
    ensures
        match res {
            Some(t) => tst_info(s@) == Some(t@),
            None => tst_info(s@) is None,
        },
{
    reveal(tst_info);
    match der::read_constructed(s, der::SEQUENCE) {
        Some((c, _)) => read_tst_info_content(c),
        None => None,
    }
}

} // verus!
