//! Time-stamp responses.
use crate::error::Error;
use crate::oids;
use crate::rfc3161;
use crate::rfc3161::{PkiStatus, TimeStampResp, TimeStampRespView, TstInfo, TstInfoView};
use crate::rfc5652;
use crate::rfc5652::{SignedData, SignedDataView};
use crate::signed_attributes;
use vstd::prelude::*;

verus! {

/// A time-stamp response.
pub struct TimeStampResponse(TimeStampResp);

impl View for TimeStampResponse {
    type V = TimeStampRespView;

    closed spec fn view(&self) -> TimeStampRespView {
        self.0@
    }
}

impl std::ops::Deref for TimeStampResponse {
    type Target = TimeStampResp;

    fn deref(&self) -> (res: &TimeStampResp)
        ensures
            res@ == self@,
    {
        &self.0
    }
}

/// Whether a request with this answer was successful.
pub open spec fn is_granted(status: PkiStatus) -> bool {
    status == PkiStatus::Granted || status == PkiStatus::GrantedWithMods
}

/// The signed data of the response `r`, if it holds a token. A token of another kind is an error.
pub open spec fn signed_data_of(r: TimeStampRespView) -> Result<Option<SignedDataView>, Error> {
    match r.time_stamp_token {
        Some(token) => if token.content_type == oids::OID_ID_SIGNED_DATA@ {
            match rfc5652::signed_data(token.content) {
                Some(d) => Ok(Some(d)),
                None => Err(Error::CoseTimeStampGeneration),
            }
        } else {
            Err(Error::CoseTimeStampGeneration)
        },
        None => Ok(None),
    }
}

/// What the token of the response `r` states, if it holds such a statement.
pub open spec fn tst_info_of(r: TimeStampRespView) -> Result<Option<TstInfoView>, Error> {
    match signed_data_of(r) {
        Ok(Some(d)) => match d.content_info.content {
            Some(content) => if d.content_info.content_type == oids::OID_CONTENT_TYPE_TST_INFO@ {
                match rfc3161::tst_info(content) {
                    Some(t) => Ok(Some(t)),
                    None => Err(Error::CoseTimeStampGeneration),
                }
            } else {
                Ok(None)
            },
            None => Ok(None),
        },
        Ok(None) => Ok(None),
        Err(e) => Err(e),
    }
}

/// Whether what is signed and the keys in the signed data `d` can be written at all.
pub open spec fn is_writable(d: SignedDataView) -> bool {
    &&& signed_attributes::all_fit(d.signer_infos)
    &&& d.certificates matches Some(certs) ==> rfc5652::keys_fit(certs)
}

impl TimeStampResponse {
    /// Whether the time stamp request was successful.
    pub fn is_success(&self) -> (res: bool)
        ensures
            res == is_granted(self@.status.status),
    {
        match self.0.status.status {
            PkiStatus::Granted => true,
            PkiStatus::GrantedWithMods => true,
            _ => false,
        }
    }

    /// The signed data of the token.
    pub fn signed_data(&self) -> (res: Result<Option<SignedData>, Error>)
        ensures
            match res {
                Ok(Some(d)) => signed_data_of(self@) == Ok::<_, Error>(Some(d@)) && is_writable(d@),
                Ok(None) => signed_data_of(self@) == Ok::<_, Error>(None::<SignedDataView>),
                Err(e) => signed_data_of(self@) == Err::<Option<SignedDataView>, _>(e),
            },
    {
        match &self.0.time_stamp_token {
            Some(token) => if oids::vec_compare(&token.content_type, &oids::OID_ID_SIGNED_DATA) {
                proof {
                    signed_attributes::lemma_signed_data_fits(token.content@);
                    rfc5652::lemma_signed_data_keys_fit(token.content@);
                }
                match rfc5652::read_signed_data(&token.content) {
                    Some(d) => Ok(Some(d)),
                    None => Err(Error::CoseTimeStampGeneration),
                }
            } else {
                Err(Error::CoseTimeStampGeneration)
            },
            None => Ok(None),
        }
    }

    /// What the token states.
    pub fn tst_info(&self) -> (res: Result<Option<TstInfo>, Error>)
        ensures
            match res {
                Ok(Some(t)) => tst_info_of(self@) == Ok::<_, Error>(Some(t@)),
                Ok(None) => tst_info_of(self@) == Ok::<_, Error>(None::<TstInfoView>),
                Err(e) => tst_info_of(self@) == Err::<Option<TstInfoView>, _>(e),
            },
    {
        match self.signed_data() {
            Ok(Some(d)) => if oids::vec_compare(
                &d.content_info.content_type,
                &oids::OID_CONTENT_TYPE_TST_INFO,
            ) {
                match &d.content_info.content {
                    Some(content) => match rfc3161::read_tst_info(content) {
                        Some(t) => Ok(Some(t)),
                        None => Err(Error::CoseTimeStampGeneration),
                    },
                    None => Ok(None),
                }
            } else {
                Ok(None)
            },
            Ok(None) => Ok(None),
            Err(e) => Err(e),
        }
    }
}

/// Reads a response from its encoding.
pub fn get_timestamp_response(tsresp: &[u8]) -> (res: Result<TimeStampResponse, Error>)
    ensures
        match res {
            Ok(r) => rfc3161::response(tsresp@) == Some(r@),
            Err(e) => rfc3161::response(tsresp@) is None && e == Error::CoseInvalidTimeStamp,
        },
{
    match rfc3161::read_response(tsresp) {
        Some(r) => Ok(TimeStampResponse(r)),
        None => Err(Error::CoseInvalidTimeStamp),
    }
}

} // verus!
