//! Time stamps over COSE signatures.
pub mod cbor;
pub mod container;
pub mod countersign;
pub mod countersign_laws;
pub mod der;
pub mod der_laws;
pub mod digest;
pub mod encode;
pub mod error;
pub mod exchange_laws;
pub mod http;
pub mod item_laws;
pub mod laws;
pub mod oids;
pub mod outside;
pub mod request;
pub mod request_laws;
pub mod response;
pub mod rfc3161;
pub mod rfc5652;
pub mod signed_attributes;
pub mod signed_data_laws;
pub mod statement_laws;
pub mod time;
pub mod validator;
pub mod validator_laws;
pub mod verify;
pub mod verify_laws;
pub mod view_laws;
pub mod x509;
