//! Certificates for TLS servers from an ACME server
//! ([RFC 8555](https://datatracker.ietf.org/doc/html/rfc8555)): the data that client and server
//! exchange, the signed requests, and the decisions on the way to a certificate.
//!
//! Nothing in this library talks to anyone. What is to be sent, fetched or waited for is told by
//! [`rustls_helper`], step by step, and what came of it is handed back.

pub mod acme;
pub mod acme_laws;
pub mod base64url;
pub mod crypto;
pub mod ip;
pub mod jose;
pub mod jose_laws;
pub mod json;
pub mod retry_after;
pub mod rustls_helper;
pub mod text;
pub mod time;
