//! Obtaining certificates, and keeping them fresh.

pub mod authorize;
pub mod authorize_laws;
pub mod certified_key;
pub mod drive_order;
pub mod drive_order_laws;
pub mod error;
pub mod order;
pub mod order_laws;
pub mod renewal;

pub use authorize::{authorize, Authorization, AuthorizationEvent};
pub use certified_key::{
    certify, load_certified_key, CertifiedKey, KeyAlgorithm, KeyEncoding, PrivateKey,
};
pub use drive_order::{drive_order, Issuance, IssuanceEvent};
pub use error::OrderError;
pub use order::{order, Acquired, Acquisition, AcquisitionEvent};
pub use renewal::duration_until_renewal_attempt;
