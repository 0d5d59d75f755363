//! What can go wrong in ordering a certificate.

use crate::acme::{AcmeError, Auth, Identifier, Order};
use vstd::prelude::*;

verus! {

/// What can go wrong in ordering a certificate.
#[derive(Debug)]
pub enum OrderError {
    /// Talking to the server failed.
    Acme(AcmeError),
    /// A certificate could not be made. Holds the message.
    Rcgen(String),
    /// The order is in a state that leads to no certificate.
    BadOrder(Order),
    /// An authorization is in a state that leads to no certificate.
    BadAuth(Auth),
    /// An authorization stayed pending for too long.
    TooManyAttemptsAuth(Identifier),
}

impl From<AcmeError> for OrderError {
    fn from(e: AcmeError) -> (r: Self) {
        OrderError::Acme(e)
    }
}

impl vstd::std_specs::convert::FromSpecImpl<AcmeError> for OrderError {
    open spec fn obeys_from_spec() -> bool {
        true
    }

    open spec fn from_spec(e: AcmeError) -> Self {
        OrderError::Acme(e)
    }
}

impl OrderError {
    /// The error in words.
    pub open spec fn text(&self) -> Seq<char> {
        match *self {
            OrderError::Acme(e) => "acme error: "@ + e.text(),
            OrderError::Rcgen(message) => "certificate generation error: "@ + message@,
            OrderError::BadOrder(order) => "bad order object: "@ + order.debug_text(),
            OrderError::BadAuth(auth) => auth.text(),
            OrderError::TooManyAttemptsAuth(identifier) => "authorization for "@
                + identifier.text() + " failed too many times"@,
        }
    }

    /// Puts the error in words.
    pub fn to_string(&self) -> (r: String)
        ensures
            r@ == self.text(),
    {
        let mut text = String::new();
        match self {
            OrderError::Acme(e) => {
                text.append("acme error: ");
                text.append(e.to_string().as_str());
            },
            OrderError::Rcgen(message) => {
                text.append("certificate generation error: ");
                text.append(message.as_str());
            },
            OrderError::BadOrder(order) => {
                text.append("bad order object: ");
                text.append(order.to_debug_string().as_str());
            },
            OrderError::BadAuth(auth) => {
                text.append(auth.to_string().as_str());
            },
            OrderError::TooManyAttemptsAuth(identifier) => {
                text.append("authorization for ");
                text.append(identifier.to_string().as_str());
                text.append(" failed too many times");
            },
        }
        assert(text@ =~= self.text());
        text
    }
}

} // verus!
