//! How an authorization is obtained.

use super::error::OrderError;
use crate::acme::{AcmeError, Auth, Challenge, Identifier};
use crate::time::{Duration, NANOS_PER_SEC};
use vstd::arithmetic::power2::pow2;
use vstd::prelude::*;

verus! {

/// How often the state of an authorization is asked for once its challenge has been triggered.
pub const POLLS: u8 = 5;

/// The status that a server refuses a trigger with where it is validating already.
pub const CONFLICT: u16 = 409;

/// How far an authorization has come, which also says what is to be done next. What comes of that
/// is an [`AuthorizationEvent`].
pub enum Authorization {
    /// The state of the authorization is to be fetched.
    Fetch,
    /// The `tls-alpn-01` challenge is to be picked, and the digest of its key authorization to be
    /// made.
    Select {
        /// What is to be authorized.
        identifier: Identifier,
        /// The challenges to pick from.
        challenges: Vec<Challenge>,
    },
    /// The certificate that answers the challenge is to be made.
    Generate {
        /// What is to be authorized, and what the certificate is for.
        identifier: Identifier,
        /// The URL of the challenge.
        url: String,
        /// The digest that goes into the certificate.
        key_auth: Vec<u8>,
    },
    /// That certificate is to be put in place for the identifier.
    Present {
        /// What is to be authorized.
        identifier: Identifier,
        /// The URL of the challenge.
        url: String,
    },
    /// The challenge is to be triggered.
    Trigger {
        /// What is to be authorized.
        identifier: Identifier,
        /// The URL of the challenge.
        url: String,
    },
    /// The server is to be given [`Authorization::delay`] to validate.
    Sleep {
        /// What is to be authorized.
        identifier: Identifier,
        /// How often the state has been asked for since the challenge was triggered.
        attempt: u8,
    },
    /// The state of the authorization is to be fetched again.
    Poll {
        /// What is to be authorized.
        identifier: Identifier,
        /// How often the state has been asked for since the challenge was triggered.
        attempt: u8,
    },
    /// Nothing is left to be done.
    Done(Result<(), OrderError>),
}

/// What came of the next thing to be done for an [`Authorization`].
pub enum AuthorizationEvent {
    /// What the server says of the authorization.
    Checked(Result<Auth, AcmeError>),
    /// The URL of the challenge that was picked, and the digest of its key authorization.
    Selected(Result<(String, Vec<u8>), AcmeError>),
    /// Whether the certificate was made. An error is given by its message.
    Generated(Result<(), String>),
    /// Whether the certificate was put in place.
    Presented(Result<(), AcmeError>),
    /// Whether the challenge was triggered.
    Triggered(Result<(), AcmeError>),
    /// The time to wait is over.
    Slept,
}

impl Authorization {
    /// The number of attempts stays below [`POLLS`].
    pub open spec fn well_formed(&self) -> bool {
        match *self {
            Authorization::Sleep { attempt, .. } => attempt < POLLS,
            Authorization::Poll { attempt, .. } => attempt < POLLS,
            _ => true,
        }
    }

    /// Whether `event` is what this state waits for.
    pub open spec fn awaits(&self, event: AuthorizationEvent) -> bool {
        match *self {
            Authorization::Fetch => event is Checked,
            Authorization::Select { .. } => event is Selected,
            Authorization::Generate { .. } => event is Generated,
            Authorization::Present { .. } => event is Presented,
            Authorization::Trigger { .. } => event is Triggered,
            Authorization::Sleep { .. } => event is Slept,
            Authorization::Poll { .. } => event is Checked,
            Authorization::Done(_) => false,
        }
    }

    /// The state after `event`.
    ///
    /// Any failure ends it, but for a trigger that is refused with [`CONFLICT`]: then the server is
    /// validating already. An event that this state does not wait for changes nothing.
    pub open spec fn after(self, event: AuthorizationEvent) -> Authorization {
        match (self, event) {
            (Authorization::Fetch, AuthorizationEvent::Checked(Ok(auth))) => match auth {
                Auth::Pending { identifier, challenges } => Authorization::Select {
                    identifier,
                    challenges,
                },
                Auth::Valid => Authorization::Done(Ok(())),
                _ => Authorization::Done(Err(OrderError::BadAuth(auth))),
            },
            (Authorization::Fetch, AuthorizationEvent::Checked(Err(e))) => failed(e),
            (
                Authorization::Select { identifier, .. },
                AuthorizationEvent::Selected(Ok((url, key_auth))),
            ) => Authorization::Generate { identifier, url, key_auth },
            (Authorization::Select { .. }, AuthorizationEvent::Selected(Err(e))) => failed(e),
            (
                Authorization::Generate { identifier, url, .. },
                AuthorizationEvent::Generated(Ok(_)),
            ) => Authorization::Present { identifier, url },
            (
                Authorization::Generate { .. },
                AuthorizationEvent::Generated(Err(e)),
            ) => Authorization::Done(Err(OrderError::Rcgen(e))),
            (
                Authorization::Present { identifier, url },
                AuthorizationEvent::Presented(Ok(_)),
            ) => Authorization::Trigger { identifier, url },
            (Authorization::Present { .. }, AuthorizationEvent::Presented(Err(e))) => failed(e),
            (
                Authorization::Trigger { identifier, .. },
                AuthorizationEvent::Triggered(reply),
            ) => if reply is Ok || reply == Err::<(), AcmeError>(AcmeError::HttpStatus(CONFLICT)) {
                Authorization::Sleep { identifier, attempt: 0 }
            } else {
                failed(reply->Err_0)
            },
            (
                Authorization::Sleep { identifier, attempt },
                AuthorizationEvent::Slept,
            ) => Authorization::Poll { identifier, attempt },
            (
                Authorization::Poll { identifier, attempt },
                AuthorizationEvent::Checked(Ok(auth)),
            ) => match auth {
                Auth::Pending { .. } => if attempt + 1 < POLLS {
                    Authorization::Sleep { identifier, attempt: (attempt + 1) as u8 }
                } else {
                    Authorization::Done(Err(OrderError::TooManyAttemptsAuth(identifier)))
                },
                Auth::Valid => Authorization::Done(Ok(())),
                _ => Authorization::Done(Err(OrderError::BadAuth(auth))),
            },
            (Authorization::Poll { .. }, AuthorizationEvent::Checked(Err(e))) => failed(e),
            _ => self,
        }
    }

    /// How long to wait before the state is asked for again: one second at first, and twice as
    /// long each time. In other states there is nothing to wait for.
    pub fn delay(&self) -> (r: Option<Duration>)
        requires
            self.well_formed(),
        ensures
            match *self {
                Authorization::Sleep { attempt, .. } => r is Some && r->0@ == pow2(attempt as nat)
                    * NANOS_PER_SEC,
                _ => r is None,
            },
    {
        proof {
            vstd::arithmetic::power2::lemma2_to64();
        }
        match self {
            Authorization::Sleep { attempt, .. } => {
                let secs: u64 = match *attempt {
                    0 => 1,
                    1 => 2,
                    2 => 4,
                    3 => 8,
                    _ => 16,
                };
                Some(Duration::from_secs(secs))
            },
            _ => None,
        }
    }
}

/// The end of an authorization that talking to the server failed for.
pub open spec fn failed(e: AcmeError) -> Authorization {
    Authorization::Done(Err(OrderError::Acme(e)))
}

fn fail(e: AcmeError) -> (r: Authorization)
    ensures
        r == failed(e),
{
    Authorization::Done(Err(OrderError::from(e)))
}

/// Takes an authorization one step further.
///
/// It starts with [`Authorization::Fetch`]. Its challenge is triggered once, and then the state of
/// the authorization is asked for: it stays pending for as long as the server validates, so that
/// another trigger would only be in the way (RFC 8555, section 7.5.1).
pub fn authorize(state: Authorization, event: AuthorizationEvent) -> (r: Authorization)
    ensures
        r == state.after(event),
        state.well_formed() ==> r.well_formed(),
{
    match (state, event) {
        (Authorization::Fetch, AuthorizationEvent::Checked(Ok(auth))) => match auth {
            Auth::Pending { identifier, challenges } => Authorization::Select {
                identifier,
                challenges,
            },
            Auth::Valid => Authorization::Done(Ok(())),
            auth => Authorization::Done(Err(OrderError::BadAuth(auth))),
        },
        (Authorization::Fetch, AuthorizationEvent::Checked(Err(e))) => fail(e),
        (
            Authorization::Select { identifier, .. },
            AuthorizationEvent::Selected(Ok((url, key_auth))),
        ) => Authorization::Generate { identifier, url, key_auth },
        (Authorization::Select { .. }, AuthorizationEvent::Selected(Err(e))) => fail(e),
        (
            Authorization::Generate { identifier, url, .. },
            AuthorizationEvent::Generated(Ok(_)),
        ) => Authorization::Present { identifier, url },
        (
            Authorization::Generate { .. },
            AuthorizationEvent::Generated(Err(e)),
        ) => Authorization::Done(Err(OrderError::Rcgen(e))),
        (
            Authorization::Present { identifier, url },
            AuthorizationEvent::Presented(Ok(_)),
        ) => Authorization::Trigger { identifier, url },
        (Authorization::Present { .. }, AuthorizationEvent::Presented(Err(e))) => fail(e),
        (
            Authorization::Trigger { identifier, .. },
            AuthorizationEvent::Triggered(reply),
        ) => match reply {
            Ok(_) => Authorization::Sleep { identifier, attempt: 0 },
            Err(AcmeError::HttpStatus(CONFLICT)) => Authorization::Sleep { identifier, attempt: 0 },
            Err(e) => fail(e),
        },
        (
            Authorization::Sleep { identifier, attempt },
            AuthorizationEvent::Slept,
        ) => Authorization::Poll { identifier, attempt },
        (
            Authorization::Poll { identifier, attempt },
            AuthorizationEvent::Checked(Ok(auth)),
        ) => match auth {
            Auth::Pending { .. } => if attempt < POLLS - 1 {
                Authorization::Sleep { identifier, attempt: attempt + 1 }
            } else {
                Authorization::Done(Err(OrderError::TooManyAttemptsAuth(identifier)))
            },
            Auth::Valid => Authorization::Done(Ok(())),
            auth => Authorization::Done(Err(OrderError::BadAuth(auth))),
        },
        (Authorization::Poll { .. }, AuthorizationEvent::Checked(Err(e))) => fail(e),
        (state, _) => state,
    }
}

} // verus!
