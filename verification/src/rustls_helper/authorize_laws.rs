//! What holds of an authorization, whatever the server says and in whatever order.

use super::authorize::{Authorization, AuthorizationEvent, CONFLICT, POLLS};
use super::error::OrderError;
use crate::acme::{AcmeError, Auth, Challenge, Identifier};
use vstd::arithmetic::power2::{lemma2_to64, lemma_pow2_unfold, pow2};
use vstd::prelude::*;

verus! {

/// The state that a new authorization is in after `events`.
pub open spec fn after_all(events: Seq<AuthorizationEvent>) -> Authorization
    decreases events.len(),
{
    if events.len() == 0 {
        Authorization::Fetch
    } else {
        after_all(events.drop_last()).after(events.last())
    }
}

/// How often the challenge is triggered in the course of `events`: each event that answers a
/// trigger stands for one.
pub open spec fn triggers(events: Seq<AuthorizationEvent>) -> nat
    decreases events.len(),
{
    if events.len() == 0 {
        0
    } else {
        let before = after_all(events.drop_last());
        triggers(events.drop_last()) + if before is Trigger && before.awaits(events.last()) {
            1nat
        } else {
            0nat
        }
    }
}

/// How many seconds are waited in the course of `events`.
pub open spec fn seconds_waited(events: Seq<AuthorizationEvent>) -> nat
    decreases events.len(),
{
    if events.len() == 0 {
        0
    } else {
        let before = after_all(events.drop_last());
        seconds_waited(events.drop_last()) + match before {
            Authorization::Sleep { attempt, .. } => if before.awaits(events.last()) {
                pow2(attempt as nat)
            } else {
                0
            },
            _ => 0,
        }
    }
}

/// How many of `events` answer what was to be done when they came.
pub open spec fn answers(events: Seq<AuthorizationEvent>) -> nat
    decreases events.len(),
{
    if events.len() == 0 {
        0
    } else {
        answers(events.drop_last()) + if after_all(events.drop_last()).awaits(events.last()) {
            1nat
        } else {
            0nat
        }
    }
}

/// How many answers a state is away from the start, at most.
spec fn depth(state: Authorization) -> int {
    match state {
        Authorization::Fetch => 0,
        Authorization::Select { .. } => 1,
        Authorization::Generate { .. } => 2,
        Authorization::Present { .. } => 3,
        Authorization::Trigger { .. } => 4,
        Authorization::Sleep { attempt, .. } => 5 + 2 * attempt,
        Authorization::Poll { attempt, .. } => 6 + 2 * attempt,
        Authorization::Done(_) => 15,
    }
}

/// The challenge is triggered at most once, however long the validation takes.
pub proof fn law_triggered_at_most_once(events: Seq<AuthorizationEvent>)
    ensures
        triggers(events) <= 1,
{
    lemma_triggers(events);
}

proof fn lemma_triggers(events: Seq<AuthorizationEvent>)
    ensures
        triggers(events) <= 1,
        depth(after_all(events)) <= 4 ==> triggers(events) == 0,
    decreases events.len(),
{
    if events.len() > 0 {
        lemma_triggers(events.drop_last());
    }
}

/// A trigger that is refused because the server is validating already is followed by what follows
/// a trigger that is accepted.
pub proof fn law_refused_trigger_is_as_good(identifier: Identifier, url: String)
    ensures
        (Authorization::Trigger { identifier, url }).after(
            AuthorizationEvent::Triggered(Err(AcmeError::HttpStatus(CONFLICT))),
        ) == (Authorization::Trigger { identifier, url }).after(
            AuthorizationEvent::Triggered(Ok(())),
        ),
{
}

/// An authorization comes to an end: after 15 answers, at the latest, nothing is left to be done.
pub proof fn law_ends(events: Seq<AuthorizationEvent>)
    ensures
        answers(events) <= 15,
        answers(events) == 15 ==> after_all(events) is Done,
{
    lemma_ends(events);
}

proof fn lemma_ends(events: Seq<AuthorizationEvent>)
    ensures
        after_all(events).well_formed(),
        answers(events) <= depth(after_all(events)) <= 15,
        depth(after_all(events)) == 15 ==> after_all(events) is Done,
    decreases events.len(),
{
    if events.len() > 0 {
        lemma_ends(events.drop_last());
    }
}

/// The number of attempts stays within its bound.
pub proof fn law_well_formed(events: Seq<AuthorizationEvent>)
    ensures
        after_all(events).well_formed(),
{
    lemma_ends(events);
}

/// The waits make up 31 seconds at most, and all of that has been waited where an authorization is
/// given up.
pub proof fn law_patience(events: Seq<AuthorizationEvent>)
    ensures
        seconds_waited(events) <= 31,
        after_all(events) matches Authorization::Done(Err(OrderError::TooManyAttemptsAuth(_)))
            ==> seconds_waited(events) == 31,
{
    lemma_patience(events);
}

proof fn lemma_patience(events: Seq<AuthorizationEvent>)
    ensures
        match after_all(events) {
            Authorization::Sleep { attempt, .. } => attempt < POLLS && seconds_waited(events) + 1
                == pow2(attempt as nat),
            Authorization::Poll { attempt, .. } => attempt < POLLS && seconds_waited(events) + 1
                == pow2((attempt + 1) as nat),
            Authorization::Done(Err(OrderError::TooManyAttemptsAuth(_))) => seconds_waited(events)
                == 31,
            Authorization::Done(_) => seconds_waited(events) <= 31,
            _ => seconds_waited(events) == 0,
        },
        seconds_waited(events) <= 31,
    decreases events.len(),
{
    lemma2_to64();
    if events.len() > 0 {
        lemma_patience(events.drop_last());
        if let Authorization::Sleep { attempt, .. } = after_all(events.drop_last()) {
            lemma_pow2_unfold((attempt + 1) as nat);
        }
    }
}

/// Whether event `i` is the last one that answers what was to be done when it came.
pub open spec fn is_last_answer(events: Seq<AuthorizationEvent>, i: int) -> bool {
    &&& after_all(events.take(i)).awaits(events[i])
    &&& forall|j: int|
        i < j < events.len() ==> !after_all(#[trigger] events.take(j)).awaits(events[j])
}

/// An authorization succeeds only where the last answer of the server is that it is valid.
pub proof fn law_success_is_the_servers(events: Seq<AuthorizationEvent>)
    requires
        after_all(events) == Authorization::Done(Ok(())),
    ensures
        exists|i: int|
            {
                &&& 0 <= i < events.len()
                &&& events[i] == AuthorizationEvent::Checked(Ok(Auth::Valid))
                &&& #[trigger] is_last_answer(events, i)
            },
    decreases events.len(),
{
    let before = events.drop_last();
    let last = events.len() - 1;
    assert(events.take(last) =~= before);
    if after_all(before) == Authorization::Done(Ok(())) {
        law_success_is_the_servers(before);
        let i = choose|i: int|
            {
                &&& 0 <= i < before.len()
                &&& before[i] == AuthorizationEvent::Checked(Ok(Auth::Valid))
                &&& #[trigger] is_last_answer(before, i)
            };
        assert(events.take(i) =~= before.take(i));
        assert forall|j: int| i < j < events.len() implies !after_all(
            #[trigger] events.take(j),
        ).awaits(events[j]) by {
            if j < last {
                assert(events.take(j) =~= before.take(j));
                assert(events[j] == before[j]);
            }
        }
        assert(is_last_answer(events, i));
    } else {
        assert(events[last] == events.last());
        assert(is_last_answer(events, last));
    }
}

/// How often the certificate that answers the challenge is put in place in the course of `events`.
pub open spec fn presentations(events: Seq<AuthorizationEvent>) -> nat
    decreases events.len(),
{
    if events.len() == 0 {
        0
    } else {
        let before = after_all(events.drop_last());
        presentations(events.drop_last()) + if before is Present && before.awaits(events.last()) {
            1nat
        } else {
            0nat
        }
    }
}

/// The certificate that answers the challenge is put in place at most once.
pub proof fn law_presented_at_most_once(events: Seq<AuthorizationEvent>)
    ensures
        presentations(events) <= 1,
{
    lemma_presentations(events);
}

proof fn lemma_presentations(events: Seq<AuthorizationEvent>)
    ensures
        presentations(events) <= 1,
        depth(after_all(events)) <= 3 ==> presentations(events) == 0,
    decreases events.len(),
{
    if events.len() > 0 {
        lemma_presentations(events.drop_last());
    }
}

/// How often the state of the authorization is fetched in the course of `events`.
pub open spec fn fetches(events: Seq<AuthorizationEvent>) -> nat
    decreases events.len(),
{
    if events.len() == 0 {
        0
    } else {
        let before = after_all(events.drop_last());
        fetches(events.drop_last()) + if (before is Fetch || before is Poll) && before.awaits(
            events.last(),
        ) {
            1nat
        } else {
            0nat
        }
    }
}

/// The state of the authorization is fetched six times at most, and all of these where it is given
/// up; and no authorization comes to an end without it.
pub proof fn law_fetches(events: Seq<AuthorizationEvent>)
    ensures
        fetches(events) <= 6,
        after_all(events) is Done ==> fetches(events) >= 1,
        after_all(events) matches Authorization::Done(Err(OrderError::TooManyAttemptsAuth(_)))
            ==> fetches(events) == 6,
{
    lemma_fetches(events);
}

proof fn lemma_fetches(events: Seq<AuthorizationEvent>)
    ensures
        match after_all(events) {
            Authorization::Fetch => fetches(events) == 0,
            Authorization::Sleep { attempt, .. } => attempt < POLLS && fetches(events) == 1
                + attempt,
            Authorization::Poll { attempt, .. } => attempt < POLLS && fetches(events) == 1
                + attempt,
            Authorization::Done(Err(OrderError::TooManyAttemptsAuth(_))) => fetches(events) == 6,
            Authorization::Done(_) => 1 <= fetches(events) <= 6,
            _ => fetches(events) == 1,
        },
    decreases events.len(),
{
    if events.len() > 0 {
        lemma_fetches(events.drop_last());
    }
}

/// Whether event `i` tells that the certificate was put in place, and came when that was to be
/// done.
pub open spec fn presented(events: Seq<AuthorizationEvent>, i: int) -> bool {
    &&& after_all(events.take(i)) is Present
    &&& events[i] matches AuthorizationEvent::Presented(Ok(_))
}

/// The challenge is triggered only once the certificate that answers it has been put in place.
pub proof fn law_trigger_follows_presenting(events: Seq<AuthorizationEvent>)
    requires
        after_all(events) is Trigger,
    ensures
        exists|i: int| 0 <= i < events.len() && #[trigger] presented(events, i),
    decreases events.len(),
{
    let before = events.drop_last();
    let last = events.len() - 1;
    assert(events.take(last) =~= before);
    if after_all(before) is Trigger {
        law_trigger_follows_presenting(before);
        let i = choose|i: int| 0 <= i < before.len() && #[trigger] presented(before, i);
        assert(events.take(i) =~= before.take(i));
        assert(presented(events, i));
    } else {
        assert(events[last] == events.last());
        assert(presented(events, last));
    }
}

/// The challenge that is triggered is the one that was picked.
pub proof fn law_trigger_is_the_selected(
    events: Seq<AuthorizationEvent>,
    identifier: Identifier,
    url: String,
)
    requires
        after_all(events) == (Authorization::Trigger { identifier, url }),
    ensures
        exists|i: int| 0 <= i < events.len() && selects(#[trigger] events[i], url),
{
    lemma_selected(events);
}

/// Whether `event` tells that the challenge at `url` was picked.
pub open spec fn selects(event: AuthorizationEvent, url: String) -> bool {
    event matches AuthorizationEvent::Selected(Ok((picked, _))) && picked == url
}

/// The URL of the challenge that a state holds.
spec fn selected(state: Authorization) -> Option<String> {
    match state {
        Authorization::Generate { url, .. } => Some(url),
        Authorization::Present { url, .. } => Some(url),
        Authorization::Trigger { url, .. } => Some(url),
        _ => None,
    }
}

proof fn lemma_selected(events: Seq<AuthorizationEvent>)
    ensures
        selected(after_all(events)) matches Some(url) ==> (exists|i: int|
            0 <= i < events.len() && selects(#[trigger] events[i], url)),
    decreases events.len(),
{
    if events.len() > 0 {
        let before = events.drop_last();
        lemma_selected(before);
        if let Some(url) = selected(after_all(events)) {
            if selected(after_all(before)) == Some(url) {
                let i = choose|i: int| 0 <= i < before.len() && selects(#[trigger] before[i], url);
                assert(events[i] == before[i]);
            } else {
                assert(selects(events[events.len() - 1], url));
            }
        }
    }
}

/// What is authorized stays what the server first named: an authorization is given up for the
/// identifier in the answer to the first fetch, whatever later answers name.
pub proof fn law_identifier_stays(events: Seq<AuthorizationEvent>, identifier: Identifier)
    requires
        after_all(events) == Authorization::Done(
            Err(OrderError::TooManyAttemptsAuth(identifier)),
        ),
    ensures
        exists|i: int| 0 <= i < events.len() && #[trigger] first_named(events, i, identifier),
{
    lemma_identifier(events);
}

/// Whether event `i` answers the first fetch, and tells that the authorization for `identifier` is
/// pending.
pub open spec fn first_named(
    events: Seq<AuthorizationEvent>,
    i: int,
    identifier: Identifier,
) -> bool {
    &&& after_all(events.take(i)) is Fetch
    &&& events[i] matches AuthorizationEvent::Checked(Ok(Auth::Pending { identifier: named, .. }))
    &&& named == identifier
}

/// The identifier that a state holds.
spec fn held(state: Authorization) -> Option<Identifier> {
    match state {
        Authorization::Fetch => None,
        Authorization::Select { identifier, .. } => Some(identifier),
        Authorization::Generate { identifier, .. } => Some(identifier),
        Authorization::Present { identifier, .. } => Some(identifier),
        Authorization::Trigger { identifier, .. } => Some(identifier),
        Authorization::Sleep { identifier, .. } => Some(identifier),
        Authorization::Poll { identifier, .. } => Some(identifier),
        Authorization::Done(Err(OrderError::TooManyAttemptsAuth(identifier))) => Some(identifier),
        Authorization::Done(_) => None,
    }
}

proof fn lemma_identifier(events: Seq<AuthorizationEvent>)
    ensures
        held(after_all(events)) matches Some(identifier) ==> (exists|i: int|
            0 <= i < events.len() && #[trigger] first_named(events, i, identifier)),
    decreases events.len(),
{
    if events.len() > 0 {
        let before = events.drop_last();
        lemma_identifier(before);
        if let Some(identifier) = held(after_all(events)) {
            if held(after_all(before)) == Some(identifier) {
                let i = choose|i: int|
                    0 <= i < before.len() && #[trigger] first_named(before, i, identifier);
                assert(events.take(i) =~= before.take(i));
                assert(first_named(events, i, identifier));
            } else {
                assert(events.take(events.len() - 1) =~= before);
                assert(first_named(events, events.len() - 1, identifier));
            }
        }
    }
}

/// Whether the state of the authorization is to be fetched, for the first time or again.
pub open spec fn is_fetching(state: Authorization) -> bool {
    match state {
        Authorization::Fetch => true,
        Authorization::Poll { .. } => true,
        _ => false,
    }
}

/// The answer that the authorization is valid ends it with success, at whichever fetch it comes.
pub proof fn law_valid_succeeds(state: Authorization)
    requires
        is_fetching(state),
    ensures
        state.after(AuthorizationEvent::Checked(Ok(Auth::Valid))) == Authorization::Done(Ok(())),
{
}

/// An authorization succeeds where the server says that it is valid in answer to any fetch, whatever
/// comes later.
pub proof fn law_valid_answer_is_success(events: Seq<AuthorizationEvent>, i: int)
    requires
        0 <= i < events.len(),
        is_fetching(after_all(events.take(i))),
        events[i] == AuthorizationEvent::Checked(Ok(Auth::Valid)),
    ensures
        after_all(events) == Authorization::Done(Ok(())),
    decreases events.len(),
{
    let before = events.drop_last();
    if i == events.len() - 1 {
        assert(events.take(i) =~= before);
    } else {
        assert(events.take(i) =~= before.take(i));
        law_valid_answer_is_success(before, i);
        law_end_is_final(Ok(()), events.last());
    }
}

/// What has come to an end stays as it is.
pub proof fn law_end_is_final(end: Result<(), OrderError>, event: AuthorizationEvent)
    ensures
        Authorization::Done(end).after(event) == Authorization::Done(end),
{
}

/// The answer that the authorization is invalid, revoked or expired ends it with that answer as the
/// error, at whichever fetch it comes.
pub proof fn law_bad_authorization_ends(state: Authorization, auth: Auth)
    requires
        is_fetching(state),
        auth is Invalid || auth is Revoked || auth is Expired,
    ensures
        state.after(AuthorizationEvent::Checked(Ok(auth))) == Authorization::Done(
            Err(OrderError::BadAuth(auth)),
        ),
{
}

/// The answer that the authorization is pending is taken up: at first by picking one of the
/// challenges that it names; later by waiting once more, and by giving up with the fifth such answer.
pub proof fn law_pending_is_taken_up(
    identifier: Identifier,
    challenges: Vec<Challenge>,
    held: Identifier,
    attempt: u8,
)
    ensures
        Authorization::Fetch.after(
            AuthorizationEvent::Checked(Ok(Auth::Pending { identifier, challenges })),
        ) == (Authorization::Select { identifier, challenges }),
        attempt < 4 ==> (Authorization::Poll { identifier: held, attempt }).after(
            AuthorizationEvent::Checked(Ok(Auth::Pending { identifier, challenges })),
        ) == (Authorization::Sleep { identifier: held, attempt: (attempt + 1) as u8 }),
        attempt >= 4 ==> (Authorization::Poll { identifier: held, attempt }).after(
            AuthorizationEvent::Checked(Ok(Auth::Pending { identifier, challenges })),
        ) == Authorization::Done(Err(OrderError::TooManyAttemptsAuth(held))),
{
}

/// Each thing that is done leads to the next, for the same identifier and the same challenge: the
/// challenge is picked, its certificate is made with the digest that was picked and put in place, and
/// then it is triggered. After that comes a wait, and after each wait a fetch.
pub proof fn law_success_leads_on(
    identifier: Identifier,
    challenges: Vec<Challenge>,
    url: String,
    key_auth: Vec<u8>,
    attempt: u8,
)
    ensures
        (Authorization::Select { identifier, challenges }).after(
            AuthorizationEvent::Selected(Ok((url, key_auth))),
        ) == (Authorization::Generate { identifier, url, key_auth }),
        (Authorization::Generate { identifier, url, key_auth }).after(
            AuthorizationEvent::Generated(Ok(())),
        ) == (Authorization::Present { identifier, url }),
        (Authorization::Present { identifier, url }).after(
            AuthorizationEvent::Presented(Ok(())),
        ) == (Authorization::Trigger { identifier, url }),
        (Authorization::Trigger { identifier, url }).after(
            AuthorizationEvent::Triggered(Ok(())),
        ) == (Authorization::Sleep { identifier, attempt: 0 }),
        (Authorization::Sleep { identifier, attempt }).after(AuthorizationEvent::Slept) == (
        Authorization::Poll { identifier, attempt }),
{
}

/// Each failure ends it with that failure as the error, but for a trigger that is refused with 409.
pub proof fn law_failures_end(
    identifier: Identifier,
    challenges: Vec<Challenge>,
    url: String,
    key_auth: Vec<u8>,
    attempt: u8,
    e: AcmeError,
    message: String,
)
    ensures
        Authorization::Fetch.after(AuthorizationEvent::Checked(Err(e))) == Authorization::Done(
            Err(OrderError::Acme(e)),
        ),
        (Authorization::Poll { identifier, attempt }).after(AuthorizationEvent::Checked(Err(e)))
            == Authorization::Done(Err(OrderError::Acme(e))),
        (Authorization::Select { identifier, challenges }).after(
            AuthorizationEvent::Selected(Err(e)),
        ) == Authorization::Done(Err(OrderError::Acme(e))),
        (Authorization::Generate { identifier, url, key_auth }).after(
            AuthorizationEvent::Generated(Err(message)),
        ) == Authorization::Done(Err(OrderError::Rcgen(message))),
        (Authorization::Present { identifier, url }).after(AuthorizationEvent::Presented(Err(e)))
            == Authorization::Done(Err(OrderError::Acme(e))),
        e != AcmeError::HttpStatus(409) ==> (Authorization::Trigger { identifier, url }).after(
            AuthorizationEvent::Triggered(Err(e)),
        ) == Authorization::Done(Err(OrderError::Acme(e))),
        (Authorization::Trigger { identifier, url }).after(
            AuthorizationEvent::Triggered(Err(AcmeError::HttpStatus(409))),
        ) == (Authorization::Sleep { identifier, attempt: 0 }),
{
}

/// What is not an answer to what was to be done changes nothing.
pub proof fn law_other_events_change_nothing(state: Authorization, event: AuthorizationEvent)
    requires
        match state {
            Authorization::Fetch => event !is Checked,
            Authorization::Select { .. } => event !is Selected,
            Authorization::Generate { .. } => event !is Generated,
            Authorization::Present { .. } => event !is Presented,
            Authorization::Trigger { .. } => event !is Triggered,
            Authorization::Sleep { .. } => event !is Slept,
            Authorization::Poll { .. } => event !is Checked,
            Authorization::Done(_) => true,
        },
    ensures
        state.after(event) == state,
{
}

/// Whether event `i`, if it answers a fetch, says that the authorization is pending.
pub open spec fn is_pending_if_fetched(events: Seq<AuthorizationEvent>, i: int) -> bool {
    is_fetching(after_all(events.take(i))) && events[i] is Checked ==> {
        &&& events[i]->Checked_0 is Ok
        &&& events[i]->Checked_0->Ok_0 is Pending
    }
}

/// An authorization is given up only where the answer to every fetch was that it is pending.
pub proof fn law_given_up_only_while_pending(
    events: Seq<AuthorizationEvent>,
    identifier: Identifier,
    i: int,
)
    requires
        after_all(events) == Authorization::Done(Err(OrderError::TooManyAttemptsAuth(identifier))),
        0 <= i < events.len(),
    ensures
        is_pending_if_fetched(events, i),
{
    lemma_pending(events, i);
}

proof fn lemma_pending(events: Seq<AuthorizationEvent>, i: int)
    requires
        0 <= i < events.len(),
        match after_all(events) {
            Authorization::Done(Err(OrderError::TooManyAttemptsAuth(_))) => true,
            Authorization::Done(_) => false,
            _ => true,
        },
    ensures
        is_pending_if_fetched(events, i),
    decreases events.len(),
{
    let before = events.drop_last();
    let last = events.len() - 1;
    assert(events.take(last) =~= before);
    if i < last {
        assert(events.take(i) =~= before.take(i));
        lemma_pending(before, i);
    }
}

} // verus!
