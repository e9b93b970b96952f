//! The way into the bounded request queue, and the refusals at its door.

use crate::serve::{err, Body, Reply};
use crossbeam_channel::{Sender, TrySendError};
use vstd::prelude::*;

verus! {

/// `crossbeam_channel::Sender`, the sending half of a channel. Nothing is known
/// of what is in the channel: other threads take from it at any time.
#[verifier::external_type_specification]
#[verifier::external_body]
#[verifier::reject_recursive_types(T)]
pub struct ExSender<T>(crossbeam_channel::Sender<T>);

/// `crossbeam_channel::TrySendError`, an enum of two public variants, which are
/// used as they are declared there.
#[verifier::external_type_specification]
#[verifier::reject_recursive_types(T)]
pub struct ExTrySendError<T>(crossbeam_channel::TrySendError<T>);

/// `crossbeam_channel::Sender::try_send`: without blocking, the message is sent
/// or comes back in the error. Which of the two happens depends on what other
/// threads have done with the channel, and is left open.
pub assume_specification<T>[ crossbeam_channel::Sender::<T>::try_send ](
    sender: &crossbeam_channel::Sender<T>,
    msg: T,
) -> (r: Result<(), crossbeam_channel::TrySendError<T>>)
    ensures
        r matches Err(crossbeam_channel::TrySendError::Full(m)) ==> m == msg,
        r matches Err(crossbeam_channel::TrySendError::Disconnected(m)) ==> m == msg,
;

/// The side of the queue where requests come in.
#[derive(Debug)]
pub struct Acceptor {
    /// How many requests were turned away because the queue was full.
    pub rejected: u64,
}

/// `n`, and one more; the largest number is followed by zero.
pub open spec fn counted(n: u64) -> u64 {
    if n == u64::MAX {
        0
    } else {
        (n + 1) as u64
    }
}

/// Whether `answer`, and the count `after`, are what follows from offering a
/// request to the queue with the result `sent`, the count being `before`: a
/// queued request gets no answer here, the others go back with a refusal, and
/// the refusals of a full queue are counted.
pub open spec fn turned_away<T>(
    sent: Result<(), TrySendError<T>>,
    before: u64,
    after: u64,
    answer: Option<(T, Reply)>,
) -> bool {
    match sent {
        Ok(()) => answer is None && after == before,
        Err(TrySendError::Full(request)) => {
            &&& answer matches Some((back, reply)) && back == request && reply.is_error(
                503,
                "server busy, retry later"@,
            )
            &&& after == counted(before)
        },
        Err(TrySendError::Disconnected(request)) => {
            &&& answer matches Some((back, reply)) && back == request && reply.is_error(
                503,
                "server shutting down"@,
            )
            &&& after == before
        },
    }
}

impl Acceptor {
    /// An acceptor that has turned nothing away.
    pub fn new() -> (a: Acceptor)
        ensures
            a.rejected == 0,
    {
        Acceptor { rejected: 0 }
    }

    /// What to do with a request for which the queue gave `sent`: nothing, or
    /// send it the reply that comes with it.
    pub fn answer<T>(&mut self, sent: Result<(), TrySendError<T>>) -> (answer: Option<(T, Reply)>)
        ensures
            turned_away(sent, old(self).rejected, final(self).rejected, answer),
    {
        match sent {
            Ok(()) => None,
            Err(TrySendError::Full(request)) => {
                self.rejected = self.rejected.wrapping_add(1);
                Some((request, err(503, "server busy, retry later".to_owned())))
            },
            Err(TrySendError::Disconnected(request)) => {
                Some((request, err(503, "server shutting down".to_owned())))
            },
        }
    }

    /// Offers a request to the queue, and answers for what the queue gave: a
    /// request that got in needs no answer, one that did not comes back with the
    /// reply to send it. Whether it gets in is up to the queue.
    pub fn accept<T>(&mut self, queue: &Sender<T>, request: T) -> (answer: Option<(T, Reply)>)
        ensures
            exists|sent: Result<(), TrySendError<T>>|
                {
                    &&& #[trigger] call_ensures(Sender::<T>::try_send, (queue, request), sent)
                    &&& turned_away(sent, old(self).rejected, final(self).rejected, answer)
                },
            match answer {
                None => final(self).rejected == old(self).rejected,
                Some((back, reply)) => {
                    &&& back == request
                    &&& {
                        ||| reply.is_error(503, "server busy, retry later"@)
                            && final(self).rejected == counted(old(self).rejected)
                        ||| reply.is_error(503, "server shutting down"@)
                            && final(self).rejected == old(self).rejected
                    }
                },
            },
    {
        let sent = queue.try_send(request);
        self.answer(sent)
    }
}

/// A request that got into the queue is left alone. One that did not comes back
/// itself, with a reply under 503 that says why, and it is counted just when the
/// queue was full.
pub proof fn refused_requests_come_back<T>(
    a: &mut Acceptor,
    sent: Result<(), TrySendError<T>>,
    answer: Option<(T, Reply)>,
)
    requires
        call_ensures(Acceptor::answer::<T>, (a, sent), answer),
    ensures
        sent is Ok <==> answer is None,
        sent is Ok ==> final(a).rejected == old(a).rejected,
        sent matches Err(TrySendError::Full(request)) ==> {
            &&& old(a).rejected < u64::MAX ==> final(a).rejected == old(a).rejected + 1
            &&& old(a).rejected == u64::MAX ==> final(a).rejected == 0
            &&& answer matches Some((back, reply)) && back == request && reply.status == 503 && (
            reply.body matches Body::Error(e) && e.error@ == "server busy, retry later"@)
        },
        sent matches Err(TrySendError::Disconnected(request)) ==> {
            &&& final(a).rejected == old(a).rejected
            &&& answer matches Some((back, reply)) && back == request && reply.status == 503 && (
            reply.body matches Body::Error(e) && e.error@ == "server shutting down"@)
        },
{
}

/// Whatever the queue does with a request that is offered to it, the request
/// comes back itself or not at all. With it comes a reply under 503, which names
/// a full queue just when the request was counted as rejected.
pub proof fn offered_requests_are_not_mixed_up<T>(
    a: &mut Acceptor,
    queue: &Sender<T>,
    request: T,
    answer: Option<(T, Reply)>,
)
    requires
        call_ensures(Acceptor::accept::<T>, (a, queue, request), answer),
    ensures
        answer is None ==> final(a).rejected == old(a).rejected,
        answer matches Some((back, reply)) ==> {
            &&& back == request
            &&& reply.status == 503
            &&& reply.body matches Body::Error(e) && {
                ||| e.error@ == "server busy, retry later"@ && final(a).rejected == (if old(
                    a,
                ).rejected == u64::MAX {
                    0
                } else {
                    old(a).rejected + 1
                })
                ||| e.error@ == "server shutting down"@ && final(a).rejected == old(a).rejected
            }
        },
        exists|sent: Result<(), TrySendError<T>>|
            {
                &&& #[trigger] call_ensures(Sender::<T>::try_send, (queue, request), sent)
                &&& sent is Ok <==> answer is None
                &&& sent is Err && sent->Err_0 is Full <==> {
                    answer matches Some((_, reply)) && reply.body matches Body::Error(e)
                        && e.error@ == "server busy, retry later"@
                }
            },
{
    reveal_strlit("server busy, retry later");
    reveal_strlit("server shutting down");
    assert("server busy, retry later"@.len() != "server shutting down"@.len());
    let sent = choose|sent: Result<(), TrySendError<T>>|
        {
            &&& #[trigger] call_ensures(Sender::<T>::try_send, (queue, request), sent)
            &&& turned_away(sent, old(a).rejected, final(a).rejected, answer)
        };
    assert(call_ensures(Sender::<T>::try_send, (queue, request), sent));
}

/// Nothing is turned away at the start.
pub proof fn nothing_is_rejected_at_first(a: Acceptor)
    requires
        call_ensures(Acceptor::new, (), a),
    ensures
        a.rejected == 0,
{
}

} // verus!
