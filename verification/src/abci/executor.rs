//! The decisions of the loop that hands requests to the state machine: when to answer,
//! when to wait, and when to stop.

use crate::abci::messages::{Req, Request, Res};
use crate::abci::{
    committed_height_of, header_height, stop_error, stop_text, ABCIStateMachine, ABCIStore,
    Application,
};
use crate::error::Error;
use vstd::prelude::*;

verus! {

/// What the loop saw.
#[derive(Clone, Debug, PartialEq, Eq)]
pub enum Event {
    /// Some part of the system has failed with this error.
    Fault(Error),
    /// No request arrived in time.
    Quiet,
    /// A request arrived.
    Arrived(Request),
}

/// What the loop is to do.
#[derive(Clone, Debug, PartialEq, Eq)]
pub enum Action {
    /// Look again.
    Wait,
    /// Send the reply and go on.
    Reply(Res),
    /// Send the reply, then stop with the error.
    ReplyAndStop(Res, Error),
    /// Stop with the error, without a reply.
    Stop(Error),
}

/// The greatest stop height that can be set: the greatest height that a block can have.
pub const MAX_STOP_HEIGHT: u64 = 0x7fff_ffff_ffff_ffff;

/// Whether `b` is a decimal digit.
pub open spec fn is_digit(b: u8) -> bool {
    0x30 <= b <= 0x39
}

/// The number that the decimal digits `digits` write.
pub open spec fn digits_value(digits: Seq<u8>) -> nat
    decreases digits.len(),
{
    if digits.len() == 0 {
        0
    } else {
        digits_value(digits.drop_last()) * 10 + (digits.last() - 0x30) as nat
    }
}

/// The digits of the text `text` of a stop height: the text without a plus sign at its
/// head.
pub open spec fn height_digits(text: Seq<u8>) -> Seq<u8> {
    if text.len() > 0 && text[0] == 0x2b {
        text.skip(1)
    } else {
        text
    }
}

/// Whether `text` writes a stop height: digits, at least one, with or without a plus
/// sign before them, for a number that a block height can reach.
pub open spec fn is_height_text(text: Seq<u8>) -> bool {
    let digits = height_digits(text);
    &&& digits.len() > 0
    &&& forall|i: int| 0 <= i < digits.len() ==> is_digit(#[trigger] digits[i])
    &&& digits_value(digits) <= MAX_STOP_HEIGHT
}

/// More digits do not write a smaller number.
proof fn lemma_digits_value_grows(digits: Seq<u8>, n: int)
    requires
        0 <= n <= digits.len(),
        forall|i: int| 0 <= i < digits.len() ==> is_digit(#[trigger] digits[i]),
    ensures
        digits_value(digits.take(n)) <= digits_value(digits),
    decreases digits.len() - n,
{
    if n == digits.len() {
        assert(digits.take(n) =~= digits);
    } else {
        lemma_digits_value_grows(digits, n + 1);
        assert(digits.take(n + 1).drop_last() =~= digits.take(n));
        assert(is_digit(digits[n]));
    }
}

/// Reads the setting of the stop height from the bytes of its text: nothing where the
/// text is empty, the height where the text writes one, and an error for any other text.
pub fn parse_stop_height(bytes: &[u8]) -> (r: Result<Option<u64>, Error>)
    ensures
        bytes@.len() == 0 ==> r == Ok::<Option<u64>, Error>(None),
        bytes@.len() > 0 && is_height_text(bytes@) ==> r == Ok::<Option<u64>, Error>(
            Some(digits_value(height_digits(bytes@)) as u64),
        ),
        bytes@.len() > 0 && !is_height_text(bytes@) ==> r is Err && r.unwrap_err() is ABCI
            && r.unwrap_err().detail() == "Invalid ORGA_STOP_HEIGHT value"@,
{
    if bytes.len() == 0 {
        return Ok(None);
    }
    let start: usize = if bytes[0] == 0x2b {
        1
    } else {
        0
    };
    let ghost digits = height_digits(bytes@);
    assert(digits =~= bytes@.skip(start as int));
    if start == bytes.len() {
        return Err(Error::ABCI(String::from_str("Invalid ORGA_STOP_HEIGHT value")));
    }
    let mut value: u64 = 0;
    let mut i: usize = start;
    while i < bytes.len()
        invariant
            start <= i <= bytes.len(),
            digits == bytes@.skip(start as int),
            digits == height_digits(bytes@),
            forall|j: int| 0 <= j < i - start ==> is_digit(#[trigger] digits[j]),
            value == digits_value(digits.take(i - start)),
            value <= MAX_STOP_HEIGHT,
        decreases bytes.len() - i,
    {
        let b = bytes[i];
        assert(digits[i - start] == b);
        if b < 0x30 || b > 0x39 {
            assert(!is_digit(digits[i - start]));
            return Err(Error::ABCI(String::from_str("Invalid ORGA_STOP_HEIGHT value")));
        }
        let d = (b - 0x30) as u64;
        proof {
            assert(digits.take(i - start + 1).drop_last() =~= digits.take(i - start));
            assert(digits.take(i - start + 1).last() == b);
        }
        if value > (MAX_STOP_HEIGHT - d) / 10 {
            proof {
                // The digits read so far write too great a number already.
                assert(digits_value(digits.take(i - start + 1)) > MAX_STOP_HEIGHT);
                if is_height_text(bytes@) {
                    lemma_digits_value_grows(digits, i - start + 1);
                }
            }
            return Err(Error::ABCI(String::from_str("Invalid ORGA_STOP_HEIGHT value")));
        }
        value = value * 10 + d;
        i = i + 1;
    }
    assert(digits.take(i - start) =~= digits);
    Ok(Some(value))
}

impl<A: Application<S>, S: ABCIStore> ABCIStateMachine<A, S> {
    /// Whether the machine in the state `self` has reached its stop height: the height of
    /// the last block that its store has committed is the stop height or above it.
    pub open spec fn at_stop_height(self) -> bool {
        self.stop_height() is Some && self.store().committed_height()
            >= self.stop_height().unwrap()
    }

    /// Whether the block that the machine in the state `self` works on has reached the
    /// stop height: the height of its header is the stop height or above it.
    pub open spec fn block_at_stop_height(self) -> bool {
        &&& self.stop_height() is Some
        &&& self.block_header() is Some
        &&& header_height(self.block_header().unwrap()) >= self.stop_height().unwrap()
    }

    /// After a `Commit` that succeeds, the block of the machine has reached the stop
    /// height exactly where the store has: the store has committed that block.
    pub proof fn lemma_committed_block_is_store_height(
        self,
        req: Request,
        post: Self,
        r: Result<Res, Error>,
    )
        requires
            self.handled(req, post, r),
            req.value == Some(Req::Commit),
            r is Ok,
        ensures
            post.block_header() is Some,
            post.store().committed_height() == header_height(post.block_header().unwrap()),
            post.block_at_stop_height() == post.at_stop_height(),
    {
    }

    /// What the loop is to do after `run` has left the state `post` and returned `r` for
    /// the request `req`: an error stops the loop without a reply; a reply is sent, and
    /// the loop stops after the reply to a `Commit` that has brought the store to the
    /// stop height.
    pub open spec fn reacted(
        req: Request,
        post: Self,
        r: Result<Res, Error>,
        action: Action,
    ) -> bool {
        match r {
            Err(e) => action == Action::Stop(e),
            Ok(res) => if req.value is Some && req.value.unwrap() is Commit
                && post.at_stop_height() {
                &&& action is ReplyAndStop
                &&& action->ReplyAndStop_0 == res
                &&& action->ReplyAndStop_1 is ABCI
                &&& action->ReplyAndStop_1.detail() == stop_text(post.stop_height().unwrap())
            } else {
                action == Action::Reply(res)
            },
        }
    }

    /// What `step` does with the event `event`: the state `post` that it leaves and the
    /// action `action` that it returns, from the state `self`.
    pub open spec fn stepped(self, event: Event, post: Self, action: Action) -> bool {
        match event {
            Event::Fault(e) => {
                &&& self.unchanged(post)
                &&& action is Stop
                &&& action->Stop_0 is ABCI
                &&& action->Stop_0.detail() == e.text()
            },
            Event::Quiet => self.unchanged(post) && action is Wait,
            Event::Arrived(req) => exists|r: Result<Res, Error>|
                self.handled(req, post, r) && Self::reacted(req, post, r, action),
        }
    }

    /// What the loop is to do after the machine has returned `r` for a request; the
    /// request was a `Commit` where `was_commit` says so. A `Commit` that succeeded has
    /// committed the block of the machine, so the height of that block is the height of
    /// the store.
    pub fn react(&self, was_commit: bool, r: Result<Res, Error>) -> (action: Action)
        ensures
            match r {
                Err(e) => action == Action::Stop(e),
                Ok(res) => if was_commit && self.block_at_stop_height() {
                    &&& action is ReplyAndStop
                    &&& action->ReplyAndStop_0 == res
                    &&& action->ReplyAndStop_1 is ABCI
                    &&& action->ReplyAndStop_1.detail() == stop_text(self.stop_height().unwrap())
                } else {
                    action == Action::Reply(res)
                },
            },
    {
        match r {
            Err(e) => Action::Stop(e),
            Ok(res) => {
                if was_commit {
                    match (self.stop_height, &self.header) {
                        (Some(stop), Some(header)) => {
                            if committed_height_of(header) >= stop {
                                return Action::ReplyAndStop(res, stop_error(stop));
                            }
                        },
                        _ => {},
                    }
                }
                Action::Reply(res)
            },
        }
    }

    /// Takes one event of the loop: hands a request to the machine, and says what the
    /// loop is to do next. A request is handled by `run`: the state is as `run` has left
    /// it, and the action is the reaction to what `run` has returned.
    pub fn step(&mut self, event: Event) -> (action: Action)
        ensures
            (*old(self)).stepped(event, *final(self), action),
            event matches Event::Arrived(req) ==> exists|machine: &mut Self, r: Result<Res, Error>|
                #![trigger call_ensures(Self::run, (machine, req), r)]
                mut_ref_current(machine) == *old(self) && mut_ref_future(machine) == *final(self)
                    && call_ensures(Self::run, (machine, req), r) && Self::reacted(
                    req,
                    *final(self),
                    r,
                    action,
                ),
            event is Arrived && (action is Reply || action is ReplyAndStop) ==> {
                let reply = if action is Reply {
                    action->Reply_0
                } else {
                    action->ReplyAndStop_0
                };
                event->Arrived_0.value is Some && reply.answers(event->Arrived_0.value.unwrap())
            },
    {
        match event {
            Event::Fault(e) => Action::Stop(Error::ABCI(e.to_string())),
            Event::Quiet => Action::Wait,
            Event::Arrived(req) => {
                let was_commit = match &req.value {
                    Some(Req::Commit) => true,
                    _ => false,
                };
                let r = self.run(req);
                let action = self.react(was_commit, r);
                proof {
                    if was_commit && r is Ok {
                        (*old(self)).lemma_committed_block_is_store_height(req, *self, r);
                    }
                }
                assert(Self::reacted(req, *self, r, action));
                action
            },
        }
    }

    /// The machine has taken the requests `requests` from the state `self`, one after the
    /// other in their order, has answered each with the reply at its place in `replies`,
    /// and has come to the state `post`.
    pub open spec fn answered(self, requests: Seq<Request>, replies: Seq<Res>, post: Self) -> bool
        decreases requests.len(),
    {
        if requests.len() == 0 {
            replies.len() == 0 && post == self
        } else {
            &&& replies.len() == requests.len()
            &&& exists|mid: Self|
                #![trigger mid.stepped(
                    Event::Arrived(requests.last()),
                    post,
                    Action::Reply(replies.last()),
                )]
                self.answered(requests.drop_last(), replies.drop_last(), mid) && mid.stepped(
                    Event::Arrived(requests.last()),
                    post,
                    Action::Reply(replies.last()),
                )
        }
    }

    /// The machine has answered some of the requests `requests` from the state `self`, in
    /// their order, and has stopped at the next one with the error `e`, in the state
    /// `post`: either without a reply to that request, or after a last reply to it.
    pub open spec fn stopped_at(
        self,
        requests: Seq<Request>,
        replies: Seq<Res>,
        e: Error,
        post: Self,
    ) -> bool {
        exists|k: int, mid: Self, action: Action|
            #![trigger self.answered(requests.take(k), replies.take(k), mid), mid.stepped(
                Event::Arrived(requests[k]),
                post,
                action,
            )]
            {
                &&& 0 <= k < requests.len()
                &&& self.answered(requests.take(k), replies.take(k), mid)
                &&& mid.stepped(Event::Arrived(requests[k]), post, action)
                &&& (action == Action::Stop(e) && replies.len() == k) || (replies.len() == k + 1
                    && action == Action::ReplyAndStop(replies[k], e))
            }
    }

    /// Handles the requests `requests` in their order until they are all answered or the
    /// machine stops. There is one reply for each request that was handled, in the order
    /// of the requests and of the kind that answers it; where the machine did not stop,
    /// every request has its reply.
    pub fn serve(&mut self, requests: Vec<Request>) -> (out: (Vec<Res>, Option<Error>))
        ensures
            out.0.len() <= requests.len(),
            out.1 is None ==> out.0.len() == requests.len(),
            forall|i: int|
                0 <= i < out.0.len() ==> (#[trigger] requests[i]).value is Some && out.0[i].answers(
                    requests[i].value.unwrap(),
                ),
            match out.1 {
                None => (*old(self)).answered(requests@, out.0@, *final(self)),
                Some(e) => (*old(self)).stopped_at(requests@, out.0@, e, *final(self)),
            },
    {
        let mut rest = requests;
        let mut replies: Vec<Res> = Vec::new();
        assert(requests@.take(0) =~= Seq::<Request>::empty());
        while rest.len() > 0
            invariant
                replies.len() + rest.len() == requests.len(),
                rest@ == requests@.skip(replies.len() as int),
                forall|i: int|
                    0 <= i < replies.len() ==> (#[trigger] requests[i]).value is Some
                        && replies[i].answers(requests[i].value.unwrap()),
                (*old(self)).answered(requests@.take(replies.len() as int), replies@, *self),
            decreases rest.len(),
        {
            let ghost done = replies.len() as int;
            let ghost before = *self;
            let ghost sent = replies@;
            let req = rest.remove(0);
            assert(req == requests[done]);
            assert(rest@ =~= requests@.skip(done + 1));
            let action = self.step(Event::Arrived(req));
            proof {
                assert(requests@.take(done) =~= requests@.take(done + 1).drop_last());
                assert(requests@.take(done + 1).last() == req);
            }
            match action {
                Action::Reply(res) => {
                    replies.push(res);
                    proof {
                        assert(replies@.drop_last() =~= sent);
                        assert(before.stepped(
                            Event::Arrived(requests@.take(done + 1).last()),
                            *self,
                            Action::Reply(replies@.last()),
                        ));
                    }
                },
                Action::ReplyAndStop(res, e) => {
                    replies.push(res);
                    proof {
                        assert(replies@.take(done) =~= sent);
                        assert((*old(self)).answered(
                            requests@.take(done),
                            replies@.take(done),
                            before,
                        ));
                        assert(before.stepped(Event::Arrived(requests@[done]), *self, action));
                    }
                    return (replies, Some(e));
                },
                Action::Stop(e) => {
                    proof {
                        assert(replies@.take(done) =~= sent);
                        assert((*old(self)).answered(
                            requests@.take(done),
                            replies@.take(done),
                            before,
                        ));
                        assert(before.stepped(Event::Arrived(requests@[done]), *self, action));
                    }
                    return (replies, Some(e));
                },
                Action::Wait => {
                    // A request that arrived is answered or ends the work.
                    vstd::pervasive::unreached()
                },
            }
        }
        assert(requests@.take(requests@.len() as int) =~= requests@);
        (replies, None)
    }
}

} // verus!
