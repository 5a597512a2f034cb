//! The request multiplexer: it owns the table of pending requests (a
//! request id is the index of its slot) and the table of confirmed watch
//! subscriptions, turns client commands into messages for the daemon, and
//! routes the daemon's messages back to their waiters and subscribers.
//!
//! The channels are the caller's: `R` is the handle that takes a request's
//! response, `W` the one that takes the outcome of a watch subscription, and
//! `S` the sink of a subscription's events. The multiplexer only holds and
//! hands back such handles.
use std::collections::HashMap;
use vstd::prelude::*;

use crate::error::{XsError, XsErrorKind};
use crate::token::{lemma_uuid_text_bytes, parse_token, random_token, token_text, uuid_of_text, uuid_text, XsWatchToken};
use crate::wire::{
    decode_utf8, encode_utf8, is_daemon_error, lemma_string_list_round_trip, nul_join, nul_terminated,
    spec_parse_list, nul_pieces, valid_utf8, XsMessage, XsMessageType,
    XENSTORE_PAYLOAD_MAX,
};

verus! {

broadcast use vstd::std_specs::hash::group_hash_axioms;

/// Number of request slots, and so the most requests that can be pending.
pub const MAX_REQUEST_COUNT: usize = 32;

/// A request from a client: the message to send, and where its response goes.
#[derive(Debug)]
pub struct XsTokioRequest<R> {
    pub request: XsMessage,
    pub response_sender: R,
}

/// A command from a client to the multiplexer.
#[derive(Debug)]
pub enum XsTokioMessage<R, W, S> {
    Request(XsTokioRequest<R>),
    WatchSubscribe { path: String, event_sender: S, result_channel: W },
    WatchUnsubscribe(XsWatchToken),
}

/// A confirmed watch subscription: its event sink and the watched path,
/// which the `Unwatch` command must repeat.
pub struct WatchSubscriberInfo<S> {
    pub channel: S,
    pub path: String,
}

/// The work parked in a request slot until the daemon answers.
pub enum XsTokioTask<R, W, S> {
    Request(R),
    WatchSubscribe {
        subscriber_info: WatchSubscriberInfo<S>,
        result_channel: W,
        token: XsWatchToken,
    },
    WatchUnsubscribe(XsWatchToken),
}

/// What the caller of `process_response` is to do with a daemon message.
pub enum XsTokioOutcome<R, W> {
    /// Hand the response to the waiter of the request.
    Reply(R, XsMessage),
    /// The daemon confirmed a watch: report its token to the subscriber.
    WatchConfirmed(W, XsWatchToken),
    /// The daemon refused a watch: report its error to the subscriber.
    WatchRefused(W, XsError),
    /// The daemon answered a watch with a message of another kind, which
    /// breaks the protocol: report the error to the subscriber, and treat
    /// it as a failure of the connection's exchange.
    WatchViolation(W, XsError),
    /// A watch event: send the path to the sink of the subscription.
    WatchEvent(XsWatchToken, String),
    /// A watch event for a token that no subscription holds.
    UnknownWatch(XsWatchToken),
    /// The daemon confirmed an unwatch.
    Unwatched(XsWatchToken),
    /// The daemon refused an unwatch: the multiplexer and the daemon no
    /// longer agree on the subscriptions, and the connection is to end.
    Poisoned(XsError),
}

/// The state of the multiplexer.
pub struct XsTokioState<R, W, S> {
    pending_tasks: Vec<Option<XsTokioTask<R, W, S>>>,
    watch_subscribers: HashMap<u128, WatchSubscriberInfo<S>>,
    task_count: usize,
}

/// The model of the multiplexer: the request slots, the confirmed
/// subscriptions by token, and the number of pending requests.
pub struct MuxView<R, W, S> {
    pub slots: Seq<Option<XsTokioTask<R, W, S>>>,
    pub watches: Map<u128, WatchSubscriberInfo<S>>,
    pub task_count: nat,
}

/// The number of occupied slots.
pub open spec fn occupied<T>(s: Seq<Option<T>>) -> nat
    decreases s.len(),
{
    if s.len() == 0 {
        0
    } else {
        occupied(s.drop_last()) + if s.last() is Some {
            1nat
        } else {
            0nat
        }
    }
}

/// The token of a pending watch subscription, if the slot holds one.
pub open spec fn subscribe_token<R, W, S>(t: Option<XsTokioTask<R, W, S>>) -> Option<u128> {
    match t {
        Some(XsTokioTask::WatchSubscribe { token, .. }) => Some(token.0),
        _ => None,
    }
}

/// The first free slot: every slot before it is occupied.
pub open spec fn is_first_free<T>(s: Seq<Option<T>>, i: int) -> bool {
    &&& 0 <= i < s.len()
    &&& s[i] is None
    &&& forall|j: int| 0 <= j < i ==> s[j] is Some
}

impl<R, W, S> MuxView<R, W, S> {
    /// The invariant: as many pending requests as occupied slots, and no
    /// token held twice, by two subscriptions pending or confirmed.
    pub open spec fn valid(self) -> bool {
        &&& self.slots.len() == MAX_REQUEST_COUNT
        &&& self.task_count == occupied(self.slots)
        &&& forall|i: int, j: int|
            0 <= i < self.slots.len() && 0 <= j < self.slots.len() && i != j
                && #[trigger] subscribe_token(self.slots[i]) is Some ==> subscribe_token(
                self.slots[i],
            ) != #[trigger] subscribe_token(self.slots[j])
        &&& forall|i: int|
            0 <= i < self.slots.len() && #[trigger] subscribe_token(self.slots[i]) is Some
                ==> !self.watches.contains_key(subscribe_token(self.slots[i])->Some_0)
    }

    /// Whether a subscription, pending or confirmed, holds the token.
    pub open spec fn token_in_use(self, t: u128) -> bool {
        self.watches.contains_key(t) || exists|i: int|
            0 <= i < self.slots.len() && #[trigger] subscribe_token(self.slots[i]) == Some(t)
    }
}

impl<R, W, S> View for XsTokioState<R, W, S> {
    type V = MuxView<R, W, S>;

    closed spec fn view(&self) -> MuxView<R, W, S> {
        MuxView {
            slots: self.pending_tasks@,
            watches: self.watch_subscribers@,
            task_count: self.task_count as nat,
        }
    }
}

proof fn lemma_occupied_update<T>(s: Seq<Option<T>>, i: int, v: Option<T>)
    requires
        0 <= i < s.len(),
    ensures
        occupied(s.update(i, v)) + (if s[i] is Some {
            1int
        } else {
            0int
        }) == occupied(s) + (if v is Some {
            1int
        } else {
            0int
        }),
    decreases s.len(),
{
    if i == s.len() - 1 {
        assert(s.update(i, v).drop_last() =~= s.drop_last());
    } else {
        lemma_occupied_update(s.drop_last(), i, v);
        assert(s.update(i, v).drop_last() =~= s.drop_last().update(i, v));
    }
}

proof fn lemma_occupied_free<T>(s: Seq<Option<T>>, i: int)
    requires
        0 <= i < s.len(),
        s[i] is None,
    ensures
        occupied(s) < s.len(),
    decreases s.len(),
{
    lemma_occupied_bound(s.drop_last());
    if i < s.len() - 1 {
        lemma_occupied_free(s.drop_last(), i);
    }
}

proof fn lemma_occupied_bound<T>(s: Seq<Option<T>>)
    ensures
        occupied(s) <= s.len(),
        (forall|i: int| 0 <= i < s.len() ==> s[i] is Some) ==> occupied(s) == s.len(),
    decreases s.len(),
{
    if s.len() > 0 {
        lemma_occupied_bound(s.drop_last());
        assert((forall|i: int| 0 <= i < s.len() ==> s[i] is Some) ==> (forall|i: int|
            0 <= i < s.drop_last().len() ==> s.drop_last()[i] is Some));
    }
}

impl<R, W, S> XsTokioState<R, W, S> {
    /// The invariant of the state.
    pub open spec fn wf(&self) -> bool {
        self@.valid()
    }

    /// A state with every slot free and no subscription.
    pub fn new() -> (r: Self)
        ensures
            r.wf(),
            r@.task_count == 0,
            forall|i: int| 0 <= i < r@.slots.len() ==> r@.slots[i] is None,
            r@.watches == Map::<u128, WatchSubscriberInfo<S>>::empty(),
    {
        let mut pending_tasks: Vec<Option<XsTokioTask<R, W, S>>> = Vec::new();
        let mut i: usize = 0;
        while i < MAX_REQUEST_COUNT
            invariant
                i <= MAX_REQUEST_COUNT,
                pending_tasks@.len() == i,
                occupied(pending_tasks@) == 0,
                forall|j: int| 0 <= j < i ==> pending_tasks@[j] is None,
            decreases MAX_REQUEST_COUNT - i,
        {
            let ghost before = pending_tasks@;
            pending_tasks.push(None);
            assert(pending_tasks@.drop_last() =~= before);
            i = i + 1;
        }
        XsTokioState { pending_tasks, watch_subscribers: HashMap::new(), task_count: 0 }
    }

    /// Whether every slot is taken. While it is, the caller is to take no
    /// command, only daemon messages, so that clients wait and none fails.
    pub fn is_full(&self) -> (r: bool)
        requires
            self.wf(),
        ensures
            r == (self@.task_count == MAX_REQUEST_COUNT),
            r <==> forall|i: int| 0 <= i < self@.slots.len() ==> self@.slots[i] is Some,
    {
        proof {
            lemma_occupied_bound(self@.slots);
            if self@.task_count == MAX_REQUEST_COUNT {
                assert forall|i: int| 0 <= i < self@.slots.len() implies self@.slots[i] is Some by {
                    if self@.slots[i] is None {
                        lemma_occupied_free(self@.slots, i);
                    }
                }
            }
        }
        self.task_count == MAX_REQUEST_COUNT
    }

    /// The first free slot, if any.
    fn free_slot(&self) -> (r: Option<usize>)
        requires
            self.wf(),
        ensures
            r matches Some(i) ==> is_first_free(self@.slots, i as int),
            r is Some ==> self@.task_count < MAX_REQUEST_COUNT,
            r is None ==> self@.task_count == MAX_REQUEST_COUNT,
    {
        let mut i: usize = 0;
        while i < MAX_REQUEST_COUNT
            invariant
                self.wf(),
                i <= MAX_REQUEST_COUNT,
                forall|j: int| 0 <= j < i ==> self@.slots[j] is Some,
            decreases MAX_REQUEST_COUNT - i,
        {
            if self.pending_tasks[i].is_none() {
                proof {
                    lemma_occupied_free(self@.slots, i as int);
                }
                return Some(i);
            }
            i = i + 1;
        }
        proof {
            lemma_occupied_bound(self@.slots);
        }
        None
    }

    /// Whether a subscription, pending or confirmed, holds the token.
    fn token_in_use(&self, t: u128) -> (r: bool)
        requires
            self.wf(),
        ensures
            r == self@.token_in_use(t),
    {
        if self.watch_subscribers.contains_key(&t) {
            return true;
        }
        let mut i: usize = 0;
        while i < MAX_REQUEST_COUNT
            invariant
                self.wf(),
                i <= MAX_REQUEST_COUNT,
                !self@.watches.contains_key(t),
                forall|j: int| 0 <= j < i ==> subscribe_token(self@.slots[j]) != Some(t),
            decreases MAX_REQUEST_COUNT - i,
        {
            match &self.pending_tasks[i] {
                Some(XsTokioTask::WatchSubscribe { token, .. }) => {
                    if token.0 == t {
                        return true;
                    }
                },
                _ => {},
            }
            i = i + 1;
        }
        false
    }

    /// A token that no subscription holds, pending or confirmed: a random
    /// one, or, should that one be taken, the least free value.
    pub fn find_suitable_token(&self) -> (r: XsWatchToken)
        requires
            self.wf(),
        ensures
            !self@.token_in_use(r.0),
    {
        let candidate = random_token();
        if !self.token_in_use(candidate) {
            return XsWatchToken(candidate);
        }
        let bound: u128 = self.watch_subscribers.len() as u128 + MAX_REQUEST_COUNT as u128;
        assert(self@.watches.dom().finite());
        let mut c: u128 = 0;
        loop
            invariant
                self.wf(),
                self@.watches.dom().finite(),
                bound == self@.watches.dom().len() + MAX_REQUEST_COUNT,
                bound <= usize::MAX as u128 + MAX_REQUEST_COUNT as u128,
                c <= bound,
                forall|x: u128| x < c ==> self@.token_in_use(x),
            decreases bound - c,
        {
            if !self.token_in_use(c) {
                return XsWatchToken(c);
            }
            proof {
                assert forall|x: u128| x < c + 1 implies self@.token_in_use(x) by {
                    if x < c {
                    }
                }
                lemma_tokens_in_use_bounded(self@, (c + 1) as u128);
            }
            c = c + 1;
        }
    }
}

/// The payload that names a path and a token: the path, then the token's
/// canonical text, each NUL-terminated. Watch, unwatch and watch event
/// messages carry it.
pub open spec fn path_token_payload(p: Seq<char>, t: u128) -> Seq<u8> {
    nul_join(seq![p, uuid_text(t)])
}

/// `process_message` refused the command with an error of kind `k`,
/// handed the command back, and changed nothing.
pub open spec fn command_refused<R, W, S>(
    old: MuxView<R, W, S>,
    new: MuxView<R, W, S>,
    message: XsTokioMessage<R, W, S>,
    r: Result<XsMessage, (XsError, XsTokioMessage<R, W, S>)>,
    k: XsErrorKind,
) -> bool {
    r matches Err((e, back)) && e.kind == k && back == message && new == old
}

/// What `process_message` does with a subscription to `path`, when a slot
/// is free and `t` is the token it drew.
pub open spec fn subscribe_processed<R, W, S>(
    old: MuxView<R, W, S>,
    new: MuxView<R, W, S>,
    path: String,
    event_sender: S,
    result_channel: W,
    r: Result<XsMessage, (XsError, XsTokioMessage<R, W, S>)>,
    t: u128,
) -> bool {
    &&& !old.token_in_use(t)
    &&& if path_token_payload(path@, t).len() > XENSTORE_PAYLOAD_MAX {
        command_refused(
            old,
            new,
            XsTokioMessage::WatchSubscribe { path, event_sender, result_channel },
            r,
            XsErrorKind::InvalidData,
        )
    } else {
        r matches Ok(m) && m.msg_type == XsMessageType::Watch && m.payload@ == nul_join(
            seq![path@, uuid_text(t)],
        ) && is_first_free(old.slots, m.request_id as int) && new.slots == old.slots.update(
            m.request_id as int,
            Some(
                XsTokioTask::WatchSubscribe {
                    subscriber_info: WatchSubscriberInfo { channel: event_sender, path },
                    result_channel,
                    token: XsWatchToken(t),
                },
            ),
        ) && new.watches == old.watches
    }
}

/// What `process_message` does with a command, when a slot is free.
pub open spec fn message_processed<R, W, S>(
    old: MuxView<R, W, S>,
    new: MuxView<R, W, S>,
    message: XsTokioMessage<R, W, S>,
    r: Result<XsMessage, (XsError, XsTokioMessage<R, W, S>)>,
) -> bool {
    match message {
        XsTokioMessage::Request(req) => if req.request.payload@.len() > XENSTORE_PAYLOAD_MAX {
            command_refused(old, new, message, r, XsErrorKind::InvalidData)
        } else {
            r matches Ok(m) && m.msg_type == req.request.msg_type && m.payload@
                == req.request.payload@ && is_first_free(old.slots, m.request_id as int)
                && new.slots == old.slots.update(
                m.request_id as int,
                Some(XsTokioTask::Request(req.response_sender)),
            ) && new.watches == old.watches
        },
        XsTokioMessage::WatchSubscribe { path, event_sender, result_channel } => exists|t: u128|
            subscribe_processed(old, new, path, event_sender, result_channel, r, t),
        XsTokioMessage::WatchUnsubscribe(token) => if !old.watches.contains_key(token.0) {
            command_refused(old, new, message, r, XsErrorKind::InvalidInput)
        } else if path_token_payload(old.watches[token.0].path@, token.0).len()
            > XENSTORE_PAYLOAD_MAX {
            command_refused(old, new, message, r, XsErrorKind::InvalidData)
        } else {
            r matches Ok(m) && m.msg_type == XsMessageType::Unwatch && m.payload@
                == path_token_payload(old.watches[token.0].path@, token.0) && is_first_free(old.slots, m.request_id as int) && new.slots == old.slots.update(
                m.request_id as int,
                Some(XsTokioTask::WatchUnsubscribe(token)),
            ) && new.watches == old.watches
        },
    }
}

impl<R, W, S> XsTokioState<R, W, S> {
    /// Parks `task` in the free slot `i`.
    fn occupy(&mut self, i: usize, task: XsTokioTask<R, W, S>)
        requires
            old(self).wf(),
            is_first_free(old(self)@.slots, i as int),
            subscribe_token(Some(task)) matches Some(t) ==> !old(self)@.token_in_use(t),
        ensures
            final(self).wf(),
            final(self)@.slots == old(self)@.slots.update(i as int, Some(task)),
            final(self)@.watches == old(self)@.watches,
    {
        proof {
            lemma_occupied_update(self@.slots, i as int, Some(task));
            lemma_occupied_bound(self@.slots.update(i as int, Some(task)));
        }
        let ghost before = self@;
        self.pending_tasks.set(i, Some(task));
        self.task_count = self.task_count + 1;
        assert forall|a: int, b: int|
            0 <= a < self@.slots.len() && 0 <= b < self@.slots.len() && a != b
                && #[trigger] subscribe_token(self@.slots[a]) is Some implies subscribe_token(
            self@.slots[a],
        ) != #[trigger] subscribe_token(self@.slots[b]) by {
            if a == i {
                assert(subscribe_token(before.slots[b]) != subscribe_token(Some(task)));
            } else if b == i {
                assert(subscribe_token(before.slots[a]) != subscribe_token(Some(task)));
            }
        }
    }

    /// Takes a client command: parks it in the first free slot and returns
    /// the message to send to the daemon, with the slot index as its request
    /// id. A subscription gets a token that no other subscription holds.
    /// With every slot taken the command fails and nothing changes; so it
    /// does when the message would be too large, or when an unwatch names a
    /// token that no confirmed subscription holds. A refused command comes
    /// back with the error, so that its waiter can be told.
    pub fn process_message(&mut self, message: XsTokioMessage<R, W, S>) -> (r: Result<
        XsMessage,
        (XsError, XsTokioMessage<R, W, S>),
    >)
        requires
            old(self).wf(),
        ensures
            final(self).wf(),
            old(self)@.task_count == MAX_REQUEST_COUNT ==> command_refused(
                old(self)@,
                final(self)@,
                message,
                r,
                XsErrorKind::Other,
            ),
            old(self)@.task_count < MAX_REQUEST_COUNT ==> message_processed(
                old(self)@,
                final(self)@,
                message,
                r,
            ),
    {
        let id = match self.free_slot() {
            Some(i) => i,
            None => {
                return Err((XsError::new(XsErrorKind::Other, "No available slot"), message));
            },
        };
        match message {
            XsTokioMessage::Request(XsTokioRequest { request, response_sender }) => {
                if request.payload.len() > XENSTORE_PAYLOAD_MAX {
                    let back = XsTokioMessage::Request(XsTokioRequest { request, response_sender });
                    assert(back == message);
                    return Err((XsError::new(XsErrorKind::InvalidData, "Payload is too large"), back));
                }
                let mut request = request;
                request.request_id = id as u32;
                self.occupy(id, XsTokioTask::Request(response_sender));
                Ok(request)
            },
            XsTokioMessage::WatchSubscribe { path, event_sender, result_channel } => {
                let token = self.find_suitable_token();
                let text = token_text(token.0);
                let mut parts: Vec<&str> = Vec::new();
                parts.push(path.as_str());
                parts.push(text.as_str());
                let msg = XsMessage::from_string_slice(XsMessageType::Watch, id as u32, parts.as_slice());
                assert(parts@.map_values(|s: &str| s@) =~= seq![path@, uuid_text(token.0)]);
                if msg.payload.len() > XENSTORE_PAYLOAD_MAX {
                    let back = XsTokioMessage::WatchSubscribe { path, event_sender, result_channel };
                    let r = Err((XsError::new(XsErrorKind::InvalidData, "Payload is too large"), back));
                    assert(subscribe_processed(
                        old(self)@,
                        self@,
                        path,
                        event_sender,
                        result_channel,
                        r,
                        token.0,
                    ));
                    return r;
                }
                let ghost p = path;
                let ghost ev = event_sender;
                let ghost rc = result_channel;
                self.occupy(
                    id,
                    XsTokioTask::WatchSubscribe {
                        subscriber_info: WatchSubscriberInfo { channel: event_sender, path },
                        result_channel,
                        token,
                    },
                );
                assert(path_token_payload(p@, token.0).len() <= XENSTORE_PAYLOAD_MAX);
                let r = Ok(msg);
                assert(subscribe_processed(old(self)@, self@, p, ev, rc, r, token.0));
                r
            },
            XsTokioMessage::WatchUnsubscribe(token) => {
                let msg = match self.watch_subscribers.get(&token.0) {
                    Some(info) => {
                        let text = token_text(token.0);
                        let mut parts: Vec<&str> = Vec::new();
                        parts.push(info.path.as_str());
                        parts.push(text.as_str());
                        assert(parts@.map_values(|s: &str| s@) =~= seq![
                            self@.watches[token.0].path@,
                            uuid_text(token.0),
                        ]);
                        XsMessage::from_string_slice(XsMessageType::Unwatch, id as u32, parts.as_slice())
                    },
                    None => {
                        return Err(
                            (
                                XsError::new(XsErrorKind::InvalidInput, "Attempting unwatch without watch"),
                                XsTokioMessage::WatchUnsubscribe(token),
                            ),
                        );
                    },
                };
                if msg.payload.len() > XENSTORE_PAYLOAD_MAX {
                    return Err(
                        (
                            XsError::new(XsErrorKind::InvalidData, "Payload is too large"),
                            XsTokioMessage::WatchUnsubscribe(token),
                        ),
                    );
                }
                self.occupy(id, XsTokioTask::WatchUnsubscribe(token));
                Ok(msg)
            },
        }
    }
}

/// What `process_response` does with a daemon message other than a watch
/// event: the slot that the request id names is freed, and the parked task
/// decides the outcome.
pub open spec fn response_processed<R, W, S>(
    old: MuxView<R, W, S>,
    new: MuxView<R, W, S>,
    response: XsMessage,
    r: Result<XsTokioOutcome<R, W>, XsError>,
) -> bool {
    let id = response.request_id as int;
    if id >= MAX_REQUEST_COUNT || old.slots[id] is None {
        r is Err && new == old
    } else {
        &&& new.slots == old.slots.update(id, None)
        &&& match old.slots[id]->Some_0 {
            XsTokioTask::Request(sender) => new.watches == old.watches && r == Ok::<
                XsTokioOutcome<R, W>,
                XsError,
            >(XsTokioOutcome::Reply(sender, response)),
            XsTokioTask::WatchSubscribe { subscriber_info, result_channel, token } => {
                if response.msg_type == XsMessageType::Watch {
                    new.watches == old.watches.insert(token.0, subscriber_info) && r == Ok::<
                        XsTokioOutcome<R, W>,
                        XsError,
                    >(XsTokioOutcome::WatchConfirmed(result_channel, token))
                } else if response.msg_type == XsMessageType::Error {
                    r matches Ok(XsTokioOutcome::WatchRefused(w, e)) && w == result_channel
                        && is_daemon_error(e, response.payload@) && new.watches == old.watches
                } else {
                    r matches Ok(XsTokioOutcome::WatchViolation(w, e)) && w == result_channel
                        && e.kind == XsErrorKind::InvalidData && new.watches == old.watches
                }
            },
            XsTokioTask::WatchUnsubscribe(token) => {
                if response.msg_type == XsMessageType::Unwatch {
                    new.watches == old.watches.remove(token.0) && r == Ok::<
                        XsTokioOutcome<R, W>,
                        XsError,
                    >(XsTokioOutcome::Unwatched(token))
                } else if response.msg_type == XsMessageType::Error {
                    r matches Ok(XsTokioOutcome::Poisoned(e)) && is_daemon_error(e, response.payload@)
                        && new.watches == old.watches
                } else {
                    r matches Err(e) && e.kind == XsErrorKind::InvalidData && new.watches
                        == old.watches
                }
            },
        }
    }
}

/// What a watch event (payload: the changed path, then the token, each
/// NUL-terminated) leads to; the state does not change.
pub open spec fn watch_event_outcome<R, W, S>(
    v: MuxView<R, W, S>,
    response: XsMessage,
    r: Result<XsTokioOutcome<R, W>, XsError>,
) -> bool {
    let pieces = nul_pieces(response.payload@);
    if !(pieces.len() == 2 && valid_utf8(pieces[0]) && valid_utf8(pieces[1])) {
        r matches Err(e) && e.kind == XsErrorKind::InvalidData
    } else {
        match uuid_of_text(decode_utf8(pieces[1])) {
            None => r matches Err(e) && e.kind == XsErrorKind::InvalidData,
            Some(t) => if v.watches.contains_key(t) {
                r matches Ok(XsTokioOutcome::WatchEvent(tok, path)) && tok == XsWatchToken(t)
                    && path@ == decode_utf8(pieces[0])
            } else {
                r == Ok::<XsTokioOutcome<R, W>, XsError>(
                    XsTokioOutcome::UnknownWatch(XsWatchToken(t)),
                )
            },
        }
    }
}

/// A watch event whose payload is a path without NUL followed by the
/// canonical text of a confirmed token reaches that token's subscription,
/// with that path.
pub open spec fn event_reaches_subscriber<R, W, S>(
    v: MuxView<R, W, S>,
    response: XsMessage,
    r: Result<XsTokioOutcome<R, W>, XsError>,
) -> bool {
    forall|t: u128, p: Seq<char>|
        v.watches.contains_key(t) && response.payload@ == #[trigger] path_token_payload(p, t)
            && (forall|j: int| 0 <= j < p.len() ==> p[j] != '\0') ==> (r matches Ok(
            XsTokioOutcome::WatchEvent(tok, path),
        ) && tok == XsWatchToken(t) && path@ == p)
}

impl<R, W, S> XsTokioState<R, W, S> {
    /// Frees slot `i` and returns the task that it held.
    fn take_slot(&mut self, i: usize) -> (task: XsTokioTask<R, W, S>)
        requires
            old(self).wf(),
            i < MAX_REQUEST_COUNT,
            old(self)@.slots[i as int] is Some,
        ensures
            final(self).wf(),
            old(self)@.slots[i as int] == Some(task),
            final(self)@.slots == old(self)@.slots.update(i as int, None),
            final(self)@.watches == old(self)@.watches,
    {
        proof {
            lemma_occupied_update(self@.slots, i as int, None);
        }
        let ghost before = self@;
        let slot = self.pending_tasks.remove(i);
        self.pending_tasks.insert(i, None);
        assert(self@.slots =~= before.slots.update(i as int, None));
        self.task_count = self.task_count - 1;
        assert forall|a: int, b: int|
            0 <= a < self@.slots.len() && 0 <= b < self@.slots.len() && a != b
                && #[trigger] subscribe_token(self@.slots[a]) is Some implies subscribe_token(
            self@.slots[a],
        ) != #[trigger] subscribe_token(self@.slots[b]) by {
            assert(subscribe_token(before.slots[a]) != subscribe_token(before.slots[b]));
        }
        assert forall|a: int|
            0 <= a < self@.slots.len() && #[trigger] subscribe_token(self@.slots[a]) is Some
                implies !self@.watches.contains_key(subscribe_token(self@.slots[a])->Some_0) by {
            assert(subscribe_token(before.slots[a]) is Some);
        }
        slot.unwrap()
    }

    /// Routes a watch event to its subscription; the state does not change.
    pub fn process_watch_entry(&self, msg: XsMessage) -> (r: Result<XsTokioOutcome<R, W>, XsError>)
        requires
            self.wf(),
        ensures
            watch_event_outcome(self@, msg, r),
            event_reaches_subscriber(self@, msg, r),
    {
        proof {
            assert forall|t: u128, p: Seq<char>|
                msg.payload@ == #[trigger] path_token_payload(p, t) && (forall|j: int|
                    0 <= j < p.len() ==> p[j] != '\0') implies spec_parse_list(msg.payload@)
                == Some(seq![p, uuid_text(t)]) by {
                lemma_uuid_text_bytes(t);
                let strs = seq![p, uuid_text(t)];
                assert forall|i: int, j: int| 0 <= i < strs.len() && 0 <= j < strs[i].len() implies strs[i][j]
                    != '\0' by {
                    if i == 0 {
                        assert(strs[i] == p);
                    } else {
                        assert(strs[i] == uuid_text(t));
                    }
                }
                lemma_string_list_round_trip(strs);
            }
        }
        let list = match msg.parse_payload_list() {
            Ok(list) => list,
            Err(_) => {
                return Err(XsError::new(XsErrorKind::InvalidData, "Invalid watch event payload received"));
            },
        };
        if list.len() != 2 {
            return Err(XsError::new(XsErrorKind::InvalidData, "Invalid watch event payload received"));
        }
        let value = list[0];
        let token = match parse_token(list[1]) {
            Some(t) => t,
            None => {
                return Err(XsError::new(XsErrorKind::InvalidData, "Got non-UUID token"));
            },
        };
        if self.watch_subscribers.contains_key(&token) {
            Ok(XsTokioOutcome::WatchEvent(XsWatchToken(token), value.to_owned()))
        } else {
            Ok(XsTokioOutcome::UnknownWatch(XsWatchToken(token)))
        }
    }

    /// Takes a message from the daemon. A watch event goes to
    /// `process_watch_entry`. Any other message answers the request whose
    /// slot its request id names: the slot is freed, and the parked task
    /// decides the outcome. A confirmed watch enters the table of
    /// subscriptions; a confirmed unwatch leaves it; a refused unwatch
    /// poisons the connection.
    pub fn process_response(&mut self, response: XsMessage) -> (r: Result<
        XsTokioOutcome<R, W>,
        XsError,
    >)
        requires
            old(self).wf(),
        ensures
            final(self).wf(),
            response.msg_type == XsMessageType::WatchEvent ==> final(self)@ == old(self)@
                && watch_event_outcome(old(self)@, response, r) && event_reaches_subscriber(
                old(self)@,
                response,
                r,
            ),
            response.msg_type != XsMessageType::WatchEvent ==> response_processed(
                old(self)@,
                final(self)@,
                response,
                r,
            ),
    {
        if response.msg_type == XsMessageType::WatchEvent {
            return self.process_watch_entry(response);
        }
        let id = response.request_id as usize;
        if id >= MAX_REQUEST_COUNT {
            return Err(XsError::new(XsErrorKind::InvalidData, "Invalid req_id received"));
        }
        if self.pending_tasks[id].is_none() {
            return Err(XsError::new(XsErrorKind::InvalidData, "No related request to this req_id"));
        }
        let ghost before = self@;
        let task = self.take_slot(id);
        match task {
            XsTokioTask::Request(sender) => Ok(XsTokioOutcome::Reply(sender, response)),
            XsTokioTask::WatchSubscribe { subscriber_info, result_channel, token } => {
                if response.msg_type == XsMessageType::Watch {
                    self.watch_subscribers.insert(token.0, subscriber_info);
                    assert forall|a: int|
                        0 <= a < self@.slots.len() && #[trigger] subscribe_token(self@.slots[a]) is Some
                            implies !self@.watches.contains_key(
                            subscribe_token(self@.slots[a])->Some_0,
                        ) by {
                        assert(a != id);
                        assert(subscribe_token(before.slots[a]) != subscribe_token(before.slots[id as int]));
                    }
                    Ok(XsTokioOutcome::WatchConfirmed(result_channel, token))
                } else if response.msg_type == XsMessageType::Error {
                    Ok(XsTokioOutcome::WatchRefused(result_channel, response.parse_error()))
                } else {
                    Ok(
                        XsTokioOutcome::WatchViolation(
                            result_channel,
                            XsError::new(XsErrorKind::InvalidData, "Got invalid response to WATCH"),
                        ),
                    )
                }
            },
            XsTokioTask::WatchUnsubscribe(token) => {
                if response.msg_type == XsMessageType::Unwatch {
                    self.watch_subscribers.remove(&token.0);
                    Ok(XsTokioOutcome::Unwatched(token))
                } else if response.msg_type == XsMessageType::Error {
                    Ok(XsTokioOutcome::Poisoned(response.parse_error()))
                } else {
                    Err(XsError::new(XsErrorKind::InvalidData, "Got invalid response to UNWATCH"))
                }
            },
        }
    }

    /// Ends a confirmed subscription here, as when its sink has closed.
    pub fn remove_watch(&mut self, token: XsWatchToken)
        requires
            old(self).wf(),
        ensures
            final(self).wf(),
            final(self)@.slots == old(self)@.slots,
            final(self)@.watches == old(self)@.watches.remove(token.0),
    {
        self.watch_subscribers.remove(&token.0);
    }

    /// The event sink of the confirmed subscription with this token.
    pub fn watch_sink(&self, token: XsWatchToken) -> (r: Option<&S>)
        requires
            self.wf(),
        ensures
            match r {
                Some(s) => self@.watches.contains_key(token.0) && *s == self@.watches[token.0].channel,
                None => !self@.watches.contains_key(token.0),
            },
    {
        match self.watch_subscribers.get(&token.0) {
            Some(info) => Some(&info.channel),
            None => None,
        }
    }
}

/// A command that gets a slot gets one that no pending request holds, so
/// the request ids of pending requests are distinct; the slot is held from
/// then on.
pub proof fn lemma_request_id_is_fresh<R, W, S>(
    old: MuxView<R, W, S>,
    new: MuxView<R, W, S>,
    message: XsTokioMessage<R, W, S>,
    m: XsMessage,
)
    requires
        old.valid(),
        message_processed(old, new, message, Ok(m)),
    ensures
        forall|j: int| 0 <= j < old.slots.len() && old.slots[j] is Some ==> j != m.request_id,
        new.slots[m.request_id as int] is Some,
        forall|j: int| 0 <= j < old.slots.len() && j != m.request_id ==> new.slots[j] == old.slots[j],
{
}

/// A new subscription gets a token that no other subscription holds,
/// pending or confirmed; with the invariant, which every step keeps, no two
/// subscriptions ever share a token.
pub proof fn lemma_subscription_token_unique<R, W, S>(
    old: MuxView<R, W, S>,
    new: MuxView<R, W, S>,
    path: String,
    event_sender: S,
    result_channel: W,
    m: XsMessage,
)
    requires
        old.valid(),
        message_processed(
            old,
            new,
            XsTokioMessage::WatchSubscribe { path, event_sender, result_channel },
            Ok(m),
        ),
    ensures
        subscribe_token(new.slots[m.request_id as int]) matches Some(t) && !new.watches.contains_key(t)
            && forall|j: int|
            0 <= j < new.slots.len() && j != m.request_id ==> subscribe_token(new.slots[j])
                != Some(t),
{
    let t = choose|t: u128|
        subscribe_processed(old, new, path, event_sender, result_channel, Ok(m), t);
    assert forall|j: int|
        0 <= j < new.slots.len() && j != m.request_id implies subscribe_token(new.slots[j]) != Some(
        t,
    ) by {
        assert(new.slots[j] == old.slots[j]);
    }
}

/// The payload that names a path and a token takes the path's bytes and 38
/// more (two NULs and 36 characters of token): a watch or unwatch on a path
/// of up to 4058 bytes fits in a message.
pub proof fn lemma_path_token_payload_len(p: Seq<char>, t: u128)
    ensures
        path_token_payload(p, t).len() == encode_utf8(p).len() + 38,
{
    lemma_uuid_text_bytes(t);
    let s = seq![p, uuid_text(t)];
    assert(s.drop_last() =~= seq![p]);
    assert(seq![p].drop_last() =~= Seq::<Seq<char>>::empty());
    assert(nul_join(seq![p]) == nul_join(Seq::<Seq<char>>::empty()) + nul_terminated(p));
}

/// Two requests pending together get distinct request ids, and each answer
/// reaches the waiter of its own request, also when the later request is
/// answered first.
pub proof fn lemma_concurrent_requests<R, W, S>(
    s0: MuxView<R, W, S>,
    s1: MuxView<R, W, S>,
    s2: MuxView<R, W, S>,
    s3: MuxView<R, W, S>,
    s4: MuxView<R, W, S>,
    q1: XsTokioRequest<R>,
    q2: XsTokioRequest<R>,
    m1: XsMessage,
    m2: XsMessage,
    a1: XsMessage,
    a2: XsMessage,
    r1: Result<XsTokioOutcome<R, W>, XsError>,
    r2: Result<XsTokioOutcome<R, W>, XsError>,
)
    requires
        s0.valid(),
        s1.valid(),
        message_processed(s0, s1, XsTokioMessage::Request(q1), Ok(m1)),
        message_processed(s1, s2, XsTokioMessage::Request(q2), Ok(m2)),
        a2.msg_type != XsMessageType::WatchEvent,
        a2.request_id == m2.request_id,
        response_processed(s2, s3, a2, r2),
        a1.msg_type != XsMessageType::WatchEvent,
        a1.request_id == m1.request_id,
        response_processed(s3, s4, a1, r1),
    ensures
        m1.request_id != m2.request_id,
        r2 == Ok::<XsTokioOutcome<R, W>, XsError>(XsTokioOutcome::Reply(q2.response_sender, a2)),
        r1 == Ok::<XsTokioOutcome<R, W>, XsError>(XsTokioOutcome::Reply(q1.response_sender, a1)),
{
    assert(s1.slots[m1.request_id as int] is Some);
    assert(s2.slots[m1.request_id as int] == s1.slots[m1.request_id as int]);
    assert(s3.slots[m1.request_id as int] == s2.slots[m1.request_id as int]);
}

/// An unwatch repeats the watch it ends: once the watch on `path` is
/// confirmed under token `tok`, the unwatch for `tok` carries the same
/// path and token text as the watch did.
pub proof fn lemma_unwatch_repeats_watch<R, W, S>(
    s0: MuxView<R, W, S>,
    s1: MuxView<R, W, S>,
    s2: MuxView<R, W, S>,
    s3: MuxView<R, W, S>,
    path: String,
    event_sender: S,
    result_channel: W,
    w: XsMessage,
    confirmation: XsMessage,
    r: Result<XsTokioOutcome<R, W>, XsError>,
    tok: XsWatchToken,
    u: XsMessage,
)
    requires
        s0.valid(),
        message_processed(
            s0,
            s1,
            XsTokioMessage::WatchSubscribe { path, event_sender, result_channel },
            Ok(w),
        ),
        confirmation.msg_type == XsMessageType::Watch,
        confirmation.request_id == w.request_id,
        response_processed(s1, s2, confirmation, r),
        r matches Ok(XsTokioOutcome::WatchConfirmed(_, t)) && t == tok,
        message_processed(s2, s3, XsTokioMessage::WatchUnsubscribe(tok), Ok(u)),
    ensures
        w.msg_type == XsMessageType::Watch,
        w.payload@ == path_token_payload(path@, tok.0),
        u.msg_type == XsMessageType::Unwatch,
        u.payload@ == w.payload@,
{
    let t = choose|t: u128|
        subscribe_processed(s0, s1, path, event_sender, result_channel, Ok(w), t);
    assert(s1.slots[w.request_id as int] is Some);
    assert(tok.0 == t);
    assert(s2.watches.contains_key(t));
    assert(s2.watches[t].path == path);
}

/// The answer to a pending request frees its slot at once: the id can be
/// handed out again, and a full table has room again.
pub proof fn lemma_response_frees_slot<R, W, S>(
    old: MuxView<R, W, S>,
    new: MuxView<R, W, S>,
    response: XsMessage,
    r: Result<XsTokioOutcome<R, W>, XsError>,
)
    requires
        old.valid(),
        new.valid(),
        response.msg_type != XsMessageType::WatchEvent,
        response.request_id < MAX_REQUEST_COUNT,
        old.slots[response.request_id as int] is Some,
        response_processed(old, new, response, r),
    ensures
        new.slots[response.request_id as int] is None,
        new.task_count + 1 == old.task_count,
        new.task_count < MAX_REQUEST_COUNT,
        is_first_free(new.slots, response.request_id as int) <==> forall|j: int|
            0 <= j < response.request_id ==> new.slots[j] is Some,
{
    lemma_occupied_update(old.slots, response.request_id as int, None);
    lemma_occupied_bound(old.slots);
}

proof fn lemma_range_len(c: u128)
    ensures
        Set::new(|x: u128| x < c).finite(),
        Set::new(|x: u128| x < c).len() == c,
    decreases c,
{
    if c == 0 {
        assert(Set::new(|x: u128| x < c) =~= Set::<u128>::empty());
    } else {
        let p = (c - 1) as u128;
        lemma_range_len(p);
        assert(Set::new(|x: u128| x < c) =~= Set::new(|x: u128| x < p).insert(p));
    }
}

/// At most one token per confirmed subscription and per slot is in use.
proof fn lemma_tokens_in_use_bounded<R, W, S>(v: MuxView<R, W, S>, c: u128)
    requires
        v.slots.len() == MAX_REQUEST_COUNT,
        v.watches.dom().finite(),
        forall|x: u128| x < c ==> v.token_in_use(x),
    ensures
        c <= v.watches.dom().len() + MAX_REQUEST_COUNT,
{
    let tokens = Seq::new(
        MAX_REQUEST_COUNT as nat,
        |i: int|
            match subscribe_token(v.slots[i]) {
                Some(t) => t,
                None => 0u128,
            },
    );
    let pending = tokens.to_set();
    tokens.lemma_cardinality_of_set();
    vstd::seq_lib::seq_to_set_is_finite(tokens);
    let used = v.watches.dom().union(pending);
    vstd::set_lib::lemma_len_union(v.watches.dom(), pending);
    let range = Set::new(|x: u128| x < c);
    assert forall|x: u128| range.contains(x) implies used.contains(x) by {
        assert(v.token_in_use(x));
        if !v.watches.contains_key(x) {
            let i = choose|i: int|
                0 <= i < v.slots.len() && #[trigger] subscribe_token(v.slots[i]) == Some(x);
            assert(tokens[i] == x);
            assert(pending.contains(x));
        }
    }
    lemma_range_len(c);
    vstd::set_lib::lemma_len_subset(range, used);
}

} // verus!
