use vstd::prelude::*;

use crate::error::ProxyError;
use crate::host::{extract_host, host_of};
use crate::relay::{outbound_request, request_text};

verus! {

/// Where one client connection stands: read the request, open the upstream
/// session, forward, write the response back, and end in `Done` or `Failed`.
#[derive(Debug)]
pub enum Stage {
    ReadRequest,
    Connect { host: String },
    Forward,
    WriteResponse,
    Done,
    Failed { error: ProxyError },
}

/// What the connection's surroundings report back after doing an action.
#[derive(Debug)]
pub enum Event {
    /// The bytes of the client's first read.
    Received { bytes: Vec<u8> },
    ReceiveFailed,
    /// The upstream TLS session is up, its handshake complete.
    SessionOpened,
    SessionFailed { error: ProxyError },
    /// Everything the upstream sent before closing.
    ResponseRead { bytes: Vec<u8> },
    ForwardFailed { error: ProxyError },
    /// The response reached the client.
    Delivered,
    DeliverFailed,
}

/// What the surroundings do next.
#[derive(Debug)]
pub enum Action {
    /// Read once from the client.
    ReadClient,
    /// Open a TLS session with `host` on port 443.
    OpenSession { host: String },
    /// Write `request` to the session, then read until the peer closes.
    SendRequest { request: String },
    /// Write these bytes to the client, unchanged.
    Deliver { response: Vec<u8> },
    /// Close the client connection; the exchange succeeded.
    Finish,
    /// Close the client connection without writing to it.
    Abort { error: ProxyError },
}

/// The model of a `Stage`, with the host as characters.
pub enum StageV {
    ReadRequest,
    Connect { host: Seq<char> },
    Forward,
    WriteResponse,
    Done,
    Failed { error: ProxyError },
}

/// The model of an `Event`, with bytes as sequences.
pub enum EventV {
    Received { bytes: Seq<u8> },
    ReceiveFailed,
    SessionOpened,
    SessionFailed { error: ProxyError },
    ResponseRead { bytes: Seq<u8> },
    ForwardFailed { error: ProxyError },
    Delivered,
    DeliverFailed,
}

/// The model of an `Action`.
pub enum ActionV {
    ReadClient,
    OpenSession { host: Seq<char> },
    SendRequest { request: Seq<char> },
    Deliver { response: Seq<u8> },
    Finish,
    Abort { error: ProxyError },
}

impl View for Stage {
    type V = StageV;

    open spec fn view(&self) -> StageV {
        match self {
            Stage::ReadRequest => StageV::ReadRequest,
            Stage::Connect { host } => StageV::Connect { host: host@ },
            Stage::Forward => StageV::Forward,
            Stage::WriteResponse => StageV::WriteResponse,
            Stage::Done => StageV::Done,
            Stage::Failed { error } => StageV::Failed { error: *error },
        }
    }
}

impl View for Event {
    type V = EventV;

    open spec fn view(&self) -> EventV {
        match self {
            Event::Received { bytes } => EventV::Received { bytes: bytes@ },
            Event::ReceiveFailed => EventV::ReceiveFailed,
            Event::SessionOpened => EventV::SessionOpened,
            Event::SessionFailed { error } => EventV::SessionFailed { error: *error },
            Event::ResponseRead { bytes } => EventV::ResponseRead { bytes: bytes@ },
            Event::ForwardFailed { error } => EventV::ForwardFailed { error: *error },
            Event::Delivered => EventV::Delivered,
            Event::DeliverFailed => EventV::DeliverFailed,
        }
    }
}

impl View for Action {
    type V = ActionV;

    open spec fn view(&self) -> ActionV {
        match self {
            Action::ReadClient => ActionV::ReadClient,
            Action::OpenSession { host } => ActionV::OpenSession { host: host@ },
            Action::SendRequest { request } => ActionV::SendRequest { request: request@ },
            Action::Deliver { response } => ActionV::Deliver { response: response@ },
            Action::Finish => ActionV::Finish,
            Action::Abort { error } => ActionV::Abort { error: *error },
        }
    }
}

/// The text of a client's bytes, invalid UTF-8 replaced by U+FFFD.
pub uninterp spec fn lossy_utf8(b: Seq<u8>) -> Seq<char>;

/// Relies on `String::from_utf8_lossy`: the result depends on the bytes alone.
#[verifier::external_body]
fn decode_lossy(b: &[u8]) -> (r: String)
    ensures
        r@ == lossy_utf8(b@),
{
    String::from_utf8_lossy(b).into_owned()
}

/// The event is the outcome of the action that the stage asked for.
pub open spec fn accepts(s: StageV, e: EventV) -> bool {
    match s {
        StageV::ReadRequest => e is Received || e is ReceiveFailed,
        StageV::Connect { .. } => e is SessionOpened || e is SessionFailed,
        StageV::Forward => e is ResponseRead || e is ForwardFailed,
        StageV::WriteResponse => e is Delivered || e is DeliverFailed,
        _ => false,
    }
}

/// The next stage and action after `e` in stage `s`.
pub open spec fn next(s: StageV, e: EventV) -> (StageV, ActionV) {
    let fail = |error: ProxyError| (StageV::Failed { error }, ActionV::Abort { error });
    match e {
        EventV::Received { bytes } => match host_of(lossy_utf8(bytes)) {
            Some(host) => (StageV::Connect { host }, ActionV::OpenSession { host }),
            None => fail(ProxyError::MissingHost),
        },
        EventV::ReceiveFailed => fail(ProxyError::Read),
        EventV::SessionOpened => match s {
            StageV::Connect { host } => (
                StageV::Forward,
                ActionV::SendRequest { request: request_text(host) },
            ),
            _ => (s, ActionV::Finish),
        },
        EventV::SessionFailed { error } => fail(error),
        EventV::ResponseRead { bytes } => (
            StageV::WriteResponse,
            ActionV::Deliver { response: bytes },
        ),
        EventV::ForwardFailed { error } => fail(error),
        EventV::Delivered => (StageV::Done, ActionV::Finish),
        EventV::DeliverFailed => fail(ProxyError::Write),
    }
}

/// The actions asked for while the events are fed to the handler from stage
/// `s`, up to the first event that does not fit, and the stage reached.
pub open spec fn run(s: StageV, events: Seq<EventV>) -> (StageV, Seq<ActionV>)
    decreases events.len(),
{
    if events.len() == 0 || !accepts(s, events[0]) {
        (s, Seq::empty())
    } else {
        let (s1, a) = next(s, events[0]);
        let (s2, rest) = run(s1, events.drop_first());
        (s2, seq![a] + rest)
    }
}

/// The first stage of a connection, with its first action: read the request.
pub fn start() -> (r: (Stage, Action))
    ensures
        r.0@ == StageV::ReadRequest,
        r.1@ == ActionV::ReadClient,
{
    (Stage::ReadRequest, Action::ReadClient)
}

/// Advances one connection by one event.
pub fn step(stage: Stage, event: Event) -> (r: (Stage, Action))
    requires
        accepts(stage@, event@),
    ensures
        (r.0@, r.1@) == next(stage@, event@),
{
    match event {
        Event::Received { bytes } => {
            let text = decode_lossy(bytes.as_slice());
            match extract_host(text.as_str()) {
                Ok(host) => {
                    let target = host.clone();
                    (Stage::Connect { host }, Action::OpenSession { host: target })
                },
                Err(error) => (Stage::Failed { error }, Action::Abort { error }),
            }
        },
        Event::ReceiveFailed => (
            Stage::Failed { error: ProxyError::Read },
            Action::Abort { error: ProxyError::Read },
        ),
        Event::SessionOpened => match stage {
            Stage::Connect { host } => {
                let request = outbound_request(host.as_str());
                (Stage::Forward, Action::SendRequest { request })
            },
            other => (other, Action::Finish),
        },
        Event::SessionFailed { error } => (Stage::Failed { error }, Action::Abort { error }),
        Event::ResponseRead { bytes } => (Stage::WriteResponse, Action::Deliver { response: bytes }),
        Event::ForwardFailed { error } => (Stage::Failed { error }, Action::Abort { error }),
        Event::Delivered => (Stage::Done, Action::Finish),
        Event::DeliverFailed => (
            Stage::Failed { error: ProxyError::Write },
            Action::Abort { error: ProxyError::Write },
        ),
    }
}

/// The events of an exchange that goes through: the client's bytes, the
/// session, the upstream's response, and its delivery.
pub open spec fn exchange(request: Seq<u8>, response: Seq<u8>) -> Seq<EventV> {
    seq![
        EventV::Received { bytes: request },
        EventV::SessionOpened,
        EventV::ResponseRead { bytes: response },
        EventV::Delivered,
    ]
}

/// A request that names a host leads to one session with that host, the fixed
/// request for it, and the upstream's bytes handed to the client unchanged;
/// nothing else of the client's request matters.
pub proof fn lemma_exchange(request: Seq<u8>, response: Seq<u8>)
    requires
        host_of(lossy_utf8(request)) is Some,
    ensures
        ({
            let host = host_of(lossy_utf8(request))->Some_0;
            run(StageV::ReadRequest, exchange(request, response)) == (
                StageV::Done,
                seq![
                    ActionV::OpenSession { host },
                    ActionV::SendRequest { request: request_text(host) },
                    ActionV::Deliver { response },
                    ActionV::Finish,
                ],
            )
        }),
{
    reveal_with_fuel(run, 5);
    let host = host_of(lossy_utf8(request))->Some_0;
    let ev = exchange(request, response);
    assert(ev.drop_first().drop_first().drop_first().drop_first() =~= Seq::<EventV>::empty());
    assert(run(StageV::Forward, ev.drop_first().drop_first()).1 =~= seq![
        ActionV::Deliver { response },
        ActionV::Finish,
    ]);
    assert(run(StageV::Connect { host }, ev.drop_first()).1 =~= seq![
        ActionV::SendRequest { request: request_text(host) },
        ActionV::Deliver { response },
        ActionV::Finish,
    ]);
    assert(run(StageV::ReadRequest, ev).1 =~= seq![
        ActionV::OpenSession { host },
        ActionV::SendRequest { request: request_text(host) },
        ActionV::Deliver { response },
        ActionV::Finish,
    ]);
}

/// Forwarding is repeatable: over any two fresh sessions with the same host
/// and the same upstream response, the handler sends the same request and
/// hands the client the same bytes, which are the response itself.
pub proof fn lemma_forward_repeatable(host: Seq<char>, first: Seq<u8>, second: Seq<u8>)
    requires
        first == second,
    ensures
        run(
            StageV::Connect { host },
            seq![EventV::SessionOpened, EventV::ResponseRead { bytes: first }],
        ) == run(
            StageV::Connect { host },
            seq![EventV::SessionOpened, EventV::ResponseRead { bytes: second }],
        ),
        run(
            StageV::Connect { host },
            seq![EventV::SessionOpened, EventV::ResponseRead { bytes: first }],
        ).1 == seq![
            ActionV::SendRequest { request: request_text(host) },
            ActionV::Deliver { response: first },
        ],
{
    reveal_with_fuel(run, 3);
    let ev = seq![EventV::SessionOpened, EventV::ResponseRead { bytes: first }];
    assert(ev.drop_first().drop_first() =~= Seq::<EventV>::empty());
    assert(run(StageV::Forward, ev.drop_first()).1 =~= seq![ActionV::Deliver { response: first }]);
    assert(run(StageV::Connect { host }, ev).1 =~= seq![
        ActionV::SendRequest { request: request_text(host) },
        ActionV::Deliver { response: first },
    ]);
}

/// A request without a `Host:` line opens no connection: the client is closed
/// with nothing written, whatever would have followed.
pub proof fn lemma_missing_host(request: Seq<u8>, rest: Seq<EventV>)
    requires
        host_of(lossy_utf8(request)) is None,
    ensures
        run(StageV::ReadRequest, seq![EventV::Received { bytes: request }] + rest) == (
            StageV::Failed { error: ProxyError::MissingHost },
            seq![ActionV::Abort { error: ProxyError::MissingHost }],
        ),
{
    reveal_with_fuel(run, 2);
    let ev = seq![EventV::Received { bytes: request }] + rest;
    assert(ev[0] == EventV::Received { bytes: request });
    let s1 = StageV::Failed { error: ProxyError::MissingHost };
    assert(run(s1, ev.drop_first()).1 =~= Seq::<ActionV>::empty());
    assert(run(StageV::ReadRequest, ev).1 =~= seq![ActionV::Abort { error: ProxyError::MissingHost }]);
}

/// A session that cannot be set up (a refused connection, a failed handshake,
/// a certificate for another name) ends the connection: nothing is sent
/// upstream and nothing is written to the client.
pub proof fn lemma_session_failure(host: Seq<char>, error: ProxyError, rest: Seq<EventV>)
    ensures
        run(StageV::Connect { host }, seq![EventV::SessionFailed { error }] + rest) == (
            StageV::Failed { error },
            seq![ActionV::Abort { error }],
        ),
{
    reveal_with_fuel(run, 2);
    let ev = seq![EventV::SessionFailed { error }] + rest;
    assert(ev[0] == EventV::SessionFailed { error });
    assert(run(StageV::Failed { error }, ev.drop_first()).1 =~= Seq::<ActionV>::empty());
    assert(run(StageV::Connect { host }, ev).1 =~= seq![ActionV::Abort { error }]);
}

/// Neither a session nor a write is asked for after the connection ended.
proof fn lemma_ended(s: StageV, events: Seq<EventV>)
    requires
        s is Done || s is Failed,
    ensures
        run(s, events).1 == Seq::<ActionV>::empty(),
{
    reveal_with_fuel(run, 1);
}

/// From the write stage on, only the end of the connection is asked for.
proof fn lemma_from_write(events: Seq<EventV>)
    ensures
        forall|k: int|
            0 <= k < run(StageV::WriteResponse, events).1.len() ==> {
                let a = #[trigger] run(StageV::WriteResponse, events).1[k];
                a is Finish || a is Abort
            },
{
    reveal_with_fuel(run, 1);
    if events.len() > 0 && accepts(StageV::WriteResponse, events[0]) {
        lemma_ended(next(StageV::WriteResponse, events[0]).0, events.drop_first());
    }
}

proof fn lemma_from_forward(events: Seq<EventV>)
    ensures
        forall|k: int|
            0 <= k < run(StageV::Forward, events).1.len() ==> {
                let a = #[trigger] run(StageV::Forward, events).1[k];
                &&& !(a is OpenSession)
                &&& !(a is SendRequest)
                &&& a is Deliver ==> k == 0 && events.len() > 0 && events[0] == EventV::ResponseRead {
                    bytes: a->Deliver_response,
                }
            },
{
    reveal_with_fuel(run, 1);
    if events.len() > 0 && accepts(StageV::Forward, events[0]) {
        let s1 = next(StageV::Forward, events[0]).0;
        if s1 is WriteResponse {
            lemma_from_write(events.drop_first());
        } else {
            lemma_ended(s1, events.drop_first());
        }
    }
}

proof fn lemma_from_connect(host: Seq<char>, events: Seq<EventV>)
    ensures
        forall|k: int|
            0 <= k < run(StageV::Connect { host }, events).1.len() ==> {
                let a = #[trigger] run(StageV::Connect { host }, events).1[k];
                &&& !(a is OpenSession)
                &&& a is SendRequest ==> k == 0 && events.len() > 0 && events[0]
                    == EventV::SessionOpened && a->SendRequest_request == request_text(host)
                &&& a is Deliver ==> k == 1 && events.len() > 1 && events[0] == EventV::SessionOpened && events[1]
                    == EventV::ResponseRead { bytes: a->Deliver_response }
            },
{
    reveal_with_fuel(run, 1);
    if events.len() > 0 && accepts(StageV::Connect { host }, events[0]) {
        let s1 = next(StageV::Connect { host }, events[0]).0;
        let tail = events.drop_first();
        if s1 is Forward {
            lemma_from_forward(tail);
            assert forall|k: int|
                1 <= k < run(StageV::Connect { host }, events).1.len() implies run(
                StageV::Connect { host },
                events,
            ).1[k] == run(StageV::Forward, tail).1[k - 1] by {}
        } else {
            lemma_ended(s1, tail);
        }
    }
}

/// Over any sequence of outcomes, a connection opens at most one upstream
/// session, as its first action and only for the host of the client's
/// request; the request goes upstream only once that session is up; and the
/// client is written to at most once, after the upstream's response was read
/// whole, with exactly those bytes.
pub proof fn lemma_run_order(events: Seq<EventV>, k: int)
    requires
        0 <= k < run(StageV::ReadRequest, events).1.len(),
    ensures
        ({
            let a = run(StageV::ReadRequest, events).1[k];
            &&& a is OpenSession ==> k == 0 && events[0] is Received && host_of(
                lossy_utf8(events[0]->Received_bytes),
            ) == Some(a->OpenSession_host)
            &&& a is SendRequest ==> k == 1 && events[1] == EventV::SessionOpened
            &&& a is Deliver ==> k == 2 && events[1] == EventV::SessionOpened && events[2]
                == EventV::ResponseRead { bytes: a->Deliver_response }
        }),
{
    reveal_with_fuel(run, 1);
    let s1 = next(StageV::ReadRequest, events[0]).0;
    let tail = events.drop_first();
    if let StageV::Connect { host } = s1 {
        lemma_from_connect(host, tail);
        if k > 0 {
            assert(run(StageV::ReadRequest, events).1[k] == run(s1, tail).1[k - 1]);
            if tail.len() > 1 {
                assert(tail[0] == events[1] && tail[1] == events[2]);
            } else if tail.len() > 0 {
                assert(tail[0] == events[1]);
            }
        }
    } else {
        lemma_ended(s1, tail);
    }
}

} // verus!
