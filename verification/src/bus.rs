//! One step of the bus consumer loop.
//!
//! The loop around the library multiplexes two event sources — inbound
//! stream messages and the periodic keepalive timer — and feeds each
//! event through [`bus_step`], which decides, without performing any I/O,
//! whether the loop goes on and what is to be done: reply to a probe,
//! send a probe, dispatch a classified intent, record a confirmation, or
//! skip the frame.

use vstd::prelude::*;

use crate::types::{SwapIntent, SwapIntentView};
use crate::wire::{
    classify, enc_notification, field_str, plain_intent, spec_classify, str_is, FrameClass,
    FrameClassView,
};

verus! {

/// Period of the keepalive cadence, in seconds: after every such
/// interval the loop is handed a `Tick`, which `bus_step` answers with
/// `SendPing`; a failed send comes back as `SendFailed` and stops the
/// loop with an error.
pub const KEEPALIVE_INTERVAL_SECS: u64 = 30;

/// Mathematical view of a [`BusEvent`].
pub enum BusEventView {
    Text(Seq<char>),
    Ping(Seq<u8>),
    Pong(Seq<u8>),
    Binary(Seq<u8>),
    Close,
    ReadError,
    StreamEnd,
    SendFailed,
    Tick,
}

/// One event of the consumer loop: an inbound stream message, a stream
/// failure, a failed send reported back, or the keepalive timer.
#[derive(Debug)]
pub enum BusEvent {
    /// An inbound text frame.
    Text(String),
    /// A peer keepalive probe with its payload.
    Ping(Vec<u8>),
    /// A keepalive acknowledgment.
    Pong(Vec<u8>),
    /// A binary message; the bus protocol uses none.
    Binary(Vec<u8>),
    /// A peer close frame.
    Close,
    /// A transport-level read error.
    ReadError,
    /// The stream ended without a close frame.
    StreamEnd,
    /// A send of ours failed.
    SendFailed,
    /// The periodic keepalive timer fired.
    Tick,
}

impl View for BusEvent {
    type V = BusEventView;

    open spec fn view(&self) -> BusEventView {
        match self {
            BusEvent::Text(t) => BusEventView::Text(t@),
            BusEvent::Ping(d) => BusEventView::Ping(d@),
            BusEvent::Pong(d) => BusEventView::Pong(d@),
            BusEvent::Binary(d) => BusEventView::Binary(d@),
            BusEvent::Close => BusEventView::Close,
            BusEvent::ReadError => BusEventView::ReadError,
            BusEvent::StreamEnd => BusEventView::StreamEnd,
            BusEvent::SendFailed => BusEventView::SendFailed,
            BusEvent::Tick => BusEventView::Tick,
        }
    }
}

/// Mathematical view of a [`BusAction`].
pub enum BusActionView {
    Idle,
    SendPong(Seq<u8>),
    SendPing,
    Dispatch(SwapIntentView),
    RecordConfirmation(Seq<char>),
    NoteResponse,
    SkipFrame,
}

/// What the loop is to do after one event.
#[derive(Debug)]
pub enum BusAction {
    /// Nothing.
    Idle,
    /// Reply to a peer probe with the matching payload.
    SendPong(Vec<u8>),
    /// Send a keepalive probe.
    SendPing,
    /// Hand the intent to the engine, off the consumer loop.
    Dispatch(SwapIntent),
    /// Record the subscription identifier the bus confirmed.
    RecordConfirmation(String),
    /// Note an informational response; no state change.
    NoteResponse,
    /// Skip the frame; a malformed frame is never fatal.
    SkipFrame,
}

impl View for BusAction {
    type V = BusActionView;

    open spec fn view(&self) -> BusActionView {
        match self {
            BusAction::Idle => BusActionView::Idle,
            BusAction::SendPong(d) => BusActionView::SendPong(d@),
            BusAction::SendPing => BusActionView::SendPing,
            BusAction::Dispatch(i) => BusActionView::Dispatch(i@),
            BusAction::RecordConfirmation(s) => BusActionView::RecordConfirmation(s@),
            BusAction::NoteResponse => BusActionView::NoteResponse,
            BusAction::SkipFrame => BusActionView::SkipFrame,
        }
    }
}

/// Whether the loop goes on after an event, and how it ended if not: a
/// peer close ends it cleanly, a stream failure ends it with an error.
#[derive(Debug, Clone, Copy, PartialEq, Eq, Structural)]
pub enum Flow {
    Continue,
    StopClean,
    StopError,
}

/// Routing of one classified frame: an envelope tagged `subscription`
/// with an embedded intent is dispatched; one without is skipped; a
/// `response` envelope is noted; a confirmation records its subscription
/// identifier; a malformed frame is skipped.
pub open spec fn spec_route(f: FrameClassView) -> BusActionView {
    match f {
        FrameClassView::Envelope(m) => if m.method == "subscription"@ {
            match m.params.intent {
                Some(i) => BusActionView::Dispatch(i),
                None => BusActionView::SkipFrame,
            }
        } else if m.method == "response"@ {
            BusActionView::NoteResponse
        } else {
            BusActionView::SkipFrame
        },
        FrameClassView::Confirmation(r) => BusActionView::RecordConfirmation(r.result),
        FrameClassView::Malformed => BusActionView::SkipFrame,
    }
}

/// One step of the consumer loop as a function of the event alone.
pub open spec fn spec_bus_step(ev: BusEventView) -> (Flow, BusActionView) {
    match ev {
        BusEventView::Text(t) => (Flow::Continue, spec_route(spec_classify(t))),
        BusEventView::Ping(d) => (Flow::Continue, BusActionView::SendPong(d)),
        BusEventView::Pong(_) => (Flow::Continue, BusActionView::Idle),
        BusEventView::Binary(_) => (Flow::Continue, BusActionView::Idle),
        BusEventView::Close => (Flow::StopClean, BusActionView::Idle),
        BusEventView::ReadError => (Flow::StopError, BusActionView::Idle),
        BusEventView::StreamEnd => (Flow::StopError, BusActionView::Idle),
        BusEventView::SendFailed => (Flow::StopError, BusActionView::Idle),
        BusEventView::Tick => (Flow::Continue, BusActionView::SendPing),
    }
}

/// Decides one step of the consumer loop.
pub fn bus_step(ev: BusEvent) -> (r: (Flow, BusAction))
    ensures
        r.0 == spec_bus_step(ev@).0,
        r.1@ == spec_bus_step(ev@).1,
{
    match ev {
        BusEvent::Text(text) => {
            let action = match classify(text.as_str()) {
                FrameClass::Envelope(m) => {
                    if str_is(m.method.as_str(), "subscription") {
                        match m.params.intent {
                            Some(i) => BusAction::Dispatch(i),
                            None => BusAction::SkipFrame,
                        }
                    } else if str_is(m.method.as_str(), "response") {
                        BusAction::NoteResponse
                    } else {
                        BusAction::SkipFrame
                    }
                },
                FrameClass::Confirmation(resp) => BusAction::RecordConfirmation(resp.result),
                FrameClass::Malformed => BusAction::SkipFrame,
            };
            (Flow::Continue, action)
        },
        BusEvent::Ping(d) => (Flow::Continue, BusAction::SendPong(d)),
        BusEvent::Pong(_) => (Flow::Continue, BusAction::Idle),
        BusEvent::Binary(_) => (Flow::Continue, BusAction::Idle),
        BusEvent::Close => (Flow::StopClean, BusAction::Idle),
        BusEvent::ReadError => (Flow::StopError, BusAction::Idle),
        BusEvent::StreamEnd => (Flow::StopError, BusAction::Idle),
        BusEvent::SendFailed => (Flow::StopError, BusAction::Idle),
        BusEvent::Tick => (Flow::Continue, BusAction::SendPing),
    }
}

/// A malformed inbound frame never terminates the consumer loop, and a
/// following frame that classifies as an intent notification is still
/// dispatched.
pub proof fn lemma_malformed_frame_skipped(bad: Seq<char>, good: Seq<char>)
    requires
        spec_classify(bad) == FrameClassView::Malformed,
        spec_classify(good) matches FrameClassView::Envelope(m) && m.method == "subscription"@
            && m.params.intent is Some,
    ensures
        spec_bus_step(BusEventView::Text(bad)).0 == Flow::Continue,
        spec_bus_step(BusEventView::Text(bad)).1 == BusActionView::SkipFrame,
        spec_bus_step(BusEventView::Text(good)).0 == Flow::Continue,
        spec_bus_step(BusEventView::Text(good)).1 matches BusActionView::Dispatch(_),
{
}

/// A peer close frame ends the loop cleanly, with no error for the
/// supervisor; a transport-level read error, an unexpected end of the
/// stream, or a failed send ends it with an error.
pub proof fn lemma_close_vs_error()
    ensures
        spec_bus_step(BusEventView::Close) == (Flow::StopClean, BusActionView::Idle),
        spec_bus_step(BusEventView::ReadError) == (Flow::StopError, BusActionView::Idle),
        spec_bus_step(BusEventView::StreamEnd) == (Flow::StopError, BusActionView::Idle),
        spec_bus_step(BusEventView::SendFailed) == (Flow::StopError, BusActionView::Idle),
{
}

/// A peer keepalive probe is answered with the acknowledgment carrying
/// the very same payload, and the loop goes on.
pub proof fn lemma_ping_answered(payload: Seq<u8>)
    ensures
        spec_bus_step(BusEventView::Ping(payload)) == (
            Flow::Continue,
            BusActionView::SendPong(payload),
        ),
{
}


/// The malformed-frame law on the wire itself: after any malformed frame
/// the loop still runs, and a following canonical intent notification is
/// dispatched with exactly the intent the bus sent.
pub proof fn lemma_malformed_then_notification(
    bad: Seq<char>,
    jr: Seq<char>,
    sub: Seq<char>,
    iv: SwapIntentView,
)
    requires
        spec_classify(bad) == FrameClassView::Malformed,
        field_str(jr),
        field_str(sub),
        plain_intent(iv),
    ensures
        spec_bus_step(BusEventView::Text(bad)) == (Flow::Continue, BusActionView::SkipFrame),
        spec_bus_step(BusEventView::Text(enc_notification(jr, "subscription"@, sub, iv))) == (
            Flow::Continue,
            BusActionView::Dispatch(iv),
        ),
{
    reveal_strlit("subscription");
    assert(field_str("subscription"@));
    crate::wire::lemma_classify_notification(jr, "subscription"@, sub, iv);
}

} // verus!
