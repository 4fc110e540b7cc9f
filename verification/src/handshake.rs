//! The client's side of the session handshake: an offer goes to the
//! signalling endpoint, the answer and its candidate are installed, and the
//! data channel opens.
//!
//! The browser does the work; this module decides what is asked of it next.

use vstd::prelude::*;
use vstd::string::*;

verus! {

/// How the data channel is set up: out of order, and nothing is sent twice.
#[derive(Debug, PartialEq, Eq)]
pub struct DataChannelConfig {
    pub label: String,
    pub max_retransmits: u16,
    pub ordered: bool,
}

/// The data channel of the transport: labelled `webudp`, unordered, without
/// retransmits.
pub fn data_channel_config() -> (config: DataChannelConfig)
    ensures
        config.label@ == "webudp"@,
        config.max_retransmits == 0,
        !config.ordered,
{
    DataChannelConfig { label: String::from_str("webudp"), max_retransmits: 0, ordered: false }
}

/// The candidate that the server has selected.
#[derive(Debug, PartialEq, Eq)]
pub struct IceCandidate {
    pub candidate: String,
    pub sdp_m_line_index: u16,
    pub sdp_mid: String,
}

/// What the signalling endpoint answers to an offer.
#[derive(Debug, PartialEq, Eq)]
pub struct SessionAnswer {
    pub answer_sdp: String,
    pub candidate: IceCandidate,
}

/// How far the handshake has come.
#[derive(Debug, PartialEq, Eq)]
pub enum Handshake {
    Idle,
    AwaitingOffer,
    AwaitingLocalDescription { offer: String },
    AwaitingAnswer,
    AwaitingRemoteDescription { candidate: IceCandidate },
    AwaitingOpen,
    Open,
}

/// What has happened.
#[derive(Debug, PartialEq, Eq)]
pub enum Signal {
    /// The caller wants to connect.
    Start,
    /// The browser has created the offer, with this description.
    OfferCreated(String),
    /// The browser has taken the offer as its local description.
    LocalDescriptionSet,
    /// The signalling endpoint has answered, with this status and, where
    /// the answer could be read, its content.
    Answered(u16, Option<SessionAnswer>),
    /// The browser has taken the answer as its remote description.
    RemoteDescriptionSet,
    /// The data channel is open.
    ChannelOpen,
}

/// What is asked of the browser next.
#[derive(Debug, PartialEq, Eq)]
pub enum Step {
    CreateOffer,
    SetLocalDescription(String),
    PostOffer(String),
    SetRemoteDescription(String),
    AddIceCandidate(IceCandidate),
    /// The session request has failed; the handshake goes on waiting.
    ReportFailure,
    /// The channel is open: sending may begin.
    Begin,
    /// Nothing.
    Wait,
}

/// The status with which the signalling endpoint accepts an offer.
pub const ACCEPTED: u16 = 200;

/// One step of the handshake: the state after `signal`, and what is asked of
/// the browser. A signal that the state does not wait for changes nothing.
pub open spec fn react(state: Handshake, signal: Signal) -> (Handshake, Step) {
    match (state, signal) {
        (Handshake::Idle, Signal::Start) => (Handshake::AwaitingOffer, Step::CreateOffer),
        (Handshake::AwaitingOffer, Signal::OfferCreated(offer)) => (
            Handshake::AwaitingLocalDescription { offer },
            Step::SetLocalDescription(offer),
        ),
        (Handshake::AwaitingLocalDescription { offer }, Signal::LocalDescriptionSet) => (
            Handshake::AwaitingAnswer,
            Step::PostOffer(offer),
        ),
        (Handshake::AwaitingAnswer, Signal::Answered(status, Some(answer))) => if status
            == ACCEPTED {
            (
                Handshake::AwaitingRemoteDescription { candidate: answer.candidate },
                Step::SetRemoteDescription(answer.answer_sdp),
            )
        } else {
            (Handshake::AwaitingOpen, Step::ReportFailure)
        },
        (Handshake::AwaitingAnswer, Signal::Answered(status, None)) => (
            Handshake::AwaitingOpen,
            Step::ReportFailure,
        ),
        (Handshake::AwaitingRemoteDescription { candidate }, Signal::RemoteDescriptionSet) => (
            Handshake::AwaitingOpen,
            Step::AddIceCandidate(candidate),
        ),
        (Handshake::AwaitingAnswer, Signal::ChannelOpen) => (Handshake::Open, Step::Begin),
        (Handshake::AwaitingRemoteDescription { candidate }, Signal::ChannelOpen) => (
            Handshake::Open,
            Step::Begin,
        ),
        (Handshake::AwaitingOpen, Signal::ChannelOpen) => (Handshake::Open, Step::Begin),
        (state, _) => (state, Step::Wait),
    }
}

/// The state after a run of signals, the first one first.
pub open spec fn state_after(start: Handshake, signals: Seq<Signal>) -> Handshake
    decreases signals.len(),
{
    if signals.len() == 0 {
        start
    } else {
        react(state_after(start, signals.drop_last()), signals.last()).0
    }
}

/// What a run of signals asks of the browser, step by step.
pub open spec fn steps_of(start: Handshake, signals: Seq<Signal>) -> Seq<Step>
    decreases signals.len(),
{
    if signals.len() == 0 {
        Seq::empty()
    } else {
        steps_of(start, signals.drop_last()).push(
            react(state_after(start, signals.drop_last()), signals.last()).1,
        )
    }
}

/// Whether one of the first `until` steps sets the remote description.
pub open spec fn remote_description_set_before(steps: Seq<Step>, until: int) -> bool {
    exists|j: int| 0 <= j < until && j < steps.len() && #[trigger] steps[j] is SetRemoteDescription
}

/// Whatever the browser and the server do, the remote description is set
/// before a candidate is added.
pub proof fn lemma_remote_description_comes_first(signals: Seq<Signal>, i: int)
    requires
        0 <= i < signals.len(),
        steps_of(Handshake::Idle, signals)[i] is AddIceCandidate,
    ensures
        remote_description_set_before(steps_of(Handshake::Idle, signals), i),
    decreases signals.len(),
{
    let steps = steps_of(Handshake::Idle, signals);
    let shorter = signals.drop_last();
    lemma_steps_len(Handshake::Idle, shorter);
    if i < signals.len() - 1 {
        lemma_remote_description_comes_first(shorter, i);
        let j = choose|j: int|
            0 <= j < i && j < steps_of(Handshake::Idle, shorter).len() && #[trigger] steps_of(
                Handshake::Idle,
                shorter,
            )[j] is SetRemoteDescription;
        assert(steps[j] is SetRemoteDescription);
    } else {
        lemma_waiting_for_remote_description(shorter);
        let j = choose|j: int|
            0 <= j < shorter.len() && j < steps_of(Handshake::Idle, shorter).len()
                && #[trigger] steps_of(Handshake::Idle, shorter)[j] is SetRemoteDescription;
        assert(steps[j] is SetRemoteDescription);
    }
}

/// A run asks one step for each signal.
pub proof fn lemma_steps_len(start: Handshake, signals: Seq<Signal>)
    ensures
        steps_of(start, signals).len() == signals.len(),
    decreases signals.len(),
{
    if signals.len() > 0 {
        lemma_steps_len(start, signals.drop_last());
    }
}

/// A handshake that waits for the remote description has asked for it.
proof fn lemma_waiting_for_remote_description(signals: Seq<Signal>)
    ensures
        state_after(Handshake::Idle, signals) is AwaitingRemoteDescription
            ==> remote_description_set_before(
            steps_of(Handshake::Idle, signals),
            signals.len() as int,
        ),
    decreases signals.len(),
{
    if signals.len() > 0 {
        let shorter = signals.drop_last();
        let steps = steps_of(Handshake::Idle, signals);
        lemma_steps_len(Handshake::Idle, shorter);
        lemma_waiting_for_remote_description(shorter);
        if state_after(Handshake::Idle, signals) is AwaitingRemoteDescription {
            if !(steps[signals.len() - 1] is SetRemoteDescription) {
                let j = choose|j: int|
                    0 <= j < shorter.len() && j < steps_of(Handshake::Idle, shorter).len()
                        && #[trigger] steps_of(Handshake::Idle, shorter)[j] is SetRemoteDescription;
                assert(steps[j] is SetRemoteDescription);
            }
        }
    }
}

impl Handshake {
    /// A handshake that has not begun.
    pub fn new() -> (handshake: Handshake)
        ensures
            handshake == Handshake::Idle,
    {
        Handshake::Idle
    }

    /// Whether the channel is open.
    pub fn is_open(&self) -> (open: bool)
        ensures
            open == (*self is Open),
    {
        match self {
            Handshake::Open => true,
            _ => false,
        }
    }

    /// Takes `signal`: the state that follows, and what to ask of the browser.
    pub fn advance(self, signal: Signal) -> (next: (Handshake, Step))
        ensures
            next == react(self, signal),
    {
        match (self, signal) {
            (Handshake::Idle, Signal::Start) => (Handshake::AwaitingOffer, Step::CreateOffer),
            (Handshake::AwaitingOffer, Signal::OfferCreated(offer)) => {
                let description = offer.clone();
                (
                    Handshake::AwaitingLocalDescription { offer },
                    Step::SetLocalDescription(description),
                )
            },
            (Handshake::AwaitingLocalDescription { offer }, Signal::LocalDescriptionSet) => (
                Handshake::AwaitingAnswer,
                Step::PostOffer(offer),
            ),
            (Handshake::AwaitingAnswer, Signal::Answered(status, Some(answer))) => {
                if status == ACCEPTED {
                    (
                        Handshake::AwaitingRemoteDescription { candidate: answer.candidate },
                        Step::SetRemoteDescription(answer.answer_sdp),
                    )
                } else {
                    (Handshake::AwaitingOpen, Step::ReportFailure)
                }
            },
            (Handshake::AwaitingAnswer, Signal::Answered(_, None)) => (
                Handshake::AwaitingOpen,
                Step::ReportFailure,
            ),
            (Handshake::AwaitingRemoteDescription { candidate }, Signal::RemoteDescriptionSet) => (
                Handshake::AwaitingOpen,
                Step::AddIceCandidate(candidate),
            ),
            (Handshake::AwaitingAnswer, Signal::ChannelOpen) => (Handshake::Open, Step::Begin),
            (Handshake::AwaitingRemoteDescription { candidate: _ }, Signal::ChannelOpen) => (
                Handshake::Open,
                Step::Begin,
            ),
            (Handshake::AwaitingOpen, Signal::ChannelOpen) => (Handshake::Open, Step::Begin),
            (state, _) => (state, Step::Wait),
        }
    }
}

} // verus!
