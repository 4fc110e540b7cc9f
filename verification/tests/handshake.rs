use game_transport::handshake::{
    data_channel_config, Handshake, IceCandidate, SessionAnswer, Signal, Step, ACCEPTED,
};

fn answer() -> SessionAnswer {
    SessionAnswer {
        answer_sdp: "v=0 answer".to_string(),
        candidate: IceCandidate {
            candidate: "candidate:1 1 UDP 1 127.0.0.1 42424 typ host".to_string(),
            sdp_m_line_index: 0,
            sdp_mid: "data".to_string(),
        },
    }
}

#[test]
fn the_data_channel_is_unordered_and_never_retransmits() {
    let config = data_channel_config();
    assert_eq!(config.label, "webudp");
    assert_eq!(config.max_retransmits, 0);
    assert!(!config.ordered);
}

#[test]
fn the_handshake_runs_from_offer_to_open_channel() {
    let state = Handshake::new();
    assert_eq!(state, Handshake::Idle);
    let (state, step) = state.advance(Signal::Start);
    assert_eq!((&state, step), (&Handshake::AwaitingOffer, Step::CreateOffer));
    let (state, step) = state.advance(Signal::OfferCreated("v=0 offer".to_string()));
    assert_eq!(state, Handshake::AwaitingLocalDescription { offer: "v=0 offer".to_string() });
    assert_eq!(step, Step::SetLocalDescription("v=0 offer".to_string()));
    let (state, step) = state.advance(Signal::LocalDescriptionSet);
    assert_eq!((&state, step), (&Handshake::AwaitingAnswer, Step::PostOffer("v=0 offer".to_string())));
    let (state, step) = state.advance(Signal::Answered(ACCEPTED, Some(answer())));
    assert_eq!(state, Handshake::AwaitingRemoteDescription { candidate: answer().candidate });
    assert_eq!(step, Step::SetRemoteDescription("v=0 answer".to_string()));
    let (state, step) = state.advance(Signal::RemoteDescriptionSet);
    assert_eq!((&state, step), (&Handshake::AwaitingOpen, Step::AddIceCandidate(answer().candidate)));
    assert!(!state.is_open());
    let (state, step) = state.advance(Signal::ChannelOpen);
    assert_eq!((&state, step), (&Handshake::Open, Step::Begin));
    assert!(state.is_open());
    // An open handshake stays open.
    let (state, step) = state.advance(Signal::ChannelOpen);
    assert_eq!((&state, step), (&Handshake::Open, Step::Wait));
    let (state, step) = state.advance(Signal::Start);
    assert_eq!((state, step), (Handshake::Open, Step::Wait));
}

#[test]
fn a_refused_offer_is_reported_and_the_handshake_goes_on_waiting() {
    for signal in [
        Signal::Answered(400, None),
        Signal::Answered(500, Some(answer())),
        Signal::Answered(200, None),
        Signal::Answered(404, None),
    ] {
        let (state, step) = Handshake::AwaitingAnswer.advance(signal);
        assert_eq!((&state, step), (&Handshake::AwaitingOpen, Step::ReportFailure));
        let (state, step) = state.advance(Signal::RemoteDescriptionSet);
        assert_eq!((state, step), (Handshake::AwaitingOpen, Step::Wait));
    }
}

#[test]
fn a_signal_that_is_not_waited_for_changes_nothing() {
    let (state, step) = Handshake::Idle.advance(Signal::ChannelOpen);
    assert_eq!((state, step), (Handshake::Idle, Step::Wait));
    let (state, step) = Handshake::Idle.advance(Signal::RemoteDescriptionSet);
    assert_eq!((state, step), (Handshake::Idle, Step::Wait));
    let (state, step) = Handshake::AwaitingOffer.advance(Signal::Answered(200, Some(answer())));
    assert_eq!((state, step), (Handshake::AwaitingOffer, Step::Wait));
    let (state, step) = Handshake::AwaitingOffer.advance(Signal::ChannelOpen);
    assert_eq!((state, step), (Handshake::AwaitingOffer, Step::Wait));
    let waiting = Handshake::AwaitingLocalDescription { offer: "o".to_string() };
    let (state, step) = waiting.advance(Signal::RemoteDescriptionSet);
    assert_eq!(
        (state, step),
        (Handshake::AwaitingLocalDescription { offer: "o".to_string() }, Step::Wait)
    );
}

#[test]
fn no_candidate_is_added_before_the_remote_description_is_set() {
    // Whatever the order of the signals, AddIceCandidate follows SetRemoteDescription.
    let signals = vec![
        Signal::RemoteDescriptionSet,
        Signal::Start,
        Signal::RemoteDescriptionSet,
        Signal::OfferCreated("o".to_string()),
        Signal::LocalDescriptionSet,
        Signal::RemoteDescriptionSet,
        Signal::Answered(200, Some(answer())),
        Signal::RemoteDescriptionSet,
        Signal::RemoteDescriptionSet,
        Signal::ChannelOpen,
    ];
    let mut state = Handshake::new();
    let mut steps = Vec::new();
    for signal in signals {
        let (next, step) = state.advance(signal);
        state = next;
        steps.push(step);
    }
    let added: Vec<usize> = steps
        .iter()
        .enumerate()
        .filter(|(_, step)| matches!(step, Step::AddIceCandidate(_)))
        .map(|(i, _)| i)
        .collect();
    assert_eq!(added, vec![7]);
    assert_eq!(steps[6], Step::SetRemoteDescription("v=0 answer".to_string()));
    assert_eq!(steps[9], Step::Begin);
    assert!(state.is_open());
}

#[test]
fn the_channel_may_open_while_the_answer_is_still_being_installed() {
    let (state, step) = Handshake::AwaitingAnswer.advance(Signal::ChannelOpen);
    assert_eq!((state, step), (Handshake::Open, Step::Begin));
    let waiting = Handshake::AwaitingRemoteDescription { candidate: answer().candidate };
    let (state, step) = waiting.advance(Signal::ChannelOpen);
    assert_eq!((state, step), (Handshake::Open, Step::Begin));
}
