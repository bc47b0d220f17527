use dribble::commands::{init, path_has_comma, reveal_command, RevealCommand, TargetOs};
use dribble::signaling::{answer_step, decode_session, encode_sdp, handles_event, is_video_track, AnswerStep, RtcFlow, RtcStep, SessionError, SignalingState};
use dribble::ui::{
    config_view_for, page_for, section_display, video_grid_display, AppState, ConfigState, ConfigView,
    CodeBoxes, LandingAnswer, MediaOption, Page, ResponderSetup, Role, UiState,
};

#[test]
fn sdp_code_is_unpadded_base64() {
    assert_eq!(encode_sdp("hello"), "aGVsbG8");
    assert_eq!(encode_sdp(""), "");
}

#[test]
fn sdp_code_round_trip() {
    let sdp = "v=0\r\no=- 4611731400430051336 2 IN IP4 127.0.0.1\r\ns=-\r\nt=0 0\r\na=group:BUNDLE 0\r\n";
    let code = encode_sdp(sdp);
    assert_eq!(decode_session(&code).ok().unwrap().sdp, sdp);
    let unicode = "héllo ✓";
    assert_eq!(decode_session(&encode_sdp(unicode)).ok().unwrap().sdp, unicode);
}

#[test]
fn session_code_errors() {
    assert_eq!(decode_session("a").err(), Some(SessionError::InvalidBase64));
    assert_eq!(decode_session("aGVsbG8=").err(), Some(SessionError::InvalidBase64));
    assert_eq!(decode_session("/w").err(), Some(SessionError::InvalidUtf8));
}

#[test]
fn answer_steps() {
    assert_eq!(answer_step(SignalingState::HaveLocalOffer), AnswerStep::AcceptAnswer);
    assert_eq!(answer_step(SignalingState::Stable), AnswerStep::AnswerOffer);
    assert_eq!(answer_step(SignalingState::HaveRemoteOffer), AnswerStep::Ignore);
    assert_eq!(answer_step(SignalingState::Closed), AnswerStep::Ignore);
}

#[test]
fn handled_events_and_track_kinds() {
    assert!(handles_event("icecandidate"));
    assert!(!handles_event("track"));
    assert!(is_video_track("video"));
    assert!(!is_video_track("audio"));
}

#[test]
fn init_succeeds() {
    assert!(init().is_ok());
}

#[test]
fn comma_detection() {
    assert!(path_has_comma("/home/a,b/files"));
    assert!(!path_has_comma("/home/ab/files"));
}

#[test]
fn reveal_commands() {
    assert_eq!(reveal_command(TargetOs::Windows, true, false), RevealCommand::ExplorerSelect);
    assert_eq!(reveal_command(TargetOs::MacOs, false, false), RevealCommand::OpenReveal);
    assert_eq!(reveal_command(TargetOs::Linux, false, true), RevealCommand::DbusShowItems);
    assert_eq!(reveal_command(TargetOs::Linux, true, true), RevealCommand::XdgOpenPath);
    assert_eq!(reveal_command(TargetOs::Linux, true, false), RevealCommand::XdgOpenParent);
    assert_eq!(reveal_command(TargetOs::Other, true, false), RevealCommand::Nothing);
}

#[test]
fn media_option_from_select_values() {
    assert_eq!(MediaOption::from_select_value("0"), Some(MediaOption::FileTransfer));
    assert_eq!(MediaOption::from_select_value("1"), Some(MediaOption::WithVideo));
    assert_eq!(MediaOption::from_select_value("2"), Some(MediaOption::WithAudio));
    assert_eq!(MediaOption::from_select_value("3"), None);
    assert_eq!(MediaOption::from_select_value("01"), None);
    assert_eq!(MediaOption::default_option(), MediaOption::FileTransfer);
    assert!(!MediaOption::FileTransfer.uses_media_stream());
    assert!(MediaOption::WithAudio.uses_media_stream());
}

#[test]
fn pages_and_displays() {
    assert_eq!(page_for(AppState::Stable), Page::Landing);
    assert_eq!(page_for(AppState::Connecting), Page::Config);
    assert_eq!(page_for(AppState::Connected), Page::Lobby);
    assert_eq!(page_for(AppState::Loading), Page::Loading);
    assert_eq!(config_view_for(Role::Responder), ConfigView::Responder);
    assert_eq!(config_view_for(Role::Initiator), ConfigView::Initiator);
    assert_eq!(video_grid_display(AppState::Connected, MediaOption::WithVideo), "grid");
    assert_eq!(video_grid_display(AppState::Connected, MediaOption::WithAudio), "none");
    assert_eq!(video_grid_display(AppState::Stable, MediaOption::WithVideo), "none");
    assert_eq!(section_display(ConfigState::LocalSDP, ConfigState::LocalSDP), "flex");
    assert_eq!(section_display(ConfigState::LocalSDP, ConfigState::RemoteSDP), "none");
}

#[test]
fn responder_walk_through() {
    let mut s = UiState::new();
    assert_eq!(s.page(), Page::Landing);
    s.choose_role(Role::Responder, false);
    assert_eq!(s, UiState::new());
    s.choose_role(Role::Responder, true);
    assert_eq!(s.page(), Page::Config);
    assert_eq!(s.role, Role::Responder);
    s.select_media("1");
    s.select_media("x");
    assert_eq!(s.media_option, MediaOption::WithVideo);
    assert_eq!(
        s.responder_next(),
        ResponderSetup::Prepare {
            steps: vec![
                RtcStep::TrackIceCandidates,
                RtcStep::InitMediaStream,
                RtcStep::TrackLocalStream,
                RtcStep::TrackRemoteStream,
                RtcStep::SetupDataChannel,
            ]
        }
    );
    assert_eq!(s.config_state, ConfigState::ConfigPanel);
    s.responder_setup_done();
    assert_eq!(s.config_state, ConfigState::RemoteSDP);
    assert!(!s.responder_generate_key(true));
    assert_eq!(s.config_state, ConfigState::RemoteSDP);
    assert!(s.responder_generate_key(false));
    assert_eq!(s.config_state, ConfigState::LocalSDP);
    let mut boxes = CodeBoxes::new();
    boxes.local = "abc".to_string();
    boxes.remote = "def".to_string();
    s.responder_connect(&mut boxes);
    assert_eq!(boxes.local, "");
    assert_eq!(boxes.remote, "");
    assert_eq!(s.config_state, ConfigState::ConfigPanel);
    assert_eq!(s.page(), Page::Lobby);
    assert!(s.quit_session());
    assert_eq!(s.page(), Page::Landing);
    assert!(!s.has_connection);
}

#[test]
fn responder_without_connection_goes_back() {
    let mut s = UiState::new();
    s.app_state = AppState::Connecting;
    assert_eq!(s.responder_next(), ResponderSetup::Abort);
    assert_eq!(s.app_state, AppState::Stable);
    s.app_state = AppState::Connecting;
    assert!(!s.responder_generate_key(false));
    assert_eq!(s.app_state, AppState::Stable);
    assert!(!s.quit_session());
}

#[test]
fn landing_form_and_meeting() {
    let mut s = UiState::new();
    assert!(s.clears_code_fields());
    assert!(matches!(s.landing_answer("", SignalingState::Stable), LandingAnswer::Ignore));
    assert_eq!(s, UiState::new());
    assert!(matches!(
        s.landing_answer("a", SignalingState::Stable),
        LandingAnswer::Rejected(SessionError::InvalidBase64)
    ));
    assert_eq!(s, UiState::new());
    match s.landing_answer("aGVsbG8", SignalingState::HaveLocalOffer) {
        LandingAnswer::Answer { new_connection, session, flow } => {
            assert!(new_connection);
            assert_eq!(session.sdp, "hello");
            assert_eq!(flow.next_step(), Some(RtcStep::TrackIceCandidates));
        }
        _ => panic!("expected an answer"),
    }
    assert!(s.in_meeting && s.has_connection);
    assert!(!s.clears_code_fields());
    match s.landing_answer("aGVsbG8", SignalingState::HaveLocalOffer) {
        LandingAnswer::Answer { new_connection, flow, .. } => {
            assert!(!new_connection);
            assert_eq!(flow.next_step(), Some(RtcStep::SetRemoteAnswer));
        }
        _ => panic!("expected an answer"),
    }
    let mut boxes = CodeBoxes::new();
    boxes.remote = "x".to_string();
    s.clear_idle_code_boxes(&mut boxes);
    assert_eq!(boxes.remote, "x");
    assert!(s.meeting_quit());
    assert!(!s.in_meeting && !s.has_connection);
    s.clear_idle_code_boxes(&mut boxes);
    assert_eq!(boxes.remote, "");
    let flow = s.landing_new_offer();
    assert!(s.in_meeting && s.has_connection);
    assert_eq!(flow.next_step(), Some(RtcStep::TrackIceCandidates));
}

#[test]
fn publishing_a_local_code() {
    let mut boxes = CodeBoxes::new();
    boxes.remote = "r".to_string();
    boxes.publish_local_code("hello");
    assert_eq!(boxes.local, "aGVsbG8");
    assert_eq!(boxes.remote, "r");
    assert_eq!(decode_session(&boxes.local).ok().unwrap().sdp, "hello");
}

#[test]
fn responder_without_media_only_opens_the_data_channel() {
    let mut s = UiState::new();
    s.choose_role(Role::Responder, true);
    assert_eq!(
        s.responder_next(),
        ResponderSetup::Prepare { steps: vec![RtcStep::TrackIceCandidates, RtcStep::SetupDataChannel] }
    );
}

fn run(mut flow: RtcFlow, fail_at: Option<usize>) -> (Vec<RtcStep>, RtcFlow) {
    let mut ran = Vec::new();
    while let Some(step) = flow.next_step() {
        let ok = fail_at != Some(ran.len());
        ran.push(step);
        flow.finish_step(ok);
    }
    (ran, flow)
}

#[test]
fn offer_flow_runs_in_order_and_ends_with_the_code() {
    let (ran, flow) = run(RtcFlow::for_offer(), None);
    assert_eq!(
        ran,
        vec![
            RtcStep::TrackIceCandidates,
            RtcStep::TrackLocalStream,
            RtcStep::TrackRemoteStream,
            RtcStep::CreateOffer,
            RtcStep::SetLocalDescription,
            RtcStep::PublishLocalCode,
        ]
    );
    assert!(flow.is_complete());
    assert!(!flow.has_failed());
}

#[test]
fn flow_stops_at_the_first_failure() {
    let (ran, flow) = run(RtcFlow::for_offer(), Some(3));
    assert_eq!(ran.len(), 4);
    assert_eq!(ran[3], RtcStep::CreateOffer);
    assert!(flow.has_failed());
    assert!(!flow.is_complete());
    assert_eq!(flow.next_step(), None);
}

#[test]
fn answer_flows() {
    let (ran, _) = run(RtcFlow::for_answer(SignalingState::HaveLocalOffer), None);
    assert_eq!(ran, vec![RtcStep::SetRemoteAnswer]);
    let (ran, flow) = run(RtcFlow::for_answer(SignalingState::Stable), None);
    assert_eq!(ran.len(), 7);
    assert_eq!(ran[3], RtcStep::SetRemoteOffer);
    assert_eq!(ran[6], RtcStep::PublishLocalCode);
    assert!(flow.is_complete());
    let (ran, flow) = run(RtcFlow::for_answer(SignalingState::Closed), None);
    assert!(ran.is_empty());
    assert!(flow.is_complete());
}
