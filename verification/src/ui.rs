//! The screens of the application and how the user's actions move between
//! them: the state each screen reads, and what each button does to it.

use vstd::prelude::*;
use crate::codec::str_equals;
use vstd::utf8::encode_utf8;
use crate::codec::{base64_encoded, unpadded_len};
use crate::signaling::{
    answer_plan, decode_session, encode_sdp, fresh_flow, offer_plan, session_of, RtcFlow, RtcStep, Session,
    SessionError, SignalingState,
};

verus! {

/// Which stage of a session the application is in.
#[derive(Debug, Clone, Copy, PartialEq, Eq, Structural)]
pub enum AppState {
    Stable,
    Connecting,
    Connected,
    Loading,
}

/// Which side of the connection this peer plays.
#[derive(Debug, Clone, Copy, PartialEq, Eq, Structural)]
pub enum Role {
    Initiator,
    Responder,
}

/// What the session carries besides files.
#[derive(Debug, Clone, Copy, PartialEq, Eq, Structural)]
pub enum MediaOption {
    FileTransfer,
    WithVideo,
    WithAudio,
}

/// Which part of the responder's configuration is shown.
#[derive(Debug, Clone, Copy, PartialEq, Eq, Structural)]
pub enum ConfigState {
    ConfigPanel,
    LocalSDP,
    RemoteSDP,
}

/// The page shown for an application state.
#[derive(Debug, Clone, Copy, PartialEq, Eq, Structural)]
pub enum Page {
    Landing,
    Config,
    Lobby,
    Loading,
}

/// The configuration form shown for a role.
#[derive(Debug, Clone, Copy, PartialEq, Eq, Structural)]
pub enum ConfigView {
    Initiator,
    Responder,
}

impl MediaOption {
    /// The option selected before the user picks one.
    pub fn default_option() -> (r: MediaOption)
        ensures
            r == MediaOption::FileTransfer,
    {
        MediaOption::FileTransfer
    }

    /// The option a value of the selection box stands for: "0", "1" and
    /// "2" select file transfer, video and audio; other values select
    /// nothing.
    pub fn from_select_value(value: &str) -> (r: Option<MediaOption>)
        ensures
            r == MediaOption::from_select_value_spec(value@),
    {
        if str_equals(value, "0") {
            Some(MediaOption::FileTransfer)
        } else if str_equals(value, "1") {
            Some(MediaOption::WithVideo)
        } else if str_equals(value, "2") {
            Some(MediaOption::WithAudio)
        } else {
            None
        }
    }

    /// Whether the option needs a local media stream (camera and microphone).
    pub fn uses_media_stream(self) -> (r: bool)
        ensures
            r == (self != MediaOption::FileTransfer),
    {
        match self {
            MediaOption::FileTransfer => false,
            _ => true,
        }
    }
}

/// The page shown in each application state.
pub fn page_for(state: AppState) -> (r: Page)
    ensures
        r == match state {
            AppState::Stable => Page::Landing,
            AppState::Connecting => Page::Config,
            AppState::Connected => Page::Lobby,
            AppState::Loading => Page::Loading,
        },
{
    match state {
        AppState::Stable => Page::Landing,
        AppState::Connecting => Page::Config,
        AppState::Connected => Page::Lobby,
        AppState::Loading => Page::Loading,
    }
}

/// The configuration form shown for each role.
pub fn config_view_for(role: Role) -> (r: ConfigView)
    ensures
        r == match role {
            Role::Initiator => ConfigView::Initiator,
            Role::Responder => ConfigView::Responder,
        },
{
    match role {
        Role::Initiator => ConfigView::Initiator,
        Role::Responder => ConfigView::Responder,
    }
}

/// The display style of the video grid: shown ("grid") only in a connected
/// session with video, hidden ("none") otherwise.
pub fn video_grid_display(state: AppState, option: MediaOption) -> (r: &'static str)
    ensures
        r@ == (if state == AppState::Connected && option == MediaOption::WithVideo {
            "grid"@
        } else {
            "none"@
        }),
{
    match state {
        AppState::Connected => match option {
            MediaOption::WithVideo => "grid",
            _ => "none",
        },
        _ => "none",
    }
}

/// The display style of a section of the responder's form: shown ("flex")
/// when it is the current one, hidden ("none") otherwise.
pub fn section_display(current: ConfigState, section: ConfigState) -> (r: &'static str)
    ensures
        r@ == (if current == section { "flex"@ } else { "none"@ }),
{
    if current == section {
        "flex"
    } else {
        "none"
    }
}

/// What the responder's "Next" button starts.
#[derive(Debug, Clone, PartialEq, Eq)]
pub enum ResponderSetup {
    /// Run these steps in order; the remote code form opens once they are
    /// done.
    Prepare { steps: Vec<RtcStep> },
    /// There is no connection: go back to the landing page.
    Abort,
}

/// The responder's setup steps: track ICE candidates; with a media option,
/// open the local stream, then track the local and the remote stream; and
/// last open the data channel.
pub open spec fn responder_setup_plan(with_media: bool) -> Seq<RtcStep> {
    if with_media {
        seq![
            RtcStep::TrackIceCandidates,
            RtcStep::InitMediaStream,
            RtcStep::TrackLocalStream,
            RtcStep::TrackRemoteStream,
            RtcStep::SetupDataChannel,
        ]
    } else {
        seq![RtcStep::TrackIceCandidates, RtcStep::SetupDataChannel]
    }
}

/// What the "Answer" button of the landing form does.
pub enum LandingAnswer {
    /// No remote code was entered: nothing happens.
    Ignore,
    /// The remote code does not read: nothing changes.
    Rejected(SessionError),
    /// Answer the pasted description: create a connection first when
    /// `new_connection`, then run `flow`, whose last step publishes the
    /// answer's code.
    Answer { new_connection: bool, session: Session, flow: RtcFlow },
}

/// The two code boxes of a form: the local code to copy to the other peer,
/// and the remote code pasted from it.
pub struct CodeBoxes {
    pub local: String,
    pub remote: String,
}

impl CodeBoxes {
    /// Both boxes empty.
    pub fn new() -> (b: CodeBoxes)
        ensures
            b.local@ == Seq::<char>::empty(),
            b.remote@ == Seq::<char>::empty(),
    {
        CodeBoxes { local: String::new(), remote: String::new() }
    }

    /// Empties both boxes.
    pub fn clear(&mut self)
        ensures
            final(self).local@ == Seq::<char>::empty(),
            final(self).remote@ == Seq::<char>::empty(),
    {
        self.local = String::new();
        self.remote = String::new();
    }

    /// Writes the code of the local description `sdp` into the local box
    /// (the last step of an offer or answer flow).
    pub fn publish_local_code(&mut self, sdp: &str)
        requires
            unpadded_len(encode_utf8(sdp@).len()) <= usize::MAX,
        ensures
            final(self).local@ == base64_encoded(encode_utf8(sdp@)),
            session_of(encode_utf8(final(self).local@)) == Ok::<Seq<char>, SessionError>(sdp@),
            final(self).remote@ == old(self).remote@,
    {
        self.local = encode_sdp(sdp);
    }
}

/// The responder's setup starts by tracking ICE candidates and ends by
/// opening the data channel; it opens a media stream exactly when the
/// session carries media, and then opens it before tracking the local and
/// the remote stream, each of which appears once.
pub proof fn lemma_responder_setup_order(with_media: bool)
    ensures
        responder_setup_plan(with_media).len() >= 2,
        responder_setup_plan(with_media)[0] == RtcStep::TrackIceCandidates,
        responder_setup_plan(with_media).last() == RtcStep::SetupDataChannel,
        responder_setup_plan(with_media).contains(RtcStep::InitMediaStream) <==> with_media,
        responder_setup_plan(with_media).contains(RtcStep::TrackLocalStream) <==> with_media,
        responder_setup_plan(with_media).contains(RtcStep::TrackRemoteStream) <==> with_media,
        with_media ==> {
            let p = responder_setup_plan(with_media);
            forall|i: int, j: int| 0 <= i < p.len() && 0 <= j < p.len() && #[trigger] p[i] == RtcStep::InitMediaStream
                && (#[trigger] p[j] == RtcStep::TrackLocalStream || p[j] == RtcStep::TrackRemoteStream) ==> i < j
        },
{
    let p = responder_setup_plan(with_media);
    if with_media {
        assert(p[1] == RtcStep::InitMediaStream);
        assert(p[2] == RtcStep::TrackLocalStream);
        assert(p[3] == RtcStep::TrackRemoteStream);
        assert forall|i: int, j: int| 0 <= i < p.len() && 0 <= j < p.len() && #[trigger] p[i] == RtcStep::InitMediaStream
            && (#[trigger] p[j] == RtcStep::TrackLocalStream || p[j] == RtcStep::TrackRemoteStream) implies i < j by {
            if i == 0 {} else if i == 1 {} else if i == 2 {} else if i == 3 {} else {}
            if j == 0 {} else if j == 1 {} else if j == 2 {} else if j == 3 {} else {}
        }
    } else {
        assert(!p.contains(RtcStep::InitMediaStream)) by {
            if p.contains(RtcStep::InitMediaStream) {
                let k = choose|k: int| 0 <= k < p.len() && p[k] == RtcStep::InitMediaStream;
                if k == 0 {} else {}
            }
        }
        assert(!p.contains(RtcStep::TrackLocalStream)) by {
            if p.contains(RtcStep::TrackLocalStream) {
                let k = choose|k: int| 0 <= k < p.len() && p[k] == RtcStep::TrackLocalStream;
                if k == 0 {} else {}
            }
        }
        assert(!p.contains(RtcStep::TrackRemoteStream)) by {
            if p.contains(RtcStep::TrackRemoteStream) {
                let k = choose|k: int| 0 <= k < p.len() && p[k] == RtcStep::TrackRemoteStream;
                if k == 0 {} else {}
            }
        }
    }
}

/// The state the pages share.
#[derive(Debug, Clone, Copy, PartialEq, Eq, Structural)]
pub struct UiState {
    pub app_state: AppState,
    pub role: Role,
    pub media_option: MediaOption,
    pub config_state: ConfigState,
    /// Whether a peer connection exists.
    pub has_connection: bool,
    /// Whether the meeting view is shown.
    pub in_meeting: bool,
}

impl UiState {
    /// The state at start-up.
    pub fn new() -> (s: UiState)
        ensures
            s == (UiState {
                app_state: AppState::Stable,
                role: Role::Initiator,
                media_option: MediaOption::FileTransfer,
                config_state: ConfigState::ConfigPanel,
                has_connection: false,
                in_meeting: false,
            }),
    {
        UiState {
            app_state: AppState::Stable,
            role: Role::Initiator,
            media_option: MediaOption::default_option(),
            config_state: ConfigState::ConfigPanel,
            has_connection: false,
            in_meeting: false,
        }
    }

    /// The page to show.
    pub fn page(&self) -> (r: Page)
        ensures
            r == match self.app_state {
                AppState::Stable => Page::Landing,
                AppState::Connecting => Page::Config,
                AppState::Connected => Page::Lobby,
                AppState::Loading => Page::Loading,
            },
    {
        page_for(self.app_state)
    }

    /// The user picks a role on the landing page: when a connection could be
    /// created it becomes the connection, the role is taken and the
    /// configuration page opens; otherwise nothing changes.
    pub fn choose_role(&mut self, role: Role, connection_created: bool)
        ensures
            connection_created ==> *final(self) == (UiState {
                app_state: AppState::Connecting,
                role,
                has_connection: true,
                ..*old(self)
            }),
            !connection_created ==> *final(self) == *old(self),
    {
        if connection_created {
            self.has_connection = true;
            self.role = role;
            self.app_state = AppState::Connecting;
        }
    }

    /// The user changes the selection box; unknown values change nothing.
    pub fn select_media(&mut self, value: &str)
        ensures
            *final(self) == (UiState {
                media_option: match MediaOption::from_select_value_spec(value@) {
                    Some(o) => o,
                    None => old(self).media_option,
                },
                ..*old(self)
            }),
    {
        match MediaOption::from_select_value(value) {
            Some(o) => {
                self.media_option = o;
            },
            None => {},
        }
    }

    /// The responder presses "Next": with a connection, the setup steps
    /// are handed out and the state waits for them (see
    /// [`UiState::responder_setup_done`]); without one, back to the landing
    /// page.
    pub fn responder_next(&mut self) -> (r: ResponderSetup)
        ensures
            old(self).has_connection ==> (r matches ResponderSetup::Prepare { steps } && steps@
                == responder_setup_plan(old(self).media_option != MediaOption::FileTransfer))
                && *final(self) == *old(self),
            !old(self).has_connection ==> r == ResponderSetup::Abort
                && *final(self) == (UiState { app_state: AppState::Stable, ..*old(self) }),
    {
        if self.has_connection {
            let steps: Vec<RtcStep> = if self.media_option.uses_media_stream() {
                vec![
                    RtcStep::TrackIceCandidates,
                    RtcStep::InitMediaStream,
                    RtcStep::TrackLocalStream,
                    RtcStep::TrackRemoteStream,
                    RtcStep::SetupDataChannel,
                ]
            } else {
                vec![RtcStep::TrackIceCandidates, RtcStep::SetupDataChannel]
            };
            assert(steps@ =~= responder_setup_plan(self.media_option != MediaOption::FileTransfer));
            ResponderSetup::Prepare { steps }
        } else {
            self.app_state = AppState::Stable;
            ResponderSetup::Abort
        }
    }

    /// The responder's setup steps are done: the remote code form opens.
    pub fn responder_setup_done(&mut self)
        ensures
            *final(self) == (UiState { config_state: ConfigState::RemoteSDP, ..*old(self) }),
    {
        self.config_state = ConfigState::RemoteSDP;
    }

    /// The responder presses "Generate key": with a connection and a
    /// non-empty remote code, the offer is answered (the result is `true`)
    /// and the local code form opens; with an empty code nothing happens;
    /// without a connection, back to the landing page.
    pub fn responder_generate_key(&mut self, remote_code_empty: bool) -> (answer: bool)
        ensures
            answer == (old(self).has_connection && !remote_code_empty),
            *final(self) == if !old(self).has_connection {
                UiState { app_state: AppState::Stable, ..*old(self) }
            } else if remote_code_empty {
                *old(self)
            } else {
                UiState { config_state: ConfigState::LocalSDP, ..*old(self) }
            },
    {
        if self.has_connection {
            if remote_code_empty {
                false
            } else {
                self.config_state = ConfigState::LocalSDP;
                true
            }
        } else {
            self.app_state = AppState::Stable;
            false
        }
    }

    /// The responder presses "Connect": both code boxes are cleared, the
    /// form returns to its first section and the lobby opens.
    pub fn responder_connect(&mut self, boxes: &mut CodeBoxes)
        ensures
            final(boxes).local@ == Seq::<char>::empty(),
            final(boxes).remote@ == Seq::<char>::empty(),
            *final(self) == (UiState {
                config_state: ConfigState::ConfigPanel,
                app_state: AppState::Connected,
                ..*old(self)
            }),
    {
        boxes.clear();
        self.config_state = ConfigState::ConfigPanel;
        self.app_state = AppState::Connected;
    }

    /// The user quits the session in the lobby: an existing connection is
    /// closed with its media tracks (the result is `true`), and the landing
    /// page opens without a connection.
    pub fn quit_session(&mut self) -> (close: bool)
        ensures
            close == old(self).has_connection,
            *final(self) == (UiState {
                has_connection: false,
                app_state: AppState::Stable,
                ..*old(self)
            }),
    {
        let close = self.has_connection;
        self.has_connection = false;
        self.app_state = AppState::Stable;
        close
    }

    /// "Answer" on the landing form: ignored without a remote code; a code
    /// that does not read is rejected; otherwise the connection is kept (or
    /// a new one, in the stable state, is created), the meeting view opens,
    /// and the answer flow for the connection's signaling state is handed
    /// out with the pasted description. `connection_state` is the state of
    /// the existing connection.
    pub fn landing_answer(&mut self, remote_code: &str, connection_state: SignalingState) -> (r: LandingAnswer)
        ensures
            remote_code@.len() == 0 ==> r is Ignore && *final(self) == *old(self),
            remote_code@.len() != 0 ==> match session_of(encode_utf8(remote_code@)) {
                Err(e) => r == LandingAnswer::Rejected(e) && *final(self) == *old(self),
                Ok(sdp) => r matches LandingAnswer::Answer { new_connection, session, flow } && {
                    &&& new_connection == !old(self).has_connection
                    &&& session.sdp@ == sdp
                    &&& flow@ == fresh_flow(answer_plan(
                        if old(self).has_connection { connection_state } else { SignalingState::Stable },
                    ))
                    &&& *final(self) == (UiState { has_connection: true, in_meeting: true, ..*old(self) })
                },
            },
    {
        if remote_code.is_empty() {
            return LandingAnswer::Ignore;
        }
        let session = match decode_session(remote_code) {
            Ok(s) => s,
            Err(e) => {
                return LandingAnswer::Rejected(e);
            },
        };
        let new_connection = !self.has_connection;
        let state = if new_connection { SignalingState::Stable } else { connection_state };
        let flow = RtcFlow::for_answer(state);
        self.has_connection = true;
        self.in_meeting = true;
        LandingAnswer::Answer { new_connection, session, flow }
    }

    /// "New offer" on the landing form: a new connection replaces the old
    /// one, the meeting view opens, and the offer flow is handed out; its
    /// last step writes the offer's code into the local code box.
    pub fn landing_new_offer(&mut self) -> (flow: RtcFlow)
        ensures
            *final(self) == (UiState { has_connection: true, in_meeting: true, ..*old(self) }),
            flow@ == fresh_flow(offer_plan()),
    {
        self.has_connection = true;
        self.in_meeting = true;
        RtcFlow::for_offer()
    }

    /// "Quit Session" in the meeting view: an existing connection is closed
    /// with both video tracks (the result is `true`), and the meeting view
    /// closes without a connection.
    pub fn meeting_quit(&mut self) -> (close: bool)
        ensures
            close == old(self).has_connection,
            *final(self) == (UiState { has_connection: false, in_meeting: false, ..*old(self) }),
    {
        let close = self.has_connection;
        self.has_connection = false;
        self.in_meeting = false;
        close
    }

    /// Whether the landing form's code fields are to be emptied: whenever
    /// the meeting view is not shown.
    pub fn clears_code_fields(&self) -> (r: bool)
        ensures
            r == !self.in_meeting,
    {
        !self.in_meeting
    }

    /// Empties the landing form's code boxes when the meeting view is not
    /// shown, and leaves them as they are otherwise.
    pub fn clear_idle_code_boxes(&self, boxes: &mut CodeBoxes)
        ensures
            !self.in_meeting ==> final(boxes).local@ == Seq::<char>::empty()
                && final(boxes).remote@ == Seq::<char>::empty(),
            self.in_meeting ==> final(boxes).local@ == old(boxes).local@
                && final(boxes).remote@ == old(boxes).remote@,
    {
        if self.clears_code_fields() {
            boxes.clear();
        }
    }
}

impl MediaOption {
    /// The model of [`MediaOption::from_select_value`].
    pub open spec fn from_select_value_spec(value: Seq<char>) -> Option<MediaOption> {
        if value == "0"@ {
            Some(MediaOption::FileTransfer)
        } else if value == "1"@ {
            Some(MediaOption::WithVideo)
        } else if value == "2"@ {
            Some(MediaOption::WithAudio)
        } else {
            None
        }
    }
}

} // verus!
