//! The session codes the two peers exchange by hand (an SDP description in
//! unpadded base64) and the decisions taken on the signaling state.

use vstd::prelude::*;
use vstd::utf8::*;
use crate::codec::{base64_decoded, b64_decode, b64_encode, str_equals, string_from_utf8, unpadded_len};

verus! {

/// A session description received from the other peer.
pub struct Session {
    pub sdp: String,
}

/// Why a pasted code was refused.
#[derive(Debug, Clone, Copy, PartialEq, Eq, Structural)]
pub enum SessionError {
    /// The code is not unpadded standard base64.
    InvalidBase64,
    /// The decoded bytes are not UTF-8.
    InvalidUtf8,
}

/// The description a code carries.
pub open spec fn session_of(code: Seq<u8>) -> Result<Seq<char>, SessionError> {
    match base64_decoded(code) {
        None => Err(SessionError::InvalidBase64),
        Some(b) => if valid_utf8(b) {
            Ok(decode_utf8(b))
        } else {
            Err(SessionError::InvalidUtf8)
        },
    }
}

/// Turns a local description into the code shown to the user; the other
/// peer's [`decode_session`] reads the description back from it.
pub fn encode_sdp(sdp: &str) -> (r: String)
    requires
        unpadded_len(encode_utf8(sdp@).len()) <= usize::MAX,
    ensures
        r@ == crate::codec::base64_encoded(encode_utf8(sdp@)),
        session_of(encode_utf8(r@)) == Ok::<Seq<char>, SessionError>(sdp@),
{
    let r = b64_encode(sdp.as_bytes());
    proof {
        encode_utf8_valid_utf8(sdp@);
        encode_utf8_decode_utf8(sdp@);
    }
    r
}

/// Reads the description out of a code pasted by the user.
pub fn decode_session(code: &str) -> (r: Result<Session, SessionError>)
    ensures
        match r {
            Ok(s) => session_of(encode_utf8(code@)) == Ok::<Seq<char>, SessionError>(s.sdp@),
            Err(e) => session_of(encode_utf8(code@)) == Err::<Seq<char>, SessionError>(e),
        },
{
    match b64_decode(code.as_bytes()) {
        Err(_) => Err(SessionError::InvalidBase64),
        Ok(bytes) => match string_from_utf8(bytes) {
            Ok(sdp) => Ok(Session { sdp }),
            Err(_) => Err(SessionError::InvalidUtf8),
        },
    }
}

/// The signaling state of a peer connection.
#[derive(Debug, Clone, Copy, PartialEq, Eq, Structural)]
pub enum SignalingState {
    Stable,
    HaveLocalOffer,
    HaveRemoteOffer,
    HaveLocalPranswer,
    HaveRemotePranswer,
    Closed,
}

/// What to do with a pasted remote description.
#[derive(Debug, Clone, Copy, PartialEq, Eq, Structural)]
pub enum AnswerStep {
    /// We made the offer: take the remote description as the answer to it.
    AcceptAnswer,
    /// Nothing is under way: take the remote description as an offer, set up
    /// the media tracks, and create and publish an answer.
    AnswerOffer,
    /// Any other state: do nothing.
    Ignore,
}

/// Chooses how to treat a remote description in the given state.
pub fn answer_step(state: SignalingState) -> (r: AnswerStep)
    ensures
        r == match state {
            SignalingState::HaveLocalOffer => AnswerStep::AcceptAnswer,
            SignalingState::Stable => AnswerStep::AnswerOffer,
            _ => AnswerStep::Ignore,
        },
{
    match state {
        SignalingState::HaveLocalOffer => AnswerStep::AcceptAnswer,
        SignalingState::Stable => AnswerStep::AnswerOffer,
        _ => AnswerStep::Ignore,
    }
}

/// Whether a peer connection event is one that is handled (the ICE
/// candidate event); every other one is reported as unhandled.
pub fn handles_event(name: &str) -> (r: bool)
    ensures
        r == (name@ == "icecandidate"@),
{
    str_equals(name, "icecandidate")
}

/// Whether a local media track is a video track, which is also shown in
/// the local video element.
pub fn is_video_track(kind: &str) -> (r: bool)
    ensures
        r == (kind@ == "video"@),
{
    str_equals(kind, "video")
}

/// One awaited step of setting up a peer connection.
#[derive(Debug, Clone, Copy, PartialEq, Eq, Structural)]
pub enum RtcStep {
    /// Register the ICE candidate and connection state handlers.
    TrackIceCandidates,
    /// Open the local media stream (camera and microphone).
    InitMediaStream,
    /// Add the local tracks to the connection and show the local video.
    TrackLocalStream,
    /// Show the remote stream when it arrives.
    TrackRemoteStream,
    /// Open the data channel files are sent over.
    SetupDataChannel,
    /// Create an offer.
    CreateOffer,
    /// Create an answer to the remote offer.
    CreateAnswer,
    /// Make the offer or answer just created the local description.
    SetLocalDescription,
    /// Make the pasted description the remote offer.
    SetRemoteOffer,
    /// Make the pasted description the remote answer.
    SetRemoteAnswer,
    /// Write the code of the local description ([`encode_sdp`] of its SDP)
    /// into the local code box.
    PublishLocalCode,
}

/// The steps of making an offer: set up the handlers and tracks, create the
/// offer, make it the local description, and publish its code.
pub open spec fn offer_plan() -> Seq<RtcStep> {
    seq![
        RtcStep::TrackIceCandidates,
        RtcStep::TrackLocalStream,
        RtcStep::TrackRemoteStream,
        RtcStep::CreateOffer,
        RtcStep::SetLocalDescription,
        RtcStep::PublishLocalCode,
    ]
}

/// The steps of taking a pasted description in each signaling state (see
/// [`answer_step`]): the answer to our offer is only set as the remote
/// description; an offer is answered after the handlers and tracks are set
/// up, and the answer's code is published.
pub open spec fn answer_plan(state: SignalingState) -> Seq<RtcStep> {
    match state {
        SignalingState::HaveLocalOffer => seq![RtcStep::SetRemoteAnswer],
        SignalingState::Stable => seq![
            RtcStep::TrackIceCandidates,
            RtcStep::TrackLocalStream,
            RtcStep::TrackRemoteStream,
            RtcStep::SetRemoteOffer,
            RtcStep::CreateAnswer,
            RtcStep::SetLocalDescription,
            RtcStep::PublishLocalCode,
        ],
        _ => Seq::empty(),
    }
}

/// A sequence of awaited steps that stops at the first one that fails.
pub struct RtcFlow {
    steps: Vec<RtcStep>,
    done: usize,
    failed: bool,
}

/// The mathematical picture of an [`RtcFlow`]: its steps, how many have
/// succeeded, and whether the one after them failed.
pub struct RtcFlowModel {
    pub steps: Seq<RtcStep>,
    pub done: nat,
    pub failed: bool,
}

impl View for RtcFlow {
    type V = RtcFlowModel;

    closed spec fn view(&self) -> RtcFlowModel {
        RtcFlowModel { steps: self.steps@, done: self.done as nat, failed: self.failed }
    }
}

/// The step to run next: none once a step failed or all succeeded.
pub open spec fn pending(m: RtcFlowModel) -> Option<RtcStep> {
    if m.failed || m.done >= m.steps.len() {
        None
    } else {
        Some(m.steps[m.done as int])
    }
}

/// The flow after the pending step ended, well or not.
pub open spec fn after_step(m: RtcFlowModel, ok: bool) -> RtcFlowModel {
    if ok {
        RtcFlowModel { done: m.done + 1, ..m }
    } else {
        RtcFlowModel { failed: true, ..m }
    }
}

/// The flow after the steps it ran ended with `outcomes`, in order.
pub open spec fn flow_after(m: RtcFlowModel, outcomes: Seq<bool>) -> RtcFlowModel
    decreases outcomes.len(),
{
    if outcomes.len() == 0 {
        m
    } else {
        let p = flow_after(m, outcomes.drop_last());
        if pending(p) is Some {
            after_step(p, outcomes.last())
        } else {
            p
        }
    }
}

/// A flow of `steps` before any has run.
pub open spec fn fresh_flow(steps: Seq<RtcStep>) -> RtcFlowModel {
    RtcFlowModel { steps, done: 0, failed: false }
}

impl RtcFlow {
    #[verifier::type_invariant]
    spec fn wf(self) -> bool {
        self.done <= self.steps@.len()
    }

    /// A flow that runs `steps` in order.
    pub fn new(steps: Vec<RtcStep>) -> (f: RtcFlow)
        ensures
            f@ == fresh_flow(steps@),
    {
        RtcFlow { steps, done: 0, failed: false }
    }

    /// The flow of making an offer.
    pub fn for_offer() -> (f: RtcFlow)
        ensures
            f@ == fresh_flow(offer_plan()),
    {
        let steps: Vec<RtcStep> = vec![
            RtcStep::TrackIceCandidates,
            RtcStep::TrackLocalStream,
            RtcStep::TrackRemoteStream,
            RtcStep::CreateOffer,
            RtcStep::SetLocalDescription,
            RtcStep::PublishLocalCode,
        ];
        assert(steps@ =~= offer_plan());
        RtcFlow::new(steps)
    }

    /// The flow of taking a pasted description in `state`.
    pub fn for_answer(state: SignalingState) -> (f: RtcFlow)
        ensures
            f@ == fresh_flow(answer_plan(state)),
    {
        let steps: Vec<RtcStep> = match answer_step(state) {
            AnswerStep::AcceptAnswer => vec![RtcStep::SetRemoteAnswer],
            AnswerStep::AnswerOffer => vec![
                RtcStep::TrackIceCandidates,
                RtcStep::TrackLocalStream,
                RtcStep::TrackRemoteStream,
                RtcStep::SetRemoteOffer,
                RtcStep::CreateAnswer,
                RtcStep::SetLocalDescription,
                RtcStep::PublishLocalCode,
            ],
            AnswerStep::Ignore => Vec::new(),
        };
        assert(steps@ =~= answer_plan(state));
        RtcFlow::new(steps)
    }

    /// The step to run next, if any.
    pub fn next_step(&self) -> (r: Option<RtcStep>)
        ensures
            r == pending(self@),
    {
        proof {
            use_type_invariant(self);
        }
        if self.failed || self.done >= self.steps.len() {
            None
        } else {
            Some(self.steps[self.done])
        }
    }

    /// Records how the pending step ended.
    pub fn finish_step(&mut self, ok: bool)
        requires
            pending(old(self)@) is Some,
        ensures
            final(self)@ == after_step(old(self)@, ok),
    {
        proof {
            use_type_invariant(&*self);
        }
        let n: usize = self.steps.len();
        if ok {
            assert(self.done < n);
            self.done = self.done + 1;
        } else {
            self.failed = true;
        }
    }

    /// Whether every step succeeded.
    pub fn is_complete(&self) -> (r: bool)
        ensures
            r == (!self@.failed && self@.done == self@.steps.len()),
    {
        proof {
            use_type_invariant(self);
        }
        !self.failed && self.done == self.steps.len()
    }

    /// Whether a step failed (so none after it ran).
    pub fn has_failed(&self) -> (r: bool)
        ensures
            r == self@.failed,
    {
        self.failed
    }
}

/// Steps run in order and none runs after one fails: when the first `i`
/// outcomes are successes, the flow has run exactly its first `i` steps;
/// when the step `i` failed, whatever outcomes follow, the flow stays
/// stopped after `i` steps.
pub proof fn lemma_flow_runs_in_order(steps: Seq<RtcStep>, outcomes: Seq<bool>, k: int)
    requires
        0 <= k <= outcomes.len(),
    ensures
        ({
            let m = flow_after(fresh_flow(steps), outcomes.take(k));
            &&& (forall|j: int| 0 <= j < k ==> #[trigger] outcomes[j]) && k <= steps.len()
                ==> m == RtcFlowModel { steps, done: k as nat, failed: false }
            &&& forall|i: int| #![trigger outcomes[i]]
                0 <= i < k && i < steps.len() && !outcomes[i]
                && (forall|j: int| 0 <= j < i ==> #[trigger] outcomes[j])
                ==> m == RtcFlowModel { steps, done: i as nat, failed: true }
        }),
    decreases k,
{
    if k > 0 {
        lemma_flow_runs_in_order(steps, outcomes, k - 1);
        assert(outcomes.take(k).drop_last() =~= outcomes.take(k - 1));
        assert(outcomes.take(k).last() == outcomes[k - 1]);
    } else {
        assert(outcomes.take(0).len() == 0);
    }
}

/// Whether a step creates a description (an offer or an answer).
pub open spec fn creates_description(s: RtcStep) -> bool {
    s == RtcStep::CreateOffer || s == RtcStep::CreateAnswer
}

/// Whether a step registers handlers or media tracks.
pub open spec fn is_tracking(s: RtcStep) -> bool {
    s == RtcStep::TrackIceCandidates || s == RtcStep::TrackLocalStream || s == RtcStep::TrackRemoteStream
}

/// The order a plan of connection steps must keep:
/// - a local description is set right after the step that creates it, and
///   every created description is set as the local one right after;
/// - an answer is created right after a remote offer was set;
/// - the local code is published last, right after the local description
///   is set;
/// - the handlers and tracks are set up first, before every other step.
#[verifier::opaque]
pub open spec fn keeps_description_order(p: Seq<RtcStep>) -> bool {
    &&& forall|i: int| #![trigger p[i], p[i - 1]] 0 <= i < p.len() && p[i] == RtcStep::SetLocalDescription
        ==> i >= 1 && creates_description(p[i - 1])
    &&& forall|i: int| #![trigger p[i], p[i + 1]] 0 <= i < p.len() && creates_description(p[i])
        ==> i + 1 < p.len() && p[i + 1] == RtcStep::SetLocalDescription
    &&& forall|i: int| #![trigger p[i], p[i - 1]] 0 <= i < p.len() && p[i] == RtcStep::CreateAnswer
        ==> i >= 1 && p[i - 1] == RtcStep::SetRemoteOffer
    &&& forall|i: int| #![trigger p[i], p[i - 1]] 0 <= i < p.len() && p[i] == RtcStep::PublishLocalCode
        ==> i == p.len() - 1 && i >= 1 && p[i - 1] == RtcStep::SetLocalDescription
    &&& exists|k: int| #[trigger] tracking_prefix(p, k)
}

/// Whether the steps of `p` that set up handlers and tracks are exactly its
/// first `k` steps.
pub open spec fn tracking_prefix(p: Seq<RtcStep>, k: int) -> bool {
    forall|i: int| 0 <= i < p.len() ==> (is_tracking(#[trigger] p[i]) <==> i < k)
}

proof fn lemma_offer_order()
    ensures
        keeps_description_order(offer_plan()),
{
    reveal(keeps_description_order);
    let p = offer_plan();
    assert(p.len() == 6);
    assert(p[0] == RtcStep::TrackIceCandidates);
    assert(p[1] == RtcStep::TrackLocalStream);
    assert(p[2] == RtcStep::TrackRemoteStream);
    assert(p[3] == RtcStep::CreateOffer);
    assert(p[4] == RtcStep::SetLocalDescription);
    assert(p[5] == RtcStep::PublishLocalCode);
    assert forall|i: int| #![trigger p[i], p[i - 1]] 0 <= i < p.len() && p[i] == RtcStep::SetLocalDescription
        implies i >= 1 && creates_description(p[i - 1]) by {
        if i == 0 {} else if i == 1 {} else if i == 2 {} else if i == 3 {} else if i == 4 {} else if i == 5 {}
    }
    assert forall|i: int| #![trigger p[i], p[i + 1]] 0 <= i < p.len() && creates_description(p[i])
        implies i + 1 < p.len() && p[i + 1] == RtcStep::SetLocalDescription by {
        if i == 0 {} else if i == 1 {} else if i == 2 {} else if i == 3 {} else if i == 4 {} else if i == 5 {}
    }
    assert forall|i: int| #![trigger p[i], p[i - 1]] 0 <= i < p.len() && p[i] == RtcStep::CreateAnswer
        implies i >= 1 && p[i - 1] == RtcStep::SetRemoteOffer by {
        
        if i == 0 {} else if i == 1 {} else if i == 2 {} else if i == 3 {} else if i == 4 {} else if i == 5 {}
    }
    assert forall|i: int| #![trigger p[i], p[i - 1]] 0 <= i < p.len() && p[i] == RtcStep::PublishLocalCode
        implies i == p.len() - 1 && i >= 1 && p[i - 1] == RtcStep::SetLocalDescription by {
        if i == 0 {} else if i == 1 {} else if i == 2 {} else if i == 3 {} else if i == 4 {} else if i == 5 {}
    }
    assert(tracking_prefix(p, 3)) by {
    assert forall|i: int| 0 <= i < p.len() implies (is_tracking(#[trigger] p[i]) <==> i < 3) by {
        if i == 0 {} else if i == 1 {} else if i == 2 {} else if i == 3 {} else if i == 4 {} else if i == 5 {}
    }
    }
}

proof fn lemma_stable_answer_order()
    ensures
        keeps_description_order(answer_plan(SignalingState::Stable)),
{
    reveal(keeps_description_order);
    let p = answer_plan(SignalingState::Stable);
    assert(p.len() == 7);
    assert(p[0] == RtcStep::TrackIceCandidates);
    assert(p[1] == RtcStep::TrackLocalStream);
    assert(p[2] == RtcStep::TrackRemoteStream);
    assert(p[3] == RtcStep::SetRemoteOffer);
    assert(p[4] == RtcStep::CreateAnswer);
    assert(p[5] == RtcStep::SetLocalDescription);
    assert(p[6] == RtcStep::PublishLocalCode);
    assert forall|i: int| #![trigger p[i], p[i - 1]] 0 <= i < p.len() && p[i] == RtcStep::SetLocalDescription
        implies i >= 1 && creates_description(p[i - 1]) by {
        if i == 0 {} else if i == 1 {} else if i == 2 {} else if i == 3 {} else if i == 4 {} else if i == 5 {} else if i == 6 {}
    }
    assert forall|i: int| #![trigger p[i], p[i + 1]] 0 <= i < p.len() && creates_description(p[i])
        implies i + 1 < p.len() && p[i + 1] == RtcStep::SetLocalDescription by {
        if i == 0 {} else if i == 1 {} else if i == 2 {} else if i == 3 {} else if i == 4 {} else if i == 5 {} else if i == 6 {}
    }
    assert forall|i: int| #![trigger p[i], p[i - 1]] 0 <= i < p.len() && p[i] == RtcStep::CreateAnswer
        implies i >= 1 && p[i - 1] == RtcStep::SetRemoteOffer by {
        if i == 0 {} else if i == 1 {} else if i == 2 {} else if i == 3 {} else if i == 4 {} else if i == 5 {} else if i == 6 {}
    }
    assert forall|i: int| #![trigger p[i], p[i - 1]] 0 <= i < p.len() && p[i] == RtcStep::PublishLocalCode
        implies i == p.len() - 1 && i >= 1 && p[i - 1] == RtcStep::SetLocalDescription by {
        if i == 0 {} else if i == 1 {} else if i == 2 {} else if i == 3 {} else if i == 4 {} else if i == 5 {} else if i == 6 {}
    }
    assert(tracking_prefix(p, 3)) by {
    assert forall|i: int| 0 <= i < p.len() implies (is_tracking(#[trigger] p[i]) <==> i < 3) by {
        if i == 0 {} else if i == 1 {} else if i == 2 {} else if i == 3 {} else if i == 4 {} else if i == 5 {} else if i == 6 {}
    }
    }
}

/// Every offer and answer flow keeps the description order; an offer
/// creates an offer and publishes its code; answering a remote offer on a
/// stable connection sets it, creates an answer and publishes its code;
/// after our own offer only the remote answer is set; in every other state
/// nothing runs.
pub proof fn lemma_flows_keep_description_order(state: SignalingState)
    ensures
        keeps_description_order(offer_plan()),
        keeps_description_order(answer_plan(state)),
        offer_plan().contains(RtcStep::CreateOffer),
        offer_plan().last() == RtcStep::PublishLocalCode,
        state == SignalingState::Stable ==> {
            &&& answer_plan(state).contains(RtcStep::SetRemoteOffer)
            &&& answer_plan(state).contains(RtcStep::CreateAnswer)
            &&& answer_plan(state).last() == RtcStep::PublishLocalCode
        },
        state == SignalingState::HaveLocalOffer ==> answer_plan(state) == seq![RtcStep::SetRemoteAnswer],
        state != SignalingState::Stable && state != SignalingState::HaveLocalOffer ==> answer_plan(state).len() == 0,
{
    lemma_offer_order();
    lemma_stable_answer_order();
    assert(offer_plan()[3] == RtcStep::CreateOffer);
    let a = answer_plan(SignalingState::Stable);
    assert(a[3] == RtcStep::SetRemoteOffer);
    assert(a[4] == RtcStep::CreateAnswer);
    let h = answer_plan(SignalingState::HaveLocalOffer);
    assert(h.len() == 1 && h[0] == RtcStep::SetRemoteAnswer);
    assert(keeps_description_order(h)) by {
        reveal(keeps_description_order);
        assert(tracking_prefix(h, 0));
    }
    assert(keeps_description_order(Seq::<RtcStep>::empty())) by {
        reveal(keeps_description_order);
        assert(tracking_prefix(Seq::<RtcStep>::empty(), 0));
    }
}

/// A code is read exactly when it decodes to UTF-8 bytes, and the
/// description read is the one those bytes encode.
pub proof fn lemma_session_is_the_decoded_text(code: Seq<u8>)
    ensures
        session_of(code) is Ok <==> (base64_decoded(code) matches Some(b) && valid_utf8(b)),
        session_of(code) matches Ok(sdp) ==> base64_decoded(code) == Some(encode_utf8(sdp)),
        (session_of(code) == Err::<Seq<char>, SessionError>(SessionError::InvalidBase64)) <==> base64_decoded(code) is None,
{
    if let Some(b) = base64_decoded(code) {
        if valid_utf8(b) {
            decode_utf8_encode_utf8(b);
        }
    }
}

} // verus!
