//! The session state machine: the handshake, the keepalive answer and the
//! hand-over of everything else, one input at a time.
//!
//! A session does no I/O. Its owner reads from the transport, hands each
//! input to the session, and carries out what comes back.

use crate::codec::{
    decimal_value, decode, decoded, decoded_frame, encode, encoded, frame_text, lemma_split,
    optional_text, Frame, Packet, PacketView,
};
use crate::error::{ProtocolViolation, SessionError};
use crate::keepalive::{answer, keepalive_answer, pong_text};
use crate::text::same_text;
use std::sync::Arc;
use vstd::prelude::*;

verus! {

/// The phases of a session. `Closed` is terminal.
#[derive(Debug, Clone, Copy, PartialEq, Eq, Structural)]
pub enum Phase {
    Unconnected,
    Negotiating,
    Connected,
    Ready,
    Closed,
}

/// The credential that a login left behind. The session carries it and
/// never looks into it.
#[derive(Debug, PartialEq, Eq)]
pub struct Credential {
    pub name: String,
    pub value: String,
}

/// Whom a session is for: a character, on a server. The session carries the
/// two names and never looks into them.
#[derive(Debug, PartialEq, Eq)]
pub struct Identity {
    pub character: String,
    pub server: String,
}

/// What the transport reports.
#[derive(Debug, PartialEq, Eq)]
pub enum Input {
    /// A frame arrived.
    Frame(Frame),
    /// The connection was closed, by the peer or by the owner.
    Closed,
    /// Reading, writing or closing failed.
    Failed,
}

/// What the owner of a session has to do after an input.
#[derive(Debug, PartialEq, Eq)]
pub enum Outcome {
    /// Nothing.
    Idle,
    /// Send this frame to the peer.
    Send(String),
    /// Hand this packet to the event dispatcher.
    Deliver(Packet),
    /// Report this error. The session is closed.
    Fail(SessionError),
}

/// The mathematical value of an [`Outcome`].
pub enum OutcomeView {
    Idle,
    Send(Seq<char>),
    Deliver(PacketView),
    Fail(SessionError),
}

impl View for Outcome {
    type V = OutcomeView;

    open spec fn view(&self) -> OutcomeView {
        match self {
            Outcome::Idle => OutcomeView::Idle,
            Outcome::Send(frame) => OutcomeView::Send(frame@),
            Outcome::Deliver(packet) => OutcomeView::Deliver(packet@),
            Outcome::Fail(error) => OutcomeView::Fail(*error),
        }
    }
}

/// One logical connection: its phase, the session id once the peer has
/// assigned one, and the identity and the credential it was created with.
/// The credential is shared with its owner, not taken from it.
#[derive(Debug)]
pub struct Session {
    phase: Phase,
    session_id: Option<String>,
    identity: Identity,
    credential: Arc<Credential>,
}

/// The mathematical value of a [`Session`]. The identity is the pair of
/// the character's and the server's name, the credential the pair of its
/// name and its value.
pub struct SessionView {
    pub phase: Phase,
    pub session_id: Option<Seq<char>>,
    pub identity: (Seq<char>, Seq<char>),
    pub credential: (Seq<char>, Seq<char>),
}

impl View for Session {
    type V = SessionView;

    closed spec fn view(&self) -> SessionView {
        SessionView {
            phase: self.phase,
            session_id: optional_text(self.session_id),
            identity: (self.identity.character@, self.identity.server@),
            credential: (self.credential.name@, self.credential.value@),
        }
    }
}

/// A session id is there only once the peer has acknowledged the
/// connection: before that, none is stored.
pub open spec fn id_in_turn(s: SessionView) -> bool {
    s.phase == Phase::Unconnected || s.phase == Phase::Negotiating ==> s.session_id is None
}

/// The text of the frame that asks for the connection: code 40, no remainder.
pub open spec fn connect_text() -> Seq<char> {
    seq!['4', '0']
}

/// The name of the event that ends the handshake.
pub open spec fn welcome_name() -> Seq<char> {
    "welcome"@
}

/// The name of the event that announces readiness.
pub open spec fn loaded_name() -> Seq<char> {
    "loaded"@
}

/// The payload of the readiness announcement.
pub open spec fn loaded_payload() -> Seq<char> {
    "{\"success\":1,\"width\":1920,\"height\":1080,\"scale\":2}"@
}

/// The text of the readiness announcement.
pub open spec fn loaded_text() -> Seq<char> {
    encoded(loaded_name(), loaded_payload())
}

/// Is this packet the event that ends the handshake?
pub open spec fn is_welcome(packet: PacketView) -> bool {
    packet matches PacketView::Event { name, .. } && name == Some(welcome_name())
}

/// The phase in which a handshake packet is expected; `None` for a packet
/// that is no part of the handshake.
pub open spec fn expected_in(packet: PacketView) -> Option<Phase> {
    match packet {
        PacketView::Negotiation => Some(Phase::Unconnected),
        PacketView::Connect { .. } => Some(Phase::Negotiating),
        PacketView::Event { .. } => if is_welcome(packet) {
            Some(Phase::Connected)
        } else {
            None
        },
        _ => None,
    }
}

/// The phase that follows the one in which a handshake packet is expected.
pub open spec fn phase_after(phase: Phase) -> Phase {
    match phase {
        Phase::Unconnected => Phase::Negotiating,
        Phase::Negotiating => Phase::Connected,
        Phase::Connected => Phase::Ready,
        Phase::Ready => Phase::Ready,
        Phase::Closed => Phase::Closed,
    }
}

/// The session with its phase set to `Closed`.
pub open spec fn closed(s: SessionView) -> SessionView {
    SessionView { phase: Phase::Closed, ..s }
}

/// The session after a packet.
///
/// A handshake packet moves the session on where it arrives in its phase,
/// and closes it anywhere else. No other packet changes anything.
pub open spec fn after_packet(s: SessionView, packet: PacketView) -> SessionView {
    match expected_in(packet) {
        None => s,
        Some(phase) => if s.phase != phase {
            closed(s)
        } else {
            match packet {
                PacketView::Connect { session_id } => SessionView {
                    phase: phase_after(phase),
                    session_id,
                    ..s
                },
                _ => SessionView { phase: phase_after(phase), ..s },
            }
        },
    }
}

/// What the owner has to do after a packet.
///
/// A ping is answered in every phase. A handshake packet in its phase is
/// answered as the handshake says, and is a violation anywhere else. A pong
/// asks for nothing. Every other packet goes to the dispatcher.
pub open spec fn outcome_of_packet(s: SessionView, packet: PacketView) -> OutcomeView {
    match keepalive_answer(packet) {
        Some(frame) => OutcomeView::Send(frame),
        None => match expected_in(packet) {
            Some(phase) => if s.phase != phase {
                OutcomeView::Fail(SessionError::Protocol(ProtocolViolation::OutOfSequence))
            } else {
                match packet {
                    PacketView::Negotiation => OutcomeView::Send(connect_text()),
                    PacketView::Connect { .. } => OutcomeView::Idle,
                    _ => OutcomeView::Send(loaded_text()),
                }
            },
            None => match packet {
                PacketView::Pong => OutcomeView::Idle,
                _ => OutcomeView::Deliver(packet),
            },
        },
    }
}

/// The session after a frame, given the text of the frame if it has one.
pub open spec fn after_frame(s: SessionView, text: Option<Seq<char>>) -> SessionView {
    match decoded_frame(text) {
        Ok(packet) => after_packet(s, packet),
        Err(_) => closed(s),
    }
}

/// What the owner has to do after a frame.
pub open spec fn outcome_of_frame(s: SessionView, text: Option<Seq<char>>) -> OutcomeView {
    match decoded_frame(text) {
        Ok(packet) => outcome_of_packet(s, packet),
        Err(violation) => OutcomeView::Fail(SessionError::Protocol(violation)),
    }
}

/// The session after an input from the transport. The end of the connection
/// closes the session, however it came about.
pub open spec fn after_input(s: SessionView, input: Input) -> SessionView {
    match input {
        Input::Frame(frame) => after_frame(s, frame_text(frame)),
        Input::Closed => closed(s),
        Input::Failed => closed(s),
    }
}

/// What the owner has to do after an input from the transport.
pub open spec fn outcome_of_input(s: SessionView, input: Input) -> OutcomeView {
    match input {
        Input::Frame(frame) => outcome_of_frame(s, frame_text(frame)),
        Input::Closed => OutcomeView::Idle,
        Input::Failed => OutcomeView::Fail(SessionError::Transport),
    }
}

/// The frame that asks for the connection.
pub fn connect_frame() -> (frame: String)
    ensures
        frame@ == connect_text(),
{
    proof {
        reveal_strlit("40");
    }
    "40".to_owned()
}

/// The frame that announces readiness.
pub fn loaded_frame() -> (frame: String)
    ensures
        frame@ == loaded_text(),
{
    encode("loaded", "{\"success\":1,\"width\":1920,\"height\":1080,\"scale\":2}")
}

/// Tells whether a name is the name of the event that ends the handshake.
fn names_welcome(name: &Option<String>) -> (r: bool)
    ensures
        r == (optional_text(*name) == Some(welcome_name())),
{
    match name {
        Some(name) => same_text(name.as_str(), "welcome"),
        None => false,
    }
}

impl Session {
    #[verifier::type_invariant]
    spec fn well_formed(self) -> bool {
        self.phase == Phase::Unconnected || self.phase == Phase::Negotiating
            ==> self.session_id is None
    }

    /// A new session for `identity`, in phase `Unconnected` and without a
    /// session id.
    ///
    /// Fails with `Precondition` exactly where no credential is given.
    pub fn new(identity: Identity, credential: Option<Arc<Credential>>) -> (r: Result<
        Session,
        SessionError,
    >)
        ensures
            (match r {
                Ok(s) => credential matches Some(c) && s@ == (SessionView {
                    phase: Phase::Unconnected,
                    session_id: None,
                    identity: (identity.character@, identity.server@),
                    credential: (c.name@, c.value@),
                }),
                Err(e) => credential is None && e == SessionError::Precondition,
            }),
    {
        match credential {
            Some(credential) => Ok(
                Session { phase: Phase::Unconnected, session_id: None, identity, credential },
            ),
            None => Err(SessionError::Precondition),
        }
    }

    /// Whom the session is for.
    pub fn identity(&self) -> (identity: &Identity)
        ensures
            (identity.character@, identity.server@) == self@.identity,
    {
        &self.identity
    }

    /// The phase that the session is in.
    pub fn phase(&self) -> (phase: Phase)
        ensures
            phase == self@.phase,
    {
        self.phase
    }

    /// Has the session come to its end?
    pub fn is_closed(&self) -> (r: bool)
        ensures
            r == (self@.phase == Phase::Closed),
    {
        match self.phase {
            Phase::Closed => true,
            _ => false,
        }
    }

    /// The id that the peer assigned, once it has: there is none before
    /// the connection is acknowledged.
    pub fn session_id(&self) -> (id: &Option<String>)
        ensures
            optional_text(*id) == self@.session_id,
            id_in_turn(self@),
    {
        proof {
            use_type_invariant(self);
        }
        &self.session_id
    }

    /// The credential that the session was created with.
    pub fn credential(&self) -> (credential: &Credential)
        ensures
            (credential.name@, credential.value@) == self@.credential,
    {
        &self.credential
    }

    /// Takes in a decoded packet.
    pub fn on_packet(&mut self, packet: Packet) -> (outcome: Outcome)
        ensures
            final(self)@ == after_packet(old(self)@, packet@),
            outcome@ == outcome_of_packet(old(self)@, packet@),
    {
        proof {
            use_type_invariant(&*self);
        }
        if let Some(frame) = answer(&packet) {
            return Outcome::Send(frame);
        }
        match packet {
            Packet::Negotiation => match self.phase {
                Phase::Unconnected => {
                    self.phase = Phase::Negotiating;
                    Outcome::Send(connect_frame())
                },
                _ => self.out_of_sequence(),
            },
            Packet::Connect { session_id } => match self.phase {
                Phase::Negotiating => {
                    self.phase = Phase::Connected;
                    self.session_id = session_id;
                    Outcome::Idle
                },
                _ => self.out_of_sequence(),
            },
            Packet::Event { name, payload } => {
                if names_welcome(&name) {
                    match self.phase {
                        Phase::Connected => {
                            self.phase = Phase::Ready;
                            Outcome::Send(loaded_frame())
                        },
                        _ => self.out_of_sequence(),
                    }
                } else {
                    Outcome::Deliver(Packet::Event { name, payload })
                }
            },
            Packet::Pong => Outcome::Idle,
            other => Outcome::Deliver(other),
        }
    }

    /// Closes the session over a handshake packet that came out of turn.
    fn out_of_sequence(&mut self) -> (outcome: Outcome)
        ensures
            final(self)@ == closed(old(self)@),
            outcome@ == OutcomeView::Fail(
                SessionError::Protocol(ProtocolViolation::OutOfSequence),
            ),
    {
        self.phase = Phase::Closed;
        Outcome::Fail(SessionError::Protocol(ProtocolViolation::OutOfSequence))
    }

    /// Takes in a frame from the transport. A frame that does not decode
    /// closes the session.
    pub fn on_frame(&mut self, frame: &Frame) -> (outcome: Outcome)
        ensures
            final(self)@ == after_frame(old(self)@, frame_text(*frame)),
            outcome@ == outcome_of_frame(old(self)@, frame_text(*frame)),
    {
        match decode(frame) {
            Ok(packet) => self.on_packet(packet),
            Err(violation) => {
                self.phase = Phase::Closed;
                Outcome::Fail(SessionError::Protocol(violation))
            },
        }
    }

    /// Takes in whatever the transport reports: a frame, its end, or its
    /// failure.
    pub fn step(&mut self, input: &Input) -> (outcome: Outcome)
        ensures
            final(self)@ == after_input(old(self)@, *input),
            outcome@ == outcome_of_input(old(self)@, *input),
    {
        match input {
            Input::Frame(frame) => self.on_frame(frame),
            Input::Closed => {
                self.on_close();
                Outcome::Idle
            },
            Input::Failed => self.on_failure(),
        }
    }

    /// The transport was closed: the session is closed, and nothing is
    /// left to do.
    pub fn on_close(&mut self)
        ensures
            final(self)@ == closed(old(self)@),
    {
        self.phase = Phase::Closed;
    }

    /// The transport failed: the session is closed, and the failure goes to
    /// the owner.
    pub fn on_failure(&mut self) -> (outcome: Outcome)
        ensures
            final(self)@ == closed(old(self)@),
            outcome@ == OutcomeView::Fail(SessionError::Transport),
    {
        self.phase = Phase::Closed;
        Outcome::Fail(SessionError::Transport)
    }
}

/// How far a phase is along the life of a session.
pub open spec fn phase_rank(phase: Phase) -> nat {
    match phase {
        Phase::Unconnected => 0,
        Phase::Negotiating => 1,
        Phase::Connected => 2,
        Phase::Ready => 3,
        Phase::Closed => 4,
    }
}

/// A ping is answered with a pong in every phase, `Closed` included, and
/// leaves the session as it was. So does the frame `2`, which decodes to a
/// ping.
pub proof fn lemma_ping_is_answered_in_every_phase(s: SessionView)
    ensures
        outcome_of_packet(s, PacketView::Ping) == OutcomeView::Send(pong_text()),
        after_packet(s, PacketView::Ping) == s,
        outcome_of_frame(s, Some(seq!['2'])) == OutcomeView::Send(seq!['3']),
        after_frame(s, Some(seq!['2'])) == s,
{
    let digits = seq!['2'];
    lemma_split(digits, Seq::<char>::empty());
    assert(decimal_value(digits.drop_last()) == 0);
}

/// Once closed, a session stays closed, whatever arrives.
pub proof fn lemma_closed_is_terminal(s: SessionView, packet: PacketView, text: Option<Seq<char>>)
    requires
        s.phase == Phase::Closed,
    ensures
        after_packet(s, packet) == s,
        after_frame(s, text) == s,
{
}

/// A session never goes back to an earlier phase, and a packet moves it on
/// by one phase or closes it.
pub proof fn lemma_phases_in_order(s: SessionView, packet: PacketView)
    ensures
        phase_rank(s.phase) <= phase_rank(after_packet(s, packet).phase),
        after_packet(s, packet).phase == s.phase || after_packet(s, packet).phase == Phase::Closed
            || phase_rank(after_packet(s, packet).phase) == phase_rank(s.phase) + 1,
{
}

/// A handshake packet that arrives in any phase but its own is reported as
/// out of sequence and closes the session: a connect before the
/// negotiation, a welcome before the connect, and every later repeat.
pub proof fn lemma_handshake_out_of_turn(s: SessionView, packet: PacketView)
    requires
        expected_in(packet) matches Some(phase) && phase != s.phase,
    ensures
        after_packet(s, packet) == closed(s),
        outcome_of_packet(s, packet) == OutcomeView::Fail(
            SessionError::Protocol(ProtocolViolation::OutOfSequence),
        ),
{
}

/// The three steps of the handshake, each in its phase.
pub proof fn lemma_handshake_in_turn(s: SessionView, packet: PacketView)
    requires
        expected_in(packet) == Some(s.phase),
    ensures
        after_packet(s, packet).phase == phase_after(s.phase),
        packet is Negotiation ==> outcome_of_packet(s, packet) == OutcomeView::Send(
            connect_text(),
        ) && after_packet(s, packet).session_id == s.session_id,
        packet matches PacketView::Connect { session_id } ==> outcome_of_packet(s, packet)
            == OutcomeView::Idle && after_packet(s, packet).session_id == session_id,
        packet is Event ==> outcome_of_packet(s, packet) == OutcomeView::Send(loaded_text())
            && after_packet(s, packet).session_id == s.session_id,
{
}

/// Unknown packets and events under any name but the welcome go to the
/// dispatcher as they are, in every phase, and change nothing.
pub proof fn lemma_other_packets_are_delivered(s: SessionView, packet: PacketView)
    requires
        packet is Unknown || (packet is Event && !is_welcome(packet)),
    ensures
        after_packet(s, packet) == s,
        outcome_of_packet(s, packet) == OutcomeView::Deliver(packet),
{
}

/// A frame that does not decode closes the session and is reported; nothing
/// is sent.
pub proof fn lemma_undecodable_frame_closes(s: SessionView, text: Option<Seq<char>>)
    requires
        decoded_frame(text) is Err,
    ensures
        after_frame(s, text) == closed(s),
        outcome_of_frame(s, text) == OutcomeView::Fail(
            SessionError::Protocol(decoded_frame(text)->Err_0),
        ),
{
}

/// A step keeps the session id in turn.
pub proof fn lemma_id_stays_in_turn(s: SessionView, packet: PacketView, text: Option<Seq<char>>)
    requires
        id_in_turn(s),
    ensures
        id_in_turn(after_packet(s, packet)),
        id_in_turn(after_frame(s, text)),
{
}

/// No input touches the identity or the credential, and the session id
/// changes only when a connect is accepted.
pub proof fn lemma_what_stays(s: SessionView, packet: PacketView, text: Option<Seq<char>>)
    ensures
        after_packet(s, packet).identity == s.identity,
        after_packet(s, packet).credential == s.credential,
        after_frame(s, text).identity == s.identity,
        after_frame(s, text).credential == s.credential,
        after_packet(s, packet).session_id != s.session_id ==> packet is Connect && s.phase
            == Phase::Negotiating,
{
}

/// The readiness announcement, character for character.
pub proof fn lemma_loaded_text()
    ensures
        loaded_text() == "42[\"loaded\",{\"success\":1,\"width\":1920,\"height\":1080,\"scale\":2}]"@,
{
    reveal_strlit("loaded");
    reveal_strlit("{\"success\":1,\"width\":1920,\"height\":1080,\"scale\":2}");
    reveal_strlit("42[\"loaded\",{\"success\":1,\"width\":1920,\"height\":1080,\"scale\":2}]");
}

} // verus!
