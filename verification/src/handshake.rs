//! The handshake detector: it watches the bytes the device sends until the
//! bootloader shows up, arms it with the init sequence, and waits for it to
//! fall silent.

use vstd::prelude::*;

verus! {

/// The byte the bootloader repeats while it waits for the init sequence.
pub const SENTINEL: u8 = 0xA5;

/// Number of bytes in the init sequence.
pub const INIT_SEQUENCE_LEN: usize = 34;

/// What one read from the transport delivered.
#[derive(Clone, Copy, Debug, PartialEq, Eq, Structural)]
pub enum ReadOutcome {
    /// The read delivered this byte.
    Byte(u8),
    /// The read failed or timed out.
    NoData,
}

/// State of the handshake detector.
#[derive(Clone, Copy, Debug, PartialEq, Eq, Structural)]
pub enum HandshakeState {
    /// No sentinel byte has been seen yet.
    Waiting,
    /// The sentinel was seen and the init sequence was asked for.
    Armed,
}

/// What the detector asks for after one read.
#[derive(Clone, Copy, Debug, PartialEq, Eq, Structural)]
pub enum HandshakeAction {
    /// Read the next byte.
    Poll,
    /// Write the init sequence, then read the next byte.
    SendInit,
    /// The handshake is complete: the transfer can start.
    Finish,
    /// The device sent this byte, which is not the sentinel: give up.
    Abort { byte: u8 },
}

/// The init sequence: six command bytes, then 28 bytes of `0x55`.
pub open spec fn spec_init_sequence() -> Seq<u8> {
    seq![0xA0u8, 0xEEu8, 0x74u8, 0x71u8, 0x07u8, 0x74u8] + Seq::new(28, |i: int| 0x55u8)
}

impl HandshakeAction {
    /// Whether this action ends the handshake.
    pub open spec fn is_final(self) -> bool {
        self is Finish || self is Abort
    }
}

impl HandshakeState {
    /// What the detector asks for when a read in this state ends in `outcome`.
    pub open spec fn action(self, outcome: ReadOutcome) -> HandshakeAction {
        match outcome {
            ReadOutcome::NoData => match self {
                HandshakeState::Waiting => HandshakeAction::Poll,
                HandshakeState::Armed => HandshakeAction::Finish,
            },
            ReadOutcome::Byte(byte) => if byte != SENTINEL {
                HandshakeAction::Abort { byte }
            } else {
                match self {
                    HandshakeState::Waiting => HandshakeAction::SendInit,
                    HandshakeState::Armed => HandshakeAction::Poll,
                }
            },
        }
    }

    /// The state after a read in this state ended in `outcome`: the sentinel
    /// arms the detector, and nothing disarms it.
    pub open spec fn next(self, outcome: ReadOutcome) -> HandshakeState {
        if outcome == ReadOutcome::Byte(SENTINEL) {
            HandshakeState::Armed
        } else {
            self
        }
    }

    /// Feeds the outcome of one read to the detector. Returns the state to
    /// continue in and what to do next.
    pub fn on_read(self, outcome: ReadOutcome) -> (result: (HandshakeState, HandshakeAction))
        ensures
            result.0 == self.next(outcome),
            result.1 == self.action(outcome),
            result.1 is SendInit <==> self is Waiting && outcome == ReadOutcome::Byte(SENTINEL),
            result.1 is Finish <==> self is Armed && outcome is NoData,
            result.1 is Abort <==> outcome is Byte && outcome != ReadOutcome::Byte(SENTINEL),
            result.0 is Waiting ==> self is Waiting,
    {
        match outcome {
            ReadOutcome::NoData => match self {
                HandshakeState::Waiting => (HandshakeState::Waiting, HandshakeAction::Poll),
                HandshakeState::Armed => (HandshakeState::Armed, HandshakeAction::Finish),
            },
            ReadOutcome::Byte(byte) => {
                if byte == SENTINEL {
                    match self {
                        HandshakeState::Waiting => (
                            HandshakeState::Armed,
                            HandshakeAction::SendInit,
                        ),
                        HandshakeState::Armed => (HandshakeState::Armed, HandshakeAction::Poll),
                    }
                } else {
                    (self, HandshakeAction::Abort { byte })
                }
            },
        }
    }
}

/// The course of a handshake: the state the detector is in and the actions
/// it has asked for, oldest first.
pub struct HandshakeTrace {
    pub state: HandshakeState,
    pub actions: Seq<HandshakeAction>,
}

impl HandshakeTrace {
    /// Whether the handshake is over: its last action was final.
    pub open spec fn ended(self) -> bool {
        self.actions.len() > 0 && self.actions.last().is_final()
    }

    /// How often the init sequence was asked for.
    pub open spec fn init_count(self) -> nat {
        self.actions.filter(|action: HandshakeAction| action is SendInit).len()
    }
}

/// The course of a handshake that starts in `start` on a transport whose
/// reads end in `outcomes`, in this order. Outcomes that follow the end of
/// the handshake are not consumed.
pub open spec fn run(start: HandshakeState, outcomes: Seq<ReadOutcome>) -> HandshakeTrace
    decreases outcomes.len(),
{
    if outcomes.len() == 0 {
        HandshakeTrace { state: start, actions: Seq::empty() }
    } else {
        let before = run(start, outcomes.drop_last());
        if before.ended() {
            before
        } else {
            HandshakeTrace {
                state: before.state.next(outcomes.last()),
                actions: before.actions.push(before.state.action(outcomes.last())),
            }
        }
    }
}

/// A script of `n` sentinel bytes.
pub open spec fn sentinels(n: nat) -> Seq<ReadOutcome> {
    Seq::new(n, |i: int| ReadOutcome::Byte(SENTINEL))
}

/// A script of `n` reads that deliver nothing.
pub open spec fn silence(n: nat) -> Seq<ReadOutcome> {
    Seq::new(n, |i: int| ReadOutcome::NoData)
}

/// However often the sentinel repeats, the detector goes from `Waiting` to
/// `Armed` on the first one and asks for the init sequence then and never
/// again: every further sentinel only makes it poll.
pub proof fn lemma_repeated_sentinel_arms_once(n: nat)
    requires
        n >= 1,
    ensures
        run(HandshakeState::Waiting, sentinels(n)).state == HandshakeState::Armed,
        run(HandshakeState::Waiting, sentinels(n)).actions == seq![HandshakeAction::SendInit]
            + Seq::new((n - 1) as nat, |i: int| HandshakeAction::Poll),
        run(HandshakeState::Waiting, sentinels(n)).init_count() == 1,
    decreases n,
{
    reveal(Seq::filter);
    assert(sentinels(n).drop_last() =~= sentinels((n - 1) as nat));
    if n > 1 {
        lemma_repeated_sentinel_arms_once((n - 1) as nat);
        let trace = run(HandshakeState::Waiting, sentinels(n));
        let before = run(HandshakeState::Waiting, sentinels((n - 1) as nat));
        assert(trace.actions.drop_last() =~= before.actions);
    }
}

/// On a transport that never delivers the sentinel the detector keeps
/// polling: after any number of empty reads it is still `Waiting`, has asked
/// for nothing but further reads, and has not ended.
pub proof fn lemma_silence_keeps_waiting(n: nat)
    ensures
        run(HandshakeState::Waiting, silence(n)).state == HandshakeState::Waiting,
        run(HandshakeState::Waiting, silence(n)).actions == Seq::new(
            n,
            |i: int| HandshakeAction::Poll,
        ),
        run(HandshakeState::Waiting, silence(n)).init_count() == 0,
        !run(HandshakeState::Waiting, silence(n)).ended(),
    decreases n,
{
    reveal(Seq::filter);
    if n > 0 {
        lemma_silence_keeps_waiting((n - 1) as nat);
        let trace = run(HandshakeState::Waiting, silence(n));
        let before = run(HandshakeState::Waiting, silence((n - 1) as nat));
        assert(silence(n).drop_last() =~= silence((n - 1) as nat));
        assert(trace.actions.drop_last() =~= before.actions);
    }
}

/// On a transport that never delivers the sentinel the detector never asks
/// for the init sequence and never completes the handshake, whatever else
/// arrives.
pub proof fn lemma_no_sentinel_no_init(outcomes: Seq<ReadOutcome>)
    requires
        forall|i: int| 0 <= i < outcomes.len() ==> outcomes[i] != ReadOutcome::Byte(SENTINEL),
    ensures
        run(HandshakeState::Waiting, outcomes).state == HandshakeState::Waiting,
        run(HandshakeState::Waiting, outcomes).init_count() == 0,
        forall|i: int|
            0 <= i < run(HandshakeState::Waiting, outcomes).actions.len() ==> !(run(
                HandshakeState::Waiting,
                outcomes,
            ).actions[i] is Finish),
    decreases outcomes.len(),
{
    reveal(Seq::filter);
    if outcomes.len() > 0 {
        lemma_no_sentinel_no_init(outcomes.drop_last());
        let trace = run(HandshakeState::Waiting, outcomes);
        let before = run(HandshakeState::Waiting, outcomes.drop_last());
        if !before.ended() {
            assert(trace.actions.drop_last() =~= before.actions);
        }
    }
}

/// Whatever the device sends, the init sequence is asked for at most once,
/// and never by a detector that is still `Waiting` or that started `Armed`.
pub proof fn lemma_init_sent_at_most_once(start: HandshakeState, outcomes: Seq<ReadOutcome>)
    ensures
        run(start, outcomes).init_count() <= 1,
        run(start, outcomes).state is Waiting ==> run(start, outcomes).init_count() == 0,
        start is Armed ==> run(start, outcomes).init_count() == 0,
        start is Armed ==> run(start, outcomes).state is Armed,
    decreases outcomes.len(),
{
    reveal(Seq::filter);
    if outcomes.len() > 0 {
        lemma_init_sent_at_most_once(start, outcomes.drop_last());
        let trace = run(start, outcomes);
        let before = run(start, outcomes.drop_last());
        if !before.ended() {
            assert(trace.actions.drop_last() =~= before.actions);
        }
    }
}

/// The init sequence that arms the bootloader.
pub fn init_sequence() -> (bytes: [u8; 34])
    ensures
        bytes@ == spec_init_sequence(),
{
    let mut bytes: [u8; 34] = [0x55u8; 34];
    bytes[0] = 0xA0;
    bytes[1] = 0xEE;
    bytes[2] = 0x74;
    bytes[3] = 0x71;
    bytes[4] = 0x07;
    bytes[5] = 0x74;
    bytes
}

} // verus!
