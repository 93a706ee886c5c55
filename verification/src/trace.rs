//! Whole uploads: where a session gets to, and what it sends, on a transport
//! whose answers are given as a script.

use crate::errors::UploadError;
use crate::firmware::{block_count, image_packet, valid_image};
use crate::handshake::{spec_init_sequence, HandshakeState, ReadOutcome, SENTINEL};
use crate::session::{
    after_flush, after_read, after_write, ReadPurpose, ReadRequestView, StepView, WritePurpose,
    WriteRequestView,
};
use vstd::prelude::*;

verus! {

/// One answer of the transport.
pub enum Reply {
    /// A read ended in this outcome.
    Read(ReadOutcome),
    /// A write succeeded (`true`) or failed.
    Written(bool),
    /// A flush succeeded (`true`) or failed.
    Flushed(bool),
}

/// A session under way: the step that is due, and the byte strings that
/// were written so far, oldest first.
pub struct SessionTrace {
    pub step: StepView,
    pub sent: Seq<Seq<u8>>,
}

/// The first step of an upload of `image`, with nothing sent yet.
pub open spec fn begin(image: Seq<u8>) -> SessionTrace {
    SessionTrace {
        step: StepView::Read(
            ReadRequestView { purpose: ReadPurpose::Sentinel(HandshakeState::Waiting), image },
        ),
        sent: Seq::empty(),
    }
}

/// The session after the transport gave `reply` to the step that was due.
/// A write that succeeded adds its bytes to what was sent. A reply that does
/// not answer the step, or that comes after the end, changes nothing.
pub open spec fn advance(trace: SessionTrace, reply: Reply) -> SessionTrace {
    match (trace.step, reply) {
        (StepView::Read(request), Reply::Read(outcome)) => SessionTrace {
            step: after_read(request, outcome),
            sent: trace.sent,
        },
        (StepView::Write(request), Reply::Written(ok)) => SessionTrace {
            step: after_write(request, ok),
            sent: if ok {
                trace.sent.push(request.bytes())
            } else {
                trace.sent
            },
        },
        (StepView::Flush(request), Reply::Flushed(ok)) => SessionTrace {
            step: after_flush(request, ok),
            sent: trace.sent,
        },
        _ => trace,
    }
}

/// The session after the transport gave the answers `replies`, in this order.
pub open spec fn run(trace: SessionTrace, replies: Seq<Reply>) -> SessionTrace
    decreases replies.len(),
{
    if replies.len() == 0 {
        trace
    } else {
        advance(run(trace, replies.drop_last()), replies.last())
    }
}

/// The answers of a device that is not in its bootloader: `reads` reads
/// that deliver nothing.
pub open spec fn silence_script(reads: nat) -> Seq<Reply> {
    Seq::new(reads, |i: int| Reply::Read(ReadOutcome::NoData))
}

/// The answers of a device that enters its bootloader: it sends the sentinel
/// `sentinels` times, takes the init sequence after the first, and then
/// falls silent.
pub open spec fn handshake_script(sentinels: nat) -> Seq<Reply> {
    seq![Reply::Read(ReadOutcome::Byte(SENTINEL)), Reply::Written(true)] + Seq::new(
        (sentinels - 1) as nat,
        |i: int| Reply::Read(ReadOutcome::Byte(SENTINEL)),
    ) + seq![Reply::Read(ReadOutcome::NoData)]
}

/// The answers of a device that takes one packet: the write and the flush
/// succeed, and the byte `ack` comes back.
pub open spec fn block_script(ack: u8) -> Seq<Reply> {
    seq![Reply::Written(true), Reply::Flushed(true), Reply::Read(ReadOutcome::Byte(ack))]
}

/// The answers of a device that takes one packet after the other and
/// acknowledges them with the bytes `acks`.
pub open spec fn transfer_script(acks: Seq<u8>) -> Seq<Reply>
    decreases acks.len(),
{
    if acks.len() == 0 {
        Seq::empty()
    } else {
        transfer_script(acks.drop_last()) + block_script(acks.last())
    }
}

/// The packets of the first `count` blocks of `image`, in order.
pub open spec fn first_packets(image: Seq<u8>, count: nat) -> Seq<Seq<u8>> {
    Seq::new(count, |index: int| image_packet(image, index))
}

/// The write of the packet of `block` that is due, after `sent` was written.
pub open spec fn at_block(image: Seq<u8>, block: nat, sent: Seq<Seq<u8>>) -> SessionTrace {
    SessionTrace {
        step: StepView::Write(
            WriteRequestView { purpose: WritePurpose::Block(block as usize), image },
        ),
        sent,
    }
}

/// One more answer advances the session by one step.
pub proof fn lemma_run_push(trace: SessionTrace, replies: Seq<Reply>, reply: Reply)
    ensures
        run(trace, replies.push(reply)) == advance(run(trace, replies), reply),
{
    assert(replies.push(reply).drop_last() =~= replies);
}

/// Answers given one after the other lead where they lead when given at
/// once.
pub proof fn lemma_run_concat(trace: SessionTrace, first: Seq<Reply>, then: Seq<Reply>)
    ensures
        run(trace, first + then) == run(run(trace, first), then),
    decreases then.len(),
{
    if then.len() > 0 {
        lemma_run_concat(trace, first, then.drop_last());
        assert((first + then).drop_last() =~= first + then.drop_last());
    }
}

/// Nothing follows the end of an upload: a finished session stays as it is,
/// whatever the transport answers, and sends nothing more.
pub proof fn lemma_finished_is_final(trace: SessionTrace, replies: Seq<Reply>)
    requires
        trace.step is Finished,
    ensures
        run(trace, replies) == trace,
    decreases replies.len(),
{
    if replies.len() > 0 {
        lemma_finished_is_final(trace, replies.drop_last());
    }
}

/// As long as the device stays silent the session keeps polling for the
/// sentinel and sends nothing.
pub proof fn lemma_silence_sends_nothing(image: Seq<u8>, reads: nat)
    ensures
        run(begin(image), silence_script(reads)) == begin(image),
    decreases reads,
{
    if reads > 0 {
        lemma_silence_sends_nothing(image, (reads - 1) as nat);
        assert(silence_script(reads).drop_last() =~= silence_script((reads - 1) as nat));
    }
}

/// A handshake that fails ends the upload at once, with nothing sent. After
/// any wait in silence, a byte other than the sentinel is reported as
/// unexpected data, and an init sequence that cannot be written as a failed
/// init write; nothing the transport answers later changes that.
pub proof fn lemma_handshake_failure_ends_upload(
    image: Seq<u8>,
    reads: nat,
    byte: u8,
    later: Seq<Reply>,
)
    requires
        byte != SENTINEL,
    ensures
        run(
            begin(image),
            silence_script(reads) + seq![Reply::Read(ReadOutcome::Byte(byte))] + later,
        ) == (SessionTrace {
            step: StepView::Finished(Err(UploadError::UnexpectedData { byte })),
            sent: Seq::empty(),
        }),
        run(
            begin(image),
            silence_script(reads) + seq![
                Reply::Read(ReadOutcome::Byte(SENTINEL)),
                Reply::Written(false),
            ] + later,
        ) == (SessionTrace {
            step: StepView::Finished(Err(UploadError::InitWrite)),
            sent: Seq::empty(),
        }),
{
    let quiet = silence_script(reads);
    let stray = Reply::Read(ReadOutcome::Byte(byte));
    let sentinel = Reply::Read(ReadOutcome::Byte(SENTINEL));
    lemma_silence_sends_nothing(image, reads);

    lemma_run_push(begin(image), quiet, stray);
    assert(quiet + seq![stray] =~= quiet.push(stray));
    lemma_run_concat(begin(image), quiet + seq![stray], later);
    lemma_finished_is_final(run(begin(image), quiet + seq![stray]), later);

    let refused = seq![sentinel, Reply::Written(false)];
    lemma_run_push(begin(image), quiet, sentinel);
    lemma_run_push(begin(image), quiet.push(sentinel), Reply::Written(false));
    assert(quiet + refused =~= quiet.push(sentinel).push(Reply::Written(false)));
    lemma_run_concat(begin(image), quiet + refused, later);
    lemma_finished_is_final(run(begin(image), quiet + refused), later);
}

/// However often the sentinel repeats, the handshake sends the init
/// sequence once and nothing else, and ends with the write of the first
/// packet due.
pub proof fn lemma_handshake_completes(image: Seq<u8>, sentinels: nat)
    requires
        sentinels >= 1,
    ensures
        run(begin(image), handshake_script(sentinels)) == at_block(
            image,
            0,
            seq![spec_init_sequence()],
        ),
{
    let sentinel = Reply::Read(ReadOutcome::Byte(SENTINEL));
    let armed = SessionTrace {
        step: StepView::Read(
            ReadRequestView { purpose: ReadPurpose::Sentinel(HandshakeState::Armed), image },
        ),
        sent: seq![spec_init_sequence()],
    };
    let opening = seq![sentinel, Reply::Written(true)];
    let repeats = Seq::new((sentinels - 1) as nat, |i: int| sentinel);
    let silence = seq![Reply::Read(ReadOutcome::NoData)];

    assert(run(begin(image), opening) == armed) by {
        let none = Seq::<Reply>::empty();
        lemma_run_push(begin(image), none, sentinel);
        lemma_run_push(begin(image), none.push(sentinel), Reply::Written(true));
        assert(opening =~= none.push(sentinel).push(Reply::Written(true)));
    }
    lemma_armed_ignores_sentinels(armed, image, (sentinels - 1) as nat);
    assert(run(armed, silence) == at_block(image, 0, seq![spec_init_sequence()])) by {
        lemma_run_push(armed, Seq::empty(), Reply::Read(ReadOutcome::NoData));
    }
    lemma_run_concat(begin(image), opening, repeats);
    lemma_run_concat(begin(image), opening + repeats, silence);
}

/// An armed session that reads the sentinel again reads on.
proof fn lemma_armed_ignores_sentinels(armed: SessionTrace, image: Seq<u8>, repeats: nat)
    requires
        armed.step == StepView::Read(
            ReadRequestView { purpose: ReadPurpose::Sentinel(HandshakeState::Armed), image },
        ),
    ensures
        run(armed, Seq::new(repeats, |i: int| Reply::Read(ReadOutcome::Byte(SENTINEL))))
            == armed,
    decreases repeats,
{
    let sentinel = |i: int| Reply::Read(ReadOutcome::Byte(SENTINEL));
    if repeats > 0 {
        lemma_armed_ignores_sentinels(armed, image, (repeats - 1) as nat);
        assert(Seq::new(repeats, sentinel).drop_last() =~= Seq::new(
            (repeats - 1) as nat,
            sentinel,
        ));
    }
}

/// One packet that is written, flushed and acknowledged is added to what was
/// sent; the next packet is due then, or the upload has succeeded.
pub proof fn lemma_block_is_sent(image: Seq<u8>, block: nat, sent: Seq<Seq<u8>>, ack: u8)
    requires
        valid_image(image),
        block < block_count(image),
    ensures
        run(at_block(image, block, sent), block_script(ack)) == if block + 1 == block_count(
            image,
        ) {
            SessionTrace {
                step: StepView::Finished(Ok(())),
                sent: sent.push(image_packet(image, block as int)),
            }
        } else {
            at_block(image, block + 1, sent.push(image_packet(image, block as int)))
        },
{
    let start = at_block(image, block, sent);
    let none = Seq::<Reply>::empty();
    let written = none.push(Reply::Written(true));
    let flushed = written.push(Reply::Flushed(true));
    lemma_run_push(start, none, Reply::Written(true));
    lemma_run_push(start, written, Reply::Flushed(true));
    lemma_run_push(start, flushed, Reply::Read(ReadOutcome::Byte(ack)));
    assert(block_script(ack) =~= flushed.push(Reply::Read(ReadOutcome::Byte(ack))));
}

/// While the device acknowledges, the packets go out in the order of their
/// blocks, one for each acknowledgement: after as many acknowledgements as
/// the image has blocks the upload has succeeded, and before that the next
/// packet is due.
pub proof fn lemma_transfer_advances(image: Seq<u8>, sent: Seq<Seq<u8>>, acks: Seq<u8>)
    requires
        valid_image(image),
        acks.len() <= block_count(image),
    ensures
        run(at_block(image, 0, sent), transfer_script(acks)).sent == sent + first_packets(
            image,
            acks.len(),
        ),
        run(at_block(image, 0, sent), transfer_script(acks)).step == if acks.len() == block_count(
            image,
        ) {
            StepView::Finished(Ok(()))
        } else {
            at_block(image, acks.len(), sent).step
        },
    decreases acks.len(),
{
    if acks.len() > 0 {
        let before = acks.drop_last();
        let packets = sent + first_packets(image, before.len());
        lemma_transfer_advances(image, sent, before);
        lemma_run_concat(
            at_block(image, 0, sent),
            transfer_script(before),
            block_script(acks.last()),
        );
        lemma_block_is_sent(image, before.len(), packets, acks.last());
    }
}

/// The whole upload. If the device sends the sentinel at least once, takes
/// every write and flush, and acknowledges every packet with whatever byte,
/// then the upload succeeds, and what was sent is the init sequence, once,
/// followed by one packet for each block of the image, in order: the last
/// one with the opcode `0xA2`, all others with `0xA1`.
pub proof fn lemma_upload_completes(image: Seq<u8>, sentinels: nat, acks: Seq<u8>)
    requires
        valid_image(image),
        sentinels >= 1,
        acks.len() == block_count(image),
    ensures
        run(begin(image), handshake_script(sentinels) + transfer_script(acks)) == (SessionTrace {
            step: StepView::Finished(Ok(())),
            sent: seq![spec_init_sequence()] + first_packets(image, block_count(image)),
        }),
        run(begin(image), handshake_script(sentinels) + transfer_script(acks)).sent.len() == 1
            + block_count(image),
        forall|index: int|
            0 <= index < block_count(image) ==> #[trigger] first_packets(
                image,
                block_count(image),
            )[index][0] == if index == block_count(image) - 1 {
                0xA2u8
            } else {
                0xA1u8
            },
{
    lemma_handshake_completes(image, sentinels);
    lemma_transfer_advances(image, seq![spec_init_sequence()], acks);
    lemma_run_concat(begin(image), handshake_script(sentinels), transfer_script(acks));
}

/// While the device acknowledges, the session gets to the write of the
/// packet of the block after the acknowledged ones, having sent the init
/// sequence and the packets before it.
proof fn lemma_reaches_block(image: Seq<u8>, sentinels: nat, acks: Seq<u8>)
    requires
        valid_image(image),
        sentinels >= 1,
        acks.len() < block_count(image),
    ensures
        run(begin(image), handshake_script(sentinels) + transfer_script(acks)) == at_block(
            image,
            acks.len(),
            seq![spec_init_sequence()] + first_packets(image, acks.len()),
        ),
{
    lemma_handshake_completes(image, sentinels);
    lemma_transfer_advances(image, seq![spec_init_sequence()], acks);
    lemma_run_concat(begin(image), handshake_script(sentinels), transfer_script(acks));
}

/// A write that fails ends the upload at once. If the device has taken
/// `acks.len()` packets and the write of the next one fails, the upload
/// fails with the byte offset of that block, the packets sent are those of
/// the blocks before it, and nothing the transport answers later changes
/// that.
pub proof fn lemma_write_failure_ends_upload(
    image: Seq<u8>,
    sentinels: nat,
    acks: Seq<u8>,
    later: Seq<Reply>,
)
    requires
        valid_image(image),
        sentinels >= 1,
        acks.len() < block_count(image),
    ensures
        run(
            begin(image),
            handshake_script(sentinels) + transfer_script(acks) + seq![Reply::Written(false)]
                + later,
        ) == (SessionTrace {
            step: StepView::Finished(
                Err(UploadError::BlockWrite { offset: (acks.len() * 32) as usize }),
            ),
            sent: seq![spec_init_sequence()] + first_packets(image, acks.len()),
        }),
{
    let upto = handshake_script(sentinels) + transfer_script(acks);
    let failure = seq![Reply::Written(false)];
    lemma_reaches_block(image, sentinels, acks);
    lemma_run_push(begin(image), upto, Reply::Written(false));
    assert(upto + failure =~= upto.push(Reply::Written(false)));
    lemma_run_concat(begin(image), upto + failure, later);
    lemma_finished_is_final(run(begin(image), upto + failure), later);
}

/// A flush that fails ends the upload at once: with the byte offset of the
/// block whose packet was just written, and with that packet as the last
/// one sent.
pub proof fn lemma_flush_failure_ends_upload(
    image: Seq<u8>,
    sentinels: nat,
    acks: Seq<u8>,
    later: Seq<Reply>,
)
    requires
        valid_image(image),
        sentinels >= 1,
        acks.len() < block_count(image),
    ensures
        run(
            begin(image),
            handshake_script(sentinels) + transfer_script(acks) + seq![
                Reply::Written(true),
                Reply::Flushed(false),
            ] + later,
        ) == (SessionTrace {
            step: StepView::Finished(
                Err(UploadError::Flush { offset: (acks.len() * 32) as usize }),
            ),
            sent: seq![spec_init_sequence()] + first_packets(image, acks.len() + 1),
        }),
{
    let upto = handshake_script(sentinels) + transfer_script(acks);
    let failure = seq![Reply::Written(true), Reply::Flushed(false)];
    let packets = seq![spec_init_sequence()] + first_packets(image, acks.len());
    lemma_reaches_block(image, sentinels, acks);
    lemma_run_push(begin(image), upto, Reply::Written(true));
    lemma_run_push(begin(image), upto.push(Reply::Written(true)), Reply::Flushed(false));
    assert(upto + failure =~= upto.push(Reply::Written(true)).push(Reply::Flushed(false)));
    assert(packets.push(image_packet(image, acks.len() as int)) =~= seq![spec_init_sequence()]
        + first_packets(image, acks.len() + 1));
    lemma_run_concat(begin(image), upto + failure, later);
    lemma_finished_is_final(run(begin(image), upto + failure), later);
}

/// An acknowledgement that does not arrive ends the upload at once: with
/// the byte offset of the block that was not acknowledged, and with its
/// packet as the last one sent.
pub proof fn lemma_missing_ack_ends_upload(
    image: Seq<u8>,
    sentinels: nat,
    acks: Seq<u8>,
    later: Seq<Reply>,
)
    requires
        valid_image(image),
        sentinels >= 1,
        acks.len() < block_count(image),
    ensures
        run(
            begin(image),
            handshake_script(sentinels) + transfer_script(acks) + seq![
                Reply::Written(true),
                Reply::Flushed(true),
                Reply::Read(ReadOutcome::NoData),
            ] + later,
        ) == (SessionTrace {
            step: StepView::Finished(
                Err(UploadError::AckRead { offset: (acks.len() * 32) as usize }),
            ),
            sent: seq![spec_init_sequence()] + first_packets(image, acks.len() + 1),
        }),
{
    let upto = handshake_script(sentinels) + transfer_script(acks);
    let silence = Reply::Read(ReadOutcome::NoData);
    let failure = seq![Reply::Written(true), Reply::Flushed(true), silence];
    let flushed = upto.push(Reply::Written(true)).push(Reply::Flushed(true));
    let packets = seq![spec_init_sequence()] + first_packets(image, acks.len());
    lemma_reaches_block(image, sentinels, acks);
    lemma_run_push(begin(image), upto, Reply::Written(true));
    lemma_run_push(begin(image), upto.push(Reply::Written(true)), Reply::Flushed(true));
    lemma_run_push(begin(image), flushed, silence);
    assert(upto + failure =~= flushed.push(silence));
    assert(packets.push(image_packet(image, acks.len() as int)) =~= seq![spec_init_sequence()]
        + first_packets(image, acks.len() + 1));
    lemma_run_concat(begin(image), upto + failure, later);
    lemma_finished_is_final(run(begin(image), upto + failure), later);
}

} // verus!
