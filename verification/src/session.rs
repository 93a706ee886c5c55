//! The upload session: the handshake followed by the block transfer, as a
//! sequence of requests to the transport.
//!
//! A session never touches the transport. Each [`Step`] names the one
//! operation that is due; the caller performs it and resumes the request with
//! the outcome, which yields the next step. A request is consumed when it is
//! resumed, so every operation is answered once and in order, and nothing
//! can follow a `Finished` step.

use crate::errors::UploadError;
use crate::firmware::{block_count, image_packet, is_terminal_block, valid_image, FirmwareImage};
use crate::framer::BLOCK_SIZE;
use crate::handshake::{
    init_sequence, spec_init_sequence, HandshakeAction, HandshakeState, ReadOutcome,
};
use vstd::prelude::*;

verus! {

/// Progress is reported for every block whose index is a multiple of this.
pub const PROGRESS_INTERVAL: usize = 64;

/// What a byte that is read from the transport is for.
#[derive(Clone, Copy, Debug, PartialEq, Eq, Structural)]
pub enum ReadPurpose {
    /// The handshake detector, in this state, looks for the sentinel.
    Sentinel(HandshakeState),
    /// The acknowledgement of the block with this index.
    Ack(usize),
}

/// What the bytes that are written to the transport are.
#[derive(Clone, Copy, Debug, PartialEq, Eq, Structural)]
pub enum WritePurpose {
    /// The init sequence.
    Init,
    /// The packet of the block with this index.
    Block(usize),
}

/// Model of a pending read.
pub struct ReadRequestView {
    pub purpose: ReadPurpose,
    pub image: Seq<u8>,
}

/// Model of a pending write.
pub struct WriteRequestView {
    pub purpose: WritePurpose,
    pub image: Seq<u8>,
}

/// Model of a pending flush, after the packet of block `block` was written.
pub struct FlushRequestView {
    pub block: usize,
    pub image: Seq<u8>,
}

/// Model of a step of the session.
pub enum StepView {
    Read(ReadRequestView),
    Write(WriteRequestView),
    Flush(FlushRequestView),
    Finished(Result<(), UploadError>),
}

impl ReadRequestView {
    /// The image is valid, and an awaited acknowledgement is for one of its
    /// blocks.
    pub open spec fn wf(self) -> bool {
        &&& valid_image(self.image)
        &&& self.purpose matches ReadPurpose::Ack(block) ==> block < block_count(self.image)
    }
}

impl WriteRequestView {
    /// The image is valid, and a packet to write is of one of its blocks.
    pub open spec fn wf(self) -> bool {
        &&& valid_image(self.image)
        &&& self.purpose matches WritePurpose::Block(block) ==> block < block_count(self.image)
    }

    /// The bytes to write.
    pub open spec fn bytes(self) -> Seq<u8> {
        match self.purpose {
            WritePurpose::Init => spec_init_sequence(),
            WritePurpose::Block(block) => image_packet(self.image, block as int),
        }
    }

    /// The number of image bytes sent so far, where it is to be reported:
    /// before the packet of every 64th block, the first included.
    pub open spec fn progress(self) -> Option<usize> {
        match self.purpose {
            WritePurpose::Block(block) if block % PROGRESS_INTERVAL == 0 => Some(
                (block * 32) as usize,
            ),
            _ => None,
        }
    }
}

impl FlushRequestView {
    /// The image is valid, and the block is one of its blocks.
    pub open spec fn wf(self) -> bool {
        valid_image(self.image) && self.block < block_count(self.image)
    }
}

impl StepView {
    /// The pending request, if any, is well formed.
    pub open spec fn wf(self) -> bool {
        match self {
            StepView::Read(request) => request.wf(),
            StepView::Write(request) => request.wf(),
            StepView::Flush(request) => request.wf(),
            StepView::Finished(_) => true,
        }
    }
}

/// The step that follows a read which ended in `outcome`.
///
/// During the handshake the detector decides: it polls on, asks for the init
/// sequence, starts the transfer with block 0, or aborts on unexpected data.
/// During the transfer any byte acknowledges the block: the next block
/// follows, or success after the last one. A missing acknowledgement is
/// fatal.
pub open spec fn after_read(request: ReadRequestView, outcome: ReadOutcome) -> StepView {
    let image = request.image;
    match request.purpose {
        ReadPurpose::Sentinel(state) => match state.action(outcome) {
            HandshakeAction::Poll => StepView::Read(
                ReadRequestView { purpose: ReadPurpose::Sentinel(state.next(outcome)), image },
            ),
            HandshakeAction::SendInit => StepView::Write(
                WriteRequestView { purpose: WritePurpose::Init, image },
            ),
            HandshakeAction::Finish => StepView::Write(
                WriteRequestView { purpose: WritePurpose::Block(0), image },
            ),
            HandshakeAction::Abort { byte } => StepView::Finished(
                Err(UploadError::UnexpectedData { byte }),
            ),
        },
        ReadPurpose::Ack(block) => match outcome {
            ReadOutcome::Byte(_) => if is_terminal_block(image, block as int) {
                StepView::Finished(Ok(()))
            } else {
                StepView::Write(
                    WriteRequestView { purpose: WritePurpose::Block((block + 1) as usize), image },
                )
            },
            ReadOutcome::NoData => StepView::Finished(
                Err(UploadError::AckRead { offset: (block * 32) as usize }),
            ),
        },
    }
}

/// The step that follows a write which succeeded (`ok`) or failed.
///
/// After the init sequence the armed detector reads on; after a packet the
/// transport is flushed. A failed write is fatal.
pub open spec fn after_write(request: WriteRequestView, ok: bool) -> StepView {
    let image = request.image;
    match request.purpose {
        WritePurpose::Init => if ok {
            StepView::Read(
                ReadRequestView { purpose: ReadPurpose::Sentinel(HandshakeState::Armed), image },
            )
        } else {
            StepView::Finished(Err(UploadError::InitWrite))
        },
        WritePurpose::Block(block) => if ok {
            StepView::Flush(FlushRequestView { block, image })
        } else {
            StepView::Finished(Err(UploadError::BlockWrite { offset: (block * 32) as usize }))
        },
    }
}

/// The step that follows a flush which succeeded (`ok`) or failed: the
/// block's acknowledgement is read, or the upload fails.
pub open spec fn after_flush(request: FlushRequestView, ok: bool) -> StepView {
    if ok {
        StepView::Read(
            ReadRequestView { purpose: ReadPurpose::Ack(request.block), image: request.image },
        )
    } else {
        StepView::Finished(Err(UploadError::Flush { offset: (request.block * 32) as usize }))
    }
}

/// Every step that follows a well-formed request is well formed.
pub proof fn lemma_steps_stay_well_formed(step: StepView, outcome: ReadOutcome, ok: bool)
    requires
        step.wf(),
    ensures
        step matches StepView::Read(request) ==> after_read(request, outcome).wf(),
        step matches StepView::Write(request) ==> after_write(request, ok).wf(),
        step matches StepView::Flush(request) ==> after_flush(request, ok).wf(),
{
}

/// A pending read of one byte.
pub struct ReadRequest {
    image: FirmwareImage,
    purpose: ReadPurpose,
}

/// A pending write of the init sequence or of a packet.
pub struct WriteRequest {
    image: FirmwareImage,
    purpose: WritePurpose,
}

/// A pending flush of the transport.
pub struct FlushRequest {
    image: FirmwareImage,
    block: usize,
}

/// What is due next in an upload.
pub enum Step {
    /// Read one byte and resume the request with the outcome.
    Read(ReadRequest),
    /// Write all bytes of the request and resume it with the result.
    Write(WriteRequest),
    /// Flush the transport and resume the request with the result.
    Flush(FlushRequest),
    /// The upload is over: it succeeded, or failed with this error.
    Finished(Result<(), UploadError>),
}

impl View for ReadRequest {
    type V = ReadRequestView;

    closed spec fn view(&self) -> ReadRequestView {
        ReadRequestView { purpose: self.purpose, image: self.image@ }
    }
}

impl View for WriteRequest {
    type V = WriteRequestView;

    closed spec fn view(&self) -> WriteRequestView {
        WriteRequestView { purpose: self.purpose, image: self.image@ }
    }
}

impl View for FlushRequest {
    type V = FlushRequestView;

    closed spec fn view(&self) -> FlushRequestView {
        FlushRequestView { block: self.block, image: self.image@ }
    }
}

impl View for Step {
    type V = StepView;

    open spec fn view(&self) -> StepView {
        match *self {
            Step::Read(request) => StepView::Read(request@),
            Step::Write(request) => StepView::Write(request@),
            Step::Flush(request) => StepView::Flush(request@),
            Step::Finished(result) => StepView::Finished(result),
        }
    }
}

/// Starts the upload of `image`: the first step is a read in which the
/// handshake detector, still `Waiting`, looks for the sentinel.
pub fn start(image: FirmwareImage) -> (first: Step)
    ensures
        first@ == StepView::Read(
            ReadRequestView {
                purpose: ReadPurpose::Sentinel(HandshakeState::Waiting),
                image: image@,
            },
        ),
        first@.wf(),
{
    proof {
        use_type_invariant(&image);
    }
    Step::Read(ReadRequest { image, purpose: ReadPurpose::Sentinel(HandshakeState::Waiting) })
}

impl ReadRequest {
    #[verifier::type_invariant]
    spec fn well_formed(self) -> bool {
        self@.wf()
    }

    /// What the byte to read is for.
    pub fn purpose(&self) -> (purpose: ReadPurpose)
        ensures
            purpose == self@.purpose,
            self@.wf(),
    {
        proof {
            use_type_invariant(self);
        }
        self.purpose
    }

    /// Continues the upload after the read ended in `outcome`.
    pub fn resume(self, outcome: ReadOutcome) -> (next: Step)
        ensures
            next@ == after_read(self@, outcome),
            next@.wf(),
    {
        proof {
            use_type_invariant(&self);
        }
        let ReadRequest { image, purpose } = self;
        match purpose {
            ReadPurpose::Sentinel(state) => {
                let (state, action) = state.on_read(outcome);
                match action {
                    HandshakeAction::Poll => Step::Read(
                        ReadRequest { image, purpose: ReadPurpose::Sentinel(state) },
                    ),
                    HandshakeAction::SendInit => Step::Write(
                        WriteRequest { image, purpose: WritePurpose::Init },
                    ),
                    HandshakeAction::Finish => Step::Write(
                        WriteRequest { image, purpose: WritePurpose::Block(0) },
                    ),
                    HandshakeAction::Abort { byte } => Step::Finished(
                        Err(UploadError::UnexpectedData { byte }),
                    ),
                }
            },
            ReadPurpose::Ack(block) => match outcome {
                ReadOutcome::Byte(_) => {
                    if image.is_terminal(block) {
                        Step::Finished(Ok(()))
                    } else {
                        Step::Write(WriteRequest { image, purpose: WritePurpose::Block(block + 1) })
                    }
                },
                ReadOutcome::NoData => Step::Finished(
                    Err(UploadError::AckRead { offset: block * BLOCK_SIZE }),
                ),
            },
        }
    }
}

impl WriteRequest {
    #[verifier::type_invariant]
    spec fn well_formed(self) -> bool {
        self@.wf()
    }

    /// What the bytes to write are.
    pub fn purpose(&self) -> (purpose: WritePurpose)
        ensures
            purpose == self@.purpose,
            self@.wf(),
    {
        proof {
            use_type_invariant(self);
        }
        self.purpose
    }

    /// The bytes to write: the init sequence, or the packet of the block.
    pub fn bytes(&self) -> (bytes: Vec<u8>)
        ensures
            bytes@ == self@.bytes(),
    {
        proof {
            use_type_invariant(self);
        }
        match self.purpose {
            WritePurpose::Init => {
                let init = init_sequence();
                copy_to_vec(&init)
            },
            WritePurpose::Block(block) => {
                let packet = self.image.packet(block).unwrap();
                copy_to_vec(&packet)
            },
        }
    }

    /// The number of image bytes sent before this write, if it is to be
    /// reported: before the packet of every 64th block.
    pub fn progress(&self) -> (sent: Option<usize>)
        ensures
            sent == self@.progress(),
    {
        proof {
            use_type_invariant(self);
        }
        match self.purpose {
            WritePurpose::Init => None,
            WritePurpose::Block(block) => {
                if block % PROGRESS_INTERVAL == 0 {
                    Some(block * BLOCK_SIZE)
                } else {
                    None
                }
            },
        }
    }

    /// Continues the upload after the write succeeded (`ok`) or failed.
    pub fn resume(self, ok: bool) -> (next: Step)
        ensures
            next@ == after_write(self@, ok),
            next@.wf(),
    {
        proof {
            use_type_invariant(&self);
        }
        let WriteRequest { image, purpose } = self;
        match purpose {
            WritePurpose::Init => {
                if ok {
                    Step::Read(
                        ReadRequest {
                            image,
                            purpose: ReadPurpose::Sentinel(HandshakeState::Armed),
                        },
                    )
                } else {
                    Step::Finished(Err(UploadError::InitWrite))
                }
            },
            WritePurpose::Block(block) => {
                if ok {
                    Step::Flush(FlushRequest { image, block })
                } else {
                    Step::Finished(Err(UploadError::BlockWrite { offset: block * BLOCK_SIZE }))
                }
            },
        }
    }
}

impl FlushRequest {
    #[verifier::type_invariant]
    spec fn well_formed(self) -> bool {
        self@.wf()
    }

    /// The index of the block whose packet is to be flushed.
    pub fn block(&self) -> (block: usize)
        ensures
            block == self@.block,
            self@.wf(),
    {
        proof {
            use_type_invariant(self);
        }
        self.block
    }

    /// Continues the upload after the flush succeeded (`ok`) or failed.
    pub fn resume(self, ok: bool) -> (next: Step)
        ensures
            next@ == after_flush(self@, ok),
            next@.wf(),
    {
        proof {
            use_type_invariant(&self);
        }
        let FlushRequest { image, block } = self;
        if ok {
            Step::Read(ReadRequest { image, purpose: ReadPurpose::Ack(block) })
        } else {
            Step::Finished(Err(UploadError::Flush { offset: block * BLOCK_SIZE }))
        }
    }
}

/// Copies an array of bytes into a vector.
fn copy_to_vec<const N: usize>(bytes: &[u8; N]) -> (copy: Vec<u8>)
    ensures
        copy@ == bytes@,
{
    let mut copy: Vec<u8> = Vec::with_capacity(N);
    let mut i: usize = 0;
    while i < N
        invariant
            i <= N,
            copy@ == bytes@.take(i as int),
        decreases N - i,
    {
        copy.push(bytes[i]);
        i += 1;
    }
    copy
}

} // verus!
