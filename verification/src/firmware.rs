//! The firmware image: size validation, zero padding to whole blocks, and
//! the blocks and packets the image is sent as.

use crate::errors::UploadError;
use crate::framer::{
    build_packet, padded_length, spec_opcode, spec_packet, spec_padded_length, BLOCK_SIZE,
};
use vstd::prelude::*;

verus! {

/// Least padded length of a firmware image that is accepted.
pub const MIN_PADDED_LENGTH: usize = 40000;

/// Greatest padded length of a firmware image that is accepted.
pub const MAX_PADDED_LENGTH: usize = 65536;

/// Whether a firmware file of `raw_length` bytes is accepted: its padded
/// length lies within the accepted range, bounds included.
pub open spec fn valid_firmware_length(raw_length: nat) -> bool {
    MIN_PADDED_LENGTH <= spec_padded_length(raw_length) <= MAX_PADDED_LENGTH
}

/// The content of a firmware file, followed by as many zero bytes as its
/// padded length asks for.
pub open spec fn padded_image(raw: Seq<u8>) -> Seq<u8> {
    raw + Seq::new((spec_padded_length(raw.len()) - raw.len()) as nat, |i: int| 0u8)
}

/// Whether `image` is a padded image of accepted size.
pub open spec fn valid_image(image: Seq<u8>) -> bool {
    image.len() % 32 == 0 && MIN_PADDED_LENGTH <= image.len() <= MAX_PADDED_LENGTH
}

/// Number of blocks of a padded image.
pub open spec fn block_count(image: Seq<u8>) -> nat {
    image.len() / 32
}

/// The block with the given index: 32 bytes from offset `index * 32`.
pub open spec fn image_block(image: Seq<u8>, index: int) -> Seq<u8> {
    image.subrange(index * 32, index * 32 + 32)
}

/// Whether the block with the given index reaches the end of the image.
pub open spec fn is_terminal_block(image: Seq<u8>, index: int) -> bool {
    (index + 1) * 32 >= image.len()
}

/// The wire packet that carries the block with the given index.
pub open spec fn image_packet(image: Seq<u8>, index: int) -> Seq<u8> {
    spec_packet(index as u32, image_block(image, index), is_terminal_block(image, index))
}

/// Padding yields a valid image exactly for the accepted file lengths, keeps
/// the file's content in front and fills the rest with zeros.
pub proof fn lemma_padded_image(raw: Seq<u8>)
    ensures
        padded_image(raw).len() == spec_padded_length(raw.len()),
        valid_image(padded_image(raw)) <==> valid_firmware_length(raw.len()),
        forall|i: int| 0 <= i < raw.len() ==> padded_image(raw)[i] == raw[i],
        forall|i: int| raw.len() <= i < padded_image(raw).len() ==> padded_image(raw)[i] == 0,
{
}

/// In every image of one or more whole blocks, the packet of each block but
/// the last starts with the opcode `0xA1`, and the packet of the last block
/// with `0xA2`.
pub proof fn lemma_opcode_marks_last_block(image: Seq<u8>, index: int)
    requires
        image.len() % 32 == 0,
        block_count(image) >= 1,
        0 <= index < block_count(image),
    ensures
        is_terminal_block(image, index) <==> index == block_count(image) - 1,
        image_packet(image, index)[0] == if index == block_count(image) - 1 {
            0xA2u8
        } else {
            0xA1u8
        },
{
}

/// Each packet of an image has 36 bytes: the header of its block, then the
/// 32 bytes that the image holds at the block's offset.
pub proof fn lemma_packet_carries_block(image: Seq<u8>, index: int)
    requires
        image.len() % 32 == 0,
        0 <= index < block_count(image),
    ensures
        image_packet(image, index).len() == 36,
        forall|j: int|
            0 <= j < 32 ==> #[trigger] image_packet(image, index)[4 + j] == image[index * 32 + j],
{
}

/// Checks the size of a firmware file's content: it is accepted if and only
/// if its padded length lies in `[40000, 65536]`.
pub fn check_firmware(file_content: &Vec<u8>) -> (result: Result<(), UploadError>)
    ensures
        result is Ok <==> valid_firmware_length(file_content@.len()),
        result is Err ==> result == Err::<(), UploadError>(UploadError::FirmwareSize),
{
    let raw_length = file_content.len();
    if raw_length > MAX_PADDED_LENGTH {
        return Err(UploadError::FirmwareSize);
    }
    let padded = padded_length(raw_length);
    if padded < MIN_PADDED_LENGTH {
        Err(UploadError::FirmwareSize)
    } else {
        Ok(())
    }
}

/// A firmware image of accepted size, padded with zeros to whole blocks.
pub struct FirmwareImage {
    bytes: Vec<u8>,
}

impl View for FirmwareImage {
    type V = Seq<u8>;

    /// The padded bytes of the image.
    closed spec fn view(&self) -> Seq<u8> {
        self.bytes@
    }
}

impl FirmwareImage {
    #[verifier::type_invariant]
    pub(crate) open spec fn well_formed(self) -> bool {
        valid_image(self@)
    }

    /// Validates the content of a firmware file and pads it. The content is
    /// refused, with `UploadError::FirmwareSize`, if and only if its padded
    /// length lies outside `[40000, 65536]`.
    pub fn new(file_content: &Vec<u8>) -> (result: Result<FirmwareImage, UploadError>)
        ensures
            match result {
                Ok(image) => {
                    &&& valid_firmware_length(file_content@.len())
                    &&& image@ == padded_image(file_content@)
                    &&& valid_image(image@)
                },
                Err(error) => {
                    &&& !valid_firmware_length(file_content@.len())
                    &&& error == UploadError::FirmwareSize
                },
            },
    {
        match check_firmware(file_content) {
            Err(error) => Err(error),
            Ok(()) => {
                let padded = padded_length(file_content.len());
                let mut bytes = file_content.clone();
                bytes.resize(padded, 0);
                Ok(FirmwareImage { bytes })
            },
        }
    }

    /// The padded bytes of the image.
    pub fn as_bytes(&self) -> (bytes: &Vec<u8>)
        ensures
            bytes@ == self@,
            valid_image(self@),
    {
        proof {
            use_type_invariant(self);
        }
        &self.bytes
    }

    /// The padded length of the image in bytes.
    pub fn len(&self) -> (len: usize)
        ensures
            len == self@.len(),
            valid_image(self@),
    {
        proof {
            use_type_invariant(self);
        }
        self.bytes.len()
    }

    /// The number of blocks the image is sent as.
    pub fn block_count(&self) -> (count: usize)
        ensures
            count == block_count(self@),
            1250 <= count <= 2048,
            valid_image(self@),
    {
        proof {
            use_type_invariant(self);
        }
        self.bytes.len() / BLOCK_SIZE
    }

    /// Whether the block with the given index is the last one or lies beyond it.
    pub fn is_terminal(&self, index: usize) -> (terminal: bool)
        ensures
            terminal == is_terminal_block(self@, index as int),
            terminal <==> index + 1 >= block_count(self@),
    {
        proof {
            use_type_invariant(self);
        }
        index >= self.bytes.len() / BLOCK_SIZE - 1
    }

    /// The block with the given index, or `None` if the image has no such
    /// block.
    pub fn block(&self, index: usize) -> (block: Option<[u8; 32]>)
        ensures
            match block {
                Some(bytes) => index < block_count(self@) && bytes@ == image_block(
                    self@,
                    index as int,
                ),
                None => index >= block_count(self@),
            },
    {
        proof {
            use_type_invariant(self);
        }
        if index >= self.bytes.len() / BLOCK_SIZE {
            return None;
        }
        let offset = index * BLOCK_SIZE;
        let mut bytes: [u8; 32] = [0u8; 32];
        let mut i: usize = 0;
        while i < BLOCK_SIZE
            invariant
                i <= BLOCK_SIZE,
                offset == index * BLOCK_SIZE,
                offset + BLOCK_SIZE <= self.bytes.len(),
                forall|j: int| 0 <= j < i ==> bytes[j] == self.bytes[offset + j],
            decreases BLOCK_SIZE - i,
        {
            bytes[i] = self.bytes[offset + i];
            i += 1;
        }
        Some(bytes)
    }

    /// The wire packet for the block with the given index, or `None` if the
    /// image has no such block.
    pub fn packet(&self, index: usize) -> (packet: Option<[u8; 36]>)
        ensures
            match packet {
                Some(bytes) => {
                    &&& index < block_count(self@)
                    &&& bytes@ == image_packet(self@, index as int)
                    &&& bytes[0] == spec_opcode(index + 1 == block_count(self@))
                },
                None => index >= block_count(self@),
            },
    {
        proof {
            use_type_invariant(self);
        }
        match self.block(index) {
            None => None,
            Some(block) => Some(build_packet(index as u32, block, self.is_terminal(index))),
        }
    }
}

} // verus!
