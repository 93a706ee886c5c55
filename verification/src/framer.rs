//! Packet framing: the padded image length, the payload checksum and the
//! 36-byte wire packet that carries one block.

use vstd::prelude::*;

verus! {

/// Number of payload bytes in one block.
pub const BLOCK_SIZE: usize = 32;

/// Number of bytes in one wire packet: four header bytes and one block.
pub const PACKET_SIZE: usize = 36;

/// Opcode of a packet that is followed by further packets.
pub const OPCODE_BLOCK: u8 = 0xA1;

/// Opcode of the packet that carries the last block of an image.
pub const OPCODE_LAST_BLOCK: u8 = 0xA2;

/// The length `n` rounded up to the next multiple of the block size.
pub open spec fn spec_padded_length(n: nat) -> nat {
    ((n + 31) / 32 * 32) as nat
}

/// The sum of all bytes of `bytes`, without wraparound.
pub open spec fn byte_sum(bytes: Seq<u8>) -> nat
    decreases bytes.len(),
{
    if bytes.len() == 0 {
        0
    } else {
        byte_sum(bytes.drop_last()) + bytes.last() as nat
    }
}

/// The checksum of a payload: the sum of its bytes modulo 256.
pub open spec fn spec_checksum(payload: Seq<u8>) -> u8 {
    (byte_sum(payload) % 256) as u8
}

/// The opcode that marks a packet as terminal or not.
pub open spec fn spec_opcode(is_terminal: bool) -> u8 {
    if is_terminal {
        OPCODE_LAST_BLOCK
    } else {
        OPCODE_BLOCK
    }
}

/// Bits 8 to 15 of a block index.
pub open spec fn index_high(block_index: u32) -> u8 {
    (block_index / 256 % 256) as u8
}

/// Bits 0 to 7 of a block index.
pub open spec fn index_low(block_index: u32) -> u8 {
    (block_index % 256) as u8
}

/// The wire packet for one block: opcode, block index (high byte first),
/// checksum, then the payload unchanged.
pub open spec fn spec_packet(block_index: u32, payload: Seq<u8>, is_terminal: bool) -> Seq<u8> {
    seq![
        spec_opcode(is_terminal),
        index_high(block_index),
        index_low(block_index),
        spec_checksum(payload),
    ] + payload
}

/// The padded length is a multiple of 32, is not below `n`, and exceeds `n`
/// by less than one block.
pub proof fn lemma_padded_length_bounds(n: nat)
    ensures
        spec_padded_length(n) % 32 == 0,
        n <= spec_padded_length(n) < n + 32,
{
}

/// A length that is already a multiple of 32 is its own padded length.
pub proof fn lemma_padded_length_of_multiple(n: nat)
    requires
        n % 32 == 0,
    ensures
        spec_padded_length(n) == n,
{
}

/// The two index bytes of a packet hold the low 16 bits of the block index,
/// so every index below 65536 is recovered from them.
pub proof fn lemma_index_bytes_round_trip(block_index: u32)
    ensures
        index_high(block_index) * 256 + index_low(block_index) == block_index % 65536,
        block_index < 65536 ==> index_high(block_index) * 256 + index_low(block_index)
            == block_index,
{
}

/// Appending one byte to a payload adds that byte to its checksum, modulo 256.
pub proof fn lemma_checksum_push(payload: Seq<u8>, byte: u8)
    ensures
        spec_checksum(payload.push(byte)) == (spec_checksum(payload) + byte) % 256,
{
    assert(payload.push(byte).drop_last() =~= payload);
}

/// A payload of `len` equal bytes has the checksum `len * byte` modulo 256.
pub proof fn lemma_checksum_of_constant(len: nat, byte: u8)
    ensures
        byte_sum(Seq::new(len, |i: int| byte)) == len * byte,
        spec_checksum(Seq::new(len, |i: int| byte)) == (len * byte) % 256,
    decreases len,
{
    let payload = Seq::new(len, |i: int| byte);
    if len > 0 {
        lemma_checksum_of_constant((len - 1) as nat, byte);
        assert(payload.drop_last() =~= Seq::new((len - 1) as nat, |i: int| byte));
        assert(len * byte == (len - 1) * byte + byte) by (nonlinear_arith);
    } else {
        assert(len * byte == 0) by (nonlinear_arith)
            requires
                len == 0,
        ;
    }
}

/// Rounds `raw_length` up to the next multiple of 32.
pub fn padded_length(raw_length: usize) -> (padded: usize)
    requires
        raw_length + 31 <= usize::MAX,
    ensures
        padded == spec_padded_length(raw_length as nat),
        padded % 32 == 0,
        raw_length <= padded < raw_length + 32,
{
    (raw_length + 31) / 32 * 32
}

/// The padded length of a firmware file's content.
pub fn get_padded_length(file_content: &Vec<u8>) -> (padded: usize)
    requires
        file_content.len() + 31 <= usize::MAX,
    ensures
        padded == spec_padded_length(file_content@.len()),
        padded % 32 == 0,
        file_content.len() <= padded < file_content.len() + 32,
{
    padded_length(file_content.len())
}

/// The 8-bit wraparound sum of the 32 bytes of a block.
pub fn checksum(block_bytes: &[u8; 32]) -> (sum: u8)
    ensures
        sum == spec_checksum(block_bytes@),
{
    let mut sum: u8 = 0;
    let mut i: usize = 0;
    while i < BLOCK_SIZE
        invariant
            i <= BLOCK_SIZE,
            sum == spec_checksum(block_bytes@.take(i as int)),
        decreases BLOCK_SIZE - i,
    {
        proof {
            lemma_checksum_push(block_bytes@.take(i as int), block_bytes[i as int]);
            assert(block_bytes@.take(i as int).push(block_bytes[i as int]) =~= block_bytes@.take(
                i + 1,
            ));
        }
        sum = sum.wrapping_add(block_bytes[i]);
        i += 1;
    }
    assert(block_bytes@.take(32) =~= block_bytes@);
    sum
}

/// Builds the wire packet for the block `block_bytes` with index
/// `block_index`; `is_terminal` marks the last block of an image.
pub fn build_packet(
    block_index: u32,
    block_bytes: [u8; 32],
    is_terminal: bool,
) -> (packet: [u8; 36])
    ensures
        packet@ == spec_packet(block_index, block_bytes@, is_terminal),
        packet[0] == spec_opcode(is_terminal),
        packet[1] == index_high(block_index),
        packet[2] == index_low(block_index),
        packet[3] == spec_checksum(block_bytes@),
        packet@.subrange(4, 36) == block_bytes@,
{
    let mut packet: [u8; 36] = [0u8; 36];
    packet[0] = if is_terminal {
        OPCODE_LAST_BLOCK
    } else {
        OPCODE_BLOCK
    };
    assert((block_index >> 8) & 0xff == block_index / 256 % 256) by (bit_vector);
    assert(block_index & 0xff == block_index % 256) by (bit_vector);
    packet[1] = ((block_index >> 8) & 0xff) as u8;
    packet[2] = (block_index & 0xff) as u8;
    packet[3] = checksum(&block_bytes);
    let mut i: usize = 0;
    while i < BLOCK_SIZE
        invariant
            i <= BLOCK_SIZE,
            packet[0] == spec_opcode(is_terminal),
            packet[1] == index_high(block_index),
            packet[2] == index_low(block_index),
            packet[3] == spec_checksum(block_bytes@),
            forall|j: int| 0 <= j < i ==> packet[4 + j] == block_bytes[j],
        decreases BLOCK_SIZE - i,
    {
        packet[4 + i] = block_bytes[i];
        i += 1;
    }
    packet
}

} // verus!
