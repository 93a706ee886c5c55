use tdh3flash::framer::{
    build_packet, checksum, get_padded_length, padded_length, BLOCK_SIZE, OPCODE_BLOCK,
    OPCODE_LAST_BLOCK, PACKET_SIZE,
};

#[test]
fn padded_length_rounds_up_to_whole_blocks() {
    assert_eq!(padded_length(0), 0);
    assert_eq!(padded_length(1), 32);
    assert_eq!(padded_length(31), 32);
    assert_eq!(padded_length(32), 32);
    assert_eq!(padded_length(33), 64);
    assert_eq!(padded_length(40000), 40000);
    assert_eq!(padded_length(40001), 40032);
    assert_eq!(padded_length(65505), 65536);
    assert_eq!(padded_length(65537), 65568);
}

#[test]
fn padded_length_is_the_next_multiple_of_32() {
    for n in 0usize..5000 {
        let padded = padded_length(n);
        assert_eq!(padded % 32, 0, "n = {}", n);
        assert!(padded >= n, "n = {}", n);
        assert!(padded < n + 32, "n = {}", n);
    }
    for n in 39_900usize..40_100 {
        let padded = padded_length(n);
        assert_eq!(padded % 32, 0, "n = {}", n);
        assert!(padded >= n && padded < n + 32, "n = {}", n);
    }
}

#[test]
fn padded_length_keeps_multiples_of_32() {
    for blocks in 0usize..2100 {
        assert_eq!(padded_length(blocks * 32), blocks * 32);
    }
}

#[test]
fn padded_length_near_the_largest_length() {
    let largest = usize::MAX - 31;
    assert_eq!(padded_length(largest), largest);
    assert_eq!(padded_length(largest - 1), largest);
    assert_eq!(padded_length(largest - 32), largest - 32);
}

#[test]
fn get_padded_length_goes_by_the_content_length() {
    assert_eq!(get_padded_length(&Vec::new()), 0);
    assert_eq!(get_padded_length(&vec![7u8; 1]), 32);
    assert_eq!(get_padded_length(&vec![7u8; 40001]), 40032);
    assert_eq!(get_padded_length(&vec![0u8; 65536]), 65536);
}

#[test]
fn checksum_of_equal_bytes() {
    assert_eq!(checksum(&[0x00u8; 32]), 0x00);
    assert_eq!(checksum(&[0x01u8; 32]), 0x20);
    assert_eq!(checksum(&[0xFFu8; 32]), 0xE0);
    assert_eq!(checksum(&[0x08u8; 32]), 0x00);
    assert_eq!(checksum(&[0x55u8; 32]), 0xA0);
}

#[test]
fn checksum_wraps_around() {
    let mut block = [0u8; 32];
    block[0] = 0xFF;
    block[31] = 0x02;
    assert_eq!(checksum(&block), 0x01);
    let mut counting = [0u8; 32];
    for (i, byte) in counting.iter_mut().enumerate() {
        *byte = (i as u8).wrapping_mul(13).wrapping_add(200);
    }
    let expected = counting.iter().fold(0u32, |sum, b| sum + *b as u32) % 256;
    assert_eq!(checksum(&counting) as u32, expected);
}

#[test]
fn packet_checksum_is_the_sum_of_the_payload_modulo_256() {
    assert_eq!(build_packet(0, [0x01u8; 32], false)[3], 0x20);
    assert_eq!(build_packet(0, [0xFFu8; 32], false)[3], 0xE0);
    assert_eq!(build_packet(9, [0xFFu8; 32], true)[3], 0xE0);
    let mut block = [0u8; 32];
    for (i, byte) in block.iter_mut().enumerate() {
        *byte = (i as u8) * 9;
    }
    let packet = build_packet(3, block, false);
    let sum: u32 = packet[4..].iter().map(|b| *b as u32).sum();
    assert_eq!(packet[3] as u32, sum % 256);
}

#[test]
fn packet_opcode_tells_the_last_block() {
    assert_eq!(build_packet(0, [0u8; 32], false)[0], 0xA1);
    assert_eq!(build_packet(0, [0u8; 32], true)[0], 0xA2);
    assert_eq!(build_packet(1249, [3u8; 32], true)[0], 0xA2);
    assert_eq!(OPCODE_BLOCK, 0xA1);
    assert_eq!(OPCODE_LAST_BLOCK, 0xA2);
}

#[test]
fn packet_index_bytes_are_high_then_low() {
    let packet = build_packet(300, [0u8; 32], false);
    assert_eq!(packet[1], 0x01);
    assert_eq!(packet[2], 0x2C);
    let packet = build_packet(0, [0u8; 32], false);
    assert_eq!((packet[1], packet[2]), (0, 0));
    let packet = build_packet(255, [0u8; 32], false);
    assert_eq!((packet[1], packet[2]), (0x00, 0xFF));
    let packet = build_packet(256, [0u8; 32], false);
    assert_eq!((packet[1], packet[2]), (0x01, 0x00));
    let packet = build_packet(2047, [0u8; 32], true);
    assert_eq!((packet[1], packet[2]), (0x07, 0xFF));
    let packet = build_packet(0xFFFF, [0u8; 32], false);
    assert_eq!((packet[1], packet[2]), (0xFF, 0xFF));
}

#[test]
fn packet_index_bytes_round_trip() {
    for index in 0u32..2048 {
        let packet = build_packet(index, [0u8; 32], false);
        assert_eq!(packet[1] as u32 * 256 + packet[2] as u32, index);
    }
}

#[test]
fn packet_index_bytes_keep_the_low_16_bits() {
    let packet = build_packet(0x0001_2345, [0u8; 32], false);
    assert_eq!((packet[1], packet[2]), (0x23, 0x45));
    let packet = build_packet(u32::MAX, [0u8; 32], false);
    assert_eq!((packet[1], packet[2]), (0xFF, 0xFF));
    let packet = build_packet(0x0001_0000, [0u8; 32], false);
    assert_eq!((packet[1], packet[2]), (0x00, 0x00));
}

#[test]
fn packet_carries_the_payload_unchanged() {
    let mut block = [0u8; 32];
    for (i, byte) in block.iter_mut().enumerate() {
        *byte = 0xF0u8.wrapping_add(i as u8);
    }
    let packet = build_packet(17, block, false);
    assert_eq!(packet.len(), 36);
    assert_eq!(&packet[4..], &block[..]);
    assert_eq!(packet[0], 0xA1);
    assert_eq!(packet[1], 0);
    assert_eq!(packet[2], 17);
}

#[test]
fn packet_of_a_whole_example() {
    let mut block = [0u8; 32];
    block[0] = 0x10;
    block[1] = 0x20;
    block[31] = 0xFF;
    let packet = build_packet(0x0102, block, true);
    let mut expected = [0u8; 36];
    expected[0] = 0xA2;
    expected[1] = 0x01;
    expected[2] = 0x02;
    expected[3] = 0x2F;
    expected[4] = 0x10;
    expected[5] = 0x20;
    expected[35] = 0xFF;
    assert_eq!(packet, expected);
}

#[test]
fn sizes_of_block_and_packet() {
    assert_eq!(BLOCK_SIZE, 32);
    assert_eq!(PACKET_SIZE, 36);
}
