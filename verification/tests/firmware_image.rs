use tdh3flash::errors::{ExitCodes, UploadError};
use tdh3flash::firmware::{check_firmware, FirmwareImage, MAX_PADDED_LENGTH, MIN_PADDED_LENGTH};

fn image_of(content: &Vec<u8>) -> FirmwareImage {
    match FirmwareImage::new(content) {
        Ok(image) => image,
        Err(error) => panic!("content of {} bytes was refused: {:?}", content.len(), error),
    }
}

#[test]
fn size_limits() {
    assert_eq!(MIN_PADDED_LENGTH, 40000);
    assert_eq!(MAX_PADDED_LENGTH, 65536);
}

#[test]
fn check_firmware_at_the_boundaries() {
    assert_eq!(check_firmware(&vec![0u8; 39968]), Err(UploadError::FirmwareSize));
    assert_eq!(check_firmware(&vec![0u8; 40000]), Ok(()));
    assert_eq!(check_firmware(&vec![0u8; 65536]), Ok(()));
    assert_eq!(check_firmware(&vec![0u8; 65568]), Err(UploadError::FirmwareSize));
}

#[test]
fn check_firmware_goes_by_the_padded_length() {
    assert_eq!(check_firmware(&vec![0u8; 39969]), Ok(()));
    assert_eq!(check_firmware(&vec![0u8; 39999]), Ok(()));
    assert_eq!(check_firmware(&vec![0u8; 65505]), Ok(()));
    assert_eq!(check_firmware(&vec![0u8; 65537]), Err(UploadError::FirmwareSize));
    assert_eq!(check_firmware(&vec![0u8; 39967]), Err(UploadError::FirmwareSize));
}

#[test]
fn check_firmware_refuses_empty_and_huge_content() {
    assert_eq!(check_firmware(&Vec::new()), Err(UploadError::FirmwareSize));
    assert_eq!(check_firmware(&vec![1u8; 1]), Err(UploadError::FirmwareSize));
    assert_eq!(check_firmware(&vec![1u8; 1_000_000]), Err(UploadError::FirmwareSize));
}

#[test]
fn new_refuses_what_check_firmware_refuses() {
    for len in [0usize, 39968, 65537, 65568, 100_000] {
        let content = vec![0x5Au8; len];
        assert!(check_firmware(&content).is_err());
        match FirmwareImage::new(&content) {
            Err(error) => {
                assert_eq!(error, UploadError::FirmwareSize);
                assert_eq!(error.exit_code(), ExitCodes::FilesizeError);
                assert_eq!(error.exit_code().code(), 2);
            }
            Ok(_) => panic!("content of {} bytes was accepted", len),
        }
    }
    for len in [39969usize, 40000, 50000, 65505, 65536] {
        let content = vec![0x5Au8; len];
        assert!(check_firmware(&content).is_ok());
        assert!(FirmwareImage::new(&content).is_ok());
    }
}

#[test]
fn new_pads_with_zeros() {
    let content = vec![0xABu8; 40001];
    let image = image_of(&content);
    assert_eq!(image.len(), 40032);
    assert_eq!(image.as_bytes().len(), 40032);
    assert_eq!(&image.as_bytes()[..40001], &content[..]);
    assert!(image.as_bytes()[40001..].iter().all(|b| *b == 0));
}

#[test]
fn new_keeps_content_of_whole_blocks() {
    let mut content = vec![0u8; 40000];
    for (i, byte) in content.iter_mut().enumerate() {
        *byte = (i % 251) as u8;
    }
    let image = image_of(&content);
    assert_eq!(image.len(), 40000);
    assert_eq!(image.as_bytes(), &content);
}

#[test]
fn block_count_is_the_padded_length_in_blocks() {
    assert_eq!(image_of(&vec![0u8; 40000]).block_count(), 1250);
    assert_eq!(image_of(&vec![0u8; 40001]).block_count(), 1251);
    assert_eq!(image_of(&vec![0u8; 39969]).block_count(), 1250);
    assert_eq!(image_of(&vec![0u8; 65536]).block_count(), 2048);
}

#[test]
fn blocks_are_slices_of_the_padded_image() {
    let mut content = vec![0u8; 40010];
    for (i, byte) in content.iter_mut().enumerate() {
        *byte = (i % 253) as u8 + 1;
    }
    let image = image_of(&content);
    assert_eq!(image.block_count(), 1251);
    for index in 0..1250 {
        let block = image.block(index).unwrap();
        assert_eq!(&block[..], &content[index * 32..index * 32 + 32]);
    }
    let last = image.block(1250).unwrap();
    assert_eq!(&last[..10], &content[40000..]);
    assert!(last[10..].iter().all(|b| *b == 0));
    assert_eq!(image.block(1251), None);
    assert_eq!(image.block(usize::MAX), None);
}

#[test]
fn only_the_last_block_is_terminal() {
    let image = image_of(&vec![0u8; 40000]);
    for index in 0..1249 {
        assert!(!image.is_terminal(index), "index {}", index);
    }
    assert!(image.is_terminal(1249));
    assert!(image.is_terminal(1250));
    assert!(image.is_terminal(usize::MAX));
}

#[test]
fn opcode_is_a1_for_every_block_but_the_last() {
    for len in [40000usize, 40001, 51234, 65536] {
        let image = image_of(&vec![0x11u8; len]);
        let count = image.block_count();
        for index in 0..count {
            let packet = image.packet(index).unwrap();
            if index + 1 == count {
                assert_eq!(packet[0], 0xA2, "len {} index {}", len, index);
            } else {
                assert_eq!(packet[0], 0xA1, "len {} index {}", len, index);
            }
        }
        assert_eq!(image.packet(count), None);
    }
}

#[test]
fn packets_frame_the_blocks() {
    let mut content = vec![0u8; 40001];
    for (i, byte) in content.iter_mut().enumerate() {
        *byte = (i % 7) as u8;
    }
    content[40000] = 0xAB;
    let image = image_of(&content);
    let packet = image.packet(300).unwrap();
    assert_eq!(packet[0], 0xA1);
    assert_eq!(packet[1], 0x01);
    assert_eq!(packet[2], 0x2C);
    assert_eq!(&packet[4..], &content[9600..9632]);
    let sum: u32 = content[9600..9632].iter().map(|b| *b as u32).sum();
    assert_eq!(packet[3] as u32, sum % 256);

    let last = image.packet(1250).unwrap();
    assert_eq!(last[0], 0xA2);
    assert_eq!(last[1], 0x04);
    assert_eq!(last[2], 0xE2);
    assert_eq!(last[3], 0xAB);
    assert_eq!(last[4], 0xAB);
    assert!(last[5..].iter().all(|b| *b == 0));
}
