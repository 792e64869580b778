use rp2040_emu::flags::{UF2Flags, EXTENSION_TAGS, FILE_CONTAINER, KNOWN_FLAGS, MD5_CHECKSUM, NOT_MAIN_FLASH};
use rp2040_emu::uf2_parser::{
    CorruptionPolicy, ParseError, UF2File, Uf2Block, MAGIC_END, MAGIC_START0, MAGIC_START1,
    PAYLOAD_CAPACITY, RECORD_SIZE,
};

const FAMILY_RP2040: u32 = 0xE48B_FF56;

fn record(index: u32, count: u32, address: u32, payload: &[u8]) -> Uf2Block {
    let mut data = [0u8; 476];
    data[..payload.len()].copy_from_slice(payload);
    Uf2Block::new(
        UF2Flags::from_bits_truncate(0),
        address,
        payload.len() as u32,
        index,
        count,
        FAMILY_RP2040,
        data,
    )
}

fn stream(n: u32) -> Vec<u8> {
    let mut bytes = Vec::new();
    for i in 0..n {
        let payload = vec![i as u8; 256];
        bytes.extend(record(i, n, 0x1000_0000 + 256 * i, &payload).to_bytes());
    }
    bytes
}

fn put_word(bytes: &mut [u8], at: usize, word: u32) {
    bytes[at] = word as u8;
    bytes[at + 1] = (word >> 8) as u8;
    bytes[at + 2] = (word >> 16) as u8;
    bytes[at + 3] = (word >> 24) as u8;
}

#[test]
fn constants_are_the_published_ones() {
    assert_eq!(RECORD_SIZE, 512);
    assert_eq!(PAYLOAD_CAPACITY, 476);
    assert_eq!(MAGIC_START0, 0x0A32_4655);
    assert_eq!(MAGIC_START1, 0x9E5D_5157);
    assert_eq!(MAGIC_END, 0x0AB1_6F30);
    assert_eq!(NOT_MAIN_FLASH, 1 << 0);
    assert_eq!(FILE_CONTAINER, 1 << 12);
    assert_eq!(MD5_CHECKSUM, 1 << 14);
    assert_eq!(EXTENSION_TAGS, 1 << 15);
    assert_eq!(KNOWN_FLAGS, NOT_MAIN_FLASH | FILE_CONTAINER | MD5_CHECKSUM | EXTENSION_TAGS);
}

#[test]
fn flags_drop_undefined_bits() {
    assert_eq!(UF2Flags::from_bits_truncate(0xFFFF_FFFF).bits(), 0x0000_D001);
    assert_eq!(UF2Flags::from_bits_truncate(0x0000_2002).bits(), 0);
    assert_eq!(UF2Flags::from_bits_truncate(0x0000_5000).bits(), 0x0000_5000);
}

#[test]
fn flags_contain_what_was_set() {
    let flags = UF2Flags::from_bits_truncate(FILE_CONTAINER | MD5_CHECKSUM);
    assert!(flags.contains(FILE_CONTAINER));
    assert!(flags.contains(MD5_CHECKSUM));
    assert!(flags.contains(FILE_CONTAINER | MD5_CHECKSUM));
    assert!(!flags.contains(NOT_MAIN_FLASH));
    assert!(!flags.contains(FILE_CONTAINER | EXTENSION_TAGS));
    assert!(flags.contains(0));
}

#[test]
fn record_bytes_are_little_endian() {
    let mut data = [0u8; 476];
    data[0] = 0xAA;
    data[475] = 0xBB;
    let block = Uf2Block::new(
        UF2Flags::from_bits_truncate(0x0000_2000 | FILE_CONTAINER),
        0x1234_5678,
        0x0000_0100,
        0x0000_0002,
        0x0000_0003,
        0xE48B_FF56,
        data,
    );
    let bytes = block.to_bytes();
    assert_eq!(bytes.len(), 512);
    assert_eq!(&bytes[0..4], &[0x55, 0x46, 0x32, 0x0A]);
    assert_eq!(&bytes[4..8], &[0x57, 0x51, 0x5D, 0x9E]);
    assert_eq!(&bytes[8..12], &[0x00, 0x10, 0x00, 0x00]);
    assert_eq!(&bytes[12..16], &[0x78, 0x56, 0x34, 0x12]);
    assert_eq!(&bytes[16..20], &[0x00, 0x01, 0x00, 0x00]);
    assert_eq!(&bytes[20..24], &[0x02, 0x00, 0x00, 0x00]);
    assert_eq!(&bytes[24..28], &[0x03, 0x00, 0x00, 0x00]);
    assert_eq!(&bytes[28..32], &[0x56, 0xFF, 0x8B, 0xE4]);
    assert_eq!(bytes[32], 0xAA);
    assert_eq!(bytes[507], 0xBB);
    assert!(bytes[33..507].iter().all(|b| *b == 0));
    assert_eq!(&bytes[508..512], &[0x30, 0x6F, 0xB1, 0x0A]);
}

#[test]
fn record_is_read_from_hand_made_bytes() {
    let mut bytes = vec![0u8; 512];
    bytes[0..4].copy_from_slice(&[0x55, 0x46, 0x32, 0x0A]);
    bytes[4..8].copy_from_slice(&[0x57, 0x51, 0x5D, 0x9E]);
    bytes[8..12].copy_from_slice(&[0x01, 0xF0, 0xFF, 0xFF]);
    bytes[12..16].copy_from_slice(&[0x00, 0x01, 0x00, 0x10]);
    bytes[16..20].copy_from_slice(&[0x04, 0x00, 0x00, 0x00]);
    bytes[20..24].copy_from_slice(&[0x07, 0x00, 0x00, 0x00]);
    bytes[24..28].copy_from_slice(&[0x09, 0x01, 0x00, 0x00]);
    bytes[28..32].copy_from_slice(&[0x56, 0xFF, 0x8B, 0xE4]);
    bytes[32..36].copy_from_slice(&[1, 2, 3, 4]);
    bytes[507] = 0x99;
    bytes[508..512].copy_from_slice(&[0x30, 0x6F, 0xB1, 0x0A]);
    let block = Uf2Block::parse_uf2_block(&bytes).unwrap();
    assert_eq!(block.flags().bits(), 0x0000_D001);
    assert_eq!(block.target_addr(), 0x1000_0100);
    assert_eq!(block.payload_size(), 4);
    assert_eq!(block.block_num(), 7);
    assert_eq!(block.num_blocks(), 0x0000_0109);
    assert_eq!(block.family_id(), 0xE48B_FF56);
    assert_eq!(&block.data()[0..4], &[1, 2, 3, 4]);
    assert_eq!(block.data()[475], 0x99);
    assert_eq!(block.payload().unwrap(), &[1, 2, 3, 4]);
    assert!(block.is_well_formed());
}

#[test]
fn record_round_trips() {
    let mut data = [0u8; 476];
    for (i, b) in data.iter_mut().enumerate() {
        *b = (i * 7 + 3) as u8;
    }
    let block = Uf2Block::new(
        UF2Flags::from_bits_truncate(NOT_MAIN_FLASH | EXTENSION_TAGS),
        0xDEAD_BEEF,
        300,
        41,
        42,
        0x0102_0304,
        data,
    );
    let back = Uf2Block::parse_uf2_block(&block.to_bytes()).unwrap();
    assert_eq!(back.flags(), block.flags());
    assert_eq!(back.flags().bits(), NOT_MAIN_FLASH | EXTENSION_TAGS);
    assert_eq!(back.target_addr(), 0xDEAD_BEEF);
    assert_eq!(back.payload_size(), 300);
    assert_eq!(back.block_num(), 41);
    assert_eq!(back.num_blocks(), 42);
    assert_eq!(back.family_id(), 0x0102_0304);
    assert_eq!(back.data(), &data);
    assert_eq!(back.to_bytes(), block.to_bytes());
}

#[test]
fn record_round_trips_at_the_extremes() {
    let block = Uf2Block::new(
        UF2Flags::from_bits_truncate(KNOWN_FLAGS),
        u32::MAX,
        u32::MAX,
        u32::MAX,
        u32::MAX,
        u32::MAX,
        [0xFF; 476],
    );
    let back = Uf2Block::parse_uf2_block(&block.to_bytes()).unwrap();
    assert_eq!(back.flags().bits(), KNOWN_FLAGS);
    assert_eq!(back.target_addr(), u32::MAX);
    assert_eq!(back.payload_size(), u32::MAX);
    assert_eq!(back.block_num(), u32::MAX);
    assert_eq!(back.num_blocks(), u32::MAX);
    assert_eq!(back.family_id(), u32::MAX);
    assert_eq!(back.data(), &[0xFF; 476]);
    assert!(!back.is_well_formed());
    assert!(back.payload().is_none());
}

#[test]
fn clone_keeps_the_fields() {
    let block = record(3, 9, 0x1000_0300, &[5, 6, 7]);
    let copy = block.clone();
    assert_eq!(copy.to_bytes(), block.to_bytes());
}

#[test]
fn record_ignores_what_follows_it() {
    let mut bytes = record(0, 1, 0x2000_0000, &[9, 8, 7]).to_bytes();
    bytes.extend_from_slice(&[0xEE; 100]);
    let block = Uf2Block::parse_uf2_block(&bytes).unwrap();
    assert_eq!(block.payload().unwrap(), &[9, 8, 7]);
}

#[test]
fn bad_first_magic_is_reported() {
    let mut bytes = record(0, 1, 0x2000_0000, &[1]).to_bytes();
    put_word(&mut bytes, 0, 0x1122_3344);
    assert_eq!(
        Uf2Block::parse_uf2_block(&bytes).unwrap_err(),
        ParseError::BadMagicStart { expected: 0x0A32_4655, actual: 0x1122_3344 }
    );
}

#[test]
fn bad_second_magic_is_reported() {
    let mut bytes = record(0, 1, 0x2000_0000, &[1]).to_bytes();
    put_word(&mut bytes, 4, 0x9E5D_5156);
    assert_eq!(
        Uf2Block::parse_uf2_block(&bytes).unwrap_err(),
        ParseError::BadMagicStart { expected: 0x9E5D_5157, actual: 0x9E5D_5156 }
    );
}

#[test]
fn bad_end_magic_is_reported() {
    let mut bytes = record(0, 1, 0x2000_0000, &[1]).to_bytes();
    put_word(&mut bytes, 508, 0);
    assert_eq!(
        Uf2Block::parse_uf2_block(&bytes).unwrap_err(),
        ParseError::BadMagicEnd { expected: 0x0AB1_6F30, actual: 0 }
    );
}

#[test]
fn start_magic_is_judged_before_end_magic() {
    let mut bytes = record(0, 1, 0x2000_0000, &[1]).to_bytes();
    put_word(&mut bytes, 4, 1);
    put_word(&mut bytes, 508, 2);
    assert_eq!(
        Uf2Block::parse_uf2_block(&bytes).unwrap_err(),
        ParseError::BadMagicStart { expected: 0x9E5D_5157, actual: 1 }
    );
}

#[test]
fn short_input_is_truncated() {
    let bytes = record(0, 1, 0x2000_0000, &[1]).to_bytes();
    assert_eq!(Uf2Block::parse_uf2_block(&[]).unwrap_err(), ParseError::Truncated);
    assert_eq!(Uf2Block::parse_uf2_block(&bytes[..7]).unwrap_err(), ParseError::Truncated);
    assert_eq!(Uf2Block::parse_uf2_block(&bytes[..8]).unwrap_err(), ParseError::Truncated);
    assert_eq!(Uf2Block::parse_uf2_block(&bytes[..511]).unwrap_err(), ParseError::Truncated);
    assert!(Uf2Block::parse_uf2_block(&bytes[..512]).is_ok());
}

#[test]
fn start_magic_is_judged_before_length() {
    let mut bytes = record(0, 1, 0x2000_0000, &[1]).to_bytes();
    put_word(&mut bytes, 0, 7);
    assert_eq!(
        Uf2Block::parse_uf2_block(&bytes[..100]).unwrap_err(),
        ParseError::BadMagicStart { expected: 0x0A32_4655, actual: 7 }
    );
    assert_eq!(Uf2Block::parse_uf2_block(&bytes[..7]).unwrap_err(), ParseError::Truncated);
}

#[test]
fn numbered_stream_parses_and_verifies() {
    for n in [1u32, 2, 5, 17] {
        let file = UF2File::parse_file(&stream(n)).unwrap();
        assert_eq!(file.len(), n as usize);
        assert_eq!(file.blocks().len(), n as usize);
        for (i, block) in file.blocks().iter().enumerate() {
            assert_eq!(block.block_num(), i as u32);
            assert_eq!(block.num_blocks(), n);
            assert_eq!(block.target_addr(), 0x1000_0000 + 256 * i as u32);
            assert_eq!(block.payload().unwrap(), &vec![i as u8; 256][..]);
        }
        assert!(file.verify());
        let kept = UF2File::parse_file_with(&stream(n), CorruptionPolicy::KeepPrefix).unwrap();
        assert_eq!(kept.len(), n as usize);
        assert!(kept.verify());
    }
}

#[test]
fn empty_stream_is_an_empty_file() {
    assert_eq!(UF2File::parse_file(&[]).unwrap_err(), ParseError::EmptyFile);
    assert_eq!(
        UF2File::parse_file_with(&[], CorruptionPolicy::Reject).unwrap_err(),
        ParseError::EmptyFile
    );
    assert_eq!(
        UF2File::parse_file_with(&[], CorruptionPolicy::KeepPrefix).unwrap_err(),
        ParseError::EmptyFile
    );
}

#[test]
fn corrupt_start_magic_fails_the_stream() {
    for k in 0..4usize {
        let mut bytes = stream(4);
        put_word(&mut bytes, 512 * k, 0xBAD0_BAD0);
        assert_eq!(
            UF2File::parse_file(&bytes).unwrap_err(),
            ParseError::BadMagicStart { expected: 0x0A32_4655, actual: 0xBAD0_BAD0 }
        );
        let mut bytes = stream(4);
        put_word(&mut bytes, 512 * k + 4, 0xBAD1_BAD1);
        assert_eq!(
            UF2File::parse_file_with(&bytes, CorruptionPolicy::Reject).unwrap_err(),
            ParseError::BadMagicStart { expected: 0x9E5D_5157, actual: 0xBAD1_BAD1 }
        );
    }
}

#[test]
fn corrupt_start_magic_ends_a_kept_prefix() {
    for k in 1..4usize {
        let mut bytes = stream(4);
        put_word(&mut bytes, 512 * k, 0xBAD0_BAD0);
        let file = UF2File::parse_file_with(&bytes, CorruptionPolicy::KeepPrefix).unwrap();
        assert_eq!(file.len(), k);
        for (i, block) in file.blocks().iter().enumerate() {
            assert_eq!(block.block_num(), i as u32);
        }
        assert!(!file.verify());
    }
    let mut bytes = stream(4);
    put_word(&mut bytes, 0, 0xBAD0_BAD0);
    assert_eq!(
        UF2File::parse_file_with(&bytes, CorruptionPolicy::KeepPrefix).unwrap_err(),
        ParseError::EmptyFile
    );
}

#[test]
fn corrupt_end_magic_follows_the_policy() {
    let mut bytes = stream(3);
    put_word(&mut bytes, 512 + 508, 5);
    assert_eq!(
        UF2File::parse_file(&bytes).unwrap_err(),
        ParseError::BadMagicEnd { expected: 0x0AB1_6F30, actual: 5 }
    );
    let file = UF2File::parse_file_with(&bytes, CorruptionPolicy::KeepPrefix).unwrap();
    assert_eq!(file.len(), 1);
}

#[test]
fn short_tail_follows_the_policy() {
    let mut bytes = stream(2);
    bytes.extend_from_slice(&stream(1)[..300]);
    assert_eq!(UF2File::parse_file(&bytes).unwrap_err(), ParseError::Truncated);
    let file = UF2File::parse_file_with(&bytes, CorruptionPolicy::KeepPrefix).unwrap();
    assert_eq!(file.len(), 2);
    assert_eq!(UF2File::parse_file(&bytes[..3]).unwrap_err(), ParseError::Truncated);
    assert_eq!(
        UF2File::parse_file_with(&bytes[..3], CorruptionPolicy::KeepPrefix).unwrap_err(),
        ParseError::EmptyFile
    );
}

#[test]
fn total_payload_size_sums_declared_sizes() {
    let sizes = [4usize, 256, 476, 0, 1];
    let mut bytes = Vec::new();
    for (i, size) in sizes.iter().enumerate() {
        bytes.extend(record(i as u32, 5, 0x1000_0000, &vec![1u8; *size]).to_bytes());
    }
    let file = UF2File::parse_file(&bytes).unwrap();
    assert_eq!(file.total_payload_size(), 737);
    assert_eq!(file.len() * PAYLOAD_CAPACITY, 2380);
}

#[test]
fn total_payload_size_takes_sizes_as_declared() {
    let mut bytes = stream(2);
    put_word(&mut bytes, 16, 1000);
    put_word(&mut bytes, 512 + 16, u32::MAX);
    let file = UF2File::parse_file(&bytes).unwrap();
    assert_eq!(file.total_payload_size(), 1000 + u32::MAX as u128);
}

#[test]
fn shared_block_index_does_not_verify() {
    let mut bytes = Vec::new();
    bytes.extend(record(0, 3, 0x1000_0000, &[1]).to_bytes());
    bytes.extend(record(1, 3, 0x1000_0100, &[2]).to_bytes());
    bytes.extend(record(1, 3, 0x1000_0200, &[3]).to_bytes());
    let file = UF2File::parse_file(&bytes).unwrap();
    assert_eq!(file.len(), 3);
    assert!(!file.verify());

    let mut bytes = Vec::new();
    bytes.extend(record(0, 2, 0x1000_0000, &[1]).to_bytes());
    bytes.extend(record(0, 2, 0x1000_0100, &[2]).to_bytes());
    assert!(!UF2File::parse_file(&bytes).unwrap().verify());
}

#[test]
fn records_out_of_order_do_not_verify() {
    let mut bytes = Vec::new();
    bytes.extend(record(1, 2, 0x1000_0100, &[2]).to_bytes());
    bytes.extend(record(0, 2, 0x1000_0000, &[1]).to_bytes());
    assert!(!UF2File::parse_file(&bytes).unwrap().verify());
}

#[test]
fn differing_block_counts_do_not_verify() {
    let mut bytes = Vec::new();
    bytes.extend(record(0, 2, 0x1000_0000, &[1]).to_bytes());
    bytes.extend(record(1, 3, 0x1000_0100, &[2]).to_bytes());
    assert!(!UF2File::parse_file(&bytes).unwrap().verify());
}

#[test]
fn missing_records_do_not_verify() {
    let mut bytes = Vec::new();
    bytes.extend(record(0, 3, 0x1000_0000, &[1]).to_bytes());
    bytes.extend(record(1, 3, 0x1000_0100, &[2]).to_bytes());
    let file = UF2File::parse_file(&bytes).unwrap();
    assert!(!file.verify());
    let whole = UF2File::parse_file(&stream(3)).unwrap();
    assert!(whole.verify());
}

#[test]
fn well_formed_needs_index_below_count_and_size_in_buffer() {
    assert!(record(0, 1, 0, &[]).is_well_formed());
    assert!(record(4, 5, 0, &[0; 476]).is_well_formed());
    assert!(!record(5, 5, 0, &[1]).is_well_formed());
    assert!(!record(0, 0, 0, &[1]).is_well_formed());
    let mut bytes = record(0, 1, 0, &[1]).to_bytes();
    put_word(&mut bytes, 16, 477);
    let block = Uf2Block::parse_uf2_block(&bytes).unwrap();
    assert!(!block.is_well_formed());
    assert!(block.payload().is_none());
    put_word(&mut bytes, 16, 476);
    let block = Uf2Block::parse_uf2_block(&bytes).unwrap();
    assert!(block.is_well_formed());
    assert_eq!(block.payload().unwrap().len(), 476);
}
