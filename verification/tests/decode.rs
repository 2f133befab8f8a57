use chain_fusion::address::{u256_to_address, Address};
use chain_fusion::event::{DecodeError, LogField, LogRecord, NewJobEvent, SOURCE_CHAIN_ID};
use chain_fusion::outcome::compute_outcome;
use chain_fusion::word::Word;
use ethers_core::types::U256;

fn word(x: u64) -> Word {
    Word::from_u64(x)
}

fn sample_log() -> LogRecord {
    LogRecord {
        address: "0x5FbDB2315678afecb367f032d93F642f64180aa3".to_string(),
        topics: vec![
            "0x031ada964b8e520743eb9508d0ace62654b126430b7e5a92b42e78eebb61602e".to_string(),
            "0xaa36a7".to_string(),
            "0x000000000000000000000000AABBCCDDEEFF00112233445566778899AABBCCDD".to_string(),
            "0x07".to_string(),
        ],
        data: "0x2a".to_string(),
        transaction_hash: Some(
            "0x00000000000000000000000000000000000000000000000000000000000000ff".to_string(),
        ),
        log_index: Some(vec![0x01, 0x00]),
    }
}

fn sample_recipient() -> Address {
    Address {
        bytes: [
            0xaa, 0xbb, 0xcc, 0xdd, 0xee, 0xff, 0x00, 0x11, 0x22, 0x33, 0x44, 0x55, 0x66, 0x77,
            0x88, 0x99, 0xaa, 0xbb, 0xcc, 0xdd,
        ],
    }
}

#[test]
fn decodes_a_well_formed_log() {
    let event = NewJobEvent::from(&sample_log()).unwrap();
    assert_eq!(
        event,
        NewJobEvent {
            from_chain_id: word(SOURCE_CHAIN_ID),
            job_id: word(511),
            transaction_hash: word(255),
            log_index: word(256),
            coprocessor_balance: word(42),
            to_chain_id: word(11155111),
            receiver_address: sample_recipient(),
            value_in: word(7),
        }
    );
    assert_eq!(SOURCE_CHAIN_ID, 111);
}

#[test]
fn decoding_twice_gives_equal_events() {
    let first = NewJobEvent::from(&sample_log());
    let second = NewJobEvent::from(&sample_log().clone());
    assert_eq!(first, second);
    assert!(first.is_ok());
}

#[test]
fn decodes_a_full_width_transaction_hash() {
    let mut log = sample_log();
    log.transaction_hash = Some(
        "0x0123456789abcdef112233445566778899aabbccddeeff00fedcba9876543210".to_string(),
    );
    log.log_index = Some(vec![0x10]);
    let event = NewJobEvent::from(&log).unwrap();
    let hash = Word {
        limb3: 0x0123456789abcdef,
        limb2: 0x1122334455667788,
        limb1: 0x99aabbccddeeff00,
        limb0: 0xfedcba9876543210,
    };
    assert_eq!(event.transaction_hash, hash);
    assert_eq!(event.log_index, word(16));
    assert_eq!(event.job_id, Word { limb0: 0xfedcba9876543220, ..hash });
}

#[test]
fn job_id_carries_across_limbs() {
    let mut log = sample_log();
    log.transaction_hash = Some("0xffffffffffffffff".to_string());
    log.log_index = Some(vec![0x01]);
    let event = NewJobEvent::from(&log).unwrap();
    assert_eq!(event.job_id, Word { limb3: 0, limb2: 0, limb1: 1, limb0: 0 });
}

#[test]
fn hex_fields_take_both_cases_no_prefix_and_odd_lengths() {
    let mut log = sample_log();
    log.topics[1] = "AbC".to_string();
    log.topics[3] = "0xDEADbeef".to_string();
    log.data = "f".to_string();
    let event = NewJobEvent::from(&log).unwrap();
    assert_eq!(event.to_chain_id, word(0xabc));
    assert_eq!(event.value_in, word(0xdeadbeef));
    assert_eq!(event.coprocessor_balance, word(15));
}

#[test]
fn empty_hex_fields_are_zero() {
    let mut log = sample_log();
    log.topics[3] = "0x".to_string();
    log.data = "".to_string();
    let event = NewJobEvent::from(&log).unwrap();
    assert_eq!(event.value_in, word(0));
    assert_eq!(event.coprocessor_balance, word(0));
}

#[test]
fn empty_log_index_is_zero() {
    let mut log = sample_log();
    log.log_index = Some(vec![]);
    let event = NewJobEvent::from(&log).unwrap();
    assert_eq!(event.log_index, word(0));
    assert_eq!(event.job_id, word(255));
}

#[test]
fn log_index_of_32_bytes_is_read_big_endian() {
    let mut log = sample_log();
    let mut bytes = vec![0u8; 32];
    bytes[0] = 0x01;
    bytes[31] = 0x02;
    log.log_index = Some(bytes);
    log.transaction_hash = Some("0".to_string());
    let event = NewJobEvent::from(&log).unwrap();
    assert_eq!(
        event.log_index,
        Word { limb3: 0x0100000000000000, limb2: 0, limb1: 0, limb0: 2 }
    );
}

#[test]
fn topic_zero_is_not_read() {
    let mut log = sample_log();
    log.topics[0] = "not a signature".to_string();
    assert!(NewJobEvent::from(&log).is_ok());
}

#[test]
fn missing_transaction_hash_is_reported() {
    let mut log = sample_log();
    log.transaction_hash = None;
    assert_eq!(
        NewJobEvent::from(&log),
        Err(DecodeError::Missing(LogField::TransactionHash))
    );
}

#[test]
fn missing_log_index_is_reported() {
    let mut log = sample_log();
    log.log_index = None;
    assert_eq!(NewJobEvent::from(&log), Err(DecodeError::Missing(LogField::LogIndex)));
}

#[test]
fn missing_topics_are_reported_in_order() {
    let mut log = sample_log();
    log.topics.truncate(3);
    assert_eq!(NewJobEvent::from(&log), Err(DecodeError::Missing(LogField::ValueIn)));
    log.topics.truncate(2);
    assert_eq!(NewJobEvent::from(&log), Err(DecodeError::Missing(LogField::Recipient)));
    log.topics.truncate(1);
    assert_eq!(
        NewJobEvent::from(&log),
        Err(DecodeError::Missing(LogField::DestinationChain))
    );
    log.topics.clear();
    assert_eq!(
        NewJobEvent::from(&log),
        Err(DecodeError::Missing(LogField::DestinationChain))
    );
}

#[test]
fn malformed_hex_is_reported_with_its_field() {
    let mut log = sample_log();
    log.topics[2] = "0xzz".to_string();
    assert_eq!(NewJobEvent::from(&log), Err(DecodeError::MalformedHex(LogField::Recipient)));

    let mut log = sample_log();
    log.data = "0x12\u{e9}4".to_string();
    assert_eq!(
        NewJobEvent::from(&log),
        Err(DecodeError::MalformedHex(LogField::AuxiliaryBalance))
    );

    let mut log = sample_log();
    log.transaction_hash = Some("0X12".to_string());
    assert_eq!(
        NewJobEvent::from(&log),
        Err(DecodeError::MalformedHex(LogField::TransactionHash))
    );

    let mut log = sample_log();
    log.topics[1] = "0x0x12".to_string();
    assert_eq!(
        NewJobEvent::from(&log),
        Err(DecodeError::MalformedHex(LogField::DestinationChain))
    );

    let mut log = sample_log();
    log.topics[3] = " 7".to_string();
    assert_eq!(NewJobEvent::from(&log), Err(DecodeError::MalformedHex(LogField::ValueIn)));
}

#[test]
fn malformed_hex_wins_over_width() {
    let mut log = sample_log();
    log.topics[3] = format!("0x{}g", "0".repeat(70));
    assert_eq!(NewJobEvent::from(&log), Err(DecodeError::MalformedHex(LogField::ValueIn)));
}

#[test]
fn too_wide_fields_are_reported() {
    let mut log = sample_log();
    log.topics[3] = format!("0x{}", "0".repeat(65));
    assert_eq!(NewJobEvent::from(&log), Err(DecodeError::WrongWidth(LogField::ValueIn)));

    let mut log = sample_log();
    log.topics[3] = format!("0x{}", "f".repeat(64));
    assert_eq!(
        NewJobEvent::from(&log).unwrap().value_in,
        Word { limb3: u64::MAX, limb2: u64::MAX, limb1: u64::MAX, limb0: u64::MAX }
    );

    let mut log = sample_log();
    log.log_index = Some(vec![0u8; 33]);
    assert_eq!(NewJobEvent::from(&log), Err(DecodeError::WrongWidth(LogField::LogIndex)));
}

#[test]
fn the_first_bad_field_is_the_one_reported() {
    let mut log = sample_log();
    log.transaction_hash = Some("xyz".to_string());
    log.log_index = None;
    log.topics.clear();
    log.data = "?".to_string();
    assert_eq!(
        NewJobEvent::from(&log),
        Err(DecodeError::MalformedHex(LogField::TransactionHash))
    );
    log.transaction_hash = Some("12".to_string());
    assert_eq!(NewJobEvent::from(&log), Err(DecodeError::Missing(LogField::LogIndex)));
}

#[test]
fn job_id_overflow_is_reported() {
    let mut log = sample_log();
    log.transaction_hash = Some(format!("0x{}", "f".repeat(64)));
    log.log_index = Some(vec![0x01]);
    assert_eq!(NewJobEvent::from(&log), Err(DecodeError::JobIdOverflow));
    log.log_index = Some(vec![0x00]);
    assert!(NewJobEvent::from(&log).is_ok());
}

#[test]
fn address_keeps_the_low_20_bytes() {
    let value = Word {
        limb3: 0x0000000000000000,
        limb2: 0x00000000aabbccdd,
        limb1: 0xeeff001122334455,
        limb0: 0x66778899aabbccdd,
    };
    assert_eq!(u256_to_address(value), sample_recipient());
}

#[test]
fn address_drops_the_high_12_bytes() {
    let value = Word {
        limb3: 0x0102030405060708,
        limb2: 0x090a0b0caabbccdd,
        limb1: 0xeeff001122334455,
        limb0: 0x66778899aabbccdd,
    };
    assert_eq!(u256_to_address(value), sample_recipient());
    let mut log = sample_log();
    log.topics[2] =
        "0x0102030405060708090a0b0caabbccddeeff00112233445566778899aabbccdd".to_string();
    assert_eq!(NewJobEvent::from(&log).unwrap().receiver_address, sample_recipient());
}

#[test]
fn address_of_small_numbers() {
    assert_eq!(u256_to_address(word(0)), Address { bytes: [0u8; 20] });
    let mut one = [0u8; 20];
    one[19] = 1;
    assert_eq!(u256_to_address(word(1)), Address { bytes: one });
    let mut top = [0u8; 20];
    top[0] = 0x80;
    assert_eq!(
        u256_to_address(Word { limb3: 7, limb2: 0x80000000, limb1: 0, limb0: 0 }),
        Address { bytes: top }
    );
}

#[test]
fn outcome_is_half_of_the_input_rounded_down() {
    assert_eq!(compute_outcome(word(7), word(0), word(111), word(1)), word(3));
    assert_eq!(compute_outcome(word(8), word(99), word(1), word(2)), word(4));
    assert_eq!(compute_outcome(word(1), word(5), word(1), word(2)), word(0));
    assert_eq!(compute_outcome(word(0), word(5), word(1), word(2)), word(0));
}

#[test]
fn outcome_depends_on_the_input_value_alone() {
    let a = compute_outcome(word(1000), word(1), word(2), word(3));
    let b = compute_outcome(word(1000), word(4), word(5), word(6));
    assert_eq!(a, b);
    assert_eq!(a, compute_outcome(word(1000), word(1), word(2), word(3)));
}

#[test]
fn outcome_of_a_wide_value_shifts_across_limbs() {
    let value = Word { limb3: 1, limb2: 0, limb1: 1, limb0: 1 };
    assert_eq!(
        compute_outcome(value, word(0), word(0), word(0)),
        Word { limb3: 0, limb2: 0x8000000000000000, limb1: 0, limb0: 0x8000000000000000 }
    );
}

#[test]
fn words_are_ordered_by_value() {
    let small = Word { limb3: 0, limb2: 0, limb1: 0, limb0: u64::MAX };
    let large = Word { limb3: 0, limb2: 0, limb1: 1, limb0: 0 };
    assert!(small < large);
    assert!(word(3) < word(4));
    assert!(U256([u64::MAX, 0, 0, 0]) < U256([0, 1, 0, 0]));
    assert_eq!(Word::zero(), word(0));
}
