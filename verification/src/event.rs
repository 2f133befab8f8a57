//! Decoding of a raw chain log into a job event.
//!
//! Every record that reaches the decoder was selected upstream by the
//! signature of the job-submission event, so the decoder extracts fields and
//! checks their shape; it does not look at the signature topic.

use crate::address::{u256_to_address, Address};
use crate::word::{
    all_hex_digits, be_bytes, be_value, hex_body, hex_value, is_hex_digit, is_hex_word,
    u256_checked_add, u256_from_big_endian, u256_from_hex, word_modulus, Word,
};
use vstd::prelude::*;
use vstd::string::*;

verus! {

/// The chain whose logs the relay listens to.
pub const SOURCE_CHAIN_ID: u64 = 111;

/// A raw log record as the log subscription delivers it.
#[derive(Clone, Debug, PartialEq, Eq)]
pub struct LogRecord {
    /// The contract that emitted the log.
    pub address: String,
    /// The indexed topics, hexadecimal. Topic 0 is the event signature,
    /// topic 1 the destination chain, topic 2 the recipient and topic 3 the
    /// input value.
    pub topics: Vec<String>,
    /// The payload, hexadecimal: the auxiliary balance.
    pub data: String,
    /// The hash of the transaction that emitted the log, hexadecimal.
    pub transaction_hash: Option<String>,
    /// The position of the log in its block, as big-endian bytes.
    pub log_index: Option<Vec<u8>>,
}

/// The fields that the decoder reads, in the order in which it reads them.
#[derive(Clone, Copy, Debug, PartialEq, Eq, Structural)]
pub enum LogField {
    TransactionHash,
    LogIndex,
    DestinationChain,
    Recipient,
    ValueIn,
    AuxiliaryBalance,
}

/// Why a log record could not be decoded.
#[derive(Clone, Copy, Debug, PartialEq, Eq, Structural)]
pub enum DecodeError {
    /// The record does not have the field.
    Missing(LogField),
    /// The field holds a character that is not a hexadecimal digit.
    MalformedHex(LogField),
    /// The field is wider than 256 bits.
    WrongWidth(LogField),
    /// Transaction hash and log index do not add up to a 256-bit job id.
    JobIdOverflow,
}

/// A job decoded from one log record.
#[derive(Clone, Copy, Debug, PartialEq, Eq, PartialOrd, Ord)]
pub struct NewJobEvent {
    /// The chain on which the job was submitted.
    pub from_chain_id: Word,
    /// The identity of the job: transaction hash plus log index.
    pub job_id: Word,
    pub transaction_hash: Word,
    pub log_index: Word,
    /// The auxiliary balance carried in the payload.
    pub coprocessor_balance: Word,
    /// The chain on which the result is delivered.
    pub to_chain_id: Word,
    /// The account that receives the result.
    pub receiver_address: Address,
    /// The amount attached to the job.
    pub value_in: Word,
}

/// What a job event denotes: its numbers, and the bytes of the recipient.
pub struct JobEventModel {
    pub from_chain_id: nat,
    pub job_id: nat,
    pub transaction_hash: nat,
    pub log_index: nat,
    pub coprocessor_balance: nat,
    pub to_chain_id: nat,
    pub receiver_address: Seq<u8>,
    pub value_in: nat,
}

impl View for NewJobEvent {
    type V = JobEventModel;

    open spec fn view(&self) -> JobEventModel {
        JobEventModel {
            from_chain_id: self.from_chain_id@,
            job_id: self.job_id@,
            transaction_hash: self.transaction_hash@,
            log_index: self.log_index@,
            coprocessor_balance: self.coprocessor_balance@,
            to_chain_id: self.to_chain_id@,
            receiver_address: self.receiver_address@,
            value_in: self.value_in@,
        }
    }
}

/// The number that a hexadecimal field denotes, or what is wrong with it.
pub open spec fn hex_field(text: Seq<char>, field: LogField) -> Result<nat, DecodeError> {
    if !all_hex_digits(hex_body(text)) {
        Err(DecodeError::MalformedHex(field))
    } else if hex_body(text).len() > 64 {
        Err(DecodeError::WrongWidth(field))
    } else {
        Ok(hex_value(hex_body(text)))
    }
}

/// The number in topic `index` of the record.
pub open spec fn topic_field(log: &LogRecord, index: int, field: LogField) -> Result<
    nat,
    DecodeError,
> {
    if log.topics@.len() <= index {
        Err(DecodeError::Missing(field))
    } else {
        hex_field(log.topics@[index]@, field)
    }
}

/// The transaction hash of the record.
pub open spec fn transaction_hash_field(log: &LogRecord) -> Result<nat, DecodeError> {
    match log.transaction_hash {
        None => Err(DecodeError::Missing(LogField::TransactionHash)),
        Some(text) => hex_field(text@, LogField::TransactionHash),
    }
}

/// The log index of the record.
pub open spec fn log_index_field(log: &LogRecord) -> Result<nat, DecodeError> {
    match log.log_index {
        None => Err(DecodeError::Missing(LogField::LogIndex)),
        Some(bytes) => if bytes@.len() > 32 {
            Err(DecodeError::WrongWidth(LogField::LogIndex))
        } else {
            Ok(be_value(bytes@))
        },
    }
}

/// The event that a record decodes to, or the first thing wrong with it, the
/// fields taken in the order of [`LogField`].
pub open spec fn decode_log(log: &LogRecord) -> Result<JobEventModel, DecodeError> {
    match transaction_hash_field(log) {
        Err(e) => Err(e),
        Ok(transaction_hash) => match log_index_field(log) {
            Err(e) => Err(e),
            Ok(log_index) => if transaction_hash + log_index >= word_modulus() {
                Err(DecodeError::JobIdOverflow)
            } else {
                match topic_field(log, 1, LogField::DestinationChain) {
                    Err(e) => Err(e),
                    Ok(to_chain_id) => match topic_field(log, 2, LogField::Recipient) {
                        Err(e) => Err(e),
                        Ok(recipient) => match topic_field(log, 3, LogField::ValueIn) {
                            Err(e) => Err(e),
                            Ok(value_in) => match hex_field(
                                log.data@,
                                LogField::AuxiliaryBalance,
                            ) {
                                Err(e) => Err(e),
                                Ok(coprocessor_balance) => Ok(
                                    JobEventModel {
                                        from_chain_id: SOURCE_CHAIN_ID as nat,
                                        job_id: transaction_hash + log_index,
                                        transaction_hash,
                                        log_index,
                                        coprocessor_balance,
                                        to_chain_id,
                                        receiver_address: be_bytes(recipient, 20),
                                        value_in,
                                    },
                                ),
                            },
                        },
                    },
                }
            },
        },
    }
}

/// True when the record has every field in its expected shape: a
/// transaction hash, a log index of at most 32 bytes, at least four topics,
/// every hexadecimal field a numeral of at most 256 bits, and a job id that
/// fits in 256 bits.
pub open spec fn is_well_formed(log: &LogRecord) -> bool {
    &&& log.transaction_hash matches Some(hash) && is_hex_word(hash@)
    &&& log.log_index matches Some(bytes) && bytes@.len() <= 32
    &&& hex_value(hex_body(log.transaction_hash->0@)) + be_value(log.log_index->0@)
        < word_modulus()
    &&& log.topics@.len() >= 4
    &&& is_hex_word(log.topics@[1]@)
    &&& is_hex_word(log.topics@[2]@)
    &&& is_hex_word(log.topics@[3]@)
    &&& is_hex_word(log.data@)
}

/// Decoding succeeds on exactly the well-formed records.
pub proof fn lemma_decode_total(log: &LogRecord)
    ensures
        decode_log(log) is Ok <==> is_well_formed(log),
{
}

/// True when two records hold the same text in every field that the
/// decoder reads.
pub open spec fn same_fields(a: &LogRecord, b: &LogRecord) -> bool {
    &&& a.transaction_hash is Some == b.transaction_hash is Some
    &&& a.transaction_hash is Some ==> a.transaction_hash->0@ == b.transaction_hash->0@
    &&& a.log_index is Some == b.log_index is Some
    &&& a.log_index is Some ==> a.log_index->0@ == b.log_index->0@
    &&& a.topics@.len() == b.topics@.len()
    &&& forall|i: int| 0 <= i < a.topics@.len() ==> (#[trigger] a.topics@[i])@ == b.topics@[i]@
    &&& a.data@ == b.data@
}

/// Decoding depends on the text of the record alone: two records with the
/// same fields decode to the same event, or fail with the same error.
pub proof fn lemma_decode_deterministic(a: &LogRecord, b: &LogRecord)
    requires
        same_fields(a, b),
    ensures
        decode_log(a) == decode_log(b),
{
    if a.topics@.len() > 1 {
        assert(a.topics@[1]@ == b.topics@[1]@);
    }
    if a.topics@.len() > 2 {
        assert(a.topics@[2]@ == b.topics@[2]@);
    }
    if a.topics@.len() > 3 {
        assert(a.topics@[3]@ == b.topics@[3]@);
    }
}

/// Two events that denote the same are the same event.
pub proof fn lemma_event_view_injective(a: NewJobEvent, b: NewJobEvent)
    requires
        a@ == b@,
    ensures
        a == b,
{
    a.from_chain_id.lemma_view_injective(b.from_chain_id);
    a.job_id.lemma_view_injective(b.job_id);
    a.transaction_hash.lemma_view_injective(b.transaction_hash);
    a.log_index.lemma_view_injective(b.log_index);
    a.coprocessor_balance.lemma_view_injective(b.coprocessor_balance);
    a.to_chain_id.lemma_view_injective(b.to_chain_id);
    a.value_in.lemma_view_injective(b.value_in);
    assert(a.receiver_address.bytes =~= b.receiver_address.bytes);
}

/// The view of a decoding result.
pub open spec fn decoded_view(r: Result<NewJobEvent, DecodeError>) -> Result<
    JobEventModel,
    DecodeError,
> {
    match r {
        Ok(event) => Ok(event@),
        Err(e) => Err(e),
    }
}

/// True for the bytes of the ASCII characters `0`-`9`, `a`-`f` and `A`-`F`.
fn is_hex_byte(b: u8) -> (r: bool)
    ensures
        r == is_hex_digit(b as char),
{
    (0x30 <= b && b <= 0x39) || (0x61 <= b && b <= 0x66) || (0x41 <= b && b <= 0x46)
}

/// Whether the text, without one leading `0x`, holds hexadecimal digits only.
fn has_only_hex_digits(text: &str) -> (r: bool)
    ensures
        r == all_hex_digits(hex_body(text@)),
{
    if !text.is_ascii() {
        proof {
            let i = choose|i: int|
                0 <= i < text@.len() && !('\0' <= #[trigger] text@[i] && text@[i] <= '\u{7f}');
            if hex_body(text@).len() != text@.len() {
                assert(hex_body(text@)[i - 2] == text@[i]);
            } else {
                assert(hex_body(text@)[i] == text@[i]);
            }
        }
        return false;
    }
    let bytes = text.as_bytes();
    proof {
        is_ascii_spec_bytes(text);
    }
    let n = bytes.len();
    let start: usize = if n >= 2 && bytes[0] == 0x30 && bytes[1] == 0x78 {
        2
    } else {
        0
    };
    assert(hex_body(text@) =~= text@.subrange(start as int, n as int));
    let mut i: usize = start;
    while i < n
        invariant
            start <= i <= n,
            n == text@.len(),
            bytes@.len() == n,
            is_ascii(text),
            forall|k: int| 0 <= k < n ==> bytes@[k] == text@[k] as u8,
            hex_body(text@) == text@.subrange(start as int, n as int),
            forall|k: int| start <= k < i ==> is_hex_digit(text@[k]),
        decreases n - i,
    {
        if !is_hex_byte(bytes[i]) {
            assert(hex_body(text@)[i - start] == text@[i as int]);
            assert(text@[i as int] as u8 as char == text@[i as int]);
            return false;
        }
        assert(text@[i as int] as u8 as char == text@[i as int]);
        i += 1;
    }
    true
}

/// Decodes one hexadecimal field.
fn decode_hex(text: &str, field: LogField) -> (r: Result<Word, DecodeError>)
    ensures
        match r {
            Ok(w) => hex_field(text@, field) == Ok::<nat, DecodeError>(w@),
            Err(e) => hex_field(text@, field) == Err::<nat, DecodeError>(e),
        },
{
    match u256_from_hex(text) {
        Some(w) => Ok(w),
        None => {
            if has_only_hex_digits(text) {
                Err(DecodeError::WrongWidth(field))
            } else {
                Err(DecodeError::MalformedHex(field))
            }
        },
    }
}

/// Decodes topic `index` of the record.
fn decode_topic(log: &LogRecord, index: usize, field: LogField) -> (r: Result<Word, DecodeError>)
    ensures
        match r {
            Ok(w) => topic_field(log, index as int, field) == Ok::<nat, DecodeError>(w@),
            Err(e) => topic_field(log, index as int, field) == Err::<nat, DecodeError>(e),
        },
{
    if log.topics.len() <= index {
        Err(DecodeError::Missing(field))
    } else {
        decode_hex(log.topics[index].as_str(), field)
    }
}

impl NewJobEvent {
    /// Decodes a log record into a job event, or says which field is the
    /// first that is missing, malformed or too wide.
    pub fn from(entry: &LogRecord) -> (r: Result<NewJobEvent, DecodeError>)
        ensures
            decoded_view(r) == decode_log(entry),
    {
        let from_chain_id = Word::from_u64(SOURCE_CHAIN_ID);
        let transaction_hash = match &entry.transaction_hash {
            None => {
                return Err(DecodeError::Missing(LogField::TransactionHash));
            },
            Some(text) => match decode_hex(text.as_str(), LogField::TransactionHash) {
                Err(e) => {
                    return Err(e);
                },
                Ok(w) => w,
            },
        };
        let log_index = match &entry.log_index {
            None => {
                return Err(DecodeError::Missing(LogField::LogIndex));
            },
            Some(bytes) => {
                if bytes.len() > 32 {
                    return Err(DecodeError::WrongWidth(LogField::LogIndex));
                }
                u256_from_big_endian(bytes.as_slice())
            },
        };
        let job_id = match u256_checked_add(transaction_hash, log_index) {
            None => {
                return Err(DecodeError::JobIdOverflow);
            },
            Some(w) => w,
        };
        let to_chain_id = match decode_topic(entry, 1, LogField::DestinationChain) {
            Err(e) => {
                return Err(e);
            },
            Ok(w) => w,
        };
        let receiver_address = match decode_topic(entry, 2, LogField::Recipient) {
            Err(e) => {
                return Err(e);
            },
            Ok(w) => u256_to_address(w),
        };
        let value_in = match decode_topic(entry, 3, LogField::ValueIn) {
            Err(e) => {
                return Err(e);
            },
            Ok(w) => w,
        };
        let coprocessor_balance = match decode_hex(
            entry.data.as_str(),
            LogField::AuxiliaryBalance,
        ) {
            Err(e) => {
                return Err(e);
            },
            Ok(w) => w,
        };
        Ok(
            NewJobEvent {
                from_chain_id,
                job_id,
                transaction_hash,
                log_index,
                coprocessor_balance,
                to_chain_id,
                receiver_address,
                value_in,
            },
        )
    }
}

} // verus!
