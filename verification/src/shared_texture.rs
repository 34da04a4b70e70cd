//! Identifiers and acquisition outcomes of the cross-process texture mailbox.
//!
//! Two keys take turns: the producer publishes under one, the consumer reads under the other.
use vstd::prelude::*;
use crate::text;

verus! {

/// Mutex key granting the capture worker permission to publish a frame.
pub const PRODUCER_KEY: u64 = 0;

/// Mutex key granting the encoder worker permission to consume a frame.
pub const CONSUMER_KEY: u64 = 1;

/// Exit code of a worker whose shared resources have to be created anew.
pub const RESOURCE_GENERATION_LOST_EXIT_CODE: i32 = 75;

/// The exit code of a failed worker: losing the shared resources of a managed worker asks for
/// complete recovery, everything else is an ordinary failure.
pub fn worker_exit_code(managed: bool, generation_lost: bool) -> (code: i32)
    ensures
        code == if managed && generation_lost {
            RESOURCE_GENERATION_LOST_EXIT_CODE
        } else {
            1
        },
{
    if managed && generation_lost {
        RESOURCE_GENERATION_LOST_EXIT_CODE
    } else {
        1
    }
}

/// The two words of an adapter identifier as the system reports them.
#[derive(Debug, Clone, Copy, PartialEq, Eq, Structural)]
pub struct Luid {
    pub low_part: u32,
    pub high_part: i32,
}

/// The bits of a signed word, read as an unsigned one.
pub open spec fn unsigned_word(word: i32) -> int {
    if word < 0 {
        word + 0x1_0000_0000
    } else {
        word as int
    }
}

/// Stable command-line representation of an adapter identifier.
#[derive(Debug, Clone, Copy, PartialEq, Eq, Hash)]
pub struct AdapterLuid(u64);

impl View for AdapterLuid {
    type V = u64;

    closed spec fn view(&self) -> u64 {
        self.0
    }
}

impl AdapterLuid {
    /// Converts the two-part identifier without losing the signed high word.
    pub fn from_raw(luid: Luid) -> (id: AdapterLuid)
        ensures
            id@ == unsigned_word(luid.high_part) * 0x1_0000_0000 + luid.low_part,
    {
        let high: i64 = luid.high_part as i64;
        let word: u64 = if high < 0 {
            (high + 0x1_0000_0000) as u64
        } else {
            high as u64
        };
        AdapterLuid(word * 0x1_0000_0000 + luid.low_part as u64)
    }

    /// Reconstructs the two-part identifier.
    pub fn as_raw(self) -> (luid: Luid)
        ensures
            unsigned_word(luid.high_part) == self@ as int / 0x1_0000_0000,
            luid.low_part == self@ as int % 0x1_0000_0000,
    {
        let word: u64 = self.0 / 0x1_0000_0000;
        let high: i32 = if word >= 0x8000_0000 {
            (word as i64 - 0x1_0000_0000) as i32
        } else {
            word as i32
        };
        Luid { low_part: (self.0 % 0x1_0000_0000) as u32, high_part: high }
    }

    /// Returns the opaque 64-bit value suitable for diagnostics and CLI transport.
    pub fn value(self) -> (value: u64)
        ensures
            value == self@,
    {
        self.0
    }

    /// Formats the identifier as `0x` and sixteen upper-case hexadecimal digits.
    pub fn format(self) -> (text: String)
        ensures
            text@ == "0x"@ + text::hex_upper(self@ as nat, 16),
    {
        let mut text = "0x".to_owned();
        text::push_hex_upper(&mut text, self.0, 16);
        text
    }

    /// Parses a decimal or `0x`-prefixed hexadecimal value; zero is refused.
    pub fn parse(value: &str) -> (result: Result<AdapterLuid, String>)
        ensures
            match result {
                Ok(id) => parsed_nonzero(value@, "adapter LUID"@) == Ok::<u64, Seq<char>>(id@),
                Err(message) => parsed_nonzero(value@, "adapter LUID"@) == Err::<u64, Seq<char>>(
                    message@,
                ),
            },
    {
        match parse_nonzero_u64(value, "adapter LUID") {
            Ok(parsed) => Ok(AdapterLuid(parsed)),
            Err(message) => Err(message),
        }
    }
}

/// Converting an identifier to its words and back, in either direction, changes nothing.
pub proof fn law_luid_words_round_trip(luid: Luid, value: u64)
    ensures
        ({
            let packed = unsigned_word(luid.high_part) * 0x1_0000_0000 + luid.low_part;
            &&& 0 <= packed <= u64::MAX
            &&& packed / 0x1_0000_0000 == unsigned_word(luid.high_part)
            &&& packed % 0x1_0000_0000 == luid.low_part
        }),
        value as int / 0x1_0000_0000 * 0x1_0000_0000 + value as int % 0x1_0000_0000 == value,
{
}

impl std::str::FromStr for AdapterLuid {
    type Err = String;

    fn from_str(value: &str) -> (result: Result<AdapterLuid, String>) {
        AdapterLuid::parse(value)
    }
}

/// Copyable command-line representation of an inherited handle.
#[derive(Debug, Clone, Copy, PartialEq, Eq, Hash)]
pub struct SharedHandleValue(usize);

impl View for SharedHandleValue {
    type V = usize;

    closed spec fn view(&self) -> usize {
        self.0
    }
}

impl SharedHandleValue {
    /// Returns the numeric value used in worker arguments.
    pub fn value(self) -> (value: usize)
        ensures
            value == self@,
    {
        self.0
    }

    /// Parses a decimal or `0x`-prefixed hexadecimal value; zero, and what the process cannot
    /// address, is refused.
    pub fn parse(value: &str) -> (result: Result<SharedHandleValue, String>)
        ensures
            match (result, parsed_nonzero(value@, "shared texture handle"@)) {
                (Ok(handle), parsed) => parsed == Ok::<u64, Seq<char>>(handle@ as u64),
                (Err(message), Err(expected)) => message@ == expected,
                (Err(message), Ok(parsed)) => parsed > usize::MAX && message@
                    == "shared texture handle '"@ + value@ + "' does not fit this process"@,
            },
    {
        match parse_nonzero_u64(value, "shared texture handle") {
            Ok(parsed) => {
                if parsed as u128 > usize::MAX as u128 {
                    let mut message = "shared texture handle '".to_owned();
                    text::push_text(&mut message, value);
                    text::push_text(&mut message, "' does not fit this process");
                    return Err(message);
                }
                Ok(SharedHandleValue(parsed as usize))
            },
            Err(message) => Err(message),
        }
    }
}

impl std::str::FromStr for SharedHandleValue {
    type Err = String;

    fn from_str(value: &str) -> (result: Result<SharedHandleValue, String>) {
        SharedHandleValue::parse(value)
    }
}

/// The non-zero number that a command-line value spells, or why it is refused.
pub open spec fn parsed_nonzero(value: Seq<char>, label: Seq<char>) -> Result<u64, Seq<char>> {
    match text::marked_number(value) {
        Err(error) => Err("invalid "@ + label + " '"@ + value + "': "@ + error.text()),
        Ok(parsed) => if parsed == 0 {
            Err(label + " must be non-zero"@)
        } else {
            Ok(parsed as u64)
        },
    }
}

/// What a supervisor puts on a command line, an identifier in hexadecimal or a handle in decimal,
/// the worker reads back.
pub proof fn law_emitted_values_are_parsed(value: u64, label: Seq<char>)
    requires
        value != 0,
    ensures
        parsed_nonzero("0x"@ + text::hex_upper(value as nat, 16), label) == Ok::<u64, Seq<char>>(
            value,
        ),
        parsed_nonzero(text::decimal(value as nat), label) == Ok::<u64, Seq<char>>(value),
{
    text::law_hexadecimals_are_read_back(value as nat);
    text::law_decimals_are_read_back(value as nat);
}

/// Parses a non-zero decimal or `0x`-prefixed command-line integer.
pub fn parse_nonzero_u64(value: &str, label: &str) -> (result: Result<u64, String>)
    ensures
        match result {
            Ok(parsed) => parsed_nonzero(value@, label@) == Ok::<u64, Seq<char>>(parsed),
            Err(message) => parsed_nonzero(value@, label@) == Err::<u64, Seq<char>>(message@),
        },
{
    match text::parse_marked(value) {
        Err(error) => {
            let mut message = "invalid ".to_owned();
            text::push_text(&mut message, label);
            text::push_text(&mut message, " '");
            text::push_text(&mut message, value);
            text::push_text(&mut message, "': ");
            text::push_text(&mut message, error.message());
            Err(message)
        },
        Ok(parsed) => {
            if parsed == 0 {
                let mut message = label.to_owned();
                text::push_text(&mut message, " must be non-zero");
                Err(message)
            } else {
                Ok(parsed)
            }
        },
    }
}

/// Outcome of one keyed-mutex acquisition attempt.
#[derive(Debug, Clone, Copy, PartialEq, Eq, Hash, Structural)]
pub enum AcquireStatus {
    /// The caller owns the shared texture until it releases the next key.
    Acquired,
    /// The requested key was unavailable before the caller's timeout.
    Timeout,
    /// The prior owner exited without releasing, invalidating this generation.
    Abandoned,
}

/// Status of a wait that ended with ownership.
pub const WAIT_OBJECT_0: u32 = 0;

/// Status of a wait whose previous owner never released.
pub const WAIT_ABANDONED: u32 = 0x80;

/// Status of a wait that ran out of time.
pub const WAIT_TIMEOUT: u32 = 0x102;

impl AcquireStatus {
    /// Classifies the raw status of an acquisition; other statuses are handed back.
    pub fn from_status(status: u32) -> (result: Result<AcquireStatus, u32>)
        ensures
            result == if status == WAIT_OBJECT_0 {
                Ok::<AcquireStatus, u32>(AcquireStatus::Acquired)
            } else if status == WAIT_TIMEOUT {
                Ok(AcquireStatus::Timeout)
            } else if status == WAIT_ABANDONED {
                Ok(AcquireStatus::Abandoned)
            } else {
                Err(status)
            },
    {
        if status == WAIT_OBJECT_0 {
            Ok(AcquireStatus::Acquired)
        } else if status == WAIT_TIMEOUT {
            Ok(AcquireStatus::Timeout)
        } else if status == WAIT_ABANDONED {
            Ok(AcquireStatus::Abandoned)
        } else {
            Err(status)
        }
    }
}

/// A worker asks for complete recovery, with code 75, exactly if it is managed and lost the shared
/// resources.
pub proof fn law_lost_resources_have_their_code(managed: bool, lost: bool, code: i32)
    requires
        call_ensures(worker_exit_code, (managed, lost), code),
    ensures
        managed && lost ==> code == 75,
        !managed || !lost ==> code == 1,
{
}

/// An identifier keeps both its words, written as `0x` and sixteen digits it is parsed to itself,
/// and so is a handle written in decimal.
pub proof fn law_identifiers_survive_the_command_line(
    luid: Luid,
    id: AdapterLuid,
    raw: Luid,
    text: String,
    slice: &str,
    result: Result<AdapterLuid, String>,
    handle: usize,
    written: &str,
    parsed: Result<SharedHandleValue, String>,
)
    requires
        luid.low_part != 0,
        call_ensures(AdapterLuid::from_raw, (luid,), id),
        call_ensures(AdapterLuid::as_raw, (id,), raw),
        call_ensures(AdapterLuid::format, (id,), text),
        slice@ == text@,
        call_ensures(AdapterLuid::parse, (slice,), result),
        handle != 0,
        written@ == text::decimal(handle as nat),
        call_ensures(SharedHandleValue::parse, (written,), parsed),
    ensures
        raw == luid,
        result is Ok && result->Ok_0@ == id@,
        parsed is Ok && parsed->Ok_0@ == handle,
{
    law_luid_words_round_trip(luid, id@);
    law_emitted_values_are_parsed(id@, "adapter LUID"@);
    law_emitted_values_are_parsed(handle as u64, "shared texture handle"@);
}

/// Zero is neither an identifier nor a handle.
pub proof fn law_zero_is_refused(
    value: &str,
    label: &str,
    number: Result<u64, String>,
    id: Result<AdapterLuid, String>,
    handle: Result<SharedHandleValue, String>,
)
    requires
        call_ensures(parse_nonzero_u64, (value, label), number),
        call_ensures(AdapterLuid::parse, (value,), id),
        call_ensures(SharedHandleValue::parse, (value,), handle),
    ensures
        number matches Ok(number) ==> number != 0,
        id matches Ok(id) ==> id@ != 0 && number is Ok && number->Ok_0 == id@,
        handle matches Ok(handle) ==> handle@ != 0 && number is Ok && number->Ok_0 == handle@,
        number is Ok ==> id is Ok,
{
}

/// Of the statuses of an acquisition, zero owns the texture, 0x102 came too late and 0x80 finds it
/// abandoned; no other is one.
pub proof fn law_acquisitions_are_classified(status: u32, result: Result<AcquireStatus, u32>)
    requires
        call_ensures(AcquireStatus::from_status, (status,), result),
    ensures
        result == Ok::<_, u32>(AcquireStatus::Acquired) <==> status == 0,
        result == Ok::<_, u32>(AcquireStatus::Timeout) <==> status == 0x102,
        result == Ok::<_, u32>(AcquireStatus::Abandoned) <==> status == 0x80,
        result matches Err(code) ==> code == status,
{
}

} // verus!
