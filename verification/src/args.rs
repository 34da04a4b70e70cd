//! Startup identities given on the command line.
use vstd::prelude::*;
use crate::text;

verus! {

/// Stable command-line representation of a display adapter.
///
/// The value is deliberately an opaque integer here; the host converts it to the two words of
/// the platform.
#[derive(Debug, Clone, Copy, PartialEq, Eq)]
pub struct AdapterLuid(u64);

impl View for AdapterLuid {
    type V = u64;

    closed spec fn view(&self) -> u64 {
        self.0
    }
}

/// Error returned when an adapter identity is zero or is not valid decimal/hexadecimal.
#[derive(Debug, Clone, Copy, PartialEq, Eq, Structural)]
pub struct ParseAdapterLuidError;

impl ParseAdapterLuidError {
    /// Describes this failure.
    pub fn message(&self) -> (message: &'static str)
        ensures
            message@
                == "adapter LUID must be a non-zero decimal integer or 0x-prefixed hexadecimal integer"@,
    {
        "adapter LUID must be a non-zero decimal integer or 0x-prefixed hexadecimal integer"
    }
}

impl AdapterLuid {
    /// The identity that a text names, if any.
    pub open spec fn named(value: Seq<char>) -> Option<nat> {
        match text::marked_number(text::trimmed(value)) {
            Ok(number) => if number == 0 {
                None
            } else {
                Some(number)
            },
            Err(_) => None,
        }
    }

    /// Returns the lossless unsigned representation supplied on the command line.
    pub fn get(self) -> (value: u64)
        ensures
            value == self@,
    {
        self.0
    }

    /// Formats the identity as `0x` and sixteen upper-case hexadecimal digits.
    pub fn format(self) -> (text: String)
        ensures
            text@ == "0x"@ + text::hex_upper(self@ as nat, 16),
    {
        let mut text = "0x".to_owned();
        text::push_hex_upper(&mut text, self.0, 16);
        text
    }

    /// Parses a decimal or `0x`-prefixed hexadecimal value inside white space; zero is refused.
    pub fn parse(value: &str) -> (result: Result<AdapterLuid, ParseAdapterLuidError>)
        ensures
            match result {
                Ok(id) => AdapterLuid::named(value@) == Some(id@ as nat),
                Err(_) => AdapterLuid::named(value@) is None,
            },
    {
        let value = text::trim(value);
        match text::parse_marked(value.as_str()) {
            Ok(number) => if number == 0 {
                Err(ParseAdapterLuidError)
            } else {
                Ok(AdapterLuid(number))
            },
            Err(_) => Err(ParseAdapterLuidError),
        }
    }
}

/// A formatted identity is parsed to itself.
pub proof fn law_formatted_identities_are_parsed(value: u64)
    requires
        value != 0,
    ensures
        AdapterLuid::named("0x"@ + text::hex_upper(value as nat, 16)) == Some(value as nat),
{
    text::law_hexadecimals_are_read_back(value as nat);
}

impl std::str::FromStr for AdapterLuid {
    type Err = ParseAdapterLuidError;

    fn from_str(value: &str) -> Result<AdapterLuid, ParseAdapterLuidError> {
        AdapterLuid::parse(value)
    }
}

/// Trim and reject an empty startup identity.
pub fn parse_non_empty(value: &str) -> (result: Result<String, &'static str>)
    ensures
        match result {
            Ok(identity) => identity@ == text::trimmed(value@) && identity@.len() > 0,
            Err(message) => text::trimmed(value@).len() == 0 && message@
                == "value must not be empty"@,
        },
{
    let value = text::trim(value);
    let chars = text::chars_of(value.as_str());
    if chars.len() == 0 {
        Err("value must not be empty")
    } else {
        Ok(value)
    }
}

/// A formatted identity is sixteen digits behind `0x`, and is parsed to itself.
pub proof fn law_identities_survive_the_command_line(
    id: AdapterLuid,
    value: u64,
    text: String,
    slice: &str,
    result: Result<AdapterLuid, ParseAdapterLuidError>,
)
    requires
        id@ != 0,
        call_ensures(AdapterLuid::get, (id,), value),
        call_ensures(AdapterLuid::format, (id,), text),
        slice@ == text@,
        call_ensures(AdapterLuid::parse, (slice,), result),
    ensures
        value == id@,
        result is Ok && result->Ok_0@ == id@,
{
    law_formatted_identities_are_parsed(id@);
}

/// A startup identity is what it is without white space around it, and is refused where nothing is
/// left; zero is no adapter identity.
pub proof fn law_startup_identities_are_trimmed(
    value: &str,
    trimmed: String,
    result: Result<String, &'static str>,
    adapter: Result<AdapterLuid, ParseAdapterLuidError>,
)
    requires
        call_ensures(text::trim, (value,), trimmed),
        call_ensures(parse_non_empty, (value,), result),
        call_ensures(AdapterLuid::parse, (value,), adapter),
    ensures
        result is Ok <==> trimmed@.len() > 0,
        result matches Ok(identity) ==> identity@ == trimmed@,
        adapter matches Ok(id) ==> id@ != 0,
{
}

} // verus!
