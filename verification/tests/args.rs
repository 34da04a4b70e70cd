//! Command-line values.

use turbo_capture::args::{parse_non_empty, AdapterLuid, ParseAdapterLuidError};

#[test]
fn adapter_luid_should_parse_decimal_and_hexadecimal_forms() {
    assert_eq!("42".parse::<AdapterLuid>().map(AdapterLuid::get), Ok(42));
    assert_eq!("0x2A".parse::<AdapterLuid>().map(AdapterLuid::get), Ok(42));
}

#[test]
fn adapter_luid_should_reject_zero() {
    assert_eq!("0".parse::<AdapterLuid>(), Err(ParseAdapterLuidError));
}

#[test]
fn adapter_luid_should_trim_white_space_and_refuse_the_rest() {
    assert_eq!(" \u{3000}0xfF\n".parse::<AdapterLuid>().map(AdapterLuid::get), Ok(255));
    assert_eq!("".parse::<AdapterLuid>(), Err(ParseAdapterLuidError));
    assert_eq!("0x".parse::<AdapterLuid>(), Err(ParseAdapterLuidError));
    assert_eq!("-1".parse::<AdapterLuid>(), Err(ParseAdapterLuidError));
    assert_eq!("18446744073709551616".parse::<AdapterLuid>(), Err(ParseAdapterLuidError));
    assert_eq!(
        "18446744073709551615".parse::<AdapterLuid>().map(AdapterLuid::get),
        Ok(u64::MAX)
    );
}

#[test]
fn adapter_luid_should_print_sixteen_digits() {
    assert_eq!("42".parse::<AdapterLuid>().unwrap().format(), "0x000000000000002A");
}

#[test]
fn empty_identities_should_be_refused() {
    assert_eq!(parse_non_empty("  NVIDIA H.264 Encoder "), Ok("NVIDIA H.264 Encoder".to_owned()));
    assert_eq!(parse_non_empty("   "), Err("value must not be empty"));
}
