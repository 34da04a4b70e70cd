//! Annex B start codes, AVCC length-prefixed framing and decoder descriptors.
use vstd::prelude::*;
use vstd::slice::slice_subrange;
use crate::{bytes, text};

verus! {

/// Length of the Annex B start code that `data` begins with, or zero.
pub open spec fn start_code_len(data: Seq<u8>) -> nat {
    if data.len() >= 4 && data[0] == 0 && data[1] == 0 && data[2] == 0 && data[3] == 1 {
        4
    } else if data.len() >= 3 && data[0] == 0 && data[1] == 0 && data[2] == 1 {
        3
    } else {
        0
    }
}

/// `data` without the start code it begins with.
pub open spec fn stripped(data: Seq<u8>) -> Seq<u8> {
    data.skip(start_code_len(data) as int)
}

/// Removes a leading `00 00 00 01` or `00 00 01` without copying; other input is unchanged.
pub fn strip_start_code(data: &[u8]) -> (rest: &[u8])
    ensures
        rest@ == stripped(data@),
{
    let length: usize = start_code_length(data);
    slice_subrange(data, length, data.len())
}

fn start_code_length(data: &[u8]) -> (length: usize)
    ensures
        length == start_code_len(data@),
        length <= data@.len(),
{
    if data.len() >= 4 && data[0] == 0 && data[1] == 0 && data[2] == 0 && data[3] == 1 {
        4
    } else if data.len() >= 3 && data[0] == 0 && data[1] == 0 && data[2] == 1 {
        3
    } else {
        0
    }
}

/// The byte sequences behind a sequence of borrowed slices.
pub open spec fn contents(units: Seq<&[u8]>) -> Seq<Seq<u8>> {
    Seq::new(units.len(), |i: int| units[i]@)
}

/// Every unit without the start code it begins with.
pub open spec fn stripped_units(units: Seq<Seq<u8>>) -> Seq<Seq<u8>> {
    Seq::new(units.len(), |i: int| stripped(units[i]))
}

/// One NAL unit behind its four-byte big-endian length.
pub open spec fn framed(unit: Seq<u8>) -> Seq<u8> {
    bytes::be_bytes(unit.len(), 4) + unit
}

/// The AVCC payload that holds `units` in order.
pub open spec fn avcc_of(units: Seq<Seq<u8>>) -> Seq<u8>
    decreases units.len(),
{
    if units.len() == 0 {
        Seq::empty()
    } else {
        avcc_of(units.drop_last()) + framed(units.last())
    }
}

/// Appends one framed NAL unit.
pub(crate) fn push_framed(out: &mut Vec<u8>, unit: &[u8])
    ensures
        final(out)@ == old(out)@ + framed(unit@),
{
    bytes::push_be(out, unit.len() as u64, 4);
    bytes::push_slice(out, unit);
    assert(out@ =~= old(out)@ + framed(unit@));
}

/// Serializes NAL units into AVCC form: each loses its start code and gains a four-byte
/// big-endian length.
pub fn serialize_avcc_payload(nal_units: &[&[u8]]) -> (payload: Vec<u8>)
    ensures
        payload@ == avcc_of(stripped_units(contents(nal_units@))),
{
    let ghost units = stripped_units(contents(nal_units@));
    let mut payload: Vec<u8> = Vec::new();
    let mut i: usize = 0;
    while i < nal_units.len()
        invariant
            i <= nal_units@.len(),
            units == stripped_units(contents(nal_units@)),
            payload@ == avcc_of(units.take(i as int)),
        decreases nal_units@.len() - i,
    {
        push_framed(&mut payload, strip_start_code(nal_units[i]));
        assert(units.take(i + 1).drop_last() =~= units.take(i as int));
        i = i + 1;
    }
    assert(units.take(i as int) =~= units);
    payload
}

/// The `avc1.PPCCLL` identifier of a stripped sequence parameter set.
pub open spec fn codec_name(sps: Seq<u8>) -> Seq<char> {
    seq!['a', 'v', 'c', '1', '.'] + text::hex_lower(sps[1] as nat, 2) + text::hex_lower(sps[2] as nat, 2)
        + text::hex_lower(sps[3] as nat, 2)
}

/// Builds the `avc1.PPCCLL` codec string from a sequence parameter set, with or without its
/// start code.
pub fn build_codec_string(sps: &[u8]) -> (name: String)
    requires
        stripped(sps@).len() >= 4,
    ensures
        name@ == codec_name(stripped(sps@)),
{
    let sps = strip_start_code(sps);
    codec_string_of(sps[1], sps[2], sps[3])
}

/// Formats the three identification bytes of a sequence parameter set.
pub(crate) fn codec_string_of(profile: u8, compatibility: u8, level: u8) -> (name: String)
    ensures
        name@ == seq!['a', 'v', 'c', '1', '.'] + text::hex_lower(profile as nat, 2)
            + text::hex_lower(compatibility as nat, 2) + text::hex_lower(level as nat, 2),
{
    let mut name = "avc1.".to_owned();
    proof {
        reveal_strlit("avc1.");
        assert(name@ =~= seq!['a', 'v', 'c', '1', '.']);
    }
    text::push_hex_lower(&mut name, profile as u64, 2);
    text::push_hex_lower(&mut name, compatibility as u64, 2);
    text::push_hex_lower(&mut name, level as u64, 2);
    name
}

/// The AVCDecoderConfigurationRecord of stripped parameter sets; a length that does not fit
/// in two bytes keeps its two low-order bytes.
pub open spec fn decoder_record(sps: Seq<u8>, pps: Seq<u8>) -> Seq<u8> {
    seq![1u8, sps[1], sps[2], sps[3], 0xFFu8, 0xE1u8] + bytes::be_bytes(sps.len(), 2) + sps + seq![1u8]
        + bytes::be_bytes(pps.len(), 2) + pps
}

/// Builds an AVCDecoderConfigurationRecord from parameter sets, with or without start codes.
pub fn build_avcc_descriptor(sps: &[u8], pps: &[u8]) -> (record: Vec<u8>)
    requires
        stripped(sps@).len() >= 4,
    ensures
        record@ == decoder_record(stripped(sps@), stripped(pps@)),
{
    decoder_record_of(strip_start_code(sps), strip_start_code(pps))
}

/// Builds the record of parameter sets that carry no start code.
pub(crate) fn decoder_record_of(sps: &[u8], pps: &[u8]) -> (record: Vec<u8>)
    requires
        sps@.len() >= 4,
    ensures
        record@ == decoder_record(sps@, pps@),
{
    let mut record: Vec<u8> = Vec::new();
    record.push(1);
    record.push(sps[1]);
    record.push(sps[2]);
    record.push(sps[3]);
    record.push(0xFF);
    record.push(0xE1);
    assert(record@ =~= seq![1u8, sps@[1], sps@[2], sps@[3], 0xFFu8, 0xE1u8]);
    bytes::push_be(&mut record, sps.len() as u64, 2);
    bytes::push_slice(&mut record, sps);
    let ghost before = record@;
    record.push(1);
    assert(record@ =~= before + seq![1u8]);
    bytes::push_be(&mut record, pps.len() as u64, 2);
    bytes::push_slice(&mut record, pps);
    record
}

/// Total length of the AVCC payload of `units`.
pub open spec fn avcc_len(units: Seq<Seq<u8>>) -> nat
    decreases units.len(),
{
    if units.len() == 0 {
        0
    } else {
        avcc_len(units.drop_last()) + 4 + units.last().len()
    }
}

pub proof fn lemma_avcc_len(units: Seq<Seq<u8>>)
    ensures
        avcc_of(units).len() == avcc_len(units),
    decreases units.len(),
{
    if units.len() > 0 {
        lemma_avcc_len(units.drop_last());
        bytes::lemma_be_bytes_len(units.last().len(), 4);
    }
}

/// Framing a unit in front of others puts its bytes in front of theirs.
pub proof fn lemma_avcc_front(unit: Seq<u8>, rest: Seq<Seq<u8>>)
    ensures
        avcc_of(seq![unit] + rest) == framed(unit) + avcc_of(rest),
    decreases rest.len(),
{
    let all = seq![unit] + rest;
    if rest.len() == 0 {
        assert(all.drop_last() =~= Seq::empty());
        assert(all.last() == unit);
        assert(avcc_of(all.drop_last()) =~= Seq::empty());
        assert(avcc_of(all) =~= framed(unit) + avcc_of(rest));
    } else {
        lemma_avcc_front(unit, rest.drop_last());
        assert(all.drop_last() =~= seq![unit] + rest.drop_last());
        assert(all.last() == rest.last());
        assert(avcc_of(all) =~= framed(unit) + avcc_of(rest));
    }
}

/// Stripping removes exactly a leading start code: three or four bytes of zeros that end in one.
pub proof fn law_start_codes_are_stripped(data: &[u8], rest: &[u8], body: Seq<u8>)
    requires
        call_ensures(strip_start_code, (data,), rest),
    ensures
        data@ == seq![0u8, 0u8, 0u8, 1u8] + body ==> rest@ == body,
        data@ == seq![0u8, 0u8, 1u8] + body ==> rest@ == body,
        !(data@.len() >= 3 && data@[0] == 0 && data@[1] == 0 && (data@[2] == 1 || (data@.len() >= 4
            && data@[2] == 0 && data@[3] == 1))) ==> rest@ == data@,
{
    assert(data@.skip(0) =~= data@);
    if data@ == seq![0u8, 0u8, 0u8, 1u8] + body {
        assert(data@.skip(4) =~= body);
    }
    if data@ == seq![0u8, 0u8, 1u8] + body {
        assert(data@[2] == 1);
        assert(data@.skip(3) =~= body);
    }
}

/// A payload of one more unit is the payload without it, the length of the unit in four bytes
/// with the most significant first, and the unit.
pub proof fn law_units_are_framed_one_by_one(
    units: &[&[u8]],
    payload: Vec<u8>,
    shorter: &[&[u8]],
    before: Vec<u8>,
    unit: &[u8],
)
    requires
        units@.len() > 0,
        shorter@ == units@.drop_last(),
        call_ensures(strip_start_code, (units@.last(),), unit),
        call_ensures(serialize_avcc_payload, (units,), payload),
        call_ensures(serialize_avcc_payload, (shorter,), before),
    ensures
        ({
            let length = unit@.len();
            payload@ == before@ + seq![
                (length / 0x100_0000 % 256) as u8,
                (length / 0x1_0000 % 256) as u8,
                (length / 0x100 % 256) as u8,
                (length % 256) as u8,
            ] + unit@
        }),
        shorter@.len() == 0 ==> before@.len() == 0,
{
    let all = stripped_units(contents(units@));
    let length = unit@.len();
    assert(all.drop_last() =~= stripped_units(contents(shorter@)));
    assert(all.last() == unit@);
    bytes::law_bytes_count_in_powers(length);
    bytes::law_bytes_count_in_powers(length / 0x1_0000);
    assert(length / 0x1_0000 / 256 == length / 0x100_0000);
    assert(bytes::be_bytes(length, 4) =~= seq![
        (length / 0x100_0000 % 256) as u8,
        (length / 0x1_0000 % 256) as u8,
        (length / 0x100 % 256) as u8,
        (length % 256) as u8,
    ]);
    assert(payload@ =~= before@ + bytes::be_bytes(length, 4) + unit@);
}

/// A decoder record names the profile bytes of the sequence parameter set and holds both sets
/// whole, each behind its length in two bytes, most significant first.
pub proof fn law_decoder_records_hold_both_sets(
    sps: &[u8],
    pps: &[u8],
    record: Vec<u8>,
    sequence: &[u8],
    picture: &[u8],
)
    requires
        call_ensures(strip_start_code, (sps,), sequence),
        call_ensures(strip_start_code, (pps,), picture),
        4 <= sequence@.len() < 0x1_0000,
        picture@.len() < 0x1_0000,
        call_ensures(build_avcc_descriptor, (sps, pps), record),
    ensures
        ({
            let n = sequence@.len() as int;
            let m = picture@.len() as int;
            &&& record@.len() == 11 + n + m
            &&& record@[0] == 1
            &&& record@.subrange(1, 4) == sequence@.subrange(1, 4)
            &&& record@[4] == 0xFF && record@[5] == 0xE1
            &&& record@[6] * 256 + record@[7] == n
            &&& record@.subrange(8, 8 + n) == sequence@
            &&& record@[8 + n] == 1
            &&& record@[9 + n] * 256 + record@[10 + n] == m
            &&& record@.skip(11 + n) == picture@
        }),
{
    let n = sequence@.len() as int;
    let m = picture@.len() as int;
    bytes::law_bytes_count_in_powers(n as nat);
    bytes::law_bytes_count_in_powers(m as nat);
    assert(n / 256 % 256 * 256 + n % 256 == n);
    assert(m / 256 % 256 * 256 + m % 256 == m);
    let head = seq![1u8, sequence@[1], sequence@[2], sequence@[3], 0xFFu8, 0xE1u8];
    assert(record@ == head + bytes::be_bytes(n as nat, 2) + sequence@ + seq![1u8] + bytes::be_bytes(
        m as nat,
        2,
    ) + picture@);
    assert(record@.subrange(1, 4) =~= sequence@.subrange(1, 4));
    assert(record@.subrange(8, 8 + n) =~= sequence@);
    assert(record@.skip(11 + n) =~= picture@);
}

/// The codec string names the three bytes behind the first of the sequence parameter set, each by
/// two small hexadecimal digits.
pub proof fn law_codec_strings_name_the_profile(sps: &[u8], name: String, sequence: &[u8])
    requires
        call_ensures(strip_start_code, (sps,), sequence),
        sequence@.len() >= 4,
        call_ensures(build_codec_string, (sps,), name),
    ensures
        name@.len() == 11,
        name@.take(5) == seq!['a', 'v', 'c', '1', '.'],
        name@.subrange(5, 7) == text::hex_lower(sequence@[1] as nat, 2),
        name@.subrange(7, 9) == text::hex_lower(sequence@[2] as nat, 2),
        name@.subrange(9, 11) == text::hex_lower(sequence@[3] as nat, 2),
{
    text::law_hexadecimals_are_digit_pairs(sequence@[1]);
    text::law_hexadecimals_are_digit_pairs(sequence@[2]);
    text::law_hexadecimals_are_digit_pairs(sequence@[3]);
    assert(name@.take(5) =~= seq!['a', 'v', 'c', '1', '.']);
    assert(name@.subrange(5, 7) =~= text::hex_lower(sequence@[1] as nat, 2));
    assert(name@.subrange(7, 9) =~= text::hex_lower(sequence@[2] as nat, 2));
    assert(name@.subrange(9, 11) =~= text::hex_lower(sequence@[3] as nat, 2));
}

} // verus!
