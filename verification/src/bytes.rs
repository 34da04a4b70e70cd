//! Fixed-width integers as byte sequences, in both byte orders.
use vstd::prelude::*;

verus! {

/// The `n` low-order bytes of `value`, least significant first.
pub open spec fn le_bytes(value: nat, n: nat) -> Seq<u8>
    decreases n,
{
    if n == 0 {
        Seq::empty()
    } else {
        seq![(value % 256) as u8] + le_bytes(value / 256, (n - 1) as nat)
    }
}

/// The number that `bytes` denote, least significant first.
pub open spec fn le_value(bytes: Seq<u8>) -> nat
    decreases bytes.len(),
{
    if bytes.len() == 0 {
        0
    } else {
        bytes[0] as nat + 256 * le_value(bytes.skip(1))
    }
}

/// The `n` low-order bytes of `value`, most significant first.
pub open spec fn be_bytes(value: nat, n: nat) -> Seq<u8>
    decreases n,
{
    if n == 0 {
        Seq::empty()
    } else {
        be_bytes(value / 256, (n - 1) as nat).push((value % 256) as u8)
    }
}

/// The number that `bytes` denote, most significant first.
pub open spec fn be_value(bytes: Seq<u8>) -> nat
    decreases bytes.len(),
{
    if bytes.len() == 0 {
        0
    } else {
        256 * be_value(bytes.drop_last()) + bytes.last() as nat
    }
}

/// How many values fit in `n` bytes.
pub open spec fn byte_capacity(n: nat) -> nat
    decreases n,
{
    if n == 0 {
        1
    } else {
        256 * byte_capacity((n - 1) as nat)
    }
}

pub proof fn lemma_byte_capacities()
    ensures
        byte_capacity(2) == 0x1_0000,
        byte_capacity(4) == 0x1_0000_0000,
        byte_capacity(8) == 0x1_0000_0000_0000_0000,
{
    reveal_with_fuel(byte_capacity, 9);
}

pub proof fn lemma_le_bytes_len(value: nat, n: nat)
    ensures
        le_bytes(value, n).len() == n,
    decreases n,
{
    if n > 0 {
        lemma_le_bytes_len(value / 256, (n - 1) as nat);
    }
}

pub proof fn lemma_be_bytes_len(value: nat, n: nat)
    ensures
        be_bytes(value, n).len() == n,
    decreases n,
{
    if n > 0 {
        lemma_be_bytes_len(value / 256, (n - 1) as nat);
    }
}

/// Little-endian bytes of a number that fits read back as that number.
pub proof fn lemma_le_round_trip(value: nat, n: nat)
    requires
        value < byte_capacity(n),
    ensures
        le_value(le_bytes(value, n)) == value,
        le_bytes(value, n).len() == n,
    decreases n,
{
    if n > 0 {
        let rest = le_bytes(value / 256, (n - 1) as nat);
        lemma_le_round_trip(value / 256, (n - 1) as nat);
        assert(le_bytes(value, n).skip(1) =~= rest);
    }
}

/// Big-endian bytes of a number that fits read back as that number.
pub proof fn lemma_be_round_trip(value: nat, n: nat)
    requires
        value < byte_capacity(n),
    ensures
        be_value(be_bytes(value, n)) == value,
        be_bytes(value, n).len() == n,
    decreases n,
{
    if n > 0 {
        let rest = be_bytes(value / 256, (n - 1) as nat);
        lemma_be_round_trip(value / 256, (n - 1) as nat);
        assert(be_bytes(value, n).drop_last() =~= rest);
    }
}

/// Bytes are determined by the number they denote, least significant first.
pub proof fn lemma_le_value_bound(bytes: Seq<u8>)
    ensures
        le_value(bytes) < byte_capacity(bytes.len()),
        le_bytes(le_value(bytes), bytes.len()) == bytes,
    decreases bytes.len(),
{
    if bytes.len() > 0 {
        lemma_le_value_bound(bytes.skip(1));
        let rest = le_value(bytes.skip(1));
        assert((bytes[0] as nat + 256 * rest) % 256 == bytes[0] as nat);
        assert((bytes[0] as nat + 256 * rest) / 256 == rest);
        assert(le_bytes(le_value(bytes), bytes.len()) =~= bytes);
    } else {
        assert(le_bytes(0, 0) =~= bytes);
    }
}

/// Bytes are determined by the number they denote, most significant first.
pub proof fn lemma_be_value_bound(bytes: Seq<u8>)
    ensures
        be_value(bytes) < byte_capacity(bytes.len()),
        be_bytes(be_value(bytes), bytes.len()) == bytes,
    decreases bytes.len(),
{
    if bytes.len() > 0 {
        lemma_be_value_bound(bytes.drop_last());
        let rest = be_value(bytes.drop_last());
        assert((256 * rest + bytes.last() as nat) % 256 == bytes.last() as nat);
        assert((256 * rest + bytes.last() as nat) / 256 == rest);
        assert(be_bytes(be_value(bytes), bytes.len()) =~= bytes);
    } else {
        assert(be_bytes(0, 0) =~= bytes);
    }
}

/// The bytes of an optional byte vector.
pub open spec fn optional_bytes(value: Option<Vec<u8>>) -> Option<Seq<u8>> {
    match value {
        Some(bytes) => Some(bytes@),
        None => None,
    }
}

/// Appends `slice` to `out`.
pub fn push_slice(out: &mut Vec<u8>, slice: &[u8])
    ensures
        final(out)@ == old(out)@ + slice@,
{
    out.extend_from_slice(slice);
    assert(out@ =~= old(out)@ + slice@);
}

/// Appends the `n` low-order bytes of `value`, least significant first.
pub fn push_le(out: &mut Vec<u8>, value: u64, n: usize)
    ensures
        final(out)@ == old(out)@ + le_bytes(value as nat, n as nat),
{
    let mut rest: u64 = value;
    let mut left: usize = n;
    while left > 0
        invariant
            left <= n,
            out@ + le_bytes(rest as nat, left as nat) == old(out)@ + le_bytes(value as nat, n as nat),
        decreases left,
    {
        let ghost before = out@;
        let ghost tail = le_bytes((rest / 256) as nat, (left - 1) as nat);
        out.push((rest % 256) as u8);
        assert(before + (seq![(rest as nat % 256) as u8] + tail) =~= out@ + tail);
        rest = rest / 256;
        left = left - 1;
    }
    assert(out@ + le_bytes(rest as nat, 0) =~= out@);
}

/// Appends the `n` low-order bytes of `value`, most significant first.
pub fn push_be(out: &mut Vec<u8>, value: u64, n: usize)
    ensures
        final(out)@ == old(out)@ + be_bytes(value as nat, n as nat),
    decreases n,
{
    if n > 0 {
        let ghost before = out@;
        push_be(out, value / 256, n - 1);
        out.push((value % 256) as u8);
        assert(out@ =~= before + be_bytes(value as nat, n as nat));
    } else {
        assert(out@ =~= old(out)@ + be_bytes(value as nat, 0));
    }
}

/// Reads a whole slice as a little-endian number.
pub fn read_le(bytes: &[u8]) -> (value: u64)
    requires
        bytes@.len() <= 8,
    ensures
        value == le_value(bytes@),
        value < byte_capacity(bytes@.len()),
{
    let mut value: u64 = 0;
    let mut position: usize = bytes.len();
    proof {
        lemma_le_value_bound(bytes@);
        assert(bytes@.skip(bytes@.len() as int) =~= Seq::<u8>::empty());
        assert(bytes@.skip(0) =~= bytes@);
    }
    while position > 0
        invariant
            position <= bytes@.len() <= 8,
            value == le_value(bytes@.skip(position as int)),
        decreases position,
    {
        proof {
            let tail = bytes@.skip(position as int);
            lemma_le_value_bound(tail);
            lemma_byte_capacities();
            lemma_capacity_grows(tail.len(), 7);
            reveal_with_fuel(byte_capacity, 9);
            assert(bytes@.skip(position - 1).skip(1) =~= tail);
        }
        position = position - 1;
        value = bytes[position] as u64 + 256 * value;
    }
    value
}

/// Reads a whole slice as a big-endian number.
pub fn read_be(bytes: &[u8]) -> (value: u64)
    requires
        bytes@.len() <= 8,
    ensures
        value == be_value(bytes@),
        value < byte_capacity(bytes@.len()),
{
    let mut value: u64 = 0;
    let mut position: usize = 0;
    proof {
        lemma_be_value_bound(bytes@);
        assert(bytes@.take(bytes@.len() as int) =~= bytes@);
    }
    while position < bytes.len()
        invariant
            position <= bytes@.len() <= 8,
            value == be_value(bytes@.take(position as int)),
        decreases bytes@.len() - position,
    {
        proof {
            let head = bytes@.take(position as int);
            lemma_be_value_bound(head);
            lemma_capacity_grows(head.len(), 7);
            reveal_with_fuel(byte_capacity, 9);
            assert(bytes@.take(position + 1).drop_last() =~= head);
        }
        value = 256 * value + bytes[position] as u64;
        position = position + 1;
    }
    value
}

proof fn lemma_capacity_grows(small: nat, large: nat)
    requires
        small <= large,
    ensures
        byte_capacity(small) <= byte_capacity(large),
    decreases large - small,
{
    if small < large {
        lemma_capacity_grows(small, (large - 1) as nat);
    }
}

/// Whether two byte slices hold the same bytes.
pub fn same_bytes(left: &[u8], right: &[u8]) -> (same: bool)
    ensures
        same == (left@ == right@),
{
    if left.len() != right.len() {
        return false;
    }
    let mut i: usize = 0;
    while i < left.len()
        invariant
            left@.len() == right@.len(),
            i <= left@.len(),
            forall|k: int| 0 <= k < i ==> left@[k] == right@[k],
        decreases left@.len() - i,
    {
        if left[i] != right[i] {
            return false;
        }
        i = i + 1;
    }
    assert(left@ =~= right@);
    true
}

/// Numbers of two, four and eight bytes are written byte by byte: in one order the first byte
/// counts ones and each further one 256 times as much, in the other order the last one does.
pub proof fn law_bytes_count_in_powers(value: nat)
    ensures
        le_bytes(value, 2).len() == 2 && le_bytes(value, 2)[0] == value % 256 && le_bytes(
            value,
            2,
        )[1] == value / 256 % 256,
        be_bytes(value, 2).len() == 2 && be_bytes(value, 2)[1] == value % 256 && be_bytes(
            value,
            2,
        )[0] == value / 256 % 256,
        le_bytes(value, 4) =~= le_bytes(value, 2) + le_bytes(value / 0x1_0000, 2),
        be_bytes(value, 4) =~= be_bytes(value / 0x1_0000, 2) + be_bytes(value, 2),
        le_bytes(value, 8) =~= le_bytes(value, 4) + le_bytes(value / 0x1_0000_0000, 4),
        be_bytes(value, 8) =~= be_bytes(value / 0x1_0000_0000, 4) + be_bytes(value, 4),
{
    reveal_with_fuel(le_bytes, 3);
    reveal_with_fuel(be_bytes, 3);
    lemma_le_bytes_split(value, 4, 4);
    lemma_be_bytes_split(value, 4, 4);
    lemma_le_bytes_split(value, 2, 2);
    lemma_be_bytes_split(value, 2, 2);
    assert(byte_capacity(2) == 0x1_0000 && byte_capacity(4) == 0x1_0000_0000) by {
        lemma_byte_capacities();
    }
}

proof fn lemma_le_bytes_split(value: nat, low: nat, high: nat)
    ensures
        le_bytes(value, low + high) == le_bytes(value, low) + le_bytes(
            value / byte_capacity(low),
            high,
        ),
    decreases low,
{
    if low == 0 {
        assert(value / 1 == value);
        assert(le_bytes(value, 0) + le_bytes(value, high) =~= le_bytes(value, high));
    } else {
        let less = (low - 1) as nat;
        lemma_le_bytes_split(value / 256, less, high);
        lemma_capacity_positive(less);
        vstd::arithmetic::div_mod::lemma_div_denominator(
            value as int,
            256,
            byte_capacity(less) as int,
        );
        assert(value / 256 / byte_capacity(less) == value / byte_capacity(low));
        assert(le_bytes(value, low + high) =~= le_bytes(value, low) + le_bytes(
            value / byte_capacity(low),
            high,
        ));
    }
}

proof fn lemma_be_bytes_split(value: nat, low: nat, high: nat)
    ensures
        be_bytes(value, low + high) == be_bytes(value / byte_capacity(low), high) + be_bytes(
            value,
            low,
        ),
    decreases low,
{
    if low == 0 {
        assert(value / 1 == value);
        assert(be_bytes(value, high) + be_bytes(value, 0) =~= be_bytes(value, high));
    } else {
        let less = (low - 1) as nat;
        lemma_be_bytes_split(value / 256, less, high);
        lemma_capacity_positive(less);
        vstd::arithmetic::div_mod::lemma_div_denominator(
            value as int,
            256,
            byte_capacity(less) as int,
        );
        assert(value / 256 / byte_capacity(less) == value / byte_capacity(low));
        assert(be_bytes(value, low + high) =~= be_bytes(value / byte_capacity(low), high)
            + be_bytes(value, low));
    }
}

proof fn lemma_capacity_positive(n: nat)
    ensures
        byte_capacity(n) > 0,
    decreases n,
{
    if n > 0 {
        lemma_capacity_positive((n - 1) as nat);
    }
}

/// Numbers are appended behind what is there and read back, low byte first and high byte first.
pub proof fn law_appended_numbers_are_read_back(
    little: &mut Vec<u8>,
    big: &mut Vec<u8>,
    value: u64,
    little_bytes: &[u8],
    big_bytes: &[u8],
    read: (u64, u64),
)
    requires
        call_ensures(push_le, (little, value, 8), ()),
        call_ensures(push_be, (big, value, 8), ()),
        little_bytes@ == final(little)@.skip(old(little)@.len() as int),
        big_bytes@ == final(big)@.skip(old(big)@.len() as int),
        call_ensures(read_le, (little_bytes,), read.0),
        call_ensures(read_be, (big_bytes,), read.1),
    ensures
        read.0 == value && read.1 == value,
        little_bytes@.len() == 8 && big_bytes@.len() == 8,
        little_bytes@[0] == value % 256,
        big_bytes@[7] == value % 256,
        final(little)@.take(old(little)@.len() as int) == old(little)@,
        final(big)@.take(old(big)@.len() as int) == old(big)@,
{
    lemma_byte_capacities();
    lemma_le_round_trip(value as nat, 8);
    lemma_be_round_trip(value as nat, 8);
    assert(little_bytes@ =~= le_bytes(value as nat, 8));
    assert(big_bytes@ =~= be_bytes(value as nat, 8));
    assert(final(little)@.take(old(little)@.len() as int) =~= old(little)@);
    assert(final(big)@.take(old(big)@.len() as int) =~= old(big)@);
}

/// Two bytes count 256 times the more significant one and the other, in either order.
pub proof fn law_byte_pairs_are_read(bytes: &[u8], little: u64, big: u64)
    requires
        bytes@.len() == 2,
        call_ensures(read_le, (bytes,), little),
        call_ensures(read_be, (bytes,), big),
    ensures
        little == bytes@[0] + 256 * bytes@[1],
        big == 256 * bytes@[0] + bytes@[1],
{
    reveal_with_fuel(le_value, 3);
    reveal_with_fuel(be_value, 3);
    assert(bytes@.skip(1)[0] == bytes@[1]);
    assert(bytes@.drop_last().last() == bytes@[0]);
}

/// Bytes are appended in order, and are the same exactly if all of them are.
pub proof fn law_slices_are_appended(out: &mut Vec<u8>, slice: &[u8], other: &[u8], same: bool)
    requires
        call_ensures(push_slice, (out, slice), ()),
        call_ensures(same_bytes, (slice, other), same),
    ensures
        final(out)@ == old(out)@ + slice@,
        same <==> slice@ == other@,
{
}

} // verus!
