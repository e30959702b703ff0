//! The little-endian byte model: a value's byte sequence, the number a byte
//! sequence denotes, and verified encode/decode routines shared by every
//! [`BitEndian`](crate::BitEndian) implementation.

use vstd::arithmetic::div_mod::{lemma_fundamental_div_mod, lemma_fundamental_div_mod_converse};
use vstd::prelude::*;

verus! {

/// The `width` low-order bytes of `val`, least significant first.
pub open spec fn le_bytes_of(val: nat, width: nat) -> Seq<u8>
    decreases width,
{
    if width == 0 {
        Seq::empty()
    } else {
        seq![(val % 256) as u8] + le_bytes_of(val / 256, (width - 1) as nat)
    }
}

/// The number that a byte sequence denotes when read least significant first.
pub open spec fn nat_of_le(s: Seq<u8>) -> nat
    decreases s.len(),
{
    if s.len() == 0 {
        0
    } else {
        s[0] as nat + 256 * nat_of_le(s.drop_first())
    }
}

/// 256 raised to `width`: the number of values `width` bytes can hold.
pub open spec fn pow256(width: nat) -> nat
    decreases width,
{
    if width == 0 {
        1
    } else {
        256 * pow256((width - 1) as nat)
    }
}

/// The powers of 256 at the widths the codec uses.
pub proof fn lemma_pow256_values()
    ensures
        pow256(1) == 0x100,
        pow256(2) == 0x1_0000,
        pow256(4) == 0x1_0000_0000,
        pow256(8) == 0x1_0000_0000_0000_0000,
        pow256(16) == 0x1_0000_0000_0000_0000_0000_0000_0000_0000,
{
    assert(pow256(0) == 1);
    assert(pow256(1) == 0x100);
    assert(pow256(2) == 0x1_0000);
    assert(pow256(3) == 0x100_0000);
    assert(pow256(4) == 0x1_0000_0000);
    assert(pow256(5) == 0x100_0000_0000);
    assert(pow256(6) == 0x1_0000_0000_0000);
    assert(pow256(7) == 0x100_0000_0000_0000);
    assert(pow256(8) == 0x1_0000_0000_0000_0000);
    assert(pow256(9) == 0x100_0000_0000_0000_0000);
    assert(pow256(10) == 0x1_0000_0000_0000_0000_0000);
    assert(pow256(11) == 0x100_0000_0000_0000_0000_0000);
    assert(pow256(12) == 0x1_0000_0000_0000_0000_0000_0000);
    assert(pow256(13) == 0x100_0000_0000_0000_0000_0000_0000);
    assert(pow256(14) == 0x1_0000_0000_0000_0000_0000_0000_0000);
    assert(pow256(15) == 0x100_0000_0000_0000_0000_0000_0000_0000);
    assert(pow256(16) == 0x1_0000_0000_0000_0000_0000_0000_0000_0000);
}

/// `pow256` never decreases as the width grows.
pub proof fn lemma_pow256_increases(a: nat, b: nat)
    requires
        a <= b,
    ensures
        pow256(a) <= pow256(b),
    decreases b,
{
    if a < b {
        lemma_pow256_increases(a, (b - 1) as nat);
    }
}

/// An encoding has exactly as many bytes as the requested width.
pub proof fn lemma_le_bytes_len(val: nat, width: nat)
    ensures
        le_bytes_of(val, width).len() == width,
    decreases width,
{
    if width > 0 {
        lemma_le_bytes_len(val / 256, (width - 1) as nat);
    }
}

/// A value below `pow256(width)` is recovered from its `width`-byte encoding.
pub proof fn lemma_nat_of_le_bytes(val: nat, width: nat)
    requires
        val < pow256(width),
    ensures
        nat_of_le(le_bytes_of(val, width)) == val,
    decreases width,
{
    if width > 0 {
        let q = val / 256;
        let r = val % 256;
        lemma_fundamental_div_mod(val as int, 256);
        assert(q < pow256((width - 1) as nat));
        lemma_nat_of_le_bytes(q, (width - 1) as nat);
        let s = le_bytes_of(val, width);
        assert(s.drop_first() =~= le_bytes_of(q, (width - 1) as nat));
        assert(s[0] == r as u8);
    }
}

/// A byte sequence is recovered from the number it denotes.
pub proof fn lemma_le_bytes_of_nat(s: Seq<u8>)
    ensures
        le_bytes_of(nat_of_le(s), s.len()) == s,
    decreases s.len(),
{
    if s.len() > 0 {
        let rest = nat_of_le(s.drop_first());
        let val = nat_of_le(s);
        lemma_fundamental_div_mod_converse(val as int, 256, rest as int, s[0] as int);
        lemma_le_bytes_of_nat(s.drop_first());
        assert(le_bytes_of(val, s.len()) =~= s);
    }
}

/// A byte sequence denotes a number below `pow256` of its length.
pub proof fn lemma_nat_of_le_bound(s: Seq<u8>)
    ensures
        nat_of_le(s) < pow256(s.len()),
    decreases s.len(),
{
    if s.len() > 0 {
        lemma_nat_of_le_bound(s.drop_first());
    }
}

/// Emit the `width` low-order bytes of `val`, least significant first.
pub fn le_encode(val: u128, width: usize) -> (r: Vec<u8>)
    ensures
        r@ == le_bytes_of(val as nat, width as nat),
{
    let mut out: Vec<u8> = Vec::new();
    let mut x: u128 = val;
    let mut i: usize = 0;
    proof {
        assert(le_bytes_of(val as nat, width as nat) =~= Seq::<u8>::empty() + le_bytes_of(
            val as nat,
            width as nat,
        ));
    }
    while i < width
        invariant
            i <= width,
            out@.len() == i as nat,
            le_bytes_of(val as nat, width as nat) == out@ + le_bytes_of(
                x as nat,
                (width - i) as nat,
            ),
        decreases width - i,
    {
        let ghost pre = out@;
        let ghost rem = (width - i) as nat;
        out.push((x % 256) as u8);
        proof {
            assert(le_bytes_of(x as nat, rem) == seq![(x as nat % 256) as u8] + le_bytes_of(
                x as nat / 256,
                (rem - 1) as nat,
            ));
            assert(pre + le_bytes_of(x as nat, rem) =~= out@ + le_bytes_of(
                x as nat / 256,
                (rem - 1) as nat,
            ));
        }
        x = x / 256;
        i = i + 1;
    }
    proof {
        assert(out@ + le_bytes_of(x as nat, 0) =~= out@);
    }
    out
}

/// Read the number a byte sequence of at most 16 bytes denotes,
/// least significant byte first.
pub fn le_decode(bytes: &[u8]) -> (r: u128)
    requires
        bytes@.len() <= 16,
    ensures
        r as nat == nat_of_le(bytes@),
{
    let n = bytes.len();
    let mut acc: u128 = 0;
    let mut i: usize = n;
    proof {
        assert(bytes@.skip(n as int) =~= Seq::<u8>::empty());
    }
    while i > 0
        invariant
            i <= n,
            n == bytes@.len(),
            n <= 16,
            acc as nat == nat_of_le(bytes@.skip(i as int)),
            decreases i,
    {
        i = i - 1;
        proof {
            lemma_nat_of_le_bound(bytes@.skip(i + 1));
            lemma_pow256_increases(bytes@.skip(i + 1).len(), 15);
            lemma_pow256_values();
            assert(bytes@.skip(i as int).drop_first() =~= bytes@.skip(i + 1));
            assert(bytes@.skip(i as int)[0] == bytes@[i as int]);
        }
        acc = acc * 256 + (bytes[i] as u128);
    }
    proof {
        assert(bytes@.skip(0) =~= bytes@);
    }
    acc
}

/// The two's-complement bit pattern of a signed value, as a natural number:
/// a negative value is shifted up by `pow256(width)`.
pub open spec fn to_pattern(v: int, width: nat) -> nat {
    if v >= 0 {
        v as nat
    } else {
        (v + pow256(width)) as nat
    }
}

/// The signed value whose two's-complement bit pattern is `n`: patterns in the
/// upper half of the range are negative.
pub open spec fn from_pattern(n: nat, width: nat) -> int {
    if n < pow256(width) / 2 {
        n as int
    } else {
        n - pow256(width)
    }
}

/// `from_pattern` undoes `to_pattern` on every value a `width`-byte signed
/// integer can hold.
pub proof fn lemma_pattern_round_trip(v: int, width: nat)
    requires
        -(pow256(width) / 2) <= v < pow256(width) / 2,
    ensures
        from_pattern(to_pattern(v, width), width) == v,
{
    assert(pow256(width) == 2 * (pow256(width) / 2) || width == 0);
}

/// `to_pattern` undoes `from_pattern` on every `width`-byte pattern.
pub proof fn lemma_pattern_round_trip_rev(n: nat, width: nat)
    requires
        n < pow256(width),
    ensures
        to_pattern(from_pattern(n, width), width) == n,
{
}

/// 256 raised to `width`, computed.
pub fn pow256_exec(width: usize) -> (r: u128)
    requires
        width <= 15,
    ensures
        r as nat == pow256(width as nat),
{
    proof {
        lemma_pow256_values();
    }
    let mut r: u128 = 1;
    let mut i: usize = 0;
    while i < width
        invariant
            i <= width,
            width <= 15,
            r as nat == pow256(i as nat),
            decreases width - i,
    {
        proof {
            lemma_pow256_increases((i + 1) as nat, 15);
            lemma_pow256_values();
        }
        r = r * 256;
        i = i + 1;
    }
    r
}

/// The two's-complement bit pattern of a signed value of at most 15 bytes.
pub fn pat_small(v: i128, width: usize) -> (r: u128)
    requires
        1 <= width <= 15,
        -(pow256(width as nat) / 2) <= v < pow256(width as nat) / 2,
    ensures
        r as nat == to_pattern(v as int, width as nat),
{
    proof {
        lemma_pow256_values();
        lemma_pow256_increases(width as nat, 15);
    }
    if v >= 0 {
        v as u128
    } else {
        let p = pow256_exec(width);
        (v + (p as i128)) as u128
    }
}

/// The signed value of at most 15 bytes whose two's-complement bit pattern is `u`.
pub fn unpat_small(u: u128, width: usize) -> (r: i128)
    requires
        1 <= width <= 15,
        (u as nat) < pow256(width as nat),
    ensures
        r as int == from_pattern(u as nat, width as nat),
{
    proof {
        lemma_pow256_values();
        lemma_pow256_increases(width as nat, 15);
    }
    let p = pow256_exec(width);
    if u < p / 2 {
        u as i128
    } else {
        (u as i128) - (p as i128)
    }
}

/// The two's-complement bit pattern of a 16-byte signed value.
pub fn pat_wide(v: i128) -> (r: u128)
    ensures
        r as nat == to_pattern(v as int, 16),
{
    proof {
        lemma_pow256_values();
    }
    if v >= 0 {
        v as u128
    } else {
        u128::MAX - ((-(v + 1)) as u128)
    }
}

/// The 16-byte signed value whose two's-complement bit pattern is `u`.
pub fn unpat_wide(u: u128) -> (r: i128)
    ensures
        r as int == from_pattern(u as nat, 16),
{
    proof {
        lemma_pow256_values();
    }
    if u < 0x8000_0000_0000_0000_0000_0000_0000_0000u128 {
        u as i128
    } else {
        -((u128::MAX - u) as i128) - 1
    }
}

/// Copy a byte slice in reverse order.
pub fn rev_vec(bytes: &[u8]) -> (r: Vec<u8>)
    ensures
        r@ == bytes@.reverse(),
{
    let n = bytes.len();
    let mut out: Vec<u8> = Vec::new();
    let mut i: usize = n;
    while i > 0
        invariant
            i <= n,
            n == bytes@.len(),
            out@.len() == n - i,
            forall|k: int| 0 <= k < out@.len() ==> out@[k] == bytes@[n - 1 - k],
        decreases i,
    {
        i = i - 1;
        out.push(bytes[i]);
    }
    proof {
        assert(out@ =~= bytes@.reverse());
    }
    out
}

impl crate::BitEndian<1> for u8 {
    open spec fn le_spec(self) -> Seq<u8> {
        le_bytes_of(self as nat, 1)
    }

    open spec fn of_le_spec(s: Seq<u8>) -> Self {
        nat_of_le(s) as u8
    }

    proof fn le_spec_len(self) {
        lemma_le_bytes_len(self as nat, 1);
    }

    proof fn le_spec_round_trip(self) {
        lemma_pow256_values();
        lemma_nat_of_le_bytes(self as nat, 1);
    }

    proof fn of_le_spec_round_trip(s: Seq<u8>) {
        lemma_le_bytes_of_nat(s);
        lemma_nat_of_le_bound(s);
        lemma_pow256_values();
    }

    fn to_le_bytes(self) -> (r: Vec<u8>) {
        proof {
            lemma_le_bytes_len(self as nat, 1);
        }
        le_encode(self as u128, 1)
    }

    fn from_le_bytes(bytes: &[u8]) -> (r: Self) {
        proof {
            lemma_nat_of_le_bound(bytes@);
            lemma_pow256_values();
        }
        le_decode(bytes) as u8
    }
}

impl crate::BitEndian<2> for u16 {
    open spec fn le_spec(self) -> Seq<u8> {
        le_bytes_of(self as nat, 2)
    }

    open spec fn of_le_spec(s: Seq<u8>) -> Self {
        nat_of_le(s) as u16
    }

    proof fn le_spec_len(self) {
        lemma_le_bytes_len(self as nat, 2);
    }

    proof fn le_spec_round_trip(self) {
        lemma_pow256_values();
        lemma_nat_of_le_bytes(self as nat, 2);
    }

    proof fn of_le_spec_round_trip(s: Seq<u8>) {
        lemma_le_bytes_of_nat(s);
        lemma_nat_of_le_bound(s);
        lemma_pow256_values();
    }

    fn to_le_bytes(self) -> (r: Vec<u8>) {
        proof {
            lemma_le_bytes_len(self as nat, 2);
        }
        le_encode(self as u128, 2)
    }

    fn from_le_bytes(bytes: &[u8]) -> (r: Self) {
        proof {
            lemma_nat_of_le_bound(bytes@);
            lemma_pow256_values();
        }
        le_decode(bytes) as u16
    }
}

impl crate::BitEndian<4> for u32 {
    open spec fn le_spec(self) -> Seq<u8> {
        le_bytes_of(self as nat, 4)
    }

    open spec fn of_le_spec(s: Seq<u8>) -> Self {
        nat_of_le(s) as u32
    }

    proof fn le_spec_len(self) {
        lemma_le_bytes_len(self as nat, 4);
    }

    proof fn le_spec_round_trip(self) {
        lemma_pow256_values();
        lemma_nat_of_le_bytes(self as nat, 4);
    }

    proof fn of_le_spec_round_trip(s: Seq<u8>) {
        lemma_le_bytes_of_nat(s);
        lemma_nat_of_le_bound(s);
        lemma_pow256_values();
    }

    fn to_le_bytes(self) -> (r: Vec<u8>) {
        proof {
            lemma_le_bytes_len(self as nat, 4);
        }
        le_encode(self as u128, 4)
    }

    fn from_le_bytes(bytes: &[u8]) -> (r: Self) {
        proof {
            lemma_nat_of_le_bound(bytes@);
            lemma_pow256_values();
        }
        le_decode(bytes) as u32
    }
}

impl crate::BitEndian<8> for u64 {
    open spec fn le_spec(self) -> Seq<u8> {
        le_bytes_of(self as nat, 8)
    }

    open spec fn of_le_spec(s: Seq<u8>) -> Self {
        nat_of_le(s) as u64
    }

    proof fn le_spec_len(self) {
        lemma_le_bytes_len(self as nat, 8);
    }

    proof fn le_spec_round_trip(self) {
        lemma_pow256_values();
        lemma_nat_of_le_bytes(self as nat, 8);
    }

    proof fn of_le_spec_round_trip(s: Seq<u8>) {
        lemma_le_bytes_of_nat(s);
        lemma_nat_of_le_bound(s);
        lemma_pow256_values();
    }

    fn to_le_bytes(self) -> (r: Vec<u8>) {
        proof {
            lemma_le_bytes_len(self as nat, 8);
        }
        le_encode(self as u128, 8)
    }

    fn from_le_bytes(bytes: &[u8]) -> (r: Self) {
        proof {
            lemma_nat_of_le_bound(bytes@);
            lemma_pow256_values();
        }
        le_decode(bytes) as u64
    }
}

impl crate::BitEndian<16> for u128 {
    open spec fn le_spec(self) -> Seq<u8> {
        le_bytes_of(self as nat, 16)
    }

    open spec fn of_le_spec(s: Seq<u8>) -> Self {
        nat_of_le(s) as u128
    }

    proof fn le_spec_len(self) {
        lemma_le_bytes_len(self as nat, 16);
    }

    proof fn le_spec_round_trip(self) {
        lemma_pow256_values();
        lemma_nat_of_le_bytes(self as nat, 16);
    }

    proof fn of_le_spec_round_trip(s: Seq<u8>) {
        lemma_le_bytes_of_nat(s);
        lemma_nat_of_le_bound(s);
        lemma_pow256_values();
    }

    fn to_le_bytes(self) -> (r: Vec<u8>) {
        proof {
            lemma_le_bytes_len(self as nat, 16);
        }
        le_encode(self, 16)
    }

    fn from_le_bytes(bytes: &[u8]) -> (r: Self) {
        proof {
            lemma_nat_of_le_bound(bytes@);
            lemma_pow256_values();
        }
        le_decode(bytes)
    }
}

impl crate::BitEndian<1> for i8 {
    open spec fn le_spec(self) -> Seq<u8> {
        le_bytes_of(to_pattern(self as int, 1), 1)
    }

    open spec fn of_le_spec(s: Seq<u8>) -> Self {
        from_pattern(nat_of_le(s), 1) as i8
    }

    proof fn le_spec_len(self) {
        lemma_le_bytes_len(to_pattern(self as int, 1), 1);
    }

    proof fn le_spec_round_trip(self) {
        lemma_pow256_values();
        lemma_nat_of_le_bytes(to_pattern(self as int, 1), 1);
        lemma_pattern_round_trip(self as int, 1);
    }

    proof fn of_le_spec_round_trip(s: Seq<u8>) {
        lemma_le_bytes_of_nat(s);
        lemma_nat_of_le_bound(s);
        lemma_pow256_values();
        lemma_pattern_round_trip_rev(nat_of_le(s), 1);
    }

    fn to_le_bytes(self) -> (r: Vec<u8>) {
        proof {
            lemma_pow256_values();
            lemma_le_bytes_len(to_pattern(self as int, 1), 1);
        }
        le_encode(pat_small(self as i128, 1), 1)
    }

    fn from_le_bytes(bytes: &[u8]) -> (r: Self) {
        proof {
            lemma_nat_of_le_bound(bytes@);
            lemma_pow256_values();
        }
        unpat_small(le_decode(bytes), 1) as i8
    }
}

impl crate::BitEndian<2> for i16 {
    open spec fn le_spec(self) -> Seq<u8> {
        le_bytes_of(to_pattern(self as int, 2), 2)
    }

    open spec fn of_le_spec(s: Seq<u8>) -> Self {
        from_pattern(nat_of_le(s), 2) as i16
    }

    proof fn le_spec_len(self) {
        lemma_le_bytes_len(to_pattern(self as int, 2), 2);
    }

    proof fn le_spec_round_trip(self) {
        lemma_pow256_values();
        lemma_nat_of_le_bytes(to_pattern(self as int, 2), 2);
        lemma_pattern_round_trip(self as int, 2);
    }

    proof fn of_le_spec_round_trip(s: Seq<u8>) {
        lemma_le_bytes_of_nat(s);
        lemma_nat_of_le_bound(s);
        lemma_pow256_values();
        lemma_pattern_round_trip_rev(nat_of_le(s), 2);
    }

    fn to_le_bytes(self) -> (r: Vec<u8>) {
        proof {
            lemma_pow256_values();
            lemma_le_bytes_len(to_pattern(self as int, 2), 2);
        }
        le_encode(pat_small(self as i128, 2), 2)
    }

    fn from_le_bytes(bytes: &[u8]) -> (r: Self) {
        proof {
            lemma_nat_of_le_bound(bytes@);
            lemma_pow256_values();
        }
        unpat_small(le_decode(bytes), 2) as i16
    }
}

impl crate::BitEndian<4> for i32 {
    open spec fn le_spec(self) -> Seq<u8> {
        le_bytes_of(to_pattern(self as int, 4), 4)
    }

    open spec fn of_le_spec(s: Seq<u8>) -> Self {
        from_pattern(nat_of_le(s), 4) as i32
    }

    proof fn le_spec_len(self) {
        lemma_le_bytes_len(to_pattern(self as int, 4), 4);
    }

    proof fn le_spec_round_trip(self) {
        lemma_pow256_values();
        lemma_nat_of_le_bytes(to_pattern(self as int, 4), 4);
        lemma_pattern_round_trip(self as int, 4);
    }

    proof fn of_le_spec_round_trip(s: Seq<u8>) {
        lemma_le_bytes_of_nat(s);
        lemma_nat_of_le_bound(s);
        lemma_pow256_values();
        lemma_pattern_round_trip_rev(nat_of_le(s), 4);
    }

    fn to_le_bytes(self) -> (r: Vec<u8>) {
        proof {
            lemma_pow256_values();
            lemma_le_bytes_len(to_pattern(self as int, 4), 4);
        }
        le_encode(pat_small(self as i128, 4), 4)
    }

    fn from_le_bytes(bytes: &[u8]) -> (r: Self) {
        proof {
            lemma_nat_of_le_bound(bytes@);
            lemma_pow256_values();
        }
        unpat_small(le_decode(bytes), 4) as i32
    }
}

impl crate::BitEndian<8> for i64 {
    open spec fn le_spec(self) -> Seq<u8> {
        le_bytes_of(to_pattern(self as int, 8), 8)
    }

    open spec fn of_le_spec(s: Seq<u8>) -> Self {
        from_pattern(nat_of_le(s), 8) as i64
    }

    proof fn le_spec_len(self) {
        lemma_le_bytes_len(to_pattern(self as int, 8), 8);
    }

    proof fn le_spec_round_trip(self) {
        lemma_pow256_values();
        lemma_nat_of_le_bytes(to_pattern(self as int, 8), 8);
        lemma_pattern_round_trip(self as int, 8);
    }

    proof fn of_le_spec_round_trip(s: Seq<u8>) {
        lemma_le_bytes_of_nat(s);
        lemma_nat_of_le_bound(s);
        lemma_pow256_values();
        lemma_pattern_round_trip_rev(nat_of_le(s), 8);
    }

    fn to_le_bytes(self) -> (r: Vec<u8>) {
        proof {
            lemma_pow256_values();
            lemma_le_bytes_len(to_pattern(self as int, 8), 8);
        }
        le_encode(pat_small(self as i128, 8), 8)
    }

    fn from_le_bytes(bytes: &[u8]) -> (r: Self) {
        proof {
            lemma_nat_of_le_bound(bytes@);
            lemma_pow256_values();
        }
        unpat_small(le_decode(bytes), 8) as i64
    }
}

impl crate::BitEndian<16> for i128 {
    open spec fn le_spec(self) -> Seq<u8> {
        le_bytes_of(to_pattern(self as int, 16), 16)
    }

    open spec fn of_le_spec(s: Seq<u8>) -> Self {
        from_pattern(nat_of_le(s), 16) as i128
    }

    proof fn le_spec_len(self) {
        lemma_le_bytes_len(to_pattern(self as int, 16), 16);
    }

    proof fn le_spec_round_trip(self) {
        lemma_pow256_values();
        lemma_nat_of_le_bytes(to_pattern(self as int, 16), 16);
        lemma_pattern_round_trip(self as int, 16);
    }

    proof fn of_le_spec_round_trip(s: Seq<u8>) {
        lemma_le_bytes_of_nat(s);
        lemma_nat_of_le_bound(s);
        lemma_pow256_values();
        lemma_pattern_round_trip_rev(nat_of_le(s), 16);
    }

    fn to_le_bytes(self) -> (r: Vec<u8>) {
        proof {
            lemma_le_bytes_len(to_pattern(self as int, 16), 16);
        }
        le_encode(pat_wide(self), 16)
    }

    fn from_le_bytes(bytes: &[u8]) -> (r: Self) {
        proof {
            lemma_nat_of_le_bound(bytes@);
            lemma_pow256_values();
        }
        unpat_wide(le_decode(bytes))
    }
}

} // verus!
