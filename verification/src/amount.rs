use vstd::prelude::*;

verus! {

/// The number that four 64-bit limbs stand for, least significant limb first.
pub open spec fn limbs_value(limbs: Seq<u64>) -> nat {
    (limbs[0] as nat) + (limbs[1] as nat) * 0x1_0000_0000_0000_0000nat + (limbs[2] as nat)
        * 0x1_0000_0000_0000_0000_0000_0000_0000_0000nat + (limbs[3] as nat)
        * 0x1_0000_0000_0000_0000_0000_0000_0000_0000_0000_0000_0000_0000nat
}

/// The largest amount: 2^256 - 1.
pub open spec fn max_amount() -> nat {
    0xffff_ffff_ffff_ffff_ffff_ffff_ffff_ffff_ffff_ffff_ffff_ffff_ffff_ffff_ffff_ffffnat
}

/// 256 to the power `k`, for the eight byte positions of a limb.
pub open spec fn byte_weight(k: int) -> int {
    if k == 0 {
        0x1
    } else if k == 1 {
        0x100
    } else if k == 2 {
        0x1_0000
    } else if k == 3 {
        0x100_0000
    } else if k == 4 {
        0x1_0000_0000
    } else if k == 5 {
        0x100_0000_0000
    } else if k == 6 {
        0x1_0000_0000_0000
    } else {
        0x100_0000_0000_0000
    }
}

/// Byte `k` of a limb, where byte 0 is the least significant.
pub open spec fn limb_byte(limb: u64, k: int) -> u8 {
    ((limb as int / byte_weight(k)) % 256) as u8
}

/// The 32 bytes of an amount, most significant byte first.
pub open spec fn limbs_be_bytes(limbs: Seq<u64>) -> Seq<u8> {
    Seq::new(32, |i: int| limb_byte(limbs[3 - i / 8], 7 - i % 8))
}

/// The number that the eight bytes from `start` on stand for, most
/// significant byte first.
pub open spec fn be_limb(bytes: Seq<u8>, start: int) -> nat {
    (bytes[start] as nat) * 0x100_0000_0000_0000 + (bytes[start + 1] as nat) * 0x1_0000_0000_0000
        + (bytes[start + 2] as nat) * 0x100_0000_0000 + (bytes[start + 3] as nat) * 0x1_0000_0000
        + (bytes[start + 4] as nat) * 0x100_0000 + (bytes[start + 5] as nat) * 0x1_0000 + (
    bytes[start + 6] as nat) * 0x100 + (bytes[start + 7] as nat)
}

/// The number that 32 bytes stand for, most significant byte first.
pub open spec fn be_value(bytes: Seq<u8>) -> nat {
    be_limb(bytes, 24) + be_limb(bytes, 16) * 0x1_0000_0000_0000_0000nat + be_limb(bytes, 8)
        * 0x1_0000_0000_0000_0000_0000_0000_0000_0000nat + be_limb(bytes, 0)
        * 0x1_0000_0000_0000_0000_0000_0000_0000_0000_0000_0000_0000_0000nat
}

/// The eight bytes of a 64-bit number, most significant byte first.
pub open spec fn u64_be_bytes(value: u64) -> Seq<u8> {
    Seq::new(8, |i: int| limb_byte(value, 7 - i))
}

/// An unsigned 256-bit number.
#[derive(Clone, Copy, Debug)]
pub struct Uint256 {
    pub limbs: [u64; 4],
}

/// An amount of the fee ledger.
pub type FeeAmount = Uint256;

impl View for Uint256 {
    type V = nat;

    open spec fn view(&self) -> nat {
        limbs_value(self.limbs@)
    }
}

/// Calls `U256::max_value` of `ethers::types`. The limbs that come back
/// stand for 2^256 - 1.
#[verifier::external_body]
fn u256_max_value() -> (r: Uint256)
    ensures
        r@ == max_amount(),
{
    Uint256 { limbs: ethers::types::U256::max_value().0 }
}

/// Calls `U256::checked_add` of `ethers::types` on the two amounts, read as
/// little-endian limbs. The sum comes back exactly when it is below 2^256.
#[verifier::external_body]
fn u256_checked_add(a: &Uint256, b: &Uint256) -> (r: Option<Uint256>)
    ensures
        r is Some <==> a@ + b@ <= max_amount(),
        r is Some ==> r->0@ == a@ + b@,
{
    match ethers::types::U256(a.limbs).checked_add(ethers::types::U256(b.limbs)) {
        Some(sum) => Some(Uint256 { limbs: sum.0 }),
        None => None,
    }
}

/// Calls `U256::checked_sub` of `ethers::types` on the two amounts, read as
/// little-endian limbs. The difference comes back exactly when the second
/// amount is not larger than the first.
#[verifier::external_body]
fn u256_checked_sub(a: &Uint256, b: &Uint256) -> (r: Option<Uint256>)
    ensures
        r is Some <==> b@ <= a@,
        r is Some ==> r->0@ == a@ - b@,
{
    match ethers::types::U256(a.limbs).checked_sub(ethers::types::U256(b.limbs)) {
        Some(difference) => Some(Uint256 { limbs: difference.0 }),
        None => None,
    }
}

/// Limbs that stand for the same number are the same limbs.
pub proof fn lemma_value_determines_limbs(a: Seq<u64>, b: Seq<u64>)
    requires
        a.len() == 4,
        b.len() == 4,
        limbs_value(a) == limbs_value(b),
    ensures
        a =~= b,
{
    let k: int = 0x1_0000_0000_0000_0000;
    let va = limbs_value(a) as int;
    let ha = a[1] + a[2] * k + a[3] * k * k;
    let hb = b[1] + b[2] * k + b[3] * k * k;
    let k2: int = 0x1_0000_0000_0000_0000_0000_0000_0000_0000int;
    let k3: int = 0x1_0000_0000_0000_0000_0000_0000_0000_0000_0000_0000_0000_0000int;
    assert(a[2] * k2 == (a[2] * k) * k && a[3] * k3 == ((a[3] * k) * k) * k && b[2] * k2 == (b[2]
        * k) * k && b[3] * k3 == ((b[3] * k) * k) * k) by (nonlinear_arith)
        requires
            k == 0x1_0000_0000_0000_0000int,
            k2 == 0x1_0000_0000_0000_0000_0000_0000_0000_0000int,
            k3 == 0x1_0000_0000_0000_0000_0000_0000_0000_0000_0000_0000_0000_0000int,
    ;
    lemma_split(
        a[0] as int,
        a[1] + (a[2] + a[3] * k) * k,
        b[0] as int,
        b[1] + (b[2] + b[3] * k) * k,
        k,
    );
    lemma_split(a[1] as int, a[2] + a[3] * k, b[1] as int, b[2] + b[3] * k, k);
    lemma_split(a[2] as int, a[3] as int, b[2] as int, b[3] as int, k);
}

/// Two amounts that stand for the same number are the same amount.
pub proof fn lemma_amount_unique(a: Uint256, b: Uint256)
    requires
        a@ == b@,
    ensures
        a == b,
{
    lemma_value_determines_limbs(a.limbs@, b.limbs@);
    assert(a.limbs =~= b.limbs);
}

/// A limb is the number that its eight bytes stand for.
proof fn lemma_limb_bytes(limb: u64)
    ensures
        be_limb(u64_be_bytes(limb), 0) == limb,
{
    let b = u64_be_bytes(limb);
    assert(b[0] == limb_byte(limb, 7) && b[1] == limb_byte(limb, 6) && b[2] == limb_byte(limb, 5)
        && b[3] == limb_byte(limb, 4) && b[4] == limb_byte(limb, 3) && b[5] == limb_byte(limb, 2)
        && b[6] == limb_byte(limb, 1) && b[7] == limb_byte(limb, 0));
    assert(((limb / 0x100_0000_0000_0000) % 256) * 0x100_0000_0000_0000 + ((limb
        / 0x1_0000_0000_0000) % 256) * 0x1_0000_0000_0000 + ((limb / 0x100_0000_0000) % 256)
        * 0x100_0000_0000 + ((limb / 0x1_0000_0000) % 256) * 0x1_0000_0000 + ((limb / 0x100_0000)
        % 256) * 0x100_0000 + ((limb / 0x1_0000) % 256) * 0x1_0000 + ((limb / 0x100) % 256) * 0x100
        + ((limb / 0x1) % 256) == limb) by (bit_vector);
}

/// The bytes of an amount stand for the amount.
pub proof fn lemma_be_bytes_value(limbs: Seq<u64>)
    requires
        limbs.len() == 4,
    ensures
        limbs_be_bytes(limbs).len() == 32,
        be_value(limbs_be_bytes(limbs)) == limbs_value(limbs),
{
    lemma_limb_at(limbs, 0);
    lemma_limb_at(limbs, 1);
    lemma_limb_at(limbs, 2);
    lemma_limb_at(limbs, 3);
}

/// The eight bytes of limb `3 - n` stand at position `8 * n` of an amount's
/// bytes.
proof fn lemma_limb_at(limbs: Seq<u64>, n: int)
    requires
        limbs.len() == 4,
        0 <= n < 4,
    ensures
        be_limb(limbs_be_bytes(limbs), 8 * n) == limbs[3 - n],
{
    let bytes = limbs_be_bytes(limbs);
    let limb = limbs[3 - n];
    lemma_limb_bytes(limb);
    let b = u64_be_bytes(limb);
    assert forall|j: int| 0 <= j < 8 implies #[trigger] bytes[8 * n + j] == b[j] by {
        assert((8 * n + j) / 8 == n && (8 * n + j) % 8 == j);
    }
    assert(bytes[8 * n + 0] == b[0]);
    assert(bytes[8 * n + 1] == b[1]);
    assert(bytes[8 * n + 2] == b[2]);
    assert(bytes[8 * n + 3] == b[3]);
    assert(bytes[8 * n + 4] == b[4]);
    assert(bytes[8 * n + 5] == b[5]);
    assert(bytes[8 * n + 6] == b[6]);
    assert(bytes[8 * n + 7] == b[7]);
}

proof fn lemma_split(x0: int, x1: int, y0: int, y1: int, k: int)
    by (nonlinear_arith)
    requires
        0 <= x0 < k,
        0 <= y0 < k,
        x0 + x1 * k == y0 + y1 * k,
    ensures
        x0 == y0,
        x1 == y1,
{
    assert((x1 - y1) * k == y0 - x0);
    if x1 > y1 {
        assert((x1 - y1) * k >= k);
    }
    if x1 < y1 {
        assert((y1 - x1) * k >= k);
    }
}

/// Byte `k` of a limb, where byte 0 is the least significant.
fn byte_of_limb(limb: u64, k: usize) -> (b: u8)
    requires
        k < 8,
    ensures
        b == limb_byte(limb, k as int),
{
    let weight: u64 = if k == 0 {
        0x1
    } else if k == 1 {
        0x100
    } else if k == 2 {
        0x1_0000
    } else if k == 3 {
        0x100_0000
    } else if k == 4 {
        0x1_0000_0000
    } else if k == 5 {
        0x100_0000_0000
    } else if k == 6 {
        0x1_0000_0000_0000
    } else {
        0x100_0000_0000_0000
    };
    ((limb / weight) % 256) as u8
}

/// Appends the eight bytes of a 64-bit number, most significant first.
pub fn push_u64_be(value: u64, out: &mut Vec<u8>)
    ensures
        final(out)@ == old(out)@ + u64_be_bytes(value),
{
    let ghost before = out@;
    let mut i: usize = 0;
    while i < 8
        invariant
            i <= 8,
            out@ == before + u64_be_bytes(value).subrange(0, i as int),
        decreases 8 - i,
    {
        out.push(byte_of_limb(value, 7 - i));
        assert(out@ =~= before + u64_be_bytes(value).subrange(0, i + 1));
        i += 1;
    }
    assert(u64_be_bytes(value).subrange(0, 8) =~= u64_be_bytes(value));
}

/// The limb whose eight bytes, most significant first, are the given ones.
fn limb_of_bytes(b7: u8, b6: u8, b5: u8, b4: u8, b3: u8, b2: u8, b1: u8, b0: u8) -> (limb: u64)
    ensures
        limb == b7 * 0x100_0000_0000_0000 + b6 * 0x1_0000_0000_0000 + b5 * 0x100_0000_0000 + b4
            * 0x1_0000_0000 + b3 * 0x100_0000 + b2 * 0x1_0000 + b1 * 0x100 + b0,
        limb_byte(limb, 7) == b7,
        limb_byte(limb, 6) == b6,
        limb_byte(limb, 5) == b5,
        limb_byte(limb, 4) == b4,
        limb_byte(limb, 3) == b3,
        limb_byte(limb, 2) == b2,
        limb_byte(limb, 1) == b1,
        limb_byte(limb, 0) == b0,
{
    let x7: u64 = b7 as u64;
    let x6: u64 = b6 as u64;
    let x5: u64 = b5 as u64;
    let x4: u64 = b4 as u64;
    let x3: u64 = b3 as u64;
    let x2: u64 = b2 as u64;
    let x1: u64 = b1 as u64;
    let x0: u64 = b0 as u64;
    let limb: u64 = x7 * 0x100_0000_0000_0000 + x6 * 0x1_0000_0000_0000 + x5 * 0x100_0000_0000 + x4
        * 0x1_0000_0000 + x3 * 0x100_0000 + x2 * 0x1_0000 + x1 * 0x100 + x0;
    assert((limb / 0x100_0000_0000_0000) % 256 == x7 && (limb / 0x1_0000_0000_0000) % 256 == x6
        && (limb / 0x100_0000_0000) % 256 == x5 && (limb / 0x1_0000_0000) % 256 == x4 && (limb
        / 0x100_0000) % 256 == x3 && (limb / 0x1_0000) % 256 == x2 && (limb / 0x100) % 256 == x1
        && (limb / 0x1) % 256 == x0) by (bit_vector)
        requires
            x7 < 256 && x6 < 256 && x5 < 256 && x4 < 256 && x3 < 256 && x2 < 256 && x1 < 256 && x0
                < 256,
            limb == x7 * 0x100_0000_0000_0000 + x6 * 0x1_0000_0000_0000 + x5 * 0x100_0000_0000
                + x4 * 0x1_0000_0000 + x3 * 0x100_0000 + x2 * 0x1_0000 + x1 * 0x100 + x0,
    ;
    limb
}

impl Uint256 {
    /// The amount zero.
    pub fn zero() -> (r: Uint256)
        ensures
            r@ == 0,
    {
        Uint256 { limbs: [0u64, 0u64, 0u64, 0u64] }
    }

    /// The amount that a 64-bit number stands for.
    pub fn from_u64(value: u64) -> (r: Uint256)
        ensures
            r@ == value,
    {
        Uint256 { limbs: [value, 0u64, 0u64, 0u64] }
    }

    /// The largest amount, 2^256 - 1.
    pub fn max_value() -> (r: Uint256)
        ensures
            r@ == max_amount(),
    {
        u256_max_value()
    }

    /// The sum of two amounts, or `None` where it does not fit in 256 bits.
    pub fn checked_add(&self, other: &Uint256) -> (r: Option<Uint256>)
        ensures
            r is Some <==> self@ + other@ <= max_amount(),
            r is Some ==> r->0@ == self@ + other@,
    {
        u256_checked_add(self, other)
    }

    /// The difference of two amounts, or `None` where the second is larger.
    pub fn checked_sub(&self, other: &Uint256) -> (r: Option<Uint256>)
        ensures
            r is Some <==> other@ <= self@,
            r is Some ==> r->0@ == self@ - other@,
    {
        u256_checked_sub(self, other)
    }

    /// Whether two amounts are the same number.
    pub fn same(&self, other: &Uint256) -> (b: bool)
        ensures
            b == (self@ == other@),
    {
        let b = self.limbs[0] == other.limbs[0] && self.limbs[1] == other.limbs[1]
            && self.limbs[2] == other.limbs[2] && self.limbs[3] == other.limbs[3];
        proof {
            if self@ == other@ {
                lemma_value_determines_limbs(self.limbs@, other.limbs@);
            }
        }
        b
    }

    /// Whether the amount is not larger than the other.
    pub fn le(&self, other: &Uint256) -> (b: bool)
        ensures
            b == (self@ <= other@),
    {
        u256_checked_sub(other, self).is_some()
    }

    /// Whether the amount is zero.
    pub fn is_zero(&self) -> (b: bool)
        ensures
            b == (self@ == 0),
    {
        self.limbs[0] == 0 && self.limbs[1] == 0 && self.limbs[2] == 0 && self.limbs[3] == 0
    }

    /// Appends the 32 bytes of the amount, most significant first.
    pub fn push_be_bytes(&self, out: &mut Vec<u8>)
        ensures
            final(out)@ == old(out)@ + limbs_be_bytes(self.limbs@),
    {
        let ghost before = out@;
        let mut i: usize = 0;
        while i < 32
            invariant
                i <= 32,
                out@.len() == before.len() + i,
                out@.subrange(0, before.len() as int) == before,
                forall|j: int|
                    0 <= j < i ==> out@[before.len() + j] == limbs_be_bytes(self.limbs@)[j],
            decreases 32 - i,
        {
            let byte = byte_of_limb(self.limbs[3 - i / 8], 7 - i % 8);
            out.push(byte);
            assert(out@.subrange(0, before.len() as int) =~= before);
            i += 1;
        }
        assert(out@ =~= before + limbs_be_bytes(self.limbs@));
    }

    /// The amount whose 32 bytes, most significant first, stand in `bytes`
    /// from position `start` on.
    pub fn from_be_bytes(bytes: &Vec<u8>, start: usize) -> (r: Uint256)
        requires
            start + 32 <= bytes.len(),
        ensures
            limbs_be_bytes(r.limbs@) == bytes@.subrange(start as int, start + 32),
            r@ == be_value(bytes@.subrange(start as int, start + 32)),
    {
        let ghost part = bytes@.subrange(start as int, start + 32);
        assert(part.subrange(0, 8) =~= bytes@.subrange(start as int, start + 8));
        assert(part.subrange(8, 16) =~= bytes@.subrange(start + 8, start + 16));
        assert(part.subrange(16, 24) =~= bytes@.subrange(start + 16, start + 24));
        assert(part.subrange(24, 32) =~= bytes@.subrange(start + 24, start + 32));
        let l3 = limb_from(bytes, start, Ghost(part), Ghost(0));
        let l2 = limb_from(bytes, start + 8, Ghost(part), Ghost(8));
        let l1 = limb_from(bytes, start + 16, Ghost(part), Ghost(16));
        let l0 = limb_from(bytes, start + 24, Ghost(part), Ghost(24));
        let r = Uint256 { limbs: [l0, l1, l2, l3] };
        proof {
            lemma_quarter(r.limbs@, part, 0);
            lemma_quarter(r.limbs@, part, 1);
            lemma_quarter(r.limbs@, part, 2);
            lemma_quarter(r.limbs@, part, 3);
            assert(limbs_be_bytes(r.limbs@) =~= part);
        }
        r
    }
}

/// Whether the limb's eight bytes are the ones that stand in `part` from
/// position `offset` on.
spec fn limb_matches(limb: u64, part: Seq<u8>, offset: int) -> bool {
    &&& limb_byte(limb, 7) == part[offset]
    &&& limb_byte(limb, 6) == part[offset + 1]
    &&& limb_byte(limb, 5) == part[offset + 2]
    &&& limb_byte(limb, 4) == part[offset + 3]
    &&& limb_byte(limb, 3) == part[offset + 4]
    &&& limb_byte(limb, 2) == part[offset + 5]
    &&& limb_byte(limb, 1) == part[offset + 6]
    &&& limb_byte(limb, 0) == part[offset + 7]
}

/// The limb whose eight bytes, most significant first, stand in `bytes` from
/// position `at` on, which is position `offset` of `part`.
fn limb_from(
    bytes: &Vec<u8>,
    at: usize,
    Ghost(part): Ghost<Seq<u8>>,
    Ghost(offset): Ghost<int>,
) -> (limb: u64)
    requires
        at + 8 <= bytes.len(),
        0 <= offset,
        offset + 8 <= part.len(),
        part.subrange(offset, offset + 8) == bytes@.subrange(at as int, at + 8),
    ensures
        limb == be_limb(part, offset),
        limb_matches(limb, part, offset),
{
    assert(part[offset + 0] == part.subrange(offset, offset + 8)[0] && bytes@[at + 0]
        == bytes@.subrange(at as int, at + 8)[0]);
    assert(part[offset + 1] == part.subrange(offset, offset + 8)[1] && bytes@[at + 1]
        == bytes@.subrange(at as int, at + 8)[1]);
    assert(part[offset + 2] == part.subrange(offset, offset + 8)[2] && bytes@[at + 2]
        == bytes@.subrange(at as int, at + 8)[2]);
    assert(part[offset + 3] == part.subrange(offset, offset + 8)[3] && bytes@[at + 3]
        == bytes@.subrange(at as int, at + 8)[3]);
    assert(part[offset + 4] == part.subrange(offset, offset + 8)[4] && bytes@[at + 4]
        == bytes@.subrange(at as int, at + 8)[4]);
    assert(part[offset + 5] == part.subrange(offset, offset + 8)[5] && bytes@[at + 5]
        == bytes@.subrange(at as int, at + 8)[5]);
    assert(part[offset + 6] == part.subrange(offset, offset + 8)[6] && bytes@[at + 6]
        == bytes@.subrange(at as int, at + 8)[6]);
    assert(part[offset + 7] == part.subrange(offset, offset + 8)[7] && bytes@[at + 7]
        == bytes@.subrange(at as int, at + 8)[7]);
    limb_of_bytes(
        bytes[at],
        bytes[at + 1],
        bytes[at + 2],
        bytes[at + 3],
        bytes[at + 4],
        bytes[at + 5],
        bytes[at + 6],
        bytes[at + 7],
    )
}

/// Where a limb's bytes are those of one quarter of `part`, the amount's
/// bytes agree with `part` on that quarter.
proof fn lemma_quarter(limbs: Seq<u64>, part: Seq<u8>, n: int)
    requires
        limbs.len() == 4,
        part.len() == 32,
        0 <= n < 4,
        limb_matches(limbs[3 - n], part, 8 * n),
    ensures
        forall|i: int| 8 * n <= i < 8 * n + 8 ==> limbs_be_bytes(limbs)[i] == part[i],
{
    assert forall|i: int| 8 * n <= i < 8 * n + 8 implies limbs_be_bytes(limbs)[i] == part[i] by {
        let j = i - 8 * n;
        assert(i / 8 == n && i % 8 == j);
        assert(limbs_be_bytes(limbs)[i] == limb_byte(limbs[3 - n], 7 - j));
    }
}

} // verus!
