use vstd::prelude::*;

verus! {

/// Two to the power `k`, for the eight bit positions of a byte.
pub open spec fn bit_weight(k: int) -> int {
    if k == 0 {
        1
    } else if k == 1 {
        2
    } else if k == 2 {
        4
    } else if k == 3 {
        8
    } else if k == 4 {
        16
    } else if k == 5 {
        32
    } else if k == 6 {
        64
    } else {
        128
    }
}

/// Bit `i` of an account, where bit 0 is the most significant bit of the
/// first byte.
pub open spec fn account_bit(bytes: Seq<u8>, i: int) -> bool {
    (bytes[i / 8] as int / bit_weight(7 - i % 8)) % 2 == 1
}

/// The 160 bits of an account: the way from the root of the fee ledger to
/// the account's leaf, `true` for a step to the right.
pub open spec fn account_path(bytes: Seq<u8>) -> Seq<bool> {
    Seq::new(160, |i: int| account_bit(bytes, i))
}

/// The account of the fee ledger: a 20-byte address.
#[derive(Clone, Copy, Debug)]
pub struct FeeAccount {
    pub bytes: [u8; 20],
}

impl View for FeeAccount {
    type V = Seq<u8>;

    open spec fn view(&self) -> Seq<u8> {
        self.bytes@
    }
}

/// A byte is given by its eight bits.
proof fn lemma_bits_determine_byte(x: u8, y: u8)
    requires
        forall|k: int| 0 <= k < 8 ==> (x as int / #[trigger] bit_weight(k)) % 2 == (y as int
            / bit_weight(k)) % 2,
    ensures
        x == y,
{
    assert(bit_weight(0) == 1 && bit_weight(1) == 2 && bit_weight(2) == 4 && bit_weight(3) == 8
        && bit_weight(4) == 16 && bit_weight(5) == 32 && bit_weight(6) == 64 && bit_weight(7)
        == 128);
    assert(x == y) by (bit_vector)
        requires
            (x / 1) % 2 == (y / 1) % 2,
            (x / 2) % 2 == (y / 2) % 2,
            (x / 4) % 2 == (y / 4) % 2,
            (x / 8) % 2 == (y / 8) % 2,
            (x / 16) % 2 == (y / 16) % 2,
            (x / 32) % 2 == (y / 32) % 2,
            (x / 64) % 2 == (y / 64) % 2,
            (x / 128) % 2 == (y / 128) % 2,
    ;
}

/// Two accounts with the same path through the ledger are the same account.
pub proof fn lemma_path_determines_account(a: Seq<u8>, b: Seq<u8>)
    requires
        a.len() == 20,
        b.len() == 20,
        account_path(a) == account_path(b),
    ensures
        a == b,
{
    assert forall|n: int| 0 <= n < 20 implies a[n] == b[n] by {
        assert forall|k: int| 0 <= k < 8 implies (a[n] as int / #[trigger] bit_weight(k)) % 2 == (
        b[n] as int / bit_weight(k)) % 2 by {
            let i = 8 * n + (7 - k);
            assert(i / 8 == n && i % 8 == 7 - k);
            assert(account_path(a)[i] == account_bit(a, i));
            assert(account_path(b)[i] == account_bit(b, i));
        }
        lemma_bits_determine_byte(a[n], b[n]);
    }
    assert(a =~= b);
}

impl FeeAccount {
    /// The account whose 20 bytes are all zero.
    pub fn zero() -> (r: FeeAccount)
        ensures
            r@ == Seq::new(20, |i: int| 0u8),
    {
        let r = FeeAccount { bytes: [0u8; 20] };
        assert(r@ =~= Seq::new(20, |i: int| 0u8));
        r
    }

    /// The account with the given bytes.
    pub fn new(bytes: [u8; 20]) -> (r: FeeAccount)
        ensures
            r@ == bytes@,
    {
        FeeAccount { bytes }
    }

    /// Whether two accounts are the same.
    pub fn same(&self, other: &FeeAccount) -> (b: bool)
        ensures
            b == (self@ == other@),
    {
        let mut i: usize = 0;
        while i < 20
            invariant
                i <= 20,
                forall|j: int| 0 <= j < i ==> self.bytes@[j] == other.bytes@[j],
            decreases 20 - i,
        {
            if self.bytes[i] != other.bytes[i] {
                return false;
            }
            i += 1;
        }
        assert(self@ =~= other@);
        true
    }

    /// Bit `i` of the account's path through the fee ledger.
    pub fn bit(&self, i: usize) -> (b: bool)
        requires
            i < 160,
        ensures
            b == account_path(self@)[i as int],
    {
        let k = 7 - i % 8;
        let weight: u8 = if k == 0 {
            1
        } else if k == 1 {
            2
        } else if k == 2 {
            4
        } else if k == 3 {
            8
        } else if k == 4 {
            16
        } else if k == 5 {
            32
        } else if k == 6 {
            64
        } else {
            128
        };
        (self.bytes[i / 8] / weight) % 2 == 1
    }

    /// The account whose 20 bytes stand in `bytes` from position `start` on.
    pub fn from_bytes(bytes: &Vec<u8>, start: usize) -> (r: FeeAccount)
        requires
            start + 20 <= bytes.len(),
        ensures
            r@ == bytes@.subrange(start as int, start + 20),
    {
        let mut out = [0u8; 20];
        let mut i: usize = 0;
        while i < 20
            invariant
                i <= 20,
                start + 20 <= bytes.len(),
                forall|j: int| 0 <= j < i ==> out@[j] == bytes@[start + j],
            decreases 20 - i,
        {
            out[i] = bytes[start + i];
            i += 1;
        }
        let r = FeeAccount { bytes: out };
        assert(r@ =~= bytes@.subrange(start as int, start + 20));
        r
    }

    /// Appends the 20 bytes of the account.
    pub fn push_bytes(&self, out: &mut Vec<u8>)
        ensures
            final(out)@ == old(out)@ + self@,
    {
        let ghost before = out@;
        let mut i: usize = 0;
        while i < 20
            invariant
                i <= 20,
                out@ == before + self@.subrange(0, i as int),
            decreases 20 - i,
        {
            out.push(self.bytes[i]);
            assert(out@ =~= before + self@.subrange(0, i + 1));
            i += 1;
        }
        assert(self@.subrange(0, 20) =~= self@);
    }
}

} // verus!
