use vstd::prelude::*;

verus! {

/// The Keccak-256 digest of a byte string, as a function of the bytes alone.
pub uninterp spec fn keccak256_of(input: Seq<u8>) -> Seq<u8>;

/// A 32-byte commitment.
#[derive(Clone, Copy, Debug)]
pub struct Digest {
    pub bytes: [u8; 32],
}

impl View for Digest {
    type V = Seq<u8>;

    open spec fn view(&self) -> Seq<u8> {
        self.bytes@
    }
}

/// Calls `ethers::utils::keccak256` on the given bytes. The result is the
/// Keccak-256 digest of exactly those bytes, which is always 32 bytes long.
#[verifier::external_body]
pub(crate) fn keccak256(input: &Vec<u8>) -> (d: Digest)
    ensures
        d@ == keccak256_of(input@),
{
    Digest { bytes: ethers::utils::keccak256(input) }
}

/// The digest of 32 zero bytes, which stands for an empty subtree.
pub open spec fn zero_digest() -> Seq<u8> {
    Seq::new(32, |i: int| 0u8)
}

impl Digest {
    /// The digest of 32 zero bytes.
    pub fn zero() -> (d: Digest)
        ensures
            d@ == zero_digest(),
    {
        let d = Digest { bytes: [0u8; 32] };
        assert(d@ =~= zero_digest());
        d
    }

    /// The digest with the given bytes.
    pub fn new(bytes: [u8; 32]) -> (d: Digest)
        ensures
            d@ == bytes@,
    {
        Digest { bytes }
    }

    /// Appends the 32 bytes of the digest.
    pub fn push_bytes(&self, out: &mut Vec<u8>)
        ensures
            final(out)@ == old(out)@ + self@,
    {
        let ghost before = out@;
        let mut i: usize = 0;
        while i < 32
            invariant
                i <= 32,
                out@ == before + self@.subrange(0, i as int),
            decreases 32 - i,
        {
            out.push(self.bytes[i]);
            assert(out@ =~= before + self@.subrange(0, i + 1));
            i += 1;
        }
        assert(self@.subrange(0, 32) =~= self@);
    }

    /// Whether two digests have the same bytes.
    pub fn same(&self, other: &Digest) -> (b: bool)
        ensures
            b == (self@ == other@),
    {
        let mut i: usize = 0;
        while i < 32
            invariant
                i <= 32,
                forall|j: int| 0 <= j < i ==> self.bytes@[j] == other.bytes@[j],
            decreases 32 - i,
        {
            if self.bytes[i] != other.bytes[i] {
                return false;
            }
            i += 1;
        }
        assert(self@ =~= other@);
        true
    }
}

} // verus!
