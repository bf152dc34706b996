use crate::account::FeeAccount;
use crate::amount::{limbs_be_bytes, push_u64_be, u64_be_bytes, FeeAmount};
use crate::digest::{keccak256, keccak256_of, Digest};
use vstd::prelude::*;

verus! {

/// The parameters of one chain, fixed when the chain starts.
#[derive(Clone, Copy, Debug)]
pub struct ChainConfig {
    pub chain_id: u64,
    pub max_block_size: u64,
    pub base_fee: FeeAmount,
    pub fee_recipient: FeeAccount,
}

/// The bytes that stand for a chain's parameters: the chain id, the largest
/// block size, the base fee and the account that receives fees.
pub open spec fn chain_config_bytes(config: ChainConfig) -> Seq<u8> {
    u64_be_bytes(config.chain_id) + u64_be_bytes(config.max_block_size) + limbs_be_bytes(
        config.base_fee.limbs@,
    ) + config.fee_recipient@
}

impl ChainConfig {
    /// The bytes that stand for the parameters.
    pub fn encode(&self) -> (bytes: Vec<u8>)
        ensures
            bytes@ == chain_config_bytes(*self),
    {
        let mut bytes: Vec<u8> = Vec::new();
        push_u64_be(self.chain_id, &mut bytes);
        push_u64_be(self.max_block_size, &mut bytes);
        self.base_fee.push_be_bytes(&mut bytes);
        self.fee_recipient.push_bytes(&mut bytes);
        assert(bytes@ =~= chain_config_bytes(*self));
        bytes
    }

    /// The commitment to the parameters.
    pub fn commit(&self) -> (d: Digest)
        ensures
            d@ == keccak256_of(chain_config_bytes(*self)),
    {
        keccak256(&self.encode())
    }
}

impl Default for ChainConfig {
    /// The parameters of a test chain: chain id 35353, blocks of at most
    /// 10240 bytes, no base fee, fees to the zero account.
    fn default() -> (config: ChainConfig)
        ensures
            config.chain_id == 35353,
            config.max_block_size == 10240,
            config.base_fee@ == 0,
            config.fee_recipient@ == Seq::new(20, |i: int| 0u8),
    {
        ChainConfig {
            chain_id: 35353,
            max_block_size: 10240,
            base_fee: FeeAmount::zero(),
            fee_recipient: FeeAccount::zero(),
        }
    }
}

} // verus!
