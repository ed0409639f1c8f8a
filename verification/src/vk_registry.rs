//! The verifying-key contracts of the local on-chain verifier.
//!
//! Each supported batch size has its own verifying-key contract, deployed
//! next to the shared verifier contract. A proof of a batch of `n`
//! transactions comes with `4 * (n + 5)` public instances, so the number of
//! instances tells which verifying-key contract to call.
use vstd::prelude::*;
use std::collections::BTreeMap;

verus! {

broadcast use vstd::laws_cmp::group_laws_cmp;

/// A deployed contract's address.
pub type ContractAddress = [u8; 20];

/// The verifier contract and the verifying-key contract of each batch size.
pub struct VkAddressBook {
    pub verifier_address: ContractAddress,
    pub vk_address_map: BTreeMap<usize, ContractAddress>,
}

impl View for VkAddressBook {
    type V = Map<usize, ContractAddress>;

    /// The verifying-key contract of each registered batch size.
    open spec fn view(&self) -> Map<usize, ContractAddress> {
        self.vk_address_map@
    }
}

/// The public instances of a proof of `tx_num` transactions number
/// `4 * (tx_num + 5)`.
pub open spec fn instance_count(tx_num: int) -> int {
    4 * (tx_num + 5)
}

/// A count of public instances that belongs to some batch size.
pub open spec fn is_valid_instance_count(instances_len: int) -> bool {
    instances_len % 4 == 0 && instances_len / 4 >= 5
}

/// The batch size whose proofs have `instances_len` public instances.
pub fn tx_num_for_instances(instances_len: usize) -> (tx_num: usize)
    requires
        is_valid_instance_count(instances_len as int),
    ensures
        instance_count(tx_num as int) == instances_len,
{
    instances_len / 4 - 5
}

impl VkAddressBook {
    /// A book with the verifier contract at `verifier_address` and no
    /// verifying-key contract yet.
    pub fn new(verifier_address: ContractAddress) -> (book: Self)
        ensures
            book.verifier_address == verifier_address,
            book@ == Map::<usize, ContractAddress>::empty(),
    {
        VkAddressBook { verifier_address, vk_address_map: BTreeMap::new() }
    }

    /// Records that the verifying-key contract of batch size `tx_num` is at
    /// `address`, replacing an earlier record of that size.
    pub fn register_vk(&mut self, tx_num: usize, address: ContractAddress)
        ensures
            final(self)@ == old(self)@.insert(tx_num, address),
            final(self).verifier_address == old(self).verifier_address,
    {
        self.vk_address_map.insert(tx_num, address);
    }

    /// The verifying-key contract of batch size `tx_num`, if one is recorded.
    pub fn vk_address(&self, tx_num: usize) -> (address: Option<ContractAddress>)
        ensures
            address == (if self@.contains_key(tx_num) {
                Some(self@[tx_num])
            } else {
                None::<ContractAddress>
            }),
    {
        match self.vk_address_map.get(&tx_num) {
            Some(a) => Some(*a),
            None => None,
        }
    }

    /// The verifying-key contract to call for a proof with `instances_len`
    /// public instances.
    pub fn vk_address_for_instances(&self, instances_len: usize) -> (address: ContractAddress)
        requires
            is_valid_instance_count(instances_len as int),
            self@.contains_key((instances_len / 4 - 5) as usize),
        ensures
            address == self@[(instances_len / 4 - 5) as usize],
    {
        let tx_num = tx_num_for_instances(instances_len);
        match self.vk_address_map.get(&tx_num) {
            Some(a) => *a,
            None => self.verifier_address,
        }
    }
}

/// What one registration is read back as: the address registered last for
/// a batch size, every other batch size unchanged.
pub proof fn lemma_register_then_lookup(
    book: Map<usize, ContractAddress>,
    tx_num: usize,
    address: ContractAddress,
    other: usize,
)
    requires
        other != tx_num,
    ensures
        book.insert(tx_num, address).contains_key(tx_num),
        book.insert(tx_num, address)[tx_num] == address,
        book.insert(tx_num, address).contains_key(other) == book.contains_key(other),
        book.insert(tx_num, address)[other] == book[other],
{
}

} // verus!
