use zk_6358_runner::fri_config::{high_rate_fri_config, FriParams, FriReduction};
use zk_6358_runner::vk_registry::{tx_num_for_instances, VkAddressBook};

fn standard_recursion_fri() -> FriParams {
    FriParams {
        rate_bits: 3,
        cap_height: 4,
        proof_of_work_bits: 16,
        reduction_strategy: FriReduction::ConstantArityBits(4, 5),
        num_query_rounds: 28,
    }
}

#[test]
fn high_rate_config_of_the_standard_recursion_config() {
    let high = high_rate_fri_config(standard_recursion_fri());
    assert_eq!(
        high,
        FriParams {
            rate_bits: 7,
            cap_height: 4,
            proof_of_work_bits: 16,
            reduction_strategy: FriReduction::ConstantArityBits(4, 5),
            num_query_rounds: 12,
        }
    );
}

#[test]
fn high_rate_config_keeps_cap_height_and_strategy() {
    let base = FriParams {
        rate_bits: 1,
        cap_height: 9,
        proof_of_work_bits: 0,
        reduction_strategy: FriReduction::Fixed(vec![3, 2, 1]),
        num_query_rounds: 100,
    };
    let high = high_rate_fri_config(base);
    assert_eq!(high.cap_height, 9);
    assert_eq!(high.reduction_strategy, FriReduction::Fixed(vec![3, 2, 1]));
    assert_eq!(high.rate_bits, 7);
    assert_eq!(high.proof_of_work_bits, 16);
    assert_eq!(high.num_query_rounds, 12);
    let again = high_rate_fri_config(high_rate_fri_config(FriParams {
        rate_bits: 2,
        cap_height: 1,
        proof_of_work_bits: 3,
        reduction_strategy: FriReduction::MinSize(Some(3)),
        num_query_rounds: 5,
    }));
    assert_eq!(again.reduction_strategy, FriReduction::MinSize(Some(3)));
    assert_eq!(again.cap_height, 1);
}

#[test]
fn instance_count_gives_the_batch_size() {
    assert_eq!(tx_num_for_instances(20), 0);
    assert_eq!(tx_num_for_instances(36), 4);
    assert_eq!(tx_num_for_instances(52), 8);
    assert_eq!(tx_num_for_instances(4 * (32 + 5)), 32);
}

#[test]
fn registered_vk_addresses_are_found_by_instance_count() {
    let mut book = VkAddressBook::new([9u8; 20]);
    book.register_vk(4, [4u8; 20]);
    book.register_vk(8, [8u8; 20]);
    assert_eq!(book.vk_address(4), Some([4u8; 20]));
    assert_eq!(book.vk_address(8), Some([8u8; 20]));
    assert_eq!(book.vk_address(16), None);
    assert_eq!(book.vk_address_for_instances(36), [4u8; 20]);
    assert_eq!(book.vk_address_for_instances(52), [8u8; 20]);
    assert_eq!(book.verifier_address, [9u8; 20]);
}

#[test]
fn registering_a_batch_size_again_replaces_its_address() {
    let mut book = VkAddressBook::new([0u8; 20]);
    book.register_vk(4, [1u8; 20]);
    book.register_vk(4, [2u8; 20]);
    assert_eq!(book.vk_address(4), Some([2u8; 20]));
    assert_eq!(book.vk_address_map.len(), 1);
}
