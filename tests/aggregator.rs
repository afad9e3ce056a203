use lending_aggregator::{
    Address, AggregatorAdapter, ConcreteAdapter, DefaultParams, LendingAggregator,
    LendingAggregatorParams, U256,
};

fn addr(tag: u8) -> Address {
    let mut bytes = [0u8; 20];
    bytes[0] = tag;
    bytes[19] = tag.wrapping_mul(7);
    Address::from_bytes(bytes)
}

fn n(v: u64) -> U256 {
    U256::from_u64(v)
}

fn ruint(v: U256) -> stylus_sdk::alloy_primitives::U256 {
    stylus_sdk::alloy_primitives::U256::from_limbs(v.into_limbs())
}

fn registry(tags: &[u8]) -> LendingAggregator {
    let mut agg = LendingAggregator::new();
    for (k, t) in tags.iter().enumerate() {
        agg.set_adapter(addr(*t), format!("protocol-{}", k));
    }
    agg
}

#[test]
fn registration_keeps_order_and_count() {
    let agg = registry(&[3, 1, 2]);
    assert_eq!(agg.adapter_count(), n(3));
    assert_eq!(agg.address_at(n(0)), addr(3));
    assert_eq!(agg.address_at(n(1)), addr(1));
    assert_eq!(agg.address_at(n(2)), addr(2));
    assert_eq!(agg.get_adapter(addr(3)), n(0));
    assert_eq!(agg.get_adapter(addr(1)), n(1));
    assert_eq!(agg.get_adapter(addr(2)), n(2));
}

#[test]
fn new_registry_is_empty() {
    let agg = LendingAggregator::new();
    assert_eq!(agg.adapter_count(), n(0));
    assert_eq!(agg.treasury(), Address::zero());
    assert_eq!(agg.address_at(n(0)), Address::zero());
}

#[test]
fn unregistered_reads_like_first_registrant() {
    let agg = registry(&[9, 8]);
    assert_eq!(agg.get_adapter(addr(42)), n(0));
    assert_eq!(agg.get_adapter(addr(9)), n(0));
    assert_eq!(agg.get_adapter(addr(42)), agg.get_adapter(addr(9)));
}

#[test]
fn reregistration_appends_and_repoints() {
    let agg = registry(&[5, 6, 5]);
    assert_eq!(agg.adapter_count(), n(3));
    assert_eq!(agg.get_adapter(addr(5)), n(2));
    assert_eq!(agg.address_at(n(0)), addr(5));
    assert_eq!(agg.address_at(n(2)), addr(5));
}

#[test]
fn address_at_past_the_end_is_zero() {
    let agg = registry(&[1, 2]);
    assert_eq!(agg.address_at(n(2)), Address::zero());
    assert_eq!(agg.address_at(U256::from_limbs([0, 1, 0, 0])), Address::zero());
    assert_eq!(agg.address_at(U256::max_value()), Address::zero());
}

#[test]
fn best_rates_over_registered_adapters() {
    let agg = registry(&[4, 7, 2]);
    let asset = addr(100);
    assert_eq!(agg.get_best_deposit_rate(asset), (n(100), n(0)));
    assert_eq!(agg.get_best_borrow_rate(asset), (n(200), n(0)));
}

#[test]
fn best_rates_on_empty_registry_return_seeds() {
    let agg = LendingAggregator::new();
    let asset = addr(1);
    assert_eq!(agg.get_best_deposit_rate(asset), (n(0), n(0)));
    assert_eq!(agg.get_best_borrow_rate(asset), (U256::max_value(), n(0)));
    assert_eq!(
        ruint(U256::max_value()),
        stylus_sdk::alloy_primitives::U256::MAX
    );
}

#[test]
fn fee_on_ten_thousand() {
    assert_eq!(LendingAggregator::calculate_fee(n(10000)), (n(20), n(9980)));
}

#[test]
fn fee_on_zero() {
    assert_eq!(LendingAggregator::calculate_fee(n(0)), (n(0), n(0)));
}

#[test]
fn fee_on_one_truncates() {
    assert_eq!(LendingAggregator::calculate_fee(n(1)), (n(0), n(1)));
}

#[test]
fn fee_on_odd_amount() {
    assert_eq!(LendingAggregator::calculate_fee(n(123456)), (n(246), n(123210)));
}

#[test]
fn fee_on_wide_amount() {
    let amount = U256::from_limbs([5, 0, 0, 3]);
    let (fee, net) = LendingAggregator::calculate_fee(amount);
    let expected_fee = ruint(amount) * stylus_sdk::alloy_primitives::U256::from(20u64)
        / stylus_sdk::alloy_primitives::U256::from(10000u64);
    assert_eq!(ruint(fee), expected_fee);
    assert_eq!(ruint(net), ruint(amount) - expected_fee);
    assert_ne!(fee, n(0));
}

#[test]
fn fee_split_with_other_percent() {
    assert_eq!(LendingAggregator::fee_split(n(1000), n(500)), (n(50), n(950)));
    assert_eq!(LendingAggregator::fee_split(n(7), n(10000)), (n(7), n(0)));
}

#[test]
fn protocol_fee_percent_is_twenty() {
    let agg = LendingAggregator::new();
    assert_eq!(agg.get_protocol_fee_percent(), n(20));
    assert_eq!(DefaultParams::protocol_fee_percent(), n(20));
}

#[test]
fn treasury_round_trips() {
    let mut agg = registry(&[1]);
    agg.set_treasury(addr(77));
    assert_eq!(agg.treasury(), addr(77));
    agg.set_treasury(Address::zero());
    assert_eq!(agg.treasury(), Address::zero());
    assert_eq!(agg.adapter_count(), n(1));
}

#[test]
fn init_sets_treasury_and_empties_registry() {
    let mut agg = registry(&[1, 2]);
    agg.init(addr(9));
    assert_eq!(agg.treasury(), addr(9));
    assert_eq!(agg.adapter_count(), n(0));
    assert_eq!(agg.get_best_deposit_rate(addr(3)), (n(0), n(0)));
}

#[test]
fn get_rates_is_repeatable() {
    let adapter = ConcreteAdapter::new(addr(12));
    let first = adapter.get_rates(addr(5));
    let second = adapter.get_rates(addr(5));
    assert_eq!(first, second);
    assert_eq!(first, (n(100), n(200)));
    assert_eq!(adapter.get_protocol_address(), addr(12));
}

#[test]
fn address_bytes_round_trip() {
    let a = addr(33);
    assert_eq!(Address::from_bytes(a.into_bytes()), a);
    assert_ne!(addr(33), addr(34));
}
