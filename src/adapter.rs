use vstd::prelude::*;
use crate::address::Address;
use crate::uint::U256;

verus! {

/// What every lending-protocol adapter offers: a rate query and fund movements.
pub trait AggregatorAdapter {
    /// The `(deposit rate, borrow rate)` that the adapter reports for `asset`.
    spec fn rates_of(&self, asset: Address) -> (U256, U256);

    /// The protocol the adapter stands for.
    spec fn protocol_of(&self) -> Address;

    /// A pure query: the result depends on the adapter and the asset alone, so
    /// two calls with nothing in between agree.
    fn get_rates(&self, asset: Address) -> (r: (U256, U256))
        ensures
            r == self.rates_of(asset),
    ;

    fn supply(&mut self, asset: Address, amount: U256, user: Address);

    fn withdraw(&mut self, asset: Address, amount: U256, user: Address);

    fn borrow(&mut self, asset: Address, amount: U256, user: Address);

    fn get_protocol_address(&self) -> (r: Address)
        ensures
            r == self.protocol_of(),
    ;
}

/// Two rate queries on the same adapter and asset, with nothing in between,
/// return the same pair.
pub proof fn lemma_rates_repeatable<A: AggregatorAdapter>(
    adapter: A,
    asset: Address,
    first: (U256, U256),
    second: (U256, U256),
)
    requires
        first == adapter.rates_of(asset),
        second == adapter.rates_of(asset),
    ensures
        first == second,
{
}

/// The adapter the aggregator builds for every registered protocol. It reports
/// a fixed pair of rates and moves no funds.
#[derive(Clone, Copy, Debug)]
pub struct ConcreteAdapter {
    pub protocol_address: Address,
}

impl ConcreteAdapter {
    pub fn new(protocol_address: Address) -> (r: ConcreteAdapter)
        ensures
            r.protocol_address == protocol_address,
    {
        ConcreteAdapter { protocol_address }
    }
}

impl AggregatorAdapter for ConcreteAdapter {
    open spec fn rates_of(&self, asset: Address) -> (U256, U256) {
        (
            U256 { l0: 100, l1: 0, l2: 0, l3: 0 },
            U256 { l0: 200, l1: 0, l2: 0, l3: 0 },
        )
    }

    open spec fn protocol_of(&self) -> Address {
        self.protocol_address
    }

    fn get_rates(&self, asset: Address) -> (r: (U256, U256)) {
        (U256::from_limbs([100, 0, 0, 0]), U256::from_limbs([200, 0, 0, 0]))
    }

    fn supply(&mut self, asset: Address, amount: U256, user: Address) {
    }

    fn withdraw(&mut self, asset: Address, amount: U256, user: Address) {
    }

    fn borrow(&mut self, asset: Address, amount: U256, user: Address) {
    }

    fn get_protocol_address(&self) -> (r: Address) {
        self.protocol_address
    }
}

} // verus!
