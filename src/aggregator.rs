use vstd::prelude::*;
use crate::adapter::{AggregatorAdapter, ConcreteAdapter};
use crate::address::Address;
use crate::rates::{best_borrow, best_deposit};
use crate::uint::{checked_div, checked_mul, checked_sub, less_than, modulus, U256};

verus! {

/// The denominator of the fee percentage: a percent of 20 takes 0.20%.
pub open spec fn fee_denominator() -> nat {
    10000
}

/// Deployment settings of the aggregator.
pub trait LendingAggregatorParams {
    spec fn spec_protocol_fee_percent() -> nat;

    fn protocol_fee_percent() -> (r: U256)
        ensures
            r@ == Self::spec_protocol_fee_percent(),
    ;
}

/// The settings the aggregator runs with: a fee percent of 20.
pub struct DefaultParams;

impl LendingAggregatorParams for DefaultParams {
    open spec fn spec_protocol_fee_percent() -> nat {
        20
    }

    fn protocol_fee_percent() -> (r: U256) {
        U256::from_u64(20)
    }
}

/// The index that storage holds for `key`: registering an address again
/// overwrites its index, so this is the last position at which `key` was
/// registered, or 0 for an address never registered.
pub open spec fn index_in(addresses: Seq<Address>, key: Address) -> nat
    decreases addresses.len(),
{
    if addresses.len() == 0 {
        0
    } else if addresses.last() == key {
        (addresses.len() - 1) as nat
    } else {
        index_in(addresses.drop_last(), key)
    }
}

/// A registered address reads back an index at which it stands.
pub proof fn lemma_index_in_registered(addresses: Seq<Address>, j: int)
    requires
        0 <= j < addresses.len(),
    ensures
        index_in(addresses, addresses[j]) < addresses.len(),
        addresses[index_in(addresses, addresses[j]) as int] == addresses[j],
    decreases addresses.len(),
{
    let prefix = addresses.drop_last();
    if addresses.last() != addresses[j] {
        lemma_index_in_registered(prefix, j);
    }
}

/// An address that was never registered reads index 0.
pub proof fn lemma_unregistered_index_is_zero(addresses: Seq<Address>, key: Address)
    requires
        !addresses.contains(key),
    ensures
        index_in(addresses, key) == 0,
    decreases addresses.len(),
{
    if addresses.len() > 0 {
        assert(addresses.last() == addresses[addresses.len() - 1]);
        assert forall|j: int| 0 <= j < addresses.len() - 1 implies addresses.drop_last()[j] != key by {
            assert(addresses.drop_last()[j] == addresses[j]);
        }
        lemma_unregistered_index_is_zero(addresses.drop_last(), key);
    }
}

/// The first registrant, while it is not registered again, also reads index 0:
/// the index alone does not tell it from an address never registered.
pub proof fn lemma_first_registrant_index_is_zero(addresses: Seq<Address>)
    requires
        addresses.len() > 0,
        forall|j: int| 0 < j < addresses.len() ==> #[trigger] addresses[j] != addresses[0],
    ensures
        index_in(addresses, addresses[0]) == 0,
    decreases addresses.len(),
{
    if addresses.len() > 1 {
        let prefix = addresses.drop_last();
        assert(prefix[0] == addresses[0]);
        assert forall|j: int| 0 < j < prefix.len() implies #[trigger] prefix[j] != prefix[0] by {
            assert(prefix[j] == addresses[j]);
        }
        lemma_first_registrant_index_is_zero(prefix);
    }
}

/// The fee taken from `amount`: `amount * fee_percent / 10000`, rounded down.
pub open spec fn fee_of(amount: nat, fee_percent: nat) -> nat {
    amount * fee_percent / fee_denominator()
}

/// A registry of lending-protocol adapters with a treasury address.
///
/// The adapter registered `k`-th (from 0) has index `k`; its address and its name
/// are both kept under that index. Registering an address again adds a new
/// entry and points the address at the new index.
pub struct LendingAggregator {
    treasury: Address,
    adapter_addresses: Vec<Address>,
    adapters_name: Vec<String>,
}

impl LendingAggregator {
    pub closed spec fn spec_treasury(&self) -> Address {
        self.treasury
    }

    /// The registered addresses, by index.
    pub closed spec fn addresses(&self) -> Seq<Address> {
        self.adapter_addresses@
    }

    /// The registered names, by index.
    pub closed spec fn names(&self) -> Seq<Seq<char>> {
        self.adapters_name@.map_values(|s: String| s@)
    }

    pub closed spec fn wf(&self) -> bool {
        self.adapter_addresses@.len() == self.adapters_name@.len()
    }

    /// `after` is `before` with `address` registered under the name `name`.
    pub open spec fn registered(
        before: LendingAggregator,
        after: LendingAggregator,
        address: Address,
        name: Seq<char>,
    ) -> bool {
        &&& after.wf()
        &&& after.spec_treasury() == before.spec_treasury()
        &&& after.addresses() == before.addresses().push(address)
        &&& after.names() == before.names().push(name)
    }

    /// The adapter that answers for the protocol at index `i`.
    pub open spec fn adapter_at(&self, i: int) -> ConcreteAdapter {
        ConcreteAdapter { protocol_address: self.addresses()[i] }
    }

    /// The deposit rates that the registered adapters report for `asset`, by index.
    pub open spec fn deposit_rates(&self, asset: Address) -> Seq<nat> {
        Seq::new(self.addresses().len(), |i: int| self.adapter_at(i).rates_of(asset).0@)
    }

    /// The borrow rates that the registered adapters report for `asset`, by index.
    pub open spec fn borrow_rates(&self, asset: Address) -> Seq<nat> {
        Seq::new(self.addresses().len(), |i: int| self.adapter_at(i).rates_of(asset).1@)
    }

    /// An aggregator with the zero address as treasury and no adapters.
    pub fn new() -> (r: LendingAggregator)
        ensures
            r.wf(),
            r.spec_treasury() == Address::spec_zero(),
            r.addresses().len() == 0,
            r.names().len() == 0,
    {
        LendingAggregator {
            treasury: Address::zero(),
            adapter_addresses: Vec::new(),
            adapters_name: Vec::new(),
        }
    }

    /// Sets the treasury and empties the registry.
    pub fn init(&mut self, treasury: Address)
        ensures
            final(self).wf(),
            final(self).spec_treasury() == treasury,
            final(self).addresses().len() == 0,
            final(self).names().len() == 0,
    {
        self.treasury = treasury;
        self.adapter_addresses = Vec::new();
        self.adapters_name = Vec::new();
    }

    pub fn treasury(&self) -> (r: Address)
        ensures
            r == self.spec_treasury(),
    {
        self.treasury
    }

    pub fn set_treasury(&mut self, new_treasury: Address)
        ensures
            final(self).spec_treasury() == new_treasury,
            final(self).addresses() == old(self).addresses(),
            final(self).names() == old(self).names(),
            final(self).wf() == old(self).wf(),
    {
        self.treasury = new_treasury;
    }

    /// The number of registrations so far.
    pub fn adapter_count(&self) -> (r: U256)
        ensures
            r@ == self.addresses().len(),
    {
        U256::from_u64(self.adapter_addresses.len() as u64)
    }

    /// The index stored for `key`; 0 for an address never registered.
    pub fn get_adapter(&self, key: Address) -> (r: U256)
        ensures
            r@ == index_in(self.addresses(), key),
    {
        let ghost addresses = self.addresses();
        let mut i: usize = self.adapter_addresses.len();
        assert(addresses.take(i as int) =~= addresses);
        while i > 0
            invariant
                i <= addresses.len(),
                addresses == self.adapter_addresses@,
                index_in(addresses, key) == index_in(addresses.take(i as int), key),
            decreases i,
        {
            assert(addresses.take(i as int).drop_last() =~= addresses.take(i - 1));
            if self.adapter_addresses[i - 1] == key {
                return U256::from_u64((i - 1) as u64);
            }
            i -= 1;
        }
        U256::zero()
    }

    /// The address registered at `index`; the zero address past the end.
    pub fn address_at(&self, index: U256) -> (r: Address)
        ensures
            index@ < self.addresses().len() ==> r == self.addresses()[index@ as int],
            index@ >= self.addresses().len() ==> r == Address::spec_zero(),
    {
        let n = self.adapter_addresses.len();
        if index.l1 == 0 && index.l2 == 0 && index.l3 == 0 && index.l0 < n as u64 {
            self.adapter_addresses[index.l0 as usize]
        } else {
            proof {
                crate::uint::lemma_view_bounded(index);
                if index.l1 != 0 || index.l2 != 0 || index.l3 != 0 {
                    assert(index@ >= crate::uint::limb_base()) by (nonlinear_arith)
                        requires
                            index@ == index.l0 as nat + crate::uint::limb_base() * (
                            index.l1 as nat + crate::uint::limb_base() * (index.l2 as nat
                                + crate::uint::limb_base() * index.l3 as nat)),
                            index.l1 != 0 || index.l2 != 0 || index.l3 != 0;
                }
            }
            Address::zero()
        }
    }

    /// Registers `address` under `name` at the next index.
    pub fn set_adapter(&mut self, address: Address, name: String)
        requires
            old(self).wf(),
        ensures
            Self::registered(*old(self), *final(self), address, name@),
    {
        self.adapter_addresses.push(address);
        self.adapters_name.push(name);
        assert(self.names() =~= old(self).names().push(name@));
    }

    pub fn get_protocol_fee_percent(&self) -> (r: U256)
        ensures
            r@ == DefaultParams::spec_protocol_fee_percent(),
    {
        DefaultParams::protocol_fee_percent()
    }

    /// Splits `amount` into the protocol fee, `amount * fee_percent / 10000`
    /// rounded down, and the rest.
    pub fn fee_split(amount: U256, fee_percent: U256) -> (r: (U256, U256))
        requires
            amount@ * fee_percent@ < modulus(),
            fee_of(amount@, fee_percent@) <= amount@,
        ensures
            r.0@ == fee_of(amount@, fee_percent@),
            r.1@ == amount@ - fee_of(amount@, fee_percent@),
    {
        let product = checked_mul(amount, fee_percent).unwrap();
        let fee = checked_div(product, U256::from_u64(10000)).unwrap();
        let net_amount = checked_sub(amount, fee).unwrap();
        (fee, net_amount)
    }

    /// The protocol fee on `amount` at the default fee percent, and the rest.
    pub fn calculate_fee(amount: U256) -> (r: (U256, U256))
        requires
            amount@ * DefaultParams::spec_protocol_fee_percent() < modulus(),
        ensures
            r.0@ == fee_of(amount@, DefaultParams::spec_protocol_fee_percent()),
            r.1@ == amount@ - fee_of(amount@, DefaultParams::spec_protocol_fee_percent()),
    {
        let p = DefaultParams::protocol_fee_percent();
        assert(fee_of(amount@, p@) <= amount@) by (nonlinear_arith)
            requires p@ == 20;
        Self::fee_split(amount, p)
    }

    /// The adapter for the protocol registered at `adapter_address`: the address
    /// stored at the index that `adapter_address` points to.
    fn get_adapter_instance_private(&self, adapter_address: Address) -> (r: ConcreteAdapter)
        ensures
            r.protocol_address == (if index_in(self.addresses(), adapter_address)
                < self.addresses().len() {
                self.addresses()[index_in(self.addresses(), adapter_address) as int]
            } else {
                Address::spec_zero()
            }),
    {
        let adapter_index = self.get_adapter(adapter_address);
        let protocol_address = self.address_at(adapter_index);
        ConcreteAdapter::new(protocol_address)
    }

    /// The highest deposit rate for `asset` among the registered adapters, and
    /// the lowest index that offers it; `(0, 0)` with no adapters.
    pub fn get_best_deposit_rate(&self, asset: Address) -> (r: (U256, U256))
        ensures
            r.0@ == best_deposit(self.deposit_rates(asset)).0,
            r.1@ == best_deposit(self.deposit_rates(asset)).1,
    {
        let ghost rates = self.deposit_rates(asset);
        let mut best_rate = U256::zero();
        let mut best_protocol_id = U256::zero();
        let n = self.adapter_addresses.len();
        let mut i: usize = 0;
        while i < n
            invariant
                i <= n,
                n == self.addresses().len(),
                rates == self.deposit_rates(asset),
                (best_rate@, best_protocol_id@) == best_deposit(rates.take(i as int)),
            decreases n - i,
        {
            let adapter_address = self.adapter_addresses[i];
            proof {
                lemma_index_in_registered(self.addresses(), i as int);
            }
            let adapter = self.get_adapter_instance_private(adapter_address);
            let (deposit_rate, _) = adapter.get_rates(asset);
            assert(rates.take(i + 1).drop_last() =~= rates.take(i as int));
            if less_than(best_rate, deposit_rate) {
                best_rate = deposit_rate;
                best_protocol_id = U256::from_u64(i as u64);
            }
            i += 1;
        }
        assert(rates.take(n as int) =~= rates);
        (best_rate, best_protocol_id)
    }

    /// The lowest borrow rate for `asset` among the registered adapters, and
    /// the lowest index that offers it; `(2^256 - 1, 0)` with no adapters.
    pub fn get_best_borrow_rate(&self, asset: Address) -> (r: (U256, U256))
        ensures
            r.0@ == best_borrow(self.borrow_rates(asset)).0,
            r.1@ == best_borrow(self.borrow_rates(asset)).1,
    {
        let ghost rates = self.borrow_rates(asset);
        let mut best_rate = U256::max_value();
        let mut best_protocol_id = U256::zero();
        let n = self.adapter_addresses.len();
        let mut i: usize = 0;
        while i < n
            invariant
                i <= n,
                n == self.addresses().len(),
                rates == self.borrow_rates(asset),
                (best_rate@, best_protocol_id@) == best_borrow(rates.take(i as int)),
            decreases n - i,
        {
            let adapter_address = self.adapter_addresses[i];
            proof {
                lemma_index_in_registered(self.addresses(), i as int);
            }
            let adapter = self.get_adapter_instance_private(adapter_address);
            let (_, borrow_rate) = adapter.get_rates(asset);
            assert(rates.take(i + 1).drop_last() =~= rates.take(i as int));
            if less_than(borrow_rate, best_rate) {
                best_rate = borrow_rate;
                best_protocol_id = U256::from_u64(i as u64);
            }
            i += 1;
        }
        assert(rates.take(n as int) =~= rates);
        (best_rate, best_protocol_id)
    }
}

/// Reading the treasury after setting it to `t` gives back `t`, whatever `t` is.
pub proof fn lemma_treasury_round_trip(after: LendingAggregator, t: Address, read: Address)
    requires
        after.spec_treasury() == t,
        read == after.spec_treasury(),
    ensures
        read == t,
{
}

/// Registering `added[0]`, ..., `added[n - 1]` one after another into an empty
/// registry leaves `n` adapters, with `added[k]` at index `k`.
pub proof fn lemma_registration_order(
    states: Seq<LendingAggregator>,
    added: Seq<Address>,
    names: Seq<Seq<char>>,
)
    requires
        states.len() == added.len() + 1,
        names.len() == added.len(),
        states[0].addresses().len() == 0,
        forall|k: int|
            0 <= k < added.len() ==> LendingAggregator::registered(
                #[trigger] states[k],
                states[k + 1],
                added[k],
                names[k],
            ),
    ensures
        states.last().addresses().len() == added.len(),
        forall|k: int| 0 <= k < added.len() ==> states.last().addresses()[k] == added[k],
    decreases added.len(),
{
    if added.len() > 0 {
        let n = added.len() - 1;
        let earlier = states.drop_last();
        assert forall|k: int| 0 <= k < n implies LendingAggregator::registered(
            #[trigger] earlier[k],
            earlier[k + 1],
            added.drop_last()[k],
            names.drop_last()[k],
        ) by {
            assert(LendingAggregator::registered(states[k], states[k + 1], added[k], names[k]));
        }
        lemma_registration_order(earlier, added.drop_last(), names.drop_last());
        assert(earlier.last() == states[n]);
        assert(states[n].addresses() =~= added.drop_last());
        assert(LendingAggregator::registered(states[n], states[n + 1], added[n], names[n]));
        assert(added.drop_last().push(added[n]) =~= added);
    } else {
        assert(states.last().addresses() =~= added);
    }
}

} // verus!
