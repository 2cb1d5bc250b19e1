//! The processor's view of the address space.

use vstd::prelude::*;

verus! {

/// A model of an address space. Loads may have side effects (a status register
/// that clears when it is read, a controller that shifts), so a load has both a
/// value and a state after it.
pub trait Memory: Sized {
    /// The byte that a load from `addr` yields.
    spec fn load(self, addr: u16) -> u8;

    /// The address space after a load from `addr`.
    spec fn after_load(self, addr: u16) -> Self;

    /// The address space after `val` is stored at `addr`.
    spec fn after_store(self, addr: u16, val: u8) -> Self;
}

/// The bytes that `n` loads from `base` on yield.
pub open spec fn loads<M: Memory>(m: M, base: int, n: nat) -> Seq<u8>
    decreases n,
{
    if n == 0 {
        Seq::empty()
    } else {
        loads(m, base, (n - 1) as nat).push(
            after_loads(m, base, (n - 1) as nat).load((base + n - 1) as u16),
        )
    }
}

/// The address space after `n` loads from `base` on.
pub open spec fn after_loads<M: Memory>(m: M, base: int, n: nat) -> M
    decreases n,
{
    if n == 0 {
        m
    } else {
        after_loads(m, base, (n - 1) as nat).after_load((base + n - 1) as u16)
    }
}

/// The length of a series of loads.
pub proof fn lemma_loads_len<M: Memory>(m: M, base: int, n: nat)
    ensures
        loads(m, base, n).len() == n,
    decreases n,
{
    if n > 0 {
        lemma_loads_len(m, base, (n - 1) as nat);
    }
}

/// Something the processor can be wired to.
pub trait SystemBus: Sized {
    type M: Memory;

    /// What the processor can observe of the bus.
    spec fn mem(&self) -> Self::M;

    /// The bus is in a valid state.
    spec fn valid(&self) -> bool;

    /// Where the clocks of the devices on the bus stand. The processor does not move
    /// them.
    spec fn clocks(&self) -> Seq<int>;

    fn load(&mut self, addr: u16) -> (val: u8)
        requires
            old(self).valid(),
        ensures
            final(self).valid(),
            final(self).clocks() == old(self).clocks(),
            val == old(self).mem().load(addr),
            final(self).mem() == old(self).mem().after_load(addr),
    ;

    fn store(&mut self, addr: u16, val: u8)
        requires
            old(self).valid(),
        ensures
            final(self).valid(),
            final(self).clocks() == old(self).clocks(),
            final(self).mem() == old(self).mem().after_store(addr, val),
    ;
}

} // verus!
