//! The register values that the unwinder has reconstructed for the frame it
//! is at.

use std::collections::BTreeMap;
use vstd::prelude::*;

verus! {

/// The number of the stack pointer among the core registers.
pub const SP: u16 = 13;

/// The number of the link register.
pub const LR: u16 = 14;

/// The number of the program counter.
pub const PC: u16 = 15;

/// The value of the link register in the outermost frame.
pub const LR_END: u32 = 0xFFFF_FFFF;

/// A map from the number of a core register to its value in the current
/// frame. What it holds was read from the target or from its stack.
#[derive(Debug)]
pub struct RegisterCache {
    cache: BTreeMap<u16, u32>,
}

impl View for RegisterCache {
    type V = Map<u16, u32>;

    closed spec fn view(&self) -> Map<u16, u32> {
        self.cache@
    }
}

impl RegisterCache {
    /// The cache of the innermost frame: it holds the link register and the
    /// stack pointer.
    pub fn new(lr: u32, sp: u32) -> (cache: RegisterCache)
        ensures
            cache@ == Map::<u16, u32>::empty().insert(LR, lr).insert(SP, sp),
    {
        let mut cache = BTreeMap::new();
        cache.insert(LR, lr);
        cache.insert(SP, sp);
        RegisterCache { cache }
    }

    /// The value of `register`, where the cache holds one.
    pub fn get(&self, register: u16) -> (value: Option<u32>)
        ensures
            value == if self@.contains_key(register) {
                Some(self@[register])
            } else {
                None
            },
    {
        match self.cache.get(&register) {
            Some(value) => Some(*value),
            None => None,
        }
    }

    /// Sets the value of `register`.
    pub fn insert(&mut self, register: u16, value: u32)
        ensures
            final(self)@ == old(self)@.insert(register, value),
    {
        self.cache.insert(register, value);
    }
}

} // verus!
