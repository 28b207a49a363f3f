//! A word-addressed register file standing for the hardware, which records
//! every full-width load and store made on it.

use vstd::prelude::*;

verus! {

/// What a register file holds, and the registers loaded and stored so far, in order.
pub struct BusState {
    pub words: Seq<u32>,
    pub loads: Seq<usize>,
    pub stores: Seq<usize>,
}

impl BusState {
    /// The state after one full-width load of register `reg`.
    pub open spec fn loaded(self, reg: usize) -> BusState {
        BusState { words: self.words, loads: self.loads.push(reg), stores: self.stores }
    }

    /// The state after one full-width store of `value` into register `reg`.
    pub open spec fn stored(self, reg: usize, value: u32) -> BusState {
        BusState {
            words: self.words.update(reg as int, value),
            loads: self.loads,
            stores: self.stores.push(reg),
        }
    }
}

/// Registers as 32-bit words, each addressed by its index.
pub struct Bus {
    words: Vec<u32>,
    loads: Vec<usize>,
    stores: Vec<usize>,
}

impl View for Bus {
    type V = BusState;

    closed spec fn view(&self) -> BusState {
        BusState { words: self.words@, loads: self.loads@, stores: self.stores@ }
    }
}

impl Bus {
    /// A register file holding `words`, with nothing loaded or stored yet.
    pub fn new(words: Vec<u32>) -> (r: Bus)
        ensures
            r@.words == words@,
            r@.loads == Seq::<usize>::empty(),
            r@.stores == Seq::<usize>::empty(),
    {
        Bus { words, loads: Vec::new(), stores: Vec::new() }
    }

    /// Number of registers.
    pub fn len(&self) -> (r: usize)
        ensures
            r == self@.words.len(),
    {
        self.words.len()
    }

    /// The word register `reg` holds, looked at without a load being recorded.
    pub fn peek(&self, reg: usize) -> (r: u32)
        requires
            reg < self@.words.len(),
        ensures
            r == self@.words[reg as int],
    {
        self.words[reg]
    }

    /// The registers loaded so far, in order.
    pub fn loads(&self) -> (r: &Vec<usize>)
        ensures
            r@ == self@.loads,
    {
        &self.loads
    }

    /// The registers stored so far, in order.
    pub fn stores(&self) -> (r: &Vec<usize>)
        ensures
            r@ == self@.stores,
    {
        &self.stores
    }

    /// One full-width load of register `reg`.
    pub fn load(&mut self, reg: usize) -> (r: u32)
        requires
            reg < old(self)@.words.len(),
        ensures
            r == old(self)@.words[reg as int],
            final(self)@ == old(self)@.loaded(reg),
    {
        self.loads.push(reg);
        self.words[reg]
    }

    /// One full-width store of `value` into register `reg`.
    pub fn store(&mut self, reg: usize, value: u32)
        requires
            reg < old(self)@.words.len(),
        ensures
            final(self)@ == old(self)@.stored(reg, value),
    {
        self.stores.push(reg);
        self.words.set(reg, value);
    }
}

} // verus!
