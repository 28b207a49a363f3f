//! Entities: fields of several registers behind one object, read lazily
//! with one load per register, written through staged values committed
//! register by register.

use vstd::prelude::*;
use crate::access::{
    admits, decode, encode, encode_value, lemma_non_interference, Accessor, DecodeError,
    FieldValue, Reader, Writer,
};
use crate::bits::extract;
use crate::bus::{Bus, BusState};

verus! {

/// A field of an entity: the register slot it lives in, its accessor, and
/// whether it can be read and written.
pub struct EntityField {
    pub slot: usize,
    pub accessor: Accessor,
    pub readable: bool,
    pub writable: bool,
}

/// The registers an entity touches (as bus indices, one per slot) and its fields.
pub struct Layout {
    pub registers: Vec<usize>,
    pub fields: Vec<EntityField>,
}

impl Layout {
    /// Every field lies in a slot and has a non-empty mask; slots name distinct registers.
    pub open spec fn wf(&self) -> bool {
        &&& forall|i: int|
            0 <= i < self.fields.len() ==> #[trigger] self.fields[i].slot < self.registers.len()
                && self.fields[i].accessor.mask != 0
        &&& forall|a: int, b: int|
            0 <= a < b < self.registers.len() ==> self.registers[a] != self.registers[b]
    }

    /// Every register of the layout exists on the bus.
    pub open spec fn fits(&self, bus: BusState) -> bool {
        forall|s: int| 0 <= s < self.registers.len() ==> #[trigger] self.registers[s] < bus.words.len()
    }

    /// The word that reading slot `s` sees: the cached snapshot, or the register's word.
    pub open spec fn read_word(&self, cache: Seq<Option<Reader>>, bus: BusState, s: int) -> u32 {
        match cache[s] {
            Some(rd) => rd.snapshot,
            None => bus.words[self.registers[s] as int],
        }
    }

    /// The bus after reading slot `s`: loaded once unless the slot was cached.
    pub open spec fn read_bus(&self, cache: Seq<Option<Reader>>, bus: BusState, s: int) -> BusState {
        match cache[s] {
            Some(_) => bus,
            None => bus.loaded(self.registers[s]),
        }
    }

    /// The cache after reading slot `s`.
    pub open spec fn read_cache(&self, cache: Seq<Option<Reader>>, bus: BusState, s: int) -> Seq<
        Option<Reader>,
    > {
        cache.update(s, Some(Reader { snapshot: self.read_word(cache, bus, s) }))
    }
    /// Computes `self.wf()`.
    pub fn is_well_formed(&self) -> (r: bool)
        ensures
            r == self.wf(),
    {
        let nr = self.registers.len();
        let mut i: usize = 0;
        while i < self.fields.len()
            invariant
                nr == self.registers.len(),
                i <= self.fields.len(),
                forall|k: int|
                    0 <= k < i ==> #[trigger] self.fields[k].slot < nr && self.fields[k].accessor.mask
                        != 0,
            decreases self.fields.len() - i,
        {
            if self.fields[i].slot >= nr || self.fields[i].accessor.mask == 0 {
                return false;
            }
            i += 1;
        }
        let mut a: usize = 0;
        while a < nr
            invariant
                nr == self.registers.len(),
                a <= nr,
                forall|k: int|
                    0 <= k < self.fields.len() ==> #[trigger] self.fields[k].slot < nr
                        && self.fields[k].accessor.mask != 0,
                forall|x: int, y: int|
                    0 <= x < a && x < y < nr ==> self.registers[x] != self.registers[y],
            decreases nr - a,
        {
            let mut b: usize = a + 1;
            while b < nr
                invariant
                    nr == self.registers.len(),
                    a < nr,
                    a < b <= nr,
                    forall|k: int|
                        0 <= k < self.fields.len() ==> #[trigger] self.fields[k].slot < nr
                            && self.fields[k].accessor.mask != 0,
                    forall|x: int, y: int|
                        0 <= x < a && x < y < nr ==> self.registers[x] != self.registers[y],
                    forall|y: int| a < y < b ==> self.registers[a as int] != self.registers[y],
                decreases nr - b,
            {
                if self.registers[a] == self.registers[b] {
                    return false;
                }
                b += 1;
            }
            a += 1;
        }
        true
    }

    /// Computes `self.fits(bus@)`.
    pub fn fits_bus(&self, bus: &Bus) -> (r: bool)
        ensures
            r == self.fits(bus@),
    {
        let n = bus.len();
        let mut s: usize = 0;
        while s < self.registers.len()
            invariant
                n == bus@.words.len(),
                s <= self.registers.len(),
                forall|t: int| 0 <= t < s ==> #[trigger] self.registers[t] < n,
            decreases self.registers.len() - s,
        {
            if self.registers[s] >= n {
                return false;
            }
            s += 1;
        }
        true
    }
}

/// One entity session: a cached reader per slot, a staged raw value per field,
/// and whether closing the session commits.
pub struct Entity {
    pub layout: Layout,
    pub cache: Vec<Option<Reader>>,
    pub staged: Vec<Option<u32>>,
    pub apply_on_drop: bool,
}

fn empty_slots<T>(n: usize) -> (r: Vec<Option<T>>)
    ensures
        r.len() == n,
        forall|i: int| 0 <= i < n ==> #[trigger] r[i] is None,
{
    let mut r: Vec<Option<T>> = Vec::new();
    let mut k: usize = 0;
    while k < n
        invariant
            k <= n,
            r.len() == k,
            forall|i: int| 0 <= i < k ==> #[trigger] r[i] is None,
        decreases n - k,
    {
        r.push(None);
        k += 1;
    }
    r
}

impl Entity {
    /// The layout is well formed, with one cache entry per slot and one staged value per field.
    pub open spec fn wf(&self) -> bool {
        &&& self.layout.wf()
        &&& self.cache.len() == self.layout.registers.len()
        &&& self.staged.len() == self.layout.fields.len()
    }

    /// Whether some field of slot `s` has a staged value.
    pub open spec fn slot_staged(&self, s: int) -> bool {
        exists|i: int|
            0 <= i < self.layout.fields.len() && #[trigger] self.layout.fields[i].slot == s
                && self.staged[i] is Some
    }

    /// The writer for slot `s` after the staged fields among the first `k` are applied, in order.
    pub open spec fn slot_writer(&self, s: int, k: int) -> Writer
        decreases k,
    {
        if k <= 0 {
            Writer { value: 0, touched: 0 }
        } else {
            let w = self.slot_writer(s, k - 1);
            let f = self.layout.fields[k - 1];
            if f.slot == s && self.staged[k - 1] is Some {
                w.with_field(f.accessor.mask, self.staged[k - 1]->Some_0)
            } else {
                w
            }
        }
    }

    /// The registers of the first `k` slots that a commit writes, in order.
    pub open spec fn committed_registers(&self, k: int) -> Seq<usize>
        decreases k,
    {
        if k <= 0 {
            Seq::empty()
        } else if self.slot_staged(k - 1) {
            self.committed_registers(k - 1).push(self.layout.registers[k - 1])
        } else {
            self.committed_registers(k - 1)
        }
    }

    /// The word that slot `s`'s register holds after a commit over `bus`.
    pub open spec fn committed_word(&self, bus: BusState, s: int) -> u32 {
        let current = bus.words[self.layout.registers[s] as int];
        if self.slot_staged(s) {
            self.slot_writer(s, self.layout.fields.len() as int).merged(current)
        } else {
            current
        }
    }

    /// A session that configures from scratch: nothing staged, commits on close.
    pub fn new(layout: Layout) -> (r: Entity)
        requires
            layout.wf(),
        ensures
            r.wf(),
            r.layout == layout,
            forall|s: int| 0 <= s < r.cache.len() ==> #[trigger] r.cache[s] is None,
            forall|i: int| 0 <= i < r.staged.len() ==> #[trigger] r.staged[i] is None,
            r.apply_on_drop,
    {
        let cache = empty_slots(layout.registers.len());
        let staged = empty_slots(layout.fields.len());
        Entity { layout, cache, staged, apply_on_drop: true }
    }

    /// A session that inspects hardware: nothing staged, no commit on close.
    pub fn read(layout: Layout) -> (r: Entity)
        requires
            layout.wf(),
        ensures
            r.wf(),
            r.layout == layout,
            forall|s: int| 0 <= s < r.cache.len() ==> #[trigger] r.cache[s] is None,
            forall|i: int| 0 <= i < r.staged.len() ==> #[trigger] r.staged[i] is None,
            !r.apply_on_drop,
    {
        let cache = empty_slots(layout.registers.len());
        let staged = empty_slots(layout.fields.len());
        Entity { layout, cache, staged, apply_on_drop: false }
    }

    /// Reads field `i`, loading its register only on the first read of that register.
    pub fn get(&mut self, bus: &mut Bus, i: usize) -> (r: Result<FieldValue, DecodeError>)
        requires
            old(self).wf(),
            i < old(self).layout.fields.len(),
            old(self).layout.fields[i as int].readable,
            old(self).layout.fits(old(bus)@),
        ensures
            ({
                let s = old(self).layout.fields[i as int].slot as int;
                let f = old(self).layout.fields[i as int];
                &&& final(self).layout == old(self).layout
                &&& final(self).staged == old(self).staged
                &&& final(self).apply_on_drop == old(self).apply_on_drop
                &&& final(self).cache@ == old(self).layout.read_cache(old(self).cache@, old(bus)@, s)
                &&& final(bus)@ == old(self).layout.read_bus(old(self).cache@, old(bus)@, s)
                &&& r == decode(
                    f.accessor.kind,
                    extract(old(self).layout.read_word(old(self).cache@, old(bus)@, s), f.accessor.mask),
                )
            }),
            final(self).wf(),
    {
        let s = self.layout.fields[i].slot;
        let reader = match self.cache[s] {
            Some(rd) => rd,
            None => {
                let rd = Reader::load(bus, self.layout.registers[s]);
                self.cache.set(s, Some(rd));
                rd
            },
        };
        proof {
            assert(self.cache@ =~= old(self).layout.read_cache(old(self).cache@, old(bus)@, s as int));
        }
        reader.field(&self.layout.fields[i].accessor)
    }

    /// Stages `v` for field `i`; nothing reaches the hardware before a commit.
    pub fn set(&mut self, i: usize, v: FieldValue)
        requires
            old(self).wf(),
            i < old(self).layout.fields.len(),
            old(self).layout.fields[i as int].writable,
            admits(old(self).layout.fields[i as int].accessor.kind, v),
        ensures
            final(self).wf(),
            final(self).layout == old(self).layout,
            final(self).cache == old(self).cache,
            final(self).apply_on_drop == old(self).apply_on_drop,
            final(self).staged@ == old(self).staged@.update(i as int, Some(encode(v))),
    {
        let raw = encode_value(&v);
        self.staged.set(i, Some(raw));
    }
    /// Commits the staged values: for each slot with at least one staged field,
    /// in slot order, a writer gets every staged field of that slot and is
    /// written (one load, one store); slots with nothing staged are not written.
    pub fn commit(&self, bus: &mut Bus)
        requires
            self.wf(),
            self.layout.fits(old(bus)@),
        ensures
            final(bus)@.words.len() == old(bus)@.words.len(),
            forall|s: int|
                0 <= s < self.layout.registers.len() ==> final(bus)@.words[#[trigger] self.layout.registers[s] as int]
                    == self.committed_word(old(bus)@, s),
            forall|reg: int|
                0 <= reg < old(bus)@.words.len() && (forall|s: int|
                    0 <= s < self.layout.registers.len() ==> #[trigger] self.layout.registers[s] != reg)
                    ==> final(bus)@.words[reg] == old(bus)@.words[reg],
            final(bus)@.stores == old(bus)@.stores + self.committed_registers(
                self.layout.registers.len() as int,
            ),
            final(bus)@.loads == old(bus)@.loads + self.committed_registers(
                self.layout.registers.len() as int,
            ),
    {
        let n = self.layout.registers.len();
        let nf = self.layout.fields.len();
        let ghost start = bus@;
        let mut s: usize = 0;
        while s < n
            invariant
                self.wf(),
                self.layout.fits(start),
                n == self.layout.registers.len(),
                nf == self.layout.fields.len(),
                s <= n,
                bus@.words.len() == start.words.len(),
                forall|t: int|
                    0 <= t < s ==> bus@.words[#[trigger] self.layout.registers[t] as int]
                        == self.committed_word(start, t),
                forall|reg: int|
                    0 <= reg < start.words.len() && (forall|t: int|
                        0 <= t < s ==> #[trigger] self.layout.registers[t] != reg) ==> bus@.words[reg]
                        == start.words[reg],
                bus@.stores == start.stores + self.committed_registers(s as int),
                bus@.loads == start.loads + self.committed_registers(s as int),
            decreases n - s,
        {
            let mut w = Writer::new();
            let mut any = false;
            let mut k: usize = 0;
            while k < nf
                invariant
                    self.wf(),
                    nf == self.layout.fields.len(),
                    s < n,
                    n == self.layout.registers.len(),
                    k <= nf,
                    w == self.slot_writer(s as int, k as int),
                    any <==> exists|i: int|
                        0 <= i < k && #[trigger] self.layout.fields[i].slot == s
                            && self.staged[i] is Some,
                decreases nf - k,
            {
                if self.layout.fields[k].slot == s {
                    match self.staged[k] {
                        Some(raw) => {
                            w.set_raw(self.layout.fields[k].accessor.mask, raw);
                            any = true;
                        },
                        None => {},
                    }
                }
                k += 1;
            }
            let reg = self.layout.registers[s];
            proof {
                assert(bus@.words[reg as int] == start.words[reg as int]) by {
                    assert forall|t: int| 0 <= t < s implies #[trigger] self.layout.registers[t]
                        != reg by {
                        assert(self.layout.registers[t] != self.layout.registers[s as int]);
                    }
                }
            }
            if any {
                w.write(bus, reg);
            }
            proof {
                assert(any == self.slot_staged(s as int));
                assert(self.committed_registers(s + 1) == if self.slot_staged(s as int) {
                    self.committed_registers(s as int).push(reg)
                } else {
                    self.committed_registers(s as int)
                });
                assert forall|t: int|
                    0 <= t < s + 1 implies bus@.words[#[trigger] self.layout.registers[t] as int]
                    == self.committed_word(start, t) by {
                    if t < s {
                        assert(self.layout.registers[t] != reg);
                    }
                }
            }
            s += 1;
        }
    }

    /// Ends the session: commits when the session was opened to configure,
    /// and leaves the hardware alone when it was opened to inspect. Staged
    /// values of a session dropped without this call are never written.
    pub fn close(self, bus: &mut Bus)
        requires
            self.wf(),
            self.layout.fits(old(bus)@),
        ensures
            !self.apply_on_drop ==> final(bus)@ == old(bus)@,
            self.apply_on_drop ==> final(bus)@.stores == old(bus)@.stores + self.committed_registers(
                self.layout.registers.len() as int,
            ),
            self.apply_on_drop ==> final(bus)@.loads == old(bus)@.loads + self.committed_registers(
                self.layout.registers.len() as int,
            ),
            self.apply_on_drop ==> forall|s: int|
                0 <= s < self.layout.registers.len() ==> final(bus)@.words[#[trigger] self.layout.registers[s] as int]
                    == self.committed_word(old(bus)@, s),
            self.apply_on_drop ==> forall|reg: int|
                0 <= reg < old(bus)@.words.len() && (forall|s: int|
                    0 <= s < self.layout.registers.len() ==> #[trigger] self.layout.registers[s] != reg)
                    ==> final(bus)@.words[reg] == old(bus)@.words[reg],
    {
        if self.apply_on_drop {
            self.commit(bus);
        }
    }
}

/// Lazy single load: reading two fields of the same register in one session,
/// starting with that register uncached, loads that register exactly once, and
/// both reads see the same word.
pub proof fn lemma_single_load(layout: Layout, cache: Seq<Option<Reader>>, bus: BusState, i: int, j: int)
    requires
        layout.wf(),
        layout.fits(bus),
        cache.len() == layout.registers.len(),
        0 <= i < layout.fields.len(),
        0 <= j < layout.fields.len(),
        layout.fields[i].slot == layout.fields[j].slot,
        cache[layout.fields[i].slot as int] is None,
    ensures
        ({
            let s = layout.fields[i].slot as int;
            let cache1 = layout.read_cache(cache, bus, s);
            let bus1 = layout.read_bus(cache, bus, s);
            let bus2 = layout.read_bus(cache1, bus1, layout.fields[j].slot as int);
            &&& bus2 == bus.loaded(layout.registers[s])
            &&& bus2.loads.len() == bus.loads.len() + 1
            &&& layout.read_word(cache1, bus1, s) == layout.read_word(cache, bus, s)
        }),
{
}

/// Skip on absent: a commit leaves the bits of a field with no staged value
/// as they were, where the staged fields of its register do not overlap it.
pub proof fn lemma_skip_on_absent(e: Entity, bus: BusState, i: int)
    requires
        e.wf(),
        e.layout.fits(bus),
        0 <= i < e.layout.fields.len(),
        e.staged[i] is None,
        forall|j: int|
            0 <= j < e.layout.fields.len() && #[trigger] e.layout.fields[j].slot
                == e.layout.fields[i].slot && e.staged[j] is Some ==> e.layout.fields[j].accessor.mask
                & e.layout.fields[i].accessor.mask == 0,
    ensures
        ({
            let s = e.layout.fields[i].slot as int;
            let m = e.layout.fields[i].accessor.mask;
            extract(e.committed_word(bus, s), m) == extract(bus.words[e.layout.registers[s] as int], m)
        }),
{
    let s = e.layout.fields[i].slot as int;
    let m = e.layout.fields[i].accessor.mask;
    lemma_untouched(e, s, m, e.layout.fields.len() as int);
    if e.slot_staged(s) {
        lemma_non_interference(
            e.slot_writer(s, e.layout.fields.len() as int),
            bus.words[e.layout.registers[s] as int],
            m,
        );
    }
}

proof fn lemma_untouched(e: Entity, s: int, m: u32, k: int)
    requires
        e.wf(),
        k <= e.layout.fields.len(),
        forall|j: int|
            0 <= j < e.layout.fields.len() && #[trigger] e.layout.fields[j].slot == s
                && e.staged[j] is Some ==> e.layout.fields[j].accessor.mask & m == 0,
    ensures
        e.slot_writer(s, k).touched & m == 0,
    decreases k,
{
    if k > 0 {
        lemma_untouched(e, s, m, k - 1);
        let t = e.slot_writer(s, k - 1).touched;
        let f = e.layout.fields[k - 1];
        if f.slot == s && e.staged[k - 1] is Some {
            let fm = f.accessor.mask;
            assert(t & m == 0 && fm & m == 0 ==> (t | fm) & m == 0) by (bit_vector);
        }
    } else {
        assert(0u32 & m == 0) by (bit_vector);
    }
}

} // verus!
