use vstd::prelude::*;

use crate::price_source::WasmPriceSourceChecked;

verus! {

/// A registered price source.
pub struct PriceSourceEntry {
    pub denom: String,
    pub source: WasmPriceSourceChecked,
}

/// The price sources held by a sequence of entries, keyed by denom.
pub open spec fn source_map(entries: Seq<PriceSourceEntry>) -> Map<Seq<char>, WasmPriceSourceChecked>
    decreases entries.len(),
{
    if entries.len() == 0 {
        Map::empty()
    } else {
        source_map(entries.drop_last()).insert(entries.last().denom@, entries.last().source)
    }
}

/// No two entries share a denom.
pub open spec fn denoms_unique(entries: Seq<PriceSourceEntry>) -> bool {
    forall|i: int, j: int|
        0 <= i < entries.len() && 0 <= j < entries.len() && i != j ==> entries[i].denom@
            != entries[j].denom@
}

proof fn lemma_source_map_lookup(entries: Seq<PriceSourceEntry>, k: Seq<char>)
    requires
        denoms_unique(entries),
    ensures
        source_map(entries).contains_key(k) <==> exists|i: int|
            0 <= i < entries.len() && (#[trigger] entries[i]).denom@ == k,
        forall|i: int|
            0 <= i < entries.len() && (#[trigger] entries[i]).denom@ == k ==> source_map(entries)[k]
                == entries[i].source,
    decreases entries.len(),
{
    if entries.len() > 0 {
        let init = entries.drop_last();
        let n = entries.len() - 1;
        assert(denoms_unique(init));
        lemma_source_map_lookup(init, k);
        if entries[n].denom@ == k {
            assert(source_map(entries).contains_key(k));
        } else {
            if source_map(init).contains_key(k) {
                let i = choose|i: int| 0 <= i < init.len() && (#[trigger] init[i]).denom@ == k;
                assert(entries[i] == init[i]);
            }
            if exists|i: int| 0 <= i < entries.len() && (#[trigger] entries[i]).denom@ == k {
                let i = choose|i: int| 0 <= i < entries.len() && (#[trigger] entries[i]).denom@ == k;
                assert(init[i] == entries[i]);
            }
        }
        assert forall|i: int|
            0 <= i < entries.len() && (#[trigger] entries[i]).denom@ == k implies source_map(
            entries,
        )[k] == entries[i].source by {
            if i < n {
                assert(init[i] == entries[i]);
            }
        }
    }
}

proof fn lemma_source_map_update(entries: Seq<PriceSourceEntry>, i: int, e: PriceSourceEntry)
    requires
        denoms_unique(entries),
        0 <= i < entries.len(),
        entries[i].denom@ == e.denom@,
    ensures
        source_map(entries.update(i, e)) =~= source_map(entries).insert(e.denom@, e.source),
        denoms_unique(entries.update(i, e)),
    decreases entries.len(),
{
    let upd = entries.update(i, e);
    if i == entries.len() - 1 {
        assert(upd.drop_last() =~= entries.drop_last());
    } else {
        assert(upd.drop_last() =~= entries.drop_last().update(i, e));
        assert(denoms_unique(entries.drop_last()));
        lemma_source_map_update(entries.drop_last(), i, e);
        assert(entries.last().denom@ != e.denom@);
    }
}

proof fn lemma_source_map_remove(entries: Seq<PriceSourceEntry>, i: int)
    requires
        denoms_unique(entries),
        0 <= i < entries.len(),
    ensures
        source_map(entries.remove(i)) =~= source_map(entries).remove(entries[i].denom@),
        denoms_unique(entries.remove(i)),
    decreases entries.len(),
{
    let k = entries[i].denom@;
    let init = entries.drop_last();
    assert(denoms_unique(init));
    if i == entries.len() - 1 {
        assert(entries.remove(i) =~= init);
        lemma_source_map_lookup(init, k);
        if source_map(init).contains_key(k) {
            let j = choose|j: int| 0 <= j < init.len() && (#[trigger] init[j]).denom@ == k;
            assert(init[j] == entries[j]);
        }
    } else {
        assert(entries.remove(i).drop_last() =~= init.remove(i));
        assert(entries.remove(i).last() == entries.last());
        lemma_source_map_remove(init, i);
        assert(init[i] == entries[i]);
        assert(entries.last().denom@ != k);
    }
    assert forall|a: int, b: int|
        0 <= a < entries.remove(i).len() && 0 <= b < entries.remove(i).len() && a != b implies entries.remove(
        i,
    )[a].denom@ != entries.remove(i)[b].denom@ by {
        let a2 = if a < i { a } else { a + 1 };
        let b2 = if b < i { b } else { b + 1 };
        assert(entries.remove(i)[a] == entries[a2]);
        assert(entries.remove(i)[b] == entries[b2]);
    }
}

proof fn lemma_source_map_size(entries: Seq<PriceSourceEntry>)
    requires
        denoms_unique(entries),
    ensures
        source_map(entries).dom().finite(),
        source_map(entries).dom().len() == entries.len(),
    decreases entries.len(),
{
    if entries.len() > 0 {
        let init = entries.drop_last();
        let k = entries.last().denom@;
        assert(denoms_unique(init));
        lemma_source_map_size(init);
        lemma_source_map_lookup(init, k);
        if source_map(init).contains_key(k) {
            let j = choose|j: int| 0 <= j < init.len() && (#[trigger] init[j]).denom@ == k;
            assert(init[j] == entries[j]);
        }
        assert(source_map(entries).dom() =~= source_map(init).dom().insert(k));
    }
}

/// The registry of price sources, one per denom.
pub struct PriceSources {
    entries: Vec<PriceSourceEntry>,
}

impl PriceSources {
    /// The registered sources by denom.
    pub closed spec fn spec_sources(&self) -> Map<Seq<char>, WasmPriceSourceChecked> {
        source_map(self.entries@)
    }

    /// The number of registered sources.
    pub closed spec fn spec_len(&self) -> nat {
        self.entries@.len()
    }

    /// The size of the registry is the number of denoms it holds a source for.
    pub proof fn lemma_len_counts_denoms(&self)
        requires
            self.wf(),
        ensures
            self.spec_sources().dom().finite(),
            self.spec_len() == self.spec_sources().dom().len(),
            forall|d: Seq<char>| self.spec_sources().contains_key(d) ==> self.spec_len() > 0,
    {
        lemma_source_map_size(self.entries@);
        assert forall|d: Seq<char>| self.spec_sources().contains_key(d) implies self.spec_len() > 0 by {
            lemma_source_map_lookup(self.entries@, d);
        }
    }

    /// Each denom is registered at most once.
    pub closed spec fn wf(&self) -> bool {
        denoms_unique(self.entries@)
    }

    /// An empty registry.
    pub fn new() -> (r: PriceSources)
        ensures
            r.wf(),
            r.spec_sources() == Map::<Seq<char>, WasmPriceSourceChecked>::empty(),
            r.spec_len() == 0,
    {
        PriceSources { entries: Vec::new() }
    }

    pub fn len(&self) -> (r: usize)
        ensures
            r == self.spec_len(),
    {
        self.entries.len()
    }

    fn find(&self, denom: &str) -> (r: Option<usize>)
        requires
            self.wf(),
        ensures
            match r {
                Some(i) => i < self.entries@.len() && self.entries@[i as int].denom@ == denom@
                    && self.spec_sources().contains_key(denom@) && self.spec_sources()[denom@]
                    == self.entries@[i as int].source,
                None => !self.spec_sources().contains_key(denom@),
            },
    {
        let d = String::from_str(denom);
        let mut i: usize = 0;
        while i < self.entries.len()
            invariant
                i <= self.entries@.len(),
                self.wf(),
                d@ == denom@,
                forall|j: int| 0 <= j < i ==> (#[trigger] self.entries@[j]).denom@ != denom@,
            decreases self.entries.len() - i,
        {
            if self.entries[i].denom == d {
                proof {
                    lemma_source_map_lookup(self.entries@, denom@);
                }
                return Some(i);
            }
            i = i + 1;
        }
        proof {
            lemma_source_map_lookup(self.entries@, denom@);
        }
        None
    }

    /// The source registered for `denom`.
    pub fn get(&self, denom: &str) -> (r: Option<&WasmPriceSourceChecked>)
        requires
            self.wf(),
        ensures
            match r {
                Some(ps) => self.spec_sources().contains_key(denom@) && self.spec_sources()[denom@]
                    == *ps,
                None => !self.spec_sources().contains_key(denom@),
            },
    {
        match self.find(denom) {
            Some(i) => Some(&self.entries[i].source),
            None => None,
        }
    }

    /// Removes the source registered for `denom`, if any.
    pub fn remove(&mut self, denom: &str)
        requires
            old(self).wf(),
        ensures
            final(self).wf(),
            final(self).spec_sources() == old(self).spec_sources().remove(denom@),
            final(self).spec_len() <= old(self).spec_len(),
    {
        match self.find(denom) {
            Some(i) => {
                proof {
                    lemma_source_map_remove(self.entries@, i as int);
                }
                self.entries.remove(i);
            },
            None => {
                assert(self.spec_sources().remove(denom@) =~= self.spec_sources());
            },
        }
    }

    /// Registers `source` for `denom`, replacing any source registered for it.
    pub fn set(&mut self, denom: String, source: WasmPriceSourceChecked)
        requires
            old(self).wf(),
        ensures
            final(self).wf(),
            final(self).spec_sources() == old(self).spec_sources().insert(denom@, source),
            final(self).spec_len() == old(self).spec_len() + if old(self).spec_sources().contains_key(
                denom@,
            ) {
                0int
            } else {
                1int
            },
    {
        match self.find(denom.as_str()) {
            Some(i) => {
                let entry = PriceSourceEntry { denom, source };
                proof {
                    lemma_source_map_update(self.entries@, i as int, entry);
                }
                self.entries.set(i, entry);
            },
            None => {
                proof {
                    lemma_source_map_lookup(self.entries@, denom@);
                }
                let entry = PriceSourceEntry { denom, source };
                let ghost before = self.entries@;
                self.entries.push(entry);
                assert(self.entries@.drop_last() =~= before);
                assert(denoms_unique(self.entries@)) by {
                    assert forall|a: int, b: int|
                        0 <= a < self.entries@.len() && 0 <= b < self.entries@.len() && a != b
                            implies self.entries@[a].denom@ != self.entries@[b].denom@ by {
                        if a < before.len() {
                            assert(self.entries@[a] == before[a]);
                        }
                        if b < before.len() {
                            assert(self.entries@[b] == before[b]);
                        }
                    }
                }
            },
        }
    }
}

} // verus!
