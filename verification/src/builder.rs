//! The family table builder: one linear pass over the enumerated families,
//! resolving each family's load outcomes into named entries, storing their
//! bytes last-write-wins, and appending the generic monospace and
//! proportional chains to every family's own fonts.

use vstd::prelude::*;

use crate::model::{EntryModel, FamilyData, FamilyModel, FontRecord, RecordModel, ResolvedFontEntry};
use crate::name::{synth_entry_name, synth_name};
use crate::table::{str_seq, FamilyTable, TableModel};

verus! {

/// The views of a sequence of resolved entries.
pub open spec fn entry_models(es: Seq<ResolvedFontEntry>) -> Seq<EntryModel> {
    es.map_values(|e: ResolvedFontEntry| e@)
}

/// The views of a sequence of load outcomes.
pub open spec fn record_models(rs: Seq<FontRecord>) -> Seq<RecordModel> {
    rs.map_values(|r: FontRecord| r@)
}

/// The views of a sequence of enumerated families.
pub open spec fn family_models(ds: Seq<FamilyData>) -> Seq<FamilyModel> {
    ds.map_values(|d: FamilyData| d@)
}

/// The names of a sequence of entries, in order.
pub open spec fn entry_names(es: Seq<EntryModel>) -> Seq<Seq<char>> {
    es.map_values(|e: EntryModel| e.name)
}

/// The store after inserting `es` in order; a later entry under an already
/// present name overwrites it (last write wins).
pub open spec fn fold_entries(m: Map<Seq<char>, Seq<u8>>, es: Seq<EntryModel>) -> Map<
    Seq<char>,
    Seq<u8>,
>
    decreases es.len(),
{
    if es.len() == 0 {
        m
    } else {
        fold_entries(m, es.drop_last()).insert(es.last().name, es.last().bytes)
    }
}

/// The entry yielded by the load outcome at position `idx` of family
/// `family`: the parsed name and bytes for a loaded path font, the bytes
/// under a synthesized name for a memory font, nothing for an unparsable
/// font (it is skipped).
pub open spec fn record_entry(family: Seq<char>, r: RecordModel, idx: nat) -> Option<EntryModel> {
    match r {
        RecordModel::Parsed { name, bytes } => Some(EntryModel { name, bytes }),
        RecordModel::Unparsable => None,
        RecordModel::InMemory { bytes } => Some(
            EntryModel { name: synth_name(family, idx), bytes },
        ),
    }
}

/// The resolved entries of one family, in encounter order.
pub open spec fn family_entries(family: Seq<char>, fonts: Seq<RecordModel>) -> Seq<EntryModel>
    decreases fonts.len(),
{
    if fonts.len() == 0 {
        Seq::empty()
    } else {
        let prev = family_entries(family, fonts.drop_last());
        match record_entry(family, fonts.last(), (fonts.len() - 1) as nat) {
            Some(e) => prev.push(e),
            None => prev,
        }
    }
}

/// A family's full fallback chain: its own entries' names, then the whole
/// monospace chain, then the whole proportional chain.
pub open spec fn chain_model(
    family: Seq<char>,
    fonts: Seq<RecordModel>,
    mono: Seq<Seq<char>>,
    prop: Seq<Seq<char>>,
) -> Seq<Seq<char>> {
    entry_names(family_entries(family, fonts)) + mono + prop
}

/// One build step: how adding family `family` with load outcomes `fonts`
/// changes the table. The family's chain is inserted (overwriting a chain
/// already present under that name), its entries' bytes are stored last
/// write wins, and a family not seen before is appended to the order.
pub open spec fn add_family_model(t: TableModel, family: Seq<char>, fonts: Seq<RecordModel>) -> TableModel {
    TableModel {
        mono: t.mono,
        prop: t.prop,
        order: if t.order.contains(family) {
            t.order
        } else {
            t.order.push(family)
        },
        chains: t.chains.insert(family, chain_model(family, fonts, t.mono, t.prop)),
        store: fold_entries(t.store, family_entries(family, fonts)),
    }
}

/// The table after adding every family of `data`, in order.
pub open spec fn table_fold(t: TableModel, data: Seq<FamilyModel>) -> TableModel
    decreases data.len(),
{
    if data.len() == 0 {
        t
    } else {
        add_family_model(table_fold(t, data.drop_last()), data.last().name, data.last().fonts)
    }
}

/// The table holding only the generic chains, before any family is
/// processed: the monospace entries are stored first, then the
/// proportional ones.
pub open spec fn initial_model(mono: Seq<EntryModel>, prop: Seq<EntryModel>) -> TableModel {
    TableModel {
        mono: entry_names(mono),
        prop: entry_names(prop),
        order: Seq::empty(),
        chains: Map::empty(),
        store: fold_entries(fold_entries(Map::empty(), mono), prop),
    }
}

/// The complete build: generic chains first, then every enumerated family.
pub open spec fn build_model(
    data: Seq<FamilyModel>,
    mono: Seq<EntryModel>,
    prop: Seq<EntryModel>,
) -> TableModel {
    table_fold(initial_model(mono, prop), data)
}

/// Folding one more entry extends the fold by one insert.
pub proof fn lemma_fold_entries_take(m: Map<Seq<char>, Seq<u8>>, es: Seq<EntryModel>, k: int)
    requires
        0 <= k < es.len(),
    ensures
        fold_entries(m, es.take(k + 1)) == fold_entries(m, es.take(k)).insert(
            es[k].name,
            es[k].bytes,
        ),
{
    assert(es.take(k + 1).drop_last() =~= es.take(k));
    assert(es.take(k + 1).last() == es[k]);
}

/// One more load outcome extends the family's entries by at most one.
pub proof fn lemma_family_entries_take(family: Seq<char>, fonts: Seq<RecordModel>, k: int)
    requires
        0 <= k < fonts.len(),
    ensures
        family_entries(family, fonts.take(k + 1)) == match record_entry(family, fonts[k], k as nat) {
            Some(e) => family_entries(family, fonts.take(k)).push(e),
            None => family_entries(family, fonts.take(k)),
        },
{
    assert(fonts.take(k + 1).drop_last() =~= fonts.take(k));
    assert(fonts.take(k + 1).last() == fonts[k]);
}

/// Folding one more family extends the table fold by one step.
pub proof fn lemma_table_fold_take(t: TableModel, data: Seq<FamilyModel>, k: int)
    requires
        0 <= k < data.len(),
    ensures
        table_fold(t, data.take(k + 1)) == add_family_model(
            table_fold(t, data.take(k)),
            data[k].name,
            data[k].fonts,
        ),
{
    assert(data.take(k + 1).drop_last() =~= data.take(k));
    assert(data.take(k + 1).last() == data[k]);
}

/// Folding a pushed entry is one more insert.
pub proof fn lemma_fold_entries_push(m: Map<Seq<char>, Seq<u8>>, es: Seq<EntryModel>, e: EntryModel)
    ensures
        fold_entries(m, es.push(e)) == fold_entries(m, es).insert(e.name, e.bytes),
{
    assert(es.push(e).drop_last() =~= es);
    assert(es.push(e).last() == e);
}

/// Clones a byte buffer, keeping its contents exactly.
pub(crate) fn clone_bytes(v: &Vec<u8>) -> (r: Vec<u8>)
    ensures
        r@ == v@,
{
    let r = v.clone();
    proof {
        assert forall|i: int| 0 <= i < v@.len() implies r@[i] == v@[i] by {
            assert(cloned::<u8>(v@[i], r@[i]));
        }
        assert(r@ =~= v@);
    }
    r
}

impl FamilyTable {
    /// Establishes the two generic chains — every entry's bytes go into the
    /// store, monospace first, then proportional — before any family is
    /// processed.
    #[verifier::loop_isolation(false)]
    pub fn with_generic_chains(mono: &Vec<ResolvedFontEntry>, prop: &Vec<ResolvedFontEntry>) -> (t:
        FamilyTable)
        ensures
            t.wf(),
            t@ == initial_model(entry_models(mono@), entry_models(prop@)),
    {
        let mut t = FamilyTable::empty();
        let mut k: usize = 0;
        while k < mono.len()
            invariant
                k <= mono@.len(),
                t.wf(),
                t.prop_chain@.len() == 0,
                t.families@.len() == 0,
                t@.order == Seq::<Seq<char>>::empty(),
                t@.chains == Map::<Seq<char>, Seq<Seq<char>>>::empty(),
                t@.store == fold_entries(
                    Map::<Seq<char>, Seq<u8>>::empty(),
                    entry_models(mono@).take(k as int),
                ),
                t.mono_chain@.len() == k,
                forall|j: int| 0 <= j < k ==> t.mono_chain@[j]@ == mono@[j].name@,
            decreases mono@.len() - k,
        {
            proof {
                lemma_fold_entries_take(
                    Map::<Seq<char>, Seq<u8>>::empty(),
                    entry_models(mono@),
                    k as int,
                );
            }
            let name = mono[k].name.clone();
            let bytes = clone_bytes(&mono[k].bytes);
            t.store_insert(ResolvedFontEntry { name, bytes });
            let n = mono[k].name.clone();
            t.mono_chain.push(n);
            k = k + 1;
        }
        proof {
            assert(entry_models(mono@).take(mono@.len() as int) =~= entry_models(mono@));
            assert(str_seq(t.mono_chain@) =~= entry_names(entry_models(mono@)));
        }
        let ghost mid_store = t@.store;
        let mut k2: usize = 0;
        while k2 < prop.len()
            invariant
                k2 <= prop@.len(),
                t.wf(),
                t.families@.len() == 0,
                t@.order == Seq::<Seq<char>>::empty(),
                t@.chains == Map::<Seq<char>, Seq<Seq<char>>>::empty(),
                str_seq(t.mono_chain@) == entry_names(entry_models(mono@)),
                t@.store == fold_entries(mid_store, entry_models(prop@).take(k2 as int)),
                t.prop_chain@.len() == k2,
                forall|j: int| 0 <= j < k2 ==> t.prop_chain@[j]@ == prop@[j].name@,
            decreases prop@.len() - k2,
        {
            proof {
                lemma_fold_entries_take(mid_store, entry_models(prop@), k2 as int);
            }
            let name = prop[k2].name.clone();
            let bytes = clone_bytes(&prop[k2].bytes);
            t.store_insert(ResolvedFontEntry { name, bytes });
            let n = prop[k2].name.clone();
            t.prop_chain.push(n);
            k2 = k2 + 1;
        }
        proof {
            assert(entry_models(prop@).take(prop@.len() as int) =~= entry_models(prop@));
            assert(str_seq(t.prop_chain@) =~= entry_names(entry_models(prop@)));
            assert(t@ =~= initial_model(entry_models(mono@), entry_models(prop@)));
        }
        t
    }

    /// Adds one enumerated family: resolves its load outcomes into named
    /// entries in encounter order, stores their bytes (last write wins),
    /// and inserts the family's chain — its own entries' names followed by
    /// the full monospace chain followed by the full proportional chain.
    #[verifier::loop_isolation(false)]
    pub fn add_family(&mut self, family: &String, fonts: &Vec<FontRecord>)
        requires
            old(self).wf(),
        ensures
            final(self).wf(),
            final(self)@ == add_family_model(old(self)@, family@, record_models(fonts@)),
    {
        let ghost t0 = old(self)@;
        let ghost fonts0 = record_models(fonts@);
        let mut chain: Vec<String> = Vec::new();
        let mut idx: usize = 0;
        while idx < fonts.len()
            invariant
                idx <= fonts0.len(),
                self.wf(),
                self@.chains == t0.chains,
                self@.order == t0.order,
                self@.mono == t0.mono,
                self@.prop == t0.prop,
                self.mono_chain == old(self).mono_chain,
                self.prop_chain == old(self).prop_chain,
                self.families == old(self).families,
                self@.store == fold_entries(
                    t0.store,
                    family_entries(family@, fonts0.take(idx as int)),
                ),
                str_seq(chain@) == entry_names(family_entries(family@, fonts0.take(idx as int))),
                forall|j: int| 0 <= j < chain@.len() ==> self@.store.contains_key(
                    #[trigger] chain@[j]@,
                ),
            decreases fonts0.len() - idx,
        {
            proof {
                assert(fonts0[idx as int] == fonts@[idx as int]@);
                lemma_family_entries_take(family@, fonts0, idx as int);
            }
            let ghost prev = family_entries(family@, fonts0.take(idx as int));
            let ghost chain_pre = chain@;
            match &fonts[idx] {
                FontRecord::Parsed { name, bytes } => {
                    proof {
                        let e = EntryModel { name: name@, bytes: bytes@ };
                        assert(record_entry(family@, fonts0[idx as int], idx as nat) == Some(e));
                        assert(family_entries(family@, fonts0.take(idx as int + 1)) == prev.push(e));
                        lemma_fold_entries_push(t0.store, prev, e);
                    }
                    let n = name.clone();
                    let b = clone_bytes(bytes);
                    self.store_insert(ResolvedFontEntry { name: n, bytes: b });
                    let n2 = name.clone();
                    chain.push(n2);
                    proof {
                        let e = EntryModel { name: name@, bytes: bytes@ };
                        let fe1 = family_entries(family@, fonts0.take(idx as int + 1));
                        assert(chain@ == chain_pre.push(n2));
                        assert forall|i: int| 0 <= i < chain@.len() implies chain@[i]@
                            == fe1[i].name by {
                            if i < chain_pre.len() {
                                assert(chain@[i] == chain_pre[i]);
                                assert(chain_pre[i]@ == entry_names(prev)[i]);
                                assert(fe1[i] == prev[i]);
                            } else {
                                assert(chain@[i] == n2);
                                assert(fe1[i] == e);
                            }
                        }
                        assert(str_seq(chain@) =~= entry_names(fe1));
                    }
                },
                FontRecord::Unparsable => {
                    proof {
                        let fe1 = family_entries(family@, fonts0.take(idx as int + 1));
                        assert(record_entry(family@, fonts0[idx as int], idx as nat) is None);
                        assert(fe1 == prev);
                    }
                },
                FontRecord::InMemory { bytes } => {
                    proof {
                        let e = EntryModel { name: synth_name(family@, idx as nat), bytes: bytes@ };
                        assert(record_entry(family@, fonts0[idx as int], idx as nat) == Some(e));
                        assert(family_entries(family@, fonts0.take(idx as int + 1)) == prev.push(e));
                        lemma_fold_entries_push(t0.store, prev, e);
                    }
                    let n = synth_entry_name(family, idx);
                    let b = clone_bytes(bytes);
                    let n2 = n.clone();
                    self.store_insert(ResolvedFontEntry { name: n, bytes: b });
                    chain.push(n2);
                    proof {
                        let e = EntryModel { name: synth_name(family@, idx as nat), bytes: bytes@ };
                        let fe1 = family_entries(family@, fonts0.take(idx as int + 1));
                        assert(chain@ == chain_pre.push(n2));
                        assert(n2@ == e.name);
                        assert forall|i: int| 0 <= i < chain@.len() implies chain@[i]@
                            == fe1[i].name by {
                            if i < chain_pre.len() {
                                assert(chain@[i] == chain_pre[i]);
                                assert(chain_pre[i]@ == entry_names(prev)[i]);
                                assert(fe1[i] == prev[i]);
                            } else {
                                assert(chain@[i] == n2);
                                assert(fe1[i] == e);
                            }
                        }
                        assert(str_seq(chain@) =~= entry_names(fe1));
                    }
                },
            }
            idx = idx + 1;
        }
        proof {
            assert(fonts0.take(fonts0.len() as int) =~= fonts0);
        }
        let ghost natives = entry_names(family_entries(family@, fonts0));
        let ghost base = chain@;
        let mut j: usize = 0;
        while j < self.mono_chain.len()
            invariant
                j <= self.mono_chain@.len(),
                chain@.len() == base.len() + j,
                forall|i: int| 0 <= i < base.len() ==> chain@[i] == base[i],
                forall|i: int| 0 <= i < j ==> chain@[base.len() + i] == self.mono_chain@[i],
            decreases self.mono_chain@.len() - j,
        {
            let n = self.mono_chain[j].clone();
            chain.push(n);
            j = j + 1;
        }
        let ghost mid = chain@;
        let mut j2: usize = 0;
        while j2 < self.prop_chain.len()
            invariant
                j2 <= self.prop_chain@.len(),
                chain@.len() == mid.len() + j2,
                forall|i: int| 0 <= i < mid.len() ==> chain@[i] == mid[i],
                forall|i: int| 0 <= i < j2 ==> chain@[mid.len() + i] == self.prop_chain@[i],
            decreases self.prop_chain@.len() - j2,
        {
            let n = self.prop_chain[j2].clone();
            chain.push(n);
            j2 = j2 + 1;
        }
        proof {
            assert(str_seq(chain@) =~= natives + t0.mono + t0.prop);
            assert forall|i: int| 0 <= i < chain@.len() implies self@.store.contains_key(
                #[trigger] chain@[i]@,
            ) by {
                if i < base.len() {
                    assert(chain@[i] == base[i]);
                } else if i < mid.len() {
                    assert(chain@[i] == mid[i]);
                    assert(mid[i] == self.mono_chain@[i - base.len()]);
                } else {
                    assert(chain@[i] == self.prop_chain@[i - mid.len()]);
                }
            }
        }
        self.upsert_family(family.clone(), chain);
        proof {
            assert(self@ =~= add_family_model(t0, family@, fonts0));
        }
    }

    /// Builds the whole table in one pass: the generic chains first, then
    /// every enumerated family, in enumeration order.
    #[verifier::loop_isolation(false)]
    pub fn build(
        data: &Vec<FamilyData>,
        mono: &Vec<ResolvedFontEntry>,
        prop: &Vec<ResolvedFontEntry>,
    ) -> (t: FamilyTable)
        ensures
            t.wf(),
            t@ == build_model(family_models(data@), entry_models(mono@), entry_models(prop@)),
    {
        let ghost d0 = family_models(data@);
        let mut t = FamilyTable::with_generic_chains(mono, prop);
        let mut k: usize = 0;
        while k < data.len()
            invariant
                k <= d0.len(),
                t.wf(),
                t@ == table_fold(
                    initial_model(entry_models(mono@), entry_models(prop@)),
                    d0.take(k as int),
                ),
            decreases d0.len() - k,
        {
            proof {
                assert(d0[k as int] == data@[k as int]@);
                lemma_table_fold_take(
                    initial_model(entry_models(mono@), entry_models(prop@)),
                    d0,
                    k as int,
                );
            }
            t.add_family(&data[k].name, &data[k].fonts);
            k = k + 1;
        }
        proof {
            assert(d0.take(d0.len() as int) =~= d0);
        }
        t
    }
}

} // verus!
