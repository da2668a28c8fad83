//! The family table: a mapping from family name to an ordered fallback
//! chain of entry names, the two generic chains every family inherits, and
//! the shared store mapping entry names to font bytes.
//!
//! Both mappings are association lists whose mathematical content is a
//! `Map`; insertion is last-write-wins, so a name is never stored twice.

use vstd::prelude::*;
use vstd::pervasive::VecAdditionalExecFns;

use crate::model::ResolvedFontEntry;

verus! {

/// The views of a sequence of owned strings.
pub open spec fn str_seq(v: Seq<String>) -> Seq<Seq<char>> {
    v.map_values(|s: String| s@)
}

/// One family's row in the table: the family name and its full fallback
/// chain of entry names, in glyph-lookup priority order.
#[derive(Clone, Debug, PartialEq, Eq)]
pub struct FamilyChain {
    pub name: String,
    pub chain: Vec<String>,
}

/// The store as a mapping from entry name to font bytes; a later entry
/// with the same name wins.
pub open spec fn store_map(es: Seq<ResolvedFontEntry>) -> Map<Seq<char>, Seq<u8>>
    decreases es.len(),
{
    if es.len() == 0 {
        Map::empty()
    } else {
        store_map(es.drop_last()).insert(es.last().name@, es.last().bytes@)
    }
}

/// The family rows as a mapping from family name to chain; a later row
/// with the same name wins.
pub open spec fn chains_map(rows: Seq<FamilyChain>) -> Map<Seq<char>, Seq<Seq<char>>>
    decreases rows.len(),
{
    if rows.len() == 0 {
        Map::empty()
    } else {
        chains_map(rows.drop_last()).insert(rows.last().name@, str_seq(rows.last().chain@))
    }
}

/// The mathematical content of a `FamilyTable`.
#[verifier::ext_equal]
pub ghost struct TableModel {
    /// Entry names of the generic monospace chain.
    pub mono: Seq<Seq<char>>,
    /// Entry names of the generic proportional chain.
    pub prop: Seq<Seq<char>>,
    /// Family names, in first-insertion order.
    pub order: Seq<Seq<char>>,
    /// Family name to its full fallback chain of entry names.
    pub chains: Map<Seq<char>, Seq<Seq<char>>>,
    /// Entry name to font bytes.
    pub store: Map<Seq<char>, Seq<u8>>,
}

/// The table built once at startup and read-only thereafter.
#[derive(Clone, Debug, PartialEq, Eq)]
pub struct FamilyTable {
    pub mono_chain: Vec<String>,
    pub prop_chain: Vec<String>,
    pub families: Vec<FamilyChain>,
    pub store: Vec<ResolvedFontEntry>,
}

impl View for FamilyTable {
    type V = TableModel;

    open spec fn view(&self) -> TableModel {
        TableModel {
            mono: str_seq(self.mono_chain@),
            prop: str_seq(self.prop_chain@),
            order: self.families@.map_values(|r: FamilyChain| r.name@),
            chains: chains_map(self.families@),
            store: store_map(self.store@),
        }
    }
}

impl FamilyTable {
    /// Well-formed: family names are unique, store entry names are unique
    /// (no two distinct byte buffers share an entry name), and every name
    /// that occurs in any chain — generic or family — has bytes in the
    /// store.
    pub open spec fn wf(self) -> bool {
        &&& (forall|i: int, j: int|
            0 <= i < j < self.families@.len() ==> self.families@[i].name@
                != self.families@[j].name@)
        &&& (forall|i: int, j: int|
            0 <= i < j < self.store@.len() ==> self.store@[i].name@ != self.store@[j].name@)
        &&& (forall|i: int|
            0 <= i < self.mono_chain@.len() ==> self@.store.contains_key(
                #[trigger] self.mono_chain@[i]@,
            ))
        &&& (forall|i: int|
            0 <= i < self.prop_chain@.len() ==> self@.store.contains_key(
                #[trigger] self.prop_chain@[i]@,
            ))
        &&& (forall|i: int, j: int|
            0 <= i < self.families@.len() && 0 <= j < self.families@[i].chain@.len()
                ==> self@.store.contains_key(#[trigger] self.families@[i].chain@[j]@))
    }

    /// An empty table: no generic chains yet, no families, no stored bytes.
    pub fn empty() -> (t: FamilyTable)
        ensures
            t.wf(),
            t.mono_chain@.len() == 0,
            t.prop_chain@.len() == 0,
            t.families@.len() == 0,
            t.store@.len() == 0,
            t@.mono == Seq::<Seq<char>>::empty(),
            t@.prop == Seq::<Seq<char>>::empty(),
            t@.order == Seq::<Seq<char>>::empty(),
            t@.chains == Map::<Seq<char>, Seq<Seq<char>>>::empty(),
            t@.store == Map::<Seq<char>, Seq<u8>>::empty(),
    {
        let t = FamilyTable {
            mono_chain: Vec::new(),
            prop_chain: Vec::new(),
            families: Vec::new(),
            store: Vec::new(),
        };
        proof {
            assert(t@.mono =~= Seq::<Seq<char>>::empty());
            assert(t@.prop =~= Seq::<Seq<char>>::empty());
            assert(t@.order =~= Seq::<Seq<char>>::empty());
        }
        t
    }

    fn store_find(&self, name: &String) -> (r: Option<usize>)
        ensures
            match r {
                Some(i) => i < self.store@.len() && self.store@[i as int].name@ == name@,
                None => forall|i: int|
                    0 <= i < self.store@.len() ==> self.store@[i].name@ != name@,
            },
    {
        let mut i: usize = 0;
        while i < self.store.len()
            invariant
                i <= self.store@.len(),
                forall|j: int| 0 <= j < i ==> self.store@[j].name@ != name@,
            decreases self.store@.len() - i,
        {
            if self.store[i].name == *name {
                return Some(i);
            }
            i = i + 1;
        }
        None
    }

    fn family_find(&self, name: &String) -> (r: Option<usize>)
        ensures
            match r {
                Some(i) => i < self.families@.len() && self.families@[i as int].name@ == name@,
                None => forall|i: int|
                    0 <= i < self.families@.len() ==> self.families@[i].name@ != name@,
            },
    {
        let mut i: usize = 0;
        while i < self.families.len()
            invariant
                i <= self.families@.len(),
                forall|j: int| 0 <= j < i ==> self.families@[j].name@ != name@,
            decreases self.families@.len() - i,
        {
            if self.families[i].name == *name {
                return Some(i);
            }
            i = i + 1;
        }
        None
    }

    /// Stores `entry`'s bytes under its name. If the name is already
    /// present the bytes are overwritten — last write wins — so entry
    /// names stay unique in the store.
    pub fn store_insert(&mut self, entry: ResolvedFontEntry)
        requires
            old(self).wf(),
        ensures
            final(self).wf(),
            final(self)@.store == old(self)@.store.insert(entry.name@, entry.bytes@),
            final(self)@.mono == old(self)@.mono,
            final(self)@.prop == old(self)@.prop,
            final(self)@.order == old(self)@.order,
            final(self)@.chains == old(self)@.chains,
            final(self).mono_chain == old(self).mono_chain,
            final(self).prop_chain == old(self).prop_chain,
            final(self).families == old(self).families,
    {
        let ghost pre = self.store@;
        let ghost entryg = entry;
        match self.store_find(&entry.name) {
            Some(i) => {
                proof {
                    lemma_store_map_update(pre, i as int, entryg);
                }
                self.store.set(i, entry);
            },
            None => {
                self.store.push(entry);
                proof {
                    assert(self.store@.drop_last() =~= pre);
                    assert(self@.store == store_map(pre).insert(entryg.name@, entryg.bytes@));
                }
            },
        }
    }

    /// Inserts or replaces the family row for `name` with `chain`. A family
    /// already present keeps its position (the enumeration order of the
    /// first insertion); a new family is appended.
    pub fn upsert_family(&mut self, name: String, chain: Vec<String>)
        requires
            old(self).wf(),
            forall|j: int| 0 <= j < chain@.len() ==> old(self)@.store.contains_key(
                #[trigger] chain@[j]@,
            ),
        ensures
            final(self).wf(),
            final(self)@.chains == old(self)@.chains.insert(name@, str_seq(chain@)),
            final(self)@.order == if old(self)@.order.contains(name@) {
                old(self)@.order
            } else {
                old(self)@.order.push(name@)
            },
            final(self)@.store == old(self)@.store,
            final(self)@.mono == old(self)@.mono,
            final(self)@.prop == old(self)@.prop,
            final(self).mono_chain == old(self).mono_chain,
            final(self).prop_chain == old(self).prop_chain,
            final(self).store == old(self).store,
    {
        let ghost pre = self.families@;
        let row = FamilyChain { name, chain };
        let ghost rowg = row;
        match self.family_find(&row.name) {
            Some(i) => {
                proof {
                    lemma_chains_map_update(pre, i as int, rowg);
                    assert(old(self)@.order[i as int] == pre[i as int].name@);
                    assert(old(self)@.order.contains(rowg.name@));
                }
                self.families.set(i, row);
                proof {
                    assert(self@.order =~= old(self)@.order);
                }
            },
            None => {
                proof {
                    if old(self)@.order.contains(rowg.name@) {
                        let i = choose|i: int|
                            0 <= i < old(self)@.order.len() && old(self)@.order[i] == rowg.name@;
                        assert(pre[i].name@ == rowg.name@);
                        assert(false);
                    }
                }
                self.families.push(row);
                proof {
                    assert(self.families@.drop_last() =~= pre);
                    assert(self@.order =~= old(self)@.order.push(rowg.name@));
                    assert(self@.chains == chains_map(pre).insert(
                        rowg.name@,
                        str_seq(rowg.chain@),
                    ));
                }
            },
        }
    }

    /// The family names the table holds, in first-insertion order. This is
    /// the list a selection control is populated from.
    pub fn list_family_names(&self) -> (names: Vec<String>)
        ensures
            str_seq(names@) == self@.order,
    {
        let mut names: Vec<String> = Vec::new();
        let mut i: usize = 0;
        while i < self.families.len()
            invariant
                i <= self.families@.len(),
                names@.len() == i,
                forall|j: int| 0 <= j < i ==> names@[j]@ == self.families@[j].name@,
            decreases self.families@.len() - i,
        {
            names.push(self.families[i].name.clone());
            i = i + 1;
        }
        proof {
            assert(str_seq(names@) =~= self@.order);
        }
        names
    }

    /// The fallback chain stored for `name`: `Some` exactly when the family
    /// is in the table.
    pub fn chain_of(&self, name: &String) -> (r: Option<&Vec<String>>)
        requires
            self.wf(),
        ensures
            match r {
                Some(c) => self@.chains.contains_key(name@) && str_seq(c@) == self@.chains[name@],
                None => !self@.chains.contains_key(name@),
            },
    {
        proof {
            lemma_chains_map_contains(self.families@, name@);
        }
        match self.family_find(name) {
            Some(i) => {
                proof {
                    lemma_chains_map_index(self.families@, i as int);
                }
                Some(&self.families[i].chain)
            },
            None => None,
        }
    }

    /// The font bytes stored under entry name `name`: `Some` exactly when
    /// the store holds that entry.
    pub fn font_bytes(&self, name: &String) -> (r: Option<&Vec<u8>>)
        requires
            self.wf(),
        ensures
            match r {
                Some(b) => self@.store.contains_key(name@) && b@ == self@.store[name@],
                None => !self@.store.contains_key(name@),
            },
    {
        proof {
            lemma_store_map_contains(self.store@, name@);
        }
        match self.store_find(name) {
            Some(i) => {
                proof {
                    lemma_store_map_index(self.store@, i as int);
                }
                Some(&self.store[i].bytes)
            },
            None => None,
        }
    }
}

/// A key is in the store map exactly when some entry bears it.
pub proof fn lemma_store_map_contains(es: Seq<ResolvedFontEntry>, k: Seq<char>)
    ensures
        store_map(es).contains_key(k) <==> exists|i: int|
            0 <= i < es.len() && es[i].name@ == k,
    decreases es.len(),
{
    if es.len() > 0 {
        lemma_store_map_contains(es.drop_last(), k);
        if store_map(es).contains_key(k) {
            if k == es.last().name@ {
                assert(es[es.len() - 1].name@ == k);
            } else {
                let i = choose|i: int|
                    0 <= i < es.drop_last().len() && es.drop_last()[i].name@ == k;
                assert(es[i].name@ == k);
            }
        }
        if exists|i: int| 0 <= i < es.len() && es[i].name@ == k {
            let i = choose|i: int| 0 <= i < es.len() && es[i].name@ == k;
            if i < es.len() - 1 {
                assert(es.drop_last()[i].name@ == k);
            }
        }
    }
}

/// With unique names, the store map sends each entry's name to its bytes.
pub proof fn lemma_store_map_index(es: Seq<ResolvedFontEntry>, i: int)
    requires
        0 <= i < es.len(),
        forall|a: int, b: int| 0 <= a < b < es.len() ==> es[a].name@ != es[b].name@,
    ensures
        store_map(es).contains_key(es[i].name@),
        store_map(es)[es[i].name@] == es[i].bytes@,
    decreases es.len(),
{
    if i == es.len() - 1 {
    } else {
        lemma_store_map_index(es.drop_last(), i);
        assert(es.drop_last()[i] == es[i]);
        assert(es[i].name@ != es.last().name@);
    }
}

/// Replacing the entry at `i` by one with the same name is, at map level,
/// an insert of that name.
pub proof fn lemma_store_map_update(es: Seq<ResolvedFontEntry>, i: int, e: ResolvedFontEntry)
    requires
        0 <= i < es.len(),
        es[i].name@ == e.name@,
        forall|a: int, b: int| 0 <= a < b < es.len() ==> es[a].name@ != es[b].name@,
    ensures
        store_map(es.update(i, e)) == store_map(es).insert(e.name@, e.bytes@),
    decreases es.len(),
{
    let post = es.update(i, e);
    if i == es.len() - 1 {
        assert(post.drop_last() =~= es.drop_last());
        assert(post.last() == e);
        assert(store_map(post) =~= store_map(es).insert(e.name@, e.bytes@));
    } else {
        lemma_store_map_update(es.drop_last(), i, e);
        assert(post.drop_last() =~= es.drop_last().update(i, e));
        assert(post.last() == es.last());
        assert(es[i].name@ != es.last().name@);
        assert(store_map(post) =~= store_map(es).insert(e.name@, e.bytes@));
    }
}

/// A key is in the chains map exactly when some row bears it.
pub proof fn lemma_chains_map_contains(rows: Seq<FamilyChain>, k: Seq<char>)
    ensures
        chains_map(rows).contains_key(k) <==> exists|i: int|
            0 <= i < rows.len() && rows[i].name@ == k,
    decreases rows.len(),
{
    if rows.len() > 0 {
        lemma_chains_map_contains(rows.drop_last(), k);
        if chains_map(rows).contains_key(k) {
            if k == rows.last().name@ {
                assert(rows[rows.len() - 1].name@ == k);
            } else {
                let i = choose|i: int|
                    0 <= i < rows.drop_last().len() && rows.drop_last()[i].name@ == k;
                assert(rows[i].name@ == k);
            }
        }
        if exists|i: int| 0 <= i < rows.len() && rows[i].name@ == k {
            let i = choose|i: int| 0 <= i < rows.len() && rows[i].name@ == k;
            if i < rows.len() - 1 {
                assert(rows.drop_last()[i].name@ == k);
            }
        }
    }
}

/// With unique names, the chains map sends each row's name to its chain.
pub proof fn lemma_chains_map_index(rows: Seq<FamilyChain>, i: int)
    requires
        0 <= i < rows.len(),
        forall|a: int, b: int| 0 <= a < b < rows.len() ==> rows[a].name@ != rows[b].name@,
    ensures
        chains_map(rows).contains_key(rows[i].name@),
        chains_map(rows)[rows[i].name@] == str_seq(rows[i].chain@),
    decreases rows.len(),
{
    if i == rows.len() - 1 {
    } else {
        lemma_chains_map_index(rows.drop_last(), i);
        assert(rows.drop_last()[i] == rows[i]);
        assert(rows[i].name@ != rows.last().name@);
    }
}

/// Replacing the row at `i` by one with the same name is, at map level, an
/// insert of that name.
pub proof fn lemma_chains_map_update(rows: Seq<FamilyChain>, i: int, r: FamilyChain)
    requires
        0 <= i < rows.len(),
        rows[i].name@ == r.name@,
        forall|a: int, b: int| 0 <= a < b < rows.len() ==> rows[a].name@ != rows[b].name@,
    ensures
        chains_map(rows.update(i, r)) == chains_map(rows).insert(r.name@, str_seq(r.chain@)),
    decreases rows.len(),
{
    let post = rows.update(i, r);
    if i == rows.len() - 1 {
        assert(post.drop_last() =~= rows.drop_last());
        assert(post.last() == r);
        assert(chains_map(post) =~= chains_map(rows).insert(r.name@, str_seq(r.chain@)));
    } else {
        lemma_chains_map_update(rows.drop_last(), i, r);
        assert(post.drop_last() =~= rows.drop_last().update(i, r));
        assert(post.last() == rows.last());
        assert(rows[i].name@ != rows.last().name@);
        assert(chains_map(post) =~= chains_map(rows).insert(r.name@, str_seq(r.chain@)));
    }
}

} // verus!
