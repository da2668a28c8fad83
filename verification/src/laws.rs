//! Laws of the build: every enumerated family ends up in the table, every
//! chain ends with the full generic fallback, a family with no usable fonts
//! gets exactly the generic fallback, the store is last-write-wins, and the
//! build is a pure function of the source data.

use vstd::prelude::*;

use crate::builder::{
    add_family_model, build_model, chain_model, entry_names, family_entries, fold_entries,
    initial_model, table_fold,
};
use crate::model::{EntryModel, FamilyModel};
use crate::table::TableModel;

verus! {

/// Folding families never changes the generic chains.
pub proof fn lemma_table_fold_generic_chains(t: TableModel, data: Seq<FamilyModel>)
    ensures
        table_fold(t, data).mono == t.mono,
        table_fold(t, data).prop == t.prop,
    decreases data.len(),
{
    if data.len() > 0 {
        lemma_table_fold_generic_chains(t, data.drop_last());
    }
}

/// Every family the source enumerated is a key of the built table and
/// appears in its enumeration order.
pub proof fn lemma_listed_family_in_table(
    data: Seq<FamilyModel>,
    mono: Seq<EntryModel>,
    prop: Seq<EntryModel>,
    i: int,
)
    requires
        0 <= i < data.len(),
    ensures
        build_model(data, mono, prop).chains.contains_key(data[i].name),
        build_model(data, mono, prop).order.contains(data[i].name),
    decreases data.len(),
{
    let t0 = initial_model(mono, prop);
    let prev = table_fold(t0, data.drop_last());
    let stepped = add_family_model(prev, data.last().name, data.last().fonts);
    if i == data.len() - 1 {
        if prev.order.contains(data[i].name) {
        } else {
            assert(stepped.order == prev.order.push(data[i].name));
            assert(stepped.order[prev.order.len() as int] == data[i].name);
        }
    } else {
        assert(data.drop_last()[i] == data[i]);
        lemma_listed_family_in_table(data.drop_last(), mono, prop, i);
        if prev.order.contains(data[i].name) && !prev.order.contains(data.last().name) {
            let j = choose|j: int| 0 <= j < prev.order.len() && prev.order[j] == data[i].name;
            assert(prev.order.push(data.last().name)[j] == data[i].name);
        }
    }
}

/// Whether chain `c` ends with exactly the monospace names followed by the
/// proportional names.
pub open spec fn has_fallback_suffix(
    c: Seq<Seq<char>>,
    mono: Seq<Seq<char>>,
    prop: Seq<Seq<char>>,
) -> bool {
    &&& c.len() >= mono.len() + prop.len()
    &&& c.skip(c.len() - mono.len() - prop.len()) == mono + prop
}

proof fn lemma_table_fold_suffix(t: TableModel, data: Seq<FamilyModel>, k: Seq<char>)
    requires
        forall|x: Seq<char>| #[trigger]
            t.chains.contains_key(x) ==> has_fallback_suffix(t.chains[x], t.mono, t.prop),
        table_fold(t, data).chains.contains_key(k),
    ensures
        has_fallback_suffix(table_fold(t, data).chains[k], t.mono, t.prop),
    decreases data.len(),
{
    if data.len() == 0 {
    } else {
        let prev = table_fold(t, data.drop_last());
        lemma_table_fold_generic_chains(t, data.drop_last());
        if k == data.last().name {
            let c = chain_model(data.last().name, data.last().fonts, prev.mono, prev.prop);
            let natives = entry_names(family_entries(data.last().name, data.last().fonts));
            assert(c == natives + t.mono + t.prop);
            assert(c.skip(natives.len() as int) =~= t.mono + t.prop);
        } else {
            lemma_table_fold_suffix(t, data.drop_last(), k);
        }
    }
}

/// Every chain of the built table ends with exactly the full monospace
/// chain followed by the full proportional chain.
pub proof fn lemma_every_chain_has_fallback_suffix(
    data: Seq<FamilyModel>,
    mono: Seq<EntryModel>,
    prop: Seq<EntryModel>,
    k: Seq<char>,
)
    requires
        build_model(data, mono, prop).chains.contains_key(k),
    ensures
        has_fallback_suffix(
            build_model(data, mono, prop).chains[k],
            entry_names(mono),
            entry_names(prop),
        ),
{
    let t0 = initial_model(mono, prop);
    lemma_table_fold_suffix(t0, data, k);
}

/// The chain stored for a family is the one determined by its last
/// enumeration: later duplicates of a family name overwrite earlier ones.
pub proof fn lemma_chain_from_last_occurrence(
    data: Seq<FamilyModel>,
    mono: Seq<EntryModel>,
    prop: Seq<EntryModel>,
    i: int,
)
    requires
        0 <= i < data.len(),
        forall|j: int| i < j < data.len() ==> data[j].name != data[i].name,
    ensures
        build_model(data, mono, prop).chains.contains_key(data[i].name),
        build_model(data, mono, prop).chains[data[i].name] == chain_model(
            data[i].name,
            data[i].fonts,
            entry_names(mono),
            entry_names(prop),
        ),
    decreases data.len(),
{
    let t0 = initial_model(mono, prop);
    let prev = table_fold(t0, data.drop_last());
    lemma_table_fold_generic_chains(t0, data.drop_last());
    if i == data.len() - 1 {
    } else {
        assert(data.drop_last()[i] == data[i]);
        assert(forall|j: int|
            i < j < data.drop_last().len() ==> data.drop_last()[j].name != data.drop_last()[i].name);
        lemma_chain_from_last_occurrence(data.drop_last(), mono, prop, i);
        assert(data.last().name != data[i].name);
    }
}

/// A family that resolved to zero usable fonts gets exactly the generic
/// fallback: the monospace names followed by the proportional names.
pub proof fn lemma_empty_family_fallback_only(
    data: Seq<FamilyModel>,
    mono: Seq<EntryModel>,
    prop: Seq<EntryModel>,
    i: int,
)
    requires
        0 <= i < data.len(),
        data[i].fonts.len() == 0,
        forall|j: int| i < j < data.len() ==> data[j].name != data[i].name,
    ensures
        build_model(data, mono, prop).chains.contains_key(data[i].name),
        build_model(data, mono, prop).chains[data[i].name] == entry_names(mono) + entry_names(
            prop,
        ),
{
    lemma_chain_from_last_occurrence(data, mono, prop, i);
    assert(family_entries(data[i].name, data[i].fonts) =~= Seq::<EntryModel>::empty());
    assert(entry_names(Seq::<EntryModel>::empty()) =~= Seq::<Seq<char>>::empty());
    assert(chain_model(data[i].name, data[i].fonts, entry_names(mono), entry_names(prop))
        =~= entry_names(mono) + entry_names(prop));
}

/// The store is last-write-wins: after folding a sequence of entries, each
/// name holds the bytes of the last entry that bore it.
pub proof fn lemma_store_last_write_wins(
    m: Map<Seq<char>, Seq<u8>>,
    es: Seq<EntryModel>,
    i: int,
)
    requires
        0 <= i < es.len(),
        forall|j: int| i < j < es.len() ==> es[j].name != es[i].name,
    ensures
        fold_entries(m, es).contains_key(es[i].name),
        fold_entries(m, es)[es[i].name] == es[i].bytes,
    decreases es.len(),
{
    if i == es.len() - 1 {
    } else {
        assert(es.drop_last()[i] == es[i]);
        lemma_store_last_write_wins(m, es.drop_last(), i);
        assert(es.last().name != es[i].name);
    }
}

/// Building from the same source data twice yields structurally identical
/// tables: the build is a pure function of the enumeration and the generic
/// chains.
pub proof fn lemma_build_idempotent(
    t1: TableModel,
    t2: TableModel,
    data: Seq<FamilyModel>,
    mono: Seq<EntryModel>,
    prop: Seq<EntryModel>,
)
    requires
        t1 == build_model(data, mono, prop),
        t2 == build_model(data, mono, prop),
    ensures
        t1 == t2,
{
}

} // verus!
