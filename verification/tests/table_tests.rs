use font_select::model::ResolvedFontEntry;
use font_select::table::FamilyTable;

fn entry(name: &str, bytes: &[u8]) -> ResolvedFontEntry {
    ResolvedFontEntry { name: name.to_string(), bytes: bytes.to_vec() }
}

#[test]
fn generic_chain_entries_are_stored() {
    let mono = vec![entry("mono-base", &[1])];
    let prop = vec![entry("prop-base", &[2])];
    let t = FamilyTable::with_generic_chains(&mono, &prop);
    assert_eq!(t.mono_chain, vec!["mono-base".to_string()]);
    assert_eq!(t.prop_chain, vec!["prop-base".to_string()]);
    assert_eq!(t.font_bytes(&"mono-base".to_string()), Some(&vec![1u8]));
    assert_eq!(t.font_bytes(&"prop-base".to_string()), Some(&vec![2u8]));
    assert!(t.list_family_names().is_empty());
}

#[test]
fn proportional_entry_overwrites_monospace_entry_of_same_name() {
    let mono = vec![entry("base", &[1])];
    let prop = vec![entry("base", &[2])];
    let t = FamilyTable::with_generic_chains(&mono, &prop);
    assert_eq!(t.font_bytes(&"base".to_string()), Some(&vec![2u8]));
    assert_eq!(t.store.len(), 1);
}

#[test]
fn store_insert_overwrites_in_place() {
    let mut t = FamilyTable::empty();
    t.store_insert(entry("a", &[1]));
    t.store_insert(entry("b", &[2]));
    t.store_insert(entry("a", &[3]));
    assert_eq!(t.store.len(), 2);
    assert_eq!(t.font_bytes(&"a".to_string()), Some(&vec![3u8]));
    assert_eq!(t.font_bytes(&"b".to_string()), Some(&vec![2u8]));
}

#[test]
fn upsert_family_keeps_first_position() {
    let mut t = FamilyTable::empty();
    t.upsert_family("A".to_string(), vec![]);
    t.upsert_family("B".to_string(), vec![]);
    t.upsert_family("A".to_string(), vec![]);
    assert_eq!(t.list_family_names(), vec!["A".to_string(), "B".to_string()]);
    assert_eq!(t.families.len(), 2);
}
