use font_select::model::{FamilyData, FontRecord, ResolvedFontEntry};
use font_select::table::FamilyTable;

fn entry(name: &str, bytes: &[u8]) -> ResolvedFontEntry {
    ResolvedFontEntry { name: name.to_string(), bytes: bytes.to_vec() }
}

fn family(name: &str, fonts: Vec<FontRecord>) -> FamilyData {
    FamilyData { name: name.to_string(), fonts }
}

fn baseline_mono() -> Vec<ResolvedFontEntry> {
    vec![entry("mono-base", &[1, 1]), entry("mono-extra", &[1, 2])]
}

fn baseline_prop() -> Vec<ResolvedFontEntry> {
    vec![entry("prop-base", &[2, 1])]
}

fn chain_of(t: &FamilyTable, name: &str) -> Vec<String> {
    t.chain_of(&name.to_string()).expect("family missing").clone()
}

#[test]
fn every_listed_family_is_a_key() {
    let data = vec![
        family("Arial", vec![FontRecord::Parsed { name: "Arial Regular".to_string(), bytes: vec![10] }]),
        family("Ghost", vec![]),
        family("X", vec![FontRecord::InMemory { bytes: vec![11] }]),
    ];
    let t = FamilyTable::build(&data, &baseline_mono(), &baseline_prop());
    let names = t.list_family_names();
    assert_eq!(names, vec!["Arial".to_string(), "Ghost".to_string(), "X".to_string()]);
    for n in &names {
        assert!(t.chain_of(n).is_some());
    }
}

#[test]
fn every_chain_ends_with_generic_chains() {
    let data = vec![
        family("Arial", vec![FontRecord::Parsed { name: "Arial Regular".to_string(), bytes: vec![10] }]),
        family("Ghost", vec![]),
    ];
    let t = FamilyTable::build(&data, &baseline_mono(), &baseline_prop());
    let suffix = vec!["mono-base".to_string(), "mono-extra".to_string(), "prop-base".to_string()];
    for n in t.list_family_names() {
        let c = chain_of(&t, &n);
        assert!(c.len() >= suffix.len());
        assert_eq!(&c[c.len() - suffix.len()..], &suffix[..]);
    }
}

#[test]
fn empty_family_gets_exactly_the_fallback() {
    let data = vec![family("Ghost", vec![])];
    let t = FamilyTable::build(&data, &baseline_mono(), &baseline_prop());
    assert_eq!(
        chain_of(&t, "Ghost"),
        vec!["mono-base".to_string(), "mono-extra".to_string(), "prop-base".to_string()]
    );
}

#[test]
fn entry_names_are_unique_and_last_write_wins() {
    let data = vec![
        family("One", vec![FontRecord::Parsed { name: "Dup".to_string(), bytes: vec![1] }]),
        family("Two", vec![FontRecord::Parsed { name: "Dup".to_string(), bytes: vec![2] }]),
    ];
    let t = FamilyTable::build(&data, &baseline_mono(), &baseline_prop());
    let stored: Vec<&ResolvedFontEntry> = t.store.iter().filter(|e| e.name == "Dup").collect();
    assert_eq!(stored.len(), 1);
    assert_eq!(t.font_bytes(&"Dup".to_string()), Some(&vec![2u8]));
}

#[test]
fn memory_fonts_get_indexed_names() {
    let data = vec![family(
        "X",
        vec![
            FontRecord::InMemory { bytes: vec![1] },
            FontRecord::InMemory { bytes: vec![2] },
        ],
    )];
    let t = FamilyTable::build(&data, &baseline_mono(), &baseline_prop());
    let c = chain_of(&t, "X");
    assert_eq!(&c[..2], &["X.0".to_string(), "X.1".to_string()]);
    assert_ne!(c[0], c[1]);
    assert_eq!(t.font_bytes(&"X.0".to_string()), Some(&vec![1u8]));
    assert_eq!(t.font_bytes(&"X.1".to_string()), Some(&vec![2u8]));
}

#[test]
fn memory_font_index_counts_all_family_resources() {
    let data = vec![family(
        "F",
        vec![
            FontRecord::Parsed { name: "N".to_string(), bytes: vec![1] },
            FontRecord::Unparsable,
            FontRecord::InMemory { bytes: vec![3] },
        ],
    )];
    let t = FamilyTable::build(&data, &baseline_mono(), &baseline_prop());
    let c = chain_of(&t, "F");
    assert_eq!(&c[..2], &["N".to_string(), "F.2".to_string()]);
}

#[test]
fn building_twice_gives_identical_tables() {
    let data = vec![
        family("Arial", vec![FontRecord::Parsed { name: "Arial Regular".to_string(), bytes: vec![10] }]),
        family("Ghost", vec![]),
        family("X", vec![FontRecord::InMemory { bytes: vec![11] }]),
    ];
    let t1 = FamilyTable::build(&data.clone(), &baseline_mono(), &baseline_prop());
    let t2 = FamilyTable::build(&data, &baseline_mono(), &baseline_prop());
    assert_eq!(t1, t2);
}

#[test]
fn valid_path_font_scenario() {
    let data = vec![family(
        "Mono",
        vec![FontRecord::Parsed { name: "MonoReg".to_string(), bytes: vec![7, 7] }],
    )];
    let t = FamilyTable::build(&data, &baseline_mono(), &baseline_prop());
    assert_eq!(
        chain_of(&t, "Mono"),
        vec![
            "MonoReg".to_string(),
            "mono-base".to_string(),
            "mono-extra".to_string(),
            "prop-base".to_string(),
        ]
    );
    assert_eq!(t.font_bytes(&"MonoReg".to_string()), Some(&vec![7u8, 7u8]));
}

#[test]
fn corrupt_path_font_scenario() {
    let data = vec![family("Ghost", vec![FontRecord::Unparsable])];
    let t = FamilyTable::build(&data, &baseline_mono(), &baseline_prop());
    assert_eq!(
        chain_of(&t, "Ghost"),
        vec!["mono-base".to_string(), "mono-extra".to_string(), "prop-base".to_string()]
    );
    assert_eq!(t.list_family_names(), vec!["Ghost".to_string()]);
}

#[test]
fn duplicate_family_keeps_first_position_and_last_chain() {
    let data = vec![
        family("A", vec![FontRecord::Parsed { name: "A-first".to_string(), bytes: vec![1] }]),
        family("B", vec![]),
        family("A", vec![FontRecord::Parsed { name: "A-second".to_string(), bytes: vec![2] }]),
    ];
    let t = FamilyTable::build(&data, &baseline_mono(), &baseline_prop());
    assert_eq!(t.list_family_names(), vec!["A".to_string(), "B".to_string()]);
    assert_eq!(chain_of(&t, "A")[0], "A-second".to_string());
}

#[test]
fn missing_family_and_missing_entry_are_none() {
    let data = vec![family("A", vec![])];
    let t = FamilyTable::build(&data, &baseline_mono(), &baseline_prop());
    assert!(t.chain_of(&"Nope".to_string()).is_none());
    assert!(t.font_bytes(&"Nope".to_string()).is_none());
}
