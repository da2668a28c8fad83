//! The font source: queries the host font system through font_kit, turns
//! its answers into plain values, and drives the one-pass table build.
//!
//! Everything the host reports — family names, resource handles, parsed
//! font names and bytes — depends on the machine, so the wrappers promise
//! nothing about the values that come back; the build itself is verified
//! for every possible answer, and its result is pinned to the listing it
//! returns.

use vstd::prelude::*;

use crate::builder::{build_model, clone_bytes, entry_models, family_models, record_models};
use crate::laws::lemma_listed_family_in_table;
use crate::model::{
    BuildError, FamilyData, FamilyModel, FontHandle, FontRecord, RecordModel, ResolvedFontEntry,
};
use crate::table::FamilyTable;

verus! {

/// How many load outcomes of one family are unparsable fonts.
pub open spec fn record_failures(rs: Seq<RecordModel>) -> nat
    decreases rs.len(),
{
    if rs.len() == 0 {
        0
    } else {
        record_failures(rs.drop_last()) + (if rs.last() is Unparsable {
            1nat
        } else {
            0nat
        })
    }
}

/// How many unparsable fonts the whole listing reports.
pub open spec fn listing_failures(ds: Seq<FamilyModel>) -> nat
    decreases ds.len(),
{
    if ds.len() == 0 {
        0
    } else {
        listing_failures(ds.drop_last()) + record_failures(ds.last().fonts)
    }
}

proof fn lemma_record_failures_push(rs: Seq<RecordModel>, r: RecordModel)
    ensures
        record_failures(rs.push(r)) == record_failures(rs) + (if r is Unparsable {
            1nat
        } else {
            0nat
        }),
{
    assert(rs.push(r).drop_last() =~= rs);
    assert(rs.push(r).last() == r);
}

proof fn lemma_listing_failures_push(ds: Seq<FamilyModel>, d: FamilyModel)
    ensures
        listing_failures(ds.push(d)) == listing_failures(ds) + record_failures(d.fonts),
{
    assert(ds.push(d).drop_last() =~= ds);
    assert(ds.push(d).last() == d);
}

/// Relies on font_kit's SystemSource: the process-wide handle to the host
/// font system. Opaque here; it is only ever passed to the wrappers below.
#[verifier::external_type_specification]
#[verifier::external_body]
pub struct ExSystemSource(font_kit::source::SystemSource);

/// Relies on font_kit's SystemSource::all_families: the family names the
/// host font system reports; an error means the system could not be
/// queried at all.
#[verifier::external_body]
fn list_families(src: &font_kit::source::SystemSource) -> (r: Result<
    Vec<String>,
    BuildError,
>) {
    match src.all_families() {
        Ok(families) => Ok(families),
        Err(_) => Err(BuildError::EnumerationFailure),
    }
}

/// Relies on font_kit's SystemSource::select_family_by_name and
/// FamilyHandle::fonts: the handles of the fonts in one family, each
/// either a path with an index into a container file, or an in-memory
/// blob.
#[verifier::external_body]
fn resolve_family(src: &font_kit::source::SystemSource, family: &String) -> (r: Result<
    Vec<FontHandle>,
    BuildError,
>) {
    let fam = match src.select_family_by_name(family) {
        Ok(f) => f,
        Err(_) => return Err(BuildError::EnumerationFailure),
    };
    Ok(fam.fonts().iter().map(|h| match h {
        font_kit::handle::Handle::Path { path, font_index } => FontHandle::PathResource {
            path: path.to_string_lossy().into_owned(),
            container_index: *font_index,
        },
        font_kit::handle::Handle::Memory { bytes, .. } => FontHandle::MemoryResource {
            bytes: bytes.to_vec(),
        },
    }).collect())
}

/// Relies on font_kit's Font::from_path, Font::full_name and
/// Font::copy_font_data: opens the font file at `path`, selects the
/// sub-font `container_index` inside a multi-font container, and returns
/// the font's self-reported full name with a copy of its raw data; `None`
/// when the file cannot be opened or parsed or its data extracted.
#[verifier::external_body]
fn load_path_font(path: &String, container_index: u32) -> (r: Option<ResolvedFontEntry>) {
    let font = match font_kit::font::Font::from_path(path, container_index) {
        Ok(f) => f,
        Err(_) => return None,
    };
    let name = font.full_name();
    match font.copy_font_data() {
        Some(data) => Some(ResolvedFontEntry { name, bytes: data.to_vec() }),
        None => None,
    }
}

/// The outcome of a successful system build: what the source reported,
/// with each resource's load outcome; the finished table; and the paths of
/// the fonts that were skipped because they could not be parsed.
pub struct SystemBuild {
    pub listing: Vec<FamilyData>,
    pub skipped_paths: Vec<String>,
    pub table: FamilyTable,
}

/// Enumerates the host's font families, loads every resource of every
/// family, and builds the whole table: the generic chains first, then one
/// chain per enumerated family, in enumeration order. A font that cannot
/// be parsed is skipped and its path reported — one path per unparsable
/// font; only a failure to enumerate aborts the build. The finished table
/// is exactly the build of the returned listing, and every listed family
/// is one of its keys.
#[verifier::loop_isolation(false)]
pub fn build_family_table(
    src: &font_kit::source::SystemSource,
    mono: &Vec<ResolvedFontEntry>,
    prop: &Vec<ResolvedFontEntry>,
) -> (r: Result<SystemBuild, BuildError>)
    ensures
        match r {
            Ok(out) => {
                &&& out.table.wf()
                &&& out.table@ == build_model(
                    family_models(out.listing@),
                    entry_models(mono@),
                    entry_models(prop@),
                )
                &&& forall|i: int|
                    0 <= i < out.listing@.len() ==> out.table@.chains.contains_key(
                        #[trigger] out.listing@[i].name@,
                    )
                &&& out.skipped_paths@.len() == listing_failures(family_models(out.listing@))
            },
            Err(e) => e is EnumerationFailure,
        },
{
    let families = match list_families(src) {
        Ok(f) => f,
        Err(e) => return Err(e),
    };
    let mut listing: Vec<FamilyData> = Vec::new();
    let mut skipped: Vec<String> = Vec::new();
    let mut i: usize = 0;
    while i < families.len()
        invariant
            skipped@.len() == listing_failures(family_models(listing@)),
        decreases families@.len() - i,
    {
        let handles = match resolve_family(src, &families[i]) {
            Ok(h) => h,
            Err(e) => return Err(e),
        };
        let mut records: Vec<FontRecord> = Vec::new();
        let mut j: usize = 0;
        while j < handles.len()
            invariant
                skipped@.len() == listing_failures(family_models(listing@)) + record_failures(
                    record_models(records@),
                ),
            decreases handles@.len() - j,
        {
            let ghost recs_pre = record_models(records@);
            match &handles[j] {
                FontHandle::PathResource { path, container_index } => {
                    match load_path_font(path, *container_index) {
                        Some(entry) => {
                            records.push(
                                FontRecord::Parsed { name: entry.name, bytes: entry.bytes },
                            );
                        },
                        None => {
                            records.push(FontRecord::Unparsable);
                            skipped.push(path.clone());
                        },
                    }
                },
                FontHandle::MemoryResource { bytes } => {
                    records.push(FontRecord::InMemory { bytes: clone_bytes(bytes) });
                },
            }
            proof {
                assert(record_models(records@) =~= recs_pre.push(records@.last()@));
                lemma_record_failures_push(recs_pre, records@.last()@);
            }
            j = j + 1;
        }
        let ghost listing_pre = family_models(listing@);
        let ghost recs = record_models(records@);
        let row = FamilyData { name: families[i].clone(), fonts: records };
        let ghost rowg = row@;
        listing.push(row);
        proof {
            assert(rowg.fonts =~= recs);
            assert(family_models(listing@) =~= listing_pre.push(rowg));
            lemma_listing_failures_push(listing_pre, rowg);
        }
        i = i + 1;
    }
    proof {
        assert(skipped@.len() == listing_failures(family_models(listing@)));
    }
    let table = FamilyTable::build(&listing, mono, prop);
    proof {
        assert forall|k: int|
            0 <= k < listing@.len() implies table@.chains.contains_key(
            #[trigger] listing@[k].name@,
        ) by {
            assert(family_models(listing@)[k].name == listing@[k].name@);
            lemma_listed_family_in_table(
                family_models(listing@),
                entry_models(mono@),
                entry_models(prop@),
                k,
            );
        }
    }
    Ok(SystemBuild { listing, skipped_paths: skipped, table })
}

} // verus!
