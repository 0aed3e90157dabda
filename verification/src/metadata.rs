//! File-metadata records: the immutable values the enumeration stage
//! produces, the skip-and-warn collection step that turns raw directory
//! entries into records, and the formatting of a record as a text block.
//!
//! Timestamps are carried as seconds since the Unix epoch and the file
//! type as a closed enum, so every field is a plain value the contracts
//! can speak about; converting the operating system's types into these is
//! the enumeration side's job.

use vstd::prelude::*;
use chrono::TimeZone;
use crate::text::dec_str_spec;
use crate::text::u64_to_string;

verus! {

/// What kind of filesystem object an entry is.
#[derive(Clone, Copy, Debug, PartialEq, Eq, Structural)]
pub enum FileKind {
    File,
    Directory,
    Symlink,
    Unknown,
}

/// The metadata of one filesystem entry, as plain values. Created once
/// per entry, never mutated.
#[derive(Debug, Clone, PartialEq, Eq)]
pub struct MetadataFields {
    pub file_name: String,
    pub full_path: String,
    pub is_file: bool,
    pub is_dir: bool,
    /// Seconds since the Unix epoch.
    pub time_created: u64,
    /// Seconds since the Unix epoch.
    pub last_time_modified: u64,
    /// Seconds since the Unix epoch.
    pub last_accessed: u64,
    pub file_size: u64,
    pub file_type: FileKind,
}

/// A raw directory entry as the enumeration side hands it over: the names
/// are always known, the stat data only when the metadata call succeeded.
pub struct DirEntryInfo {
    pub file_name: String,
    pub full_path: String,
    pub stat: Option<FileStat>,
}

/// The stat data of one entry.
#[derive(Clone, Copy, Debug, PartialEq, Eq, Structural)]
pub struct FileStat {
    pub is_file: bool,
    pub is_dir: bool,
    pub time_created: u64,
    pub last_time_modified: u64,
    pub last_accessed: u64,
    pub file_size: u64,
    pub file_type: FileKind,
}

/// The record an entry with successful stat data becomes.
pub open spec fn record_of(e: DirEntryInfo) -> MetadataFields
    recommends
        e.stat is Some,
{
    let s = e.stat->Some_0;
    MetadataFields {
        file_name: e.file_name,
        full_path: e.full_path,
        is_file: s.is_file,
        is_dir: s.is_dir,
        time_created: s.time_created,
        last_time_modified: s.last_time_modified,
        last_accessed: s.last_accessed,
        file_size: s.file_size,
        file_type: s.file_type,
    }
}

/// The warning emitted for an entry whose stat failed.
pub open spec fn warning_of(e: DirEntryInfo) -> Seq<char> {
    "warning: cannot stat "@ + e.file_name@
}

/// The records of all entries whose stat succeeded, in order.
pub open spec fn spec_records(entries: Seq<DirEntryInfo>) -> Seq<MetadataFields>
    decreases entries.len(),
{
    if entries.len() == 0 {
        Seq::empty()
    } else {
        spec_records(entries.drop_last()) + (if entries.last().stat is Some {
            seq![record_of(entries.last())]
        } else {
            Seq::empty()
        })
    }
}

/// The warnings of all entries whose stat failed, in order.
pub open spec fn spec_warnings(entries: Seq<DirEntryInfo>) -> Seq<Seq<char>>
    decreases entries.len(),
{
    if entries.len() == 0 {
        Seq::empty()
    } else {
        spec_warnings(entries.drop_last()) + (if entries.last().stat is None {
            seq![warning_of(entries.last())]
        } else {
            Seq::empty()
        })
    }
}

/// Turn raw directory entries into metadata records, skipping each entry
/// whose stat failed and emitting a warning for it instead — a per-entry
/// failure never aborts the whole enumeration.
pub fn collect_records(entries: Vec<DirEntryInfo>) -> (r: (Vec<MetadataFields>, Vec<String>))
    ensures
        r.0@ == spec_records(entries@),
        r.1@.map_values(|w: String| w@) == spec_warnings(entries@),
{
    let mut records: Vec<MetadataFields> = Vec::new();
    let mut warnings: Vec<String> = Vec::new();
    let mut rest = entries;
    let ghost all = rest@;
    let ghost done: Seq<DirEntryInfo> = Seq::empty();
    proof {
        assert(done + rest@ =~= all);
        assert(spec_records(done) =~= Seq::<MetadataFields>::empty());
        assert(spec_warnings(done) =~= Seq::<Seq<char>>::empty());
        assert(warnings@.map_values(|w: String| w@) =~= Seq::<Seq<char>>::empty());
    }
    loop
        invariant
            done + rest@ == all,
            records@ == spec_records(done),
            warnings@.map_values(|w: String| w@) == spec_warnings(done),
        ensures
            rest@.len() == 0,
        decreases rest@.len(),
    {
        if rest.len() == 0 {
            break;
        }
        let e = rest.remove(0);
        let ghost done2 = done.push(e);
        proof {
            assert(done2.drop_last() =~= done);
            assert(done2 + rest@ =~= all);
        }
        match e.stat {
            Some(s) => {
                let rec = MetadataFields {
                    file_name: e.file_name,
                    full_path: e.full_path,
                    is_file: s.is_file,
                    is_dir: s.is_dir,
                    time_created: s.time_created,
                    last_time_modified: s.last_time_modified,
                    last_accessed: s.last_accessed,
                    file_size: s.file_size,
                    file_type: s.file_type,
                };
                records.push(rec);
                proof {
                    assert(records@ =~= spec_records(done2));
                }
            },
            None => {
                let mut w = String::from_str("warning: cannot stat ");
                w.append(e.file_name.as_str());
                warnings.push(w);
                proof {
                    assert(warnings@.map_values(|x: String| x@) =~= spec_warnings(done2));
                }
            },
        }
        proof {
            done = done2;
        }
    }
    proof {
        assert(done =~= done + rest@);
    }
    (records, warnings)
}

/// The display name of a file kind, as it appears in the metadata block.
pub open spec fn spec_file_type_str(k: FileKind) -> Seq<char> {
    match k {
        FileKind::File => "File"@,
        FileKind::Directory => "Directory"@,
        FileKind::Symlink => "Symlink"@,
        FileKind::Unknown => "Unknown"@,
    }
}

/// Convert a file type to a static string for embedding in a larger text.
pub fn file_type_to_string(file_type: FileKind) -> (r: &'static str)
    ensures
        r@ == spec_file_type_str(file_type),
{
    match file_type {
        FileKind::File => "File",
        FileKind::Directory => "Directory",
        FileKind::Symlink => "Symlink",
        FileKind::Unknown => "Unknown",
    }
}

/// The display form of a boolean, as the metadata block embeds it.
pub open spec fn spec_bool_str(b: bool) -> Seq<char> {
    if b {
        "true"@
    } else {
        "false"@
    }
}

fn bool_to_str(b: bool) -> (r: &'static str)
    ensures
        r@ == spec_bool_str(b),
{
    if b {
        "true"
    } else {
        "false"
    }
}

/// The human-readable block the metadata of one entry is written as, with
/// the three timestamps already rendered as text.
pub open spec fn spec_metadata_block(
    m: MetadataFields,
    created: Seq<char>,
    modified: Seq<char>,
    accessed: Seq<char>,
) -> Seq<char> {
    "File Name: "@ + m.file_name@ + "\nFile Path:"@ + m.full_path@ + "\nIs File: "@
        + spec_bool_str(m.is_file) + "\nIs dir: "@ + spec_bool_str(m.is_dir) + "\nTime Created: "@
        + created + "\nModified: "@ + modified + "\nAccessed: "@ + accessed + "\nFile Size: "@
        + dec_str_spec(m.file_size as nat) + "\nFile Type: "@ + spec_file_type_str(m.file_type)
        + "\n\n"@
}

/// Format one record as a readable text block, taking the rendered
/// timestamps as arguments (their text depends on the machine's time
/// zone, so the conversion stands apart in [`system_time_to_string`]).
pub fn format_metadata_block(
    m: &MetadataFields,
    created: &str,
    modified: &str,
    accessed: &str,
) -> (r: String)
    ensures
        r@ == spec_metadata_block(*m, created@, modified@, accessed@),
{
    let mut s = String::from_str("File Name: ");
    s.append(m.file_name.as_str());
    s.append("\nFile Path:");
    s.append(m.full_path.as_str());
    s.append("\nIs File: ");
    s.append(bool_to_str(m.is_file));
    s.append("\nIs dir: ");
    s.append(bool_to_str(m.is_dir));
    s.append("\nTime Created: ");
    s.append(created);
    s.append("\nModified: ");
    s.append(modified);
    s.append("\nAccessed: ");
    s.append(accessed);
    s.append("\nFile Size: ");
    let size = u64_to_string(m.file_size);
    s.append(size.as_str());
    s.append("\nFile Type: ");
    s.append(file_type_to_string(m.file_type));
    s.append("\n\n");
    s
}

/// Relies on chrono: an epoch timestamp rendered as "%Y-%m-%d %H:%M:%S"
/// in the local time zone. The text depends on the machine's time zone,
/// so only what holds of every outcome is stated: the format produces
/// digits and the separators '-', ':' and ' ' for a year of at least four
/// digits, hence at least nineteen characters and never a tab or a line
/// break.
#[verifier::external_body]
pub fn system_time_to_string(epoch_secs: u64) -> (r: String)
    ensures
        r@.len() >= 19,
        forall|i: int| 0 <= i < r@.len() ==> r@[i] != '\t' && r@[i] != '\n' && r@[i] != '\r',
{
    let dt = match chrono::Local.timestamp_opt(epoch_secs.min(i64::MAX as u64) as i64, 0) {
        chrono::LocalResult::Single(dt) => dt,
        chrono::LocalResult::Ambiguous(dt, _) => dt,
        chrono::LocalResult::None => return "1970-01-01 00:00:00".to_string(),
    };
    dt.format("%Y-%m-%d %H:%M:%S").to_string()
}

/// Format one record as a readable text block, rendering its timestamps
/// in the local time zone. The timestamp text depends on the time zone,
/// so the contract promises the block's shape: it is exactly
/// [`spec_metadata_block`] for some three timestamp renderings free of
/// tabs and line breaks.
pub fn metadata_block_local(m: &MetadataFields) -> (r: String)
    ensures
        exists|created: Seq<char>, modified: Seq<char>, accessed: Seq<char>|
            r@ == spec_metadata_block(*m, created, modified, accessed),
{
    let created = system_time_to_string(m.time_created);
    let modified = system_time_to_string(m.last_time_modified);
    let accessed = system_time_to_string(m.last_accessed);
    let r = format_metadata_block(m, created.as_str(), modified.as_str(), accessed.as_str());
    proof {
        assert(r@ == spec_metadata_block(*m, created@, modified@, accessed@));
    }
    r
}

} // verus!
