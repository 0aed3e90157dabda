use cruft_crawler::args::{Args, LogLevel};
use cruft_crawler::metadata::{
    collect_records, file_type_to_string, format_metadata_block, metadata_block_local,
    system_time_to_string, DirEntryInfo, FileKind, FileStat, MetadataFields,
};
use cruft_crawler::text::u64_to_string;

fn sample() -> MetadataFields {
    MetadataFields {
        file_name: "a.txt".to_string(),
        full_path: "/x/a.txt".to_string(),
        is_file: true,
        is_dir: false,
        time_created: 100,
        last_time_modified: 200,
        last_accessed: 300,
        file_size: 500,
        file_type: FileKind::File,
    }
}

#[test]
fn file_type_names() {
    assert_eq!(file_type_to_string(FileKind::File), "File");
    assert_eq!(file_type_to_string(FileKind::Directory), "Directory");
    assert_eq!(file_type_to_string(FileKind::Symlink), "Symlink");
    assert_eq!(file_type_to_string(FileKind::Unknown), "Unknown");
}

#[test]
fn decimal_formatting() {
    assert_eq!(u64_to_string(0), "0");
    assert_eq!(u64_to_string(7), "7");
    assert_eq!(u64_to_string(1234567890), "1234567890");
    assert_eq!(u64_to_string(u64::MAX), "18446744073709551615");
}

#[test]
fn metadata_block_exact_shape() {
    let m = sample();
    let block = format_metadata_block(&m, "T1", "T2", "T3");
    assert_eq!(
        block,
        "File Name: a.txt\nFile Path:/x/a.txt\nIs File: true\nIs dir: false\n\
         Time Created: T1\nModified: T2\nAccessed: T3\nFile Size: 500\nFile Type: File\n\n"
    );
}

#[test]
fn local_time_rendering_is_usable_in_the_block() {
    let t = system_time_to_string(0);
    assert!(t.len() >= 19, "{t}");
    assert!(!t.contains('\t') && !t.contains('\n'));
    // deterministic within one process
    assert_eq!(t, system_time_to_string(0));
    let block = metadata_block_local(&sample());
    assert!(block.starts_with("File Name: a.txt\nFile Path:/x/a.txt\n"));
    assert!(block.ends_with("\n\n"));
}

#[test]
fn collect_records_skips_and_warns() {
    let ok = |name: &str| DirEntryInfo {
        file_name: name.to_string(),
        full_path: format!("d/{name}"),
        stat: Some(FileStat {
            is_file: true,
            is_dir: false,
            time_created: 1,
            last_time_modified: 2,
            last_accessed: 3,
            file_size: 4,
            file_type: FileKind::File,
        }),
    };
    let bad = |name: &str| DirEntryInfo {
        file_name: name.to_string(),
        full_path: format!("d/{name}"),
        stat: None,
    };
    let (records, warnings) = collect_records(vec![ok("a"), bad("b"), ok("c"), bad("d")]);
    assert_eq!(records.len(), 2);
    assert_eq!(records[0].file_name, "a");
    assert_eq!(records[1].file_name, "c");
    assert_eq!(warnings, vec!["warning: cannot stat b", "warning: cannot stat d"]);
}

#[test]
fn default_args() {
    let a = Args::default();
    assert_eq!(a.directory, ".");
    assert_eq!(a.out_putfile, "file_paths.txt");
    assert_eq!(a.loglevel, LogLevel::Info);
    assert!(a.recursive);
}
