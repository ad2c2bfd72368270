//! Line-level behavior: exclusion filtering, entry parsing, path
//! segmentation, line splitting, identifier allocation and naming rules.

use contents_db::bytes::bytes_eq;
use contents_db::filter::line_is_excluded;
use contents_db::keycache::KeyCache;
use contents_db::lines::split_lines;
use contents_db::names::{contents_file_name, db_file_name, pocket_suffixes};
use contents_db::parser::parse_entry_line;
use contents_db::segment::segment_path;
use contents_db::SchemaVersion;

fn parsed(line: &[u8]) -> (Vec<u8>, Vec<u8>) {
    parse_entry_line(line).expect("line should parse")
}

#[test]
fn parse_plain_entry() {
    let (path, package) = parsed(b"usr/bin/foo  admin/foo");
    assert_eq!(path, b"usr/bin/foo".to_vec());
    assert_eq!(package, b"foo".to_vec());
}

#[test]
fn parse_keeps_first_comma_field() {
    let (path, package) = parsed(b"usr/bin/bar\tadmin/bar,universe/baz");
    assert_eq!(path, b"usr/bin/bar".to_vec());
    assert_eq!(package, b"bar".to_vec());
}

#[test]
fn parse_field_without_section() {
    let (path, package) = parsed(b"some/path  foo");
    assert_eq!(path, b"some/path".to_vec());
    assert_eq!(package, b"foo".to_vec());
}

#[test]
fn parse_keeps_text_after_last_slash() {
    let (_, package) = parsed(b"p  a/b/c");
    assert_eq!(package, b"c".to_vec());
}

#[test]
fn parse_trims_trailing_whitespace_from_path() {
    let (path, package) = parsed(b"a/b \t x/y");
    assert_eq!(path, b"a/b".to_vec());
    assert_eq!(package, b"y".to_vec());
}

#[test]
fn parse_rejects_line_without_separator() {
    assert!(parse_entry_line(b"usr/bin/foo").is_none());
    assert!(parse_entry_line(b"").is_none());
}

#[test]
fn excluded_boot_line_is_dropped() {
    assert!(line_is_excluded(b"boot/vmlinuz user/kernel"));
}

#[test]
fn excluded_doc_line_is_dropped() {
    assert!(line_is_excluded(b"usr/share/doc/foo/README admin/foo"));
}

#[test]
fn ordinary_line_is_kept() {
    assert!(!line_is_excluded(b"usr/bin/foo admin/foo"));
}

#[test]
fn excluded_subtrees_are_dropped() {
    assert!(line_is_excluded(b"var/log/x admin/x"));
    assert!(line_is_excluded(b"usr/include/x.h admin/x"));
    assert!(line_is_excluded(b"usr/src/x.c admin/x"));
    assert!(line_is_excluded(b"usr/share/gocode/x admin/x"));
    assert!(line_is_excluded(b"usr/share/help/x admin/x"));
    assert!(line_is_excluded(b"usr/share/icons/x admin/x"));
    assert!(line_is_excluded(b"usr/share/locale/x admin/x"));
    assert!(line_is_excluded(b"usr/share/man/x admin/x"));
    assert!(line_is_excluded(b"usr/share/texlive/x admin/x"));
}

#[test]
fn excluded_metadata_record_is_dropped() {
    assert!(line_is_excluded(b": alternate name record"));
}

#[test]
fn excluded_nested_include_is_dropped() {
    assert!(line_is_excluded(b"usr/lib/include/x.h admin/x"));
    assert!(!line_is_excluded(b"usr/lib/x/include/y.h admin/x"));
    assert!(!line_is_excluded(b"usr//include/x.h admin/x"));
}

#[test]
fn kept_lines_near_excluded_prefixes() {
    assert!(!line_is_excluded(b"usr/share/docs/x admin/x"));
    assert!(!line_is_excluded(b"bootstrap/x admin/x"));
    assert!(!line_is_excluded(b"usr/sources/x admin/x"));
}

#[test]
fn segment_shallow_path() {
    let (dir, name) = segment_path(b"usr/bin/vim");
    assert_eq!(dir, b"usr/bin".to_vec());
    assert_eq!(name, b"vim".to_vec());
}

#[test]
fn segment_deep_path_truncates_at_fifth_slash() {
    let (dir, name) = segment_path(b"usr/lib/x86_64-linux-gnu/pkgconfig/a/b/c.pc");
    assert_eq!(dir, b"usr/lib/x86_64-linux-gnu/pkgconfig/a".to_vec());
    assert_eq!(name, b"b/c.pc".to_vec());
}

#[test]
fn segment_path_without_slash_splits_at_offset_zero() {
    let (dir, name) = segment_path(b"vim");
    assert_eq!(dir, b"".to_vec());
    assert_eq!(name, b"im".to_vec());
}

#[test]
fn segment_exactly_five_slashes() {
    let (dir, name) = segment_path(b"a/b/c/d/e/f");
    assert_eq!(dir, b"a/b/c/d/e".to_vec());
    assert_eq!(name, b"f".to_vec());
}

#[test]
fn split_lines_handles_lf_and_crlf() {
    let lines = split_lines(b"a\nb\r\nc");
    assert_eq!(lines, vec![b"a".to_vec(), b"b".to_vec(), b"c".to_vec()]);
}

#[test]
fn split_lines_trailing_newline_and_empty_lines() {
    let lines = split_lines(b"a\n\nb\n");
    assert_eq!(lines, vec![b"a".to_vec(), b"".to_vec(), b"b".to_vec()]);
    assert!(split_lines(b"").is_empty());
}

#[test]
fn key_cache_allocates_increasing_ids_from_one() {
    let mut cache = KeyCache::new();
    assert!(cache.lookup(b"gcc").is_none());
    let a = cache.allocate(b"gcc".to_vec());
    let b = cache.allocate(b"vim".to_vec());
    assert_eq!(a, 1);
    assert_eq!(b, 2);
    assert_eq!(cache.lookup(b"gcc"), Some(1));
    assert_eq!(cache.lookup(b"vim"), Some(2));
    assert_eq!(cache.lookup(b"emacs"), None);
    assert_eq!(cache.id_count(), 2);
}

#[test]
fn key_cache_distinct_keys_get_distinct_ids() {
    let mut cache = KeyCache::new();
    let a = cache.allocate(b"one".to_vec());
    let b = cache.allocate(b"two".to_vec());
    assert_ne!(a, b);
    // The same key always resolves to the one id it was issued.
    assert_eq!(cache.lookup(b"one"), Some(a));
    assert_eq!(cache.lookup(b"one"), Some(a));
}

#[test]
fn bytes_eq_compares_contents() {
    assert!(bytes_eq(b"abc", b"abc"));
    assert!(!bytes_eq(b"abc", b"abd"));
    assert!(!bytes_eq(b"abc", b"ab"));
}

#[test]
fn contents_file_name_matches_expected_shape() {
    let name = contents_file_name(b"contents_cache", b"noble", b"-proposed");
    assert_eq!(name, b"contents_cache/noble-proposed-Contents-amd64.gz".to_vec());
    let name = contents_file_name(b"cache", b"jammy", b"");
    assert_eq!(name, b"cache/jammy-Contents-amd64.gz".to_vec());
}

#[test]
fn db_file_name_encodes_release_and_version() {
    assert_eq!(db_file_name(b"noble", SchemaVersion::Flat), b"contents-noble_v1.sqlite3".to_vec());
    assert_eq!(
        db_file_name(b"jammy", SchemaVersion::PackageNormalized),
        b"contents-jammy_v2.sqlite3".to_vec()
    );
    assert_eq!(
        db_file_name(b"noble", SchemaVersion::PackageAndDirectoryNormalized),
        b"contents-noble_v3.sqlite3".to_vec()
    );
}

#[test]
fn pocket_suffixes_come_in_processing_order() {
    let pockets = pocket_suffixes();
    assert_eq!(
        pockets,
        vec![b"-proposed".to_vec(), b"".to_vec(), b"-security".to_vec(), b"-updates".to_vec()]
    );
}

#[test]
fn schema_version_from_number() {
    assert_eq!(SchemaVersion::from_number(1), Some(SchemaVersion::Flat));
    assert_eq!(SchemaVersion::from_number(2), Some(SchemaVersion::PackageNormalized));
    assert_eq!(SchemaVersion::from_number(3), Some(SchemaVersion::PackageAndDirectoryNormalized));
    assert_eq!(SchemaVersion::from_number(0), None);
    assert_eq!(SchemaVersion::from_number(4), None);
}
