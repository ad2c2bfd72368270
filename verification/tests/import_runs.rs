//! End-to-end runs against in-memory databases, with real gzip input.

use std::io::Write;

use contents_db::{ImportError, Importer, SchemaVersion};

fn gz(data: &[u8]) -> Vec<u8> {
    let mut enc = flate2::write::GzEncoder::new(Vec::new(), flate2::Compression::default());
    enc.write_all(data).expect("compress");
    enc.finish().expect("finish")
}

fn all_rows(conn: &rusqlite::Connection, sql: &str) -> Vec<(String, String)> {
    let mut stmt = conn.prepare(sql).expect("prepare");
    let rows = stmt
        .query_map((), |row| Ok((row.get::<_, String>(0)?, row.get::<_, String>(1)?)))
        .expect("query");
    rows.collect::<Result<Vec<_>, _>>().expect("rows")
}

fn id_rows(conn: &rusqlite::Connection, sql: &str) -> Vec<(i64, String)> {
    let mut stmt = conn.prepare(sql).expect("prepare");
    let rows = stmt
        .query_map((), |row| Ok((row.get::<_, i64>(0)?, row.get::<_, String>(1)?)))
        .expect("query");
    rows.collect::<Result<Vec<_>, _>>().expect("rows")
}

#[test]
fn flat_end_to_end_sample() {
    let sample = gz(b"usr/bin/foo  admin/foo\nusr/bin/bar  admin/bar,admin/baz\n");
    let mut imp = Importer::create_in_memory(SchemaVersion::Flat).expect("create");
    let stats = imp.import_pocket(&sample).expect("import");
    assert_eq!(stats.lines, 2);
    assert_eq!(stats.processed, 2);
    let conn = imp.finish().expect("commit");
    let rows = all_rows(&conn, "SELECT path, package FROM path_package ORDER BY path");
    assert_eq!(
        rows,
        vec![
            ("usr/bin/bar".to_string(), "bar".to_string()),
            ("usr/bin/foo".to_string(), "foo".to_string()),
        ]
    );
}

#[test]
fn later_pocket_overrides_earlier_flat() {
    let first = gz(b"usr/bin/foo  admin/foo\n");
    let second = gz(b"usr/bin/foo  admin/other\n");
    let mut imp = Importer::create_in_memory(SchemaVersion::Flat).expect("create");
    imp.import_pocket(&first).expect("first pocket");
    imp.import_pocket(&second).expect("second pocket");
    let conn = imp.finish().expect("commit");
    let rows = all_rows(&conn, "SELECT path, package FROM path_package");
    assert_eq!(rows, vec![("usr/bin/foo".to_string(), "other".to_string())]);
}

#[test]
fn later_pocket_overrides_earlier_composite() {
    let first = gz(b"usr/bin/foo  admin/aaa\n");
    let second = gz(b"usr/bin/foo  admin/bbb\n");
    let mut imp =
        Importer::create_in_memory(SchemaVersion::PackageAndDirectoryNormalized).expect("create");
    imp.import_pocket(&first).expect("first pocket");
    imp.import_pocket(&second).expect("second pocket");
    let conn = imp.finish().expect("commit");
    let rows = id_rows(
        &conn,
        "SELECT package_id, name FROM directory_name_package",
    );
    assert_eq!(rows.len(), 1);
    assert_eq!(rows[0].1, "foo");
    let pkgs = id_rows(&conn, "SELECT id, package FROM packages ORDER BY id");
    assert_eq!(pkgs, vec![(1, "aaa".to_string()), (2, "bbb".to_string())]);
    // The surviving row points at the later pocket's package.
    assert_eq!(rows[0].0, 2);
}

#[test]
fn package_normalized_run() {
    let sample = gz(b"usr/bin/foo  admin/foo\nusr/bin/bar  admin/bar\nusr/lib/foo2  admin/foo\n");
    let mut imp = Importer::create_in_memory(SchemaVersion::PackageNormalized).expect("create");
    let stats = imp.import_pocket(&sample).expect("import");
    assert_eq!(stats.lines, 3);
    assert_eq!(stats.processed, 3);
    assert_eq!(imp.package_count(), 2);
    let conn = imp.finish().expect("commit");
    let pkgs = id_rows(&conn, "SELECT id, package FROM packages ORDER BY id");
    assert_eq!(pkgs, vec![(1, "foo".to_string()), (2, "bar".to_string())]);
    let paths = id_rows(
        &conn,
        "SELECT package_id, path FROM path_package ORDER BY path",
    );
    assert_eq!(
        paths,
        vec![
            (2, "usr/bin/bar".to_string()),
            (1, "usr/bin/foo".to_string()),
            (1, "usr/lib/foo2".to_string()),
        ]
    );
}

#[test]
fn directory_normalized_run() {
    let sample = gz(
        b"usr/bin/foo  admin/foo\nusr/bin/bar  admin/bar\nusr/lib/x/y/z/deep/file  admin/foo\n",
    );
    let mut imp =
        Importer::create_in_memory(SchemaVersion::PackageAndDirectoryNormalized).expect("create");
    let stats = imp.import_pocket(&sample).expect("import");
    assert_eq!(stats.processed, 3);
    assert_eq!(imp.package_count(), 2);
    assert_eq!(imp.directory_count(), 2);
    let conn = imp.finish().expect("commit");
    let dirs = id_rows(&conn, "SELECT id, directory FROM directories ORDER BY id");
    assert_eq!(
        dirs,
        vec![(1, "usr/bin".to_string()), (2, "usr/lib/x/y/z".to_string())]
    );
    let rows = id_rows(
        &conn,
        "SELECT directory_id, name FROM directory_name_package ORDER BY directory_id, name",
    );
    assert_eq!(
        rows,
        vec![
            (1, "bar".to_string()),
            (1, "foo".to_string()),
            (2, "deep/file".to_string()),
        ]
    );
}

#[test]
fn excluded_lines_are_not_loaded() {
    let sample = gz(b"boot/vmlinuz  user/kernel\nusr/bin/foo  admin/foo\nusr/share/doc/foo/README  admin/foo\n");
    let mut imp = Importer::create_in_memory(SchemaVersion::Flat).expect("create");
    let stats = imp.import_pocket(&sample).expect("import");
    assert_eq!(stats.lines, 3);
    assert_eq!(stats.processed, 1);
    let conn = imp.finish().expect("commit");
    let rows = all_rows(&conn, "SELECT path, package FROM path_package");
    assert_eq!(rows, vec![("usr/bin/foo".to_string(), "foo".to_string())]);
}

#[test]
fn rerunning_the_import_yields_identical_rows() {
    let sample =
        gz(b"usr/bin/foo  admin/foo\nusr/bin/bar  admin/bar\nusr/lib/a/b/c/d/e  admin/foo\n");
    let mut dumps: Vec<(Vec<(i64, String)>, Vec<(i64, String)>, Vec<(i64, String)>)> = Vec::new();
    for _ in 0..2 {
        let mut imp = Importer::create_in_memory(SchemaVersion::PackageAndDirectoryNormalized)
            .expect("create");
        imp.import_pocket(&sample).expect("import");
        let conn = imp.finish().expect("commit");
        dumps.push((
            id_rows(&conn, "SELECT id, package FROM packages ORDER BY id"),
            id_rows(&conn, "SELECT id, directory FROM directories ORDER BY id"),
            id_rows(
                &conn,
                "SELECT directory_id, name FROM directory_name_package ORDER BY directory_id, name",
            ),
        ));
    }
    assert_eq!(dumps[0], dumps[1]);
}

#[test]
fn malformed_line_fails_the_whole_pocket() {
    let sample = gz(b"usr/bin/foo  admin/foo\nmalformed-line-without-separator\n");
    let mut imp = Importer::create_in_memory(SchemaVersion::Flat).expect("create");
    let err = imp.import_pocket(&sample).expect_err("must fail");
    assert!(matches!(err, ImportError::MalformedLine(_)));
    if let ImportError::MalformedLine(line) = err {
        assert_eq!(line, b"malformed-line-without-separator".to_vec());
    }
}

#[test]
fn first_malformed_line_is_the_one_reported() {
    let sample = gz(b"usr/bin/foo  admin/foo\nfirst-bad-line\nsecond-bad-line\n");
    let mut imp = Importer::create_in_memory(SchemaVersion::Flat).expect("create");
    let err = imp.import_pocket(&sample).expect_err("must fail");
    if let ImportError::MalformedLine(line) = err {
        assert_eq!(line, b"first-bad-line".to_vec());
    } else {
        panic!("wrong error kind");
    }
}

#[test]
fn malformed_pocket_writes_nothing() {
    let sample = gz(b"usr/bin/foo  admin/foo\nbad-line\n");
    let mut imp = Importer::create_in_memory(SchemaVersion::Flat).expect("create");
    imp.import_pocket(&sample).expect_err("must fail");
    let conn = imp.finish().expect("commit");
    let rows = all_rows(&conn, "SELECT path, package FROM path_package");
    assert!(rows.is_empty());
}

#[test]
fn empty_path_fails_directory_layout() {
    let sample = gz(b" admin/foo\n");
    let mut imp =
        Importer::create_in_memory(SchemaVersion::PackageAndDirectoryNormalized).expect("create");
    let err = imp.import_pocket(&sample).expect_err("must fail");
    assert!(matches!(err, ImportError::MalformedLine(_)));
}

#[test]
fn corrupt_stream_fails_before_any_line() {
    let mut imp = Importer::create_in_memory(SchemaVersion::Flat).expect("create");
    let err = imp.import_pocket(b"not a gzip stream").expect_err("must fail");
    assert!(matches!(err, ImportError::Stream(_)));
}

#[test]
fn truncated_stream_fails() {
    let mut sample = gz(b"usr/bin/foo  admin/foo\n");
    sample.truncate(sample.len() / 2);
    let mut imp = Importer::create_in_memory(SchemaVersion::Flat).expect("create");
    let err = imp.import_pocket(&sample).expect_err("must fail");
    assert!(matches!(err, ImportError::Stream(_)));
}

#[test]
fn unreachable_database_path_is_reported() {
    let err = Importer::create("/nonexistent-dir-for-contents-db/test.sqlite3", SchemaVersion::Flat)
        .err()
        .expect("must fail");
    assert!(matches!(err, ImportError::Db(_)));
}

#[test]
fn empty_pocket_loads_nothing() {
    let sample = gz(b"");
    let mut imp = Importer::create_in_memory(SchemaVersion::Flat).expect("create");
    let stats = imp.import_pocket(&sample).expect("import");
    assert_eq!(stats.lines, 0);
    assert_eq!(stats.processed, 0);
    let conn = imp.finish().expect("commit");
    let rows = all_rows(&conn, "SELECT path, package FROM path_package");
    assert!(rows.is_empty());
}
