//! The import engine: owns one open database connection, the identifier
//! caches and the model of what has been written, and loads decompressed
//! pocket files line by line inside one transaction.

use vstd::prelude::*;

use crate::db::{
    exec_batch, exec_i64_text, exec_i64_text_i64, exec_text_i64, exec_text_text, open_connection,
    open_memory_connection,
};
use crate::error::ImportError;
use crate::filter::{is_excluded, line_is_excluded};
use crate::gz::{gunzip, gunzip_of};
use crate::keycache::KeyCache;
use crate::lines::{spec_lines, split_lines, views};
use crate::model::{
    first_abort, lemma_first_abort_is, lemma_first_abort_none, lemma_processed_count_zero,
    lemma_run_lines_none_iff_abort, lemma_step_none_iff_aborts, line_aborts, processed_count,
    run_lines, step, RunModel, SchemaVersion,
};
use crate::parser::parse_entry_line;
use crate::segment::segment_path;
use vstd::slice::slice_to_vec;

verus! {

/// Per-pocket-file counters for the run summary: lines read, and lines
/// loaded into the database (the rest fell to the exclusion filter).
#[derive(Clone, Copy, Debug, PartialEq, Eq, Structural)]
pub struct PocketStats {
    pub lines: usize,
    pub processed: usize,
}

/// True when this line would abort a run under the given layout: a property
/// of the line alone, checked without touching the database.
fn line_aborts_check(v: SchemaVersion, line: &[u8]) -> (r: bool)
    ensures
        r == line_aborts(v, line@),
{
    if line_is_excluded(line) {
        return false;
    }
    match parse_entry_line(line) {
        None => true,
        Some(pair) => match v {
            SchemaVersion::PackageAndDirectoryNormalized => pair.0.len() == 0,
            _ => false,
        },
    }
}

/// One import run against one database: the open connection, the identifier
/// caches, and the model of every row written so far. All loading happens
/// inside one transaction, opened at creation and closed by `finish`.
pub struct Importer {
    pub conn: rusqlite::Connection,
    pub version: SchemaVersion,
    pub package_cache: KeyCache,
    pub directory_cache: KeyCache,
    pub flat_rows: Ghost<Map<Seq<u8>, Seq<u8>>>,
    pub path_rows: Ghost<Map<Seq<u8>, int>>,
    pub dir_rows: Ghost<Map<(Seq<u8>, Seq<u8>), int>>,
}

impl Importer {
    /// The run's state as a mathematical value.
    pub open spec fn model(self) -> RunModel {
        RunModel {
            packages: self.package_cache.key_seq(),
            directories: self.directory_cache.key_seq(),
            flat_rows: self.flat_rows@,
            path_rows: self.path_rows@,
            dir_rows: self.dir_rows@,
        }
    }

    pub open spec fn wf(self) -> bool {
        &&& self.package_cache.wf()
        &&& self.directory_cache.wf()
    }

    pub open spec fn schema(self) -> SchemaVersion {
        self.version
    }

    fn init(conn: rusqlite::Connection, version: SchemaVersion) -> (r: Result<
        Importer,
        ImportError,
    >)
        ensures
            r matches Ok(imp) ==> imp.wf() && imp.schema() == version && imp.model()
                == RunModel::empty(),
    {
        let sql = match version {
            SchemaVersion::Flat => "CREATE TABLE path_package(
                path TEXT PRIMARY KEY UNIQUE NOT NULL,
                package TEXT NOT NULL);",
            SchemaVersion::PackageNormalized => "CREATE TABLE packages (
                id integer PRIMARY KEY NOT NULL,
                package text NOT NULL UNIQUE
                );
                CREATE TABLE path_package (
                path TEXT PRIMARY KEY NOT NULL,
                package_id integer NOT NULL,
                FOREIGN KEY (package_id)
                    REFERENCES packages(id)
                );",
            SchemaVersion::PackageAndDirectoryNormalized => "CREATE TABLE packages (
                id integer PRIMARY KEY NOT NULL,
                package text NOT NULL UNIQUE
                );
                CREATE TABLE directories (
                id integer PRIMARY KEY NOT NULL,
                directory text NOT NULL UNIQUE
                );
                CREATE TABLE directory_name_package (
                directory_id integer NOT NULL,
                name string NOT NULL,
                package_id integer NOT NULL,
                PRIMARY KEY (directory_id, name),
                FOREIGN KEY (directory_id) REFERENCES directories(id)
                FOREIGN KEY (package_id) REFERENCES packages(id)
                );",
        };
        match exec_batch(&conn, sql) {
            Ok(()) => {},
            Err(e) => {
                return Err(ImportError::Db(e));
            },
        }
        match exec_batch(&conn, "BEGIN") {
            Ok(()) => {},
            Err(e) => {
                return Err(ImportError::Db(e));
            },
        }
        let imp = Importer {
            conn,
            version,
            package_cache: KeyCache::new(),
            directory_cache: KeyCache::new(),
            flat_rows: Ghost(Map::empty()),
            path_rows: Ghost(Map::empty()),
            dir_rows: Ghost(Map::empty()),
        };
        proof {
            assert(imp.model() =~= RunModel::empty());
        }
        Ok(imp)
    }

    /// Opens (creating if missing) the database file at `db_path`, creates
    /// the tables of the chosen layout — failing if they already exist — and
    /// begins the run's transaction.
    pub fn create(db_path: &str, version: SchemaVersion) -> (r: Result<Importer, ImportError>)
        ensures
            r matches Ok(imp) ==> imp.wf() && imp.schema() == version && imp.model()
                == RunModel::empty(),
    {
        let conn = match open_connection(db_path) {
            Ok(c) => c,
            Err(e) => {
                return Err(ImportError::Db(e));
            },
        };
        Self::init(conn, version)
    }

    /// As `create`, against a transient in-memory database.
    pub fn create_in_memory(version: SchemaVersion) -> (r: Result<Importer, ImportError>)
        ensures
            r matches Ok(imp) ==> imp.wf() && imp.schema() == version && imp.model()
                == RunModel::empty(),
    {
        let conn = match open_memory_connection() {
            Ok(c) => c,
            Err(e) => {
                return Err(ImportError::Db(e));
            },
        };
        Self::init(conn, version)
    }

    /// Loads one raw line: drops it when the exclusion filter matches
    /// (returning `false`), otherwise parses it and writes its row
    /// (returning `true`). The model moves exactly as `step` says; a line on
    /// which `step` aborts is reported as malformed and changes nothing.
    pub fn load_line(&mut self, line: &[u8]) -> (r: Result<bool, ImportError>)
        requires
            old(self).wf(),
        ensures
            final(self).wf(),
            final(self).schema() == old(self).schema(),
            r matches Ok(b) ==> step(old(self).schema(), old(self).model(), line@) == Some(
                final(self).model(),
            ) && b == !is_excluded(line@),
            r matches Err(ImportError::MalformedLine(l)) ==> l@ == line@ && step(
                old(self).schema(),
                old(self).model(),
                line@,
            ) is None,
            step(old(self).schema(), old(self).model(), line@) is None ==> ({
                &&& r matches Err(ImportError::MalformedLine(l))
                &&& l@ == line@
            }),
            is_excluded(line@) ==> r == Ok::<bool, ImportError>(false) && *final(self) == *old(
                self,
            ),
            !(r matches Err(ImportError::Stream(_))),
    {
        let ghost m0 = old(self).model();
        let ghost v = old(self).schema();
        if line_is_excluded(line) {
            return Ok(false);
        }
        let (path, package) = match parse_entry_line(line) {
            None => {
                return Err(ImportError::MalformedLine(slice_to_vec(line)));
            },
            Some(pair) => pair,
        };
        match self.version {
            SchemaVersion::Flat => {
                match exec_text_text(
                    &self.conn,
                    "INSERT INTO path_package VALUES (?, ?) ON CONFLICT(path) DO UPDATE SET package=excluded.package;",
                    path.as_slice(),
                    package.as_slice(),
                ) {
                    Ok(()) => {},
                    Err(e) => {
                        return Err(ImportError::Db(e));
                    },
                }
                self.flat_rows = Ghost(self.flat_rows@.insert(path@, package@));
                proof {
                    assert(step(v, m0, line@) matches Some(m) && m =~= self.model());
                }
                Ok(true)
            },
            SchemaVersion::PackageNormalized => {
                let pkg_id = self.resolve_package(&package)?;
                match exec_text_i64(
                    &self.conn,
                    "INSERT INTO path_package VALUES (?, ?) ON CONFLICT(path) DO UPDATE SET package_id=excluded.package_id",
                    path.as_slice(),
                    pkg_id,
                ) {
                    Ok(()) => {},
                    Err(e) => {
                        return Err(ImportError::Db(e));
                    },
                }
                self.path_rows = Ghost(self.path_rows@.insert(path@, pkg_id as int));
                proof {
                    assert(step(v, m0, line@) matches Some(m) && m =~= self.model());
                }
                Ok(true)
            },
            SchemaVersion::PackageAndDirectoryNormalized => {
                if path.len() == 0 {
                    return Err(ImportError::MalformedLine(slice_to_vec(line)));
                }
                let (dir, name) = segment_path(path.as_slice());
                let dir_id = self.resolve_directory(&dir)?;
                let pkg_id = self.resolve_package(&package)?;
                match exec_i64_text_i64(
                    &self.conn,
                    "INSERT INTO directory_name_package VALUES (?, ?, ?) ON CONFLICT(directory_id, name) DO UPDATE SET package_id=excluded.package_id",
                    dir_id,
                    name.as_slice(),
                    pkg_id,
                ) {
                    Ok(()) => {},
                    Err(e) => {
                        return Err(ImportError::Db(e));
                    },
                }
                self.dir_rows = Ghost(self.dir_rows@.insert((dir@, name@), pkg_id as int));
                proof {
                    assert(step(v, m0, line@) matches Some(m) && m =~= self.model());
                }
                Ok(true)
            },
        }
    }

    /// The package's identifier, allocating it — and inserting the
    /// normalization row, exactly once per distinct package — when new.
    fn resolve_package(&mut self, package: &Vec<u8>) -> (r: Result<i64, ImportError>)
        requires
            old(self).wf(),
        ensures
            final(self).wf(),
            final(self).schema() == old(self).schema(),
            final(self).directory_cache == old(self).directory_cache,
            final(self).flat_rows == old(self).flat_rows,
            final(self).path_rows == old(self).path_rows,
            final(self).dir_rows == old(self).dir_rows,
            r matches Ok(id) ==> final(self).package_cache.key_seq() == crate::model::intern(
                old(self).package_cache.key_seq(),
                package@,
            ) && id as int == crate::model::key_id(final(self).package_cache.key_seq(), package@),
            r is Err ==> final(self).package_cache == old(self).package_cache,
            r matches Err(e) ==> (e matches ImportError::Db(_) || e matches ImportError::IdOverflow),
            old(self).package_cache.contains_key(package@) ==> r is Ok && *final(self) == *old(
                self,
            ),
            r matches Err(ImportError::IdOverflow) ==> old(self).package_cache.max_id == i64::MAX,
    {
        match self.package_cache.lookup(package.as_slice()) {
            Some(id) => Ok(id),
            None => {
                if self.package_cache.at_capacity() {
                    return Err(ImportError::IdOverflow);
                }
                let id = self.package_cache.max_id + 1;
                match exec_i64_text(
                    &self.conn,
                    "INSERT INTO packages VALUES (?, ?)",
                    id,
                    package.as_slice(),
                ) {
                    Ok(()) => {},
                    Err(e) => {
                        return Err(ImportError::Db(e));
                    },
                }
                let issued = self.package_cache.allocate(slice_to_vec(package.as_slice()));
                Ok(issued)
            },
        }
    }

    /// The directory's identifier, allocating it — and inserting the
    /// normalization row, exactly once per distinct directory — when new.
    fn resolve_directory(&mut self, dir: &Vec<u8>) -> (r: Result<i64, ImportError>)
        requires
            old(self).wf(),
        ensures
            final(self).wf(),
            final(self).schema() == old(self).schema(),
            final(self).package_cache == old(self).package_cache,
            final(self).flat_rows == old(self).flat_rows,
            final(self).path_rows == old(self).path_rows,
            final(self).dir_rows == old(self).dir_rows,
            r matches Ok(id) ==> final(self).directory_cache.key_seq() == crate::model::intern(
                old(self).directory_cache.key_seq(),
                dir@,
            ) && id as int == crate::model::key_id(final(self).directory_cache.key_seq(), dir@),
            r is Err ==> final(self).directory_cache == old(self).directory_cache,
            r matches Err(e) ==> (e matches ImportError::Db(_) || e matches ImportError::IdOverflow),
            old(self).directory_cache.contains_key(dir@) ==> r is Ok && *final(self) == *old(
                self,
            ),
            r matches Err(ImportError::IdOverflow) ==> old(self).directory_cache.max_id
                == i64::MAX,
    {
        match self.directory_cache.lookup(dir.as_slice()) {
            Some(id) => Ok(id),
            None => {
                if self.directory_cache.at_capacity() {
                    return Err(ImportError::IdOverflow);
                }
                let id = self.directory_cache.max_id + 1;
                match exec_i64_text(
                    &self.conn,
                    "INSERT INTO directories VALUES(?, ?)",
                    id,
                    dir.as_slice(),
                ) {
                    Ok(()) => {},
                    Err(e) => {
                        return Err(ImportError::Db(e));
                    },
                }
                let issued = self.directory_cache.allocate(slice_to_vec(dir.as_slice()));
                Ok(issued)
            },
        }
    }

    /// Loads one decompressed pocket file, line by line. The lines are
    /// checked for malformedness first, so a malformed pocket is rejected —
    /// naming its first malformed line — before anything is written; the
    /// transaction it would have dirtied is never committed either way. On
    /// success the model has moved over all lines as `run_lines` says, and
    /// the statistics count every line and every loaded line.
    pub fn load_pocket(&mut self, data: &[u8]) -> (r: Result<PocketStats, ImportError>)
        requires
            old(self).wf(),
        ensures
            final(self).wf(),
            final(self).schema() == old(self).schema(),
            r matches Ok(st) ==> run_lines(old(self).schema(), old(self).model(), spec_lines(data@))
                == Some(final(self).model()) && st.lines == spec_lines(data@).len() && st.processed
                == processed_count(spec_lines(data@)),
            r matches Err(ImportError::MalformedLine(l)) ==> ({
                &&& run_lines(old(self).schema(), old(self).model(), spec_lines(data@)) is None
                &&& 0 <= first_abort(old(self).schema(), spec_lines(data@)) < spec_lines(
                    data@,
                ).len()
                &&& l@ == spec_lines(data@)[first_abort(old(self).schema(), spec_lines(data@))]
            }),
            run_lines(old(self).schema(), old(self).model(), spec_lines(data@)) is None ==> (
            r matches Err(ImportError::MalformedLine(_))),
            processed_count(spec_lines(data@)) == 0 ==> r is Ok,
            !(r matches Err(ImportError::Stream(_))),
    {
        let ghost m0 = old(self).model();
        let ghost v = old(self).schema();
        let all = split_lines(data);
        let ver = self.version;
        // First pass: whether any line aborts the run is a property of the
        // line alone, so a malformed pocket is rejected before any write.
        let mut k: usize = 0;
        while k < all.len()
            invariant
                self.wf(),
                v == old(self).schema(),
                m0 == old(self).model(),
                self.schema() == v,
                ver == v,
                k <= all@.len(),
                views(all@) == spec_lines(data@),
                forall|j: int| 0 <= j < k ==> !line_aborts(v, views(all@)[j]),
            decreases all.len() - k,
        {
            if line_aborts_check(ver, all[k].as_slice()) {
                proof {
                    lemma_first_abort_is(v, views(all@), k as int);
                    lemma_run_lines_none_iff_abort(v, m0, views(all@));
                    if processed_count(spec_lines(data@)) == 0 {
                        lemma_processed_count_zero(views(all@));
                        assert(is_excluded(views(all@)[k as int]));
                    }
                }
                return Err(ImportError::MalformedLine(slice_to_vec(all[k].as_slice())));
            }
            k += 1;
        }
        proof {
            lemma_first_abort_none(v, views(all@));
            lemma_run_lines_none_iff_abort(v, m0, views(all@));
        }
        // Second pass: load every line; the fold cannot abort any more.
        let mut processed: usize = 0;
        let mut i: usize = 0;
        proof {
            assert(views(all@).skip(0) =~= views(all@));
        }
        while i < all.len()
            invariant
                self.wf(),
                v == old(self).schema(),
                m0 == old(self).model(),
                self.schema() == v,
                i <= all@.len(),
                processed <= i,
                views(all@) == spec_lines(data@),
                forall|j: int| 0 <= j < all@.len() ==> !line_aborts(v, views(all@)[j]),
                run_lines(v, m0, spec_lines(data@)) == run_lines(
                    v,
                    self.model(),
                    views(all@).skip(i as int),
                ),
                processed_count(spec_lines(data@)) == processed + processed_count(
                    views(all@).skip(i as int),
                ),
            decreases all.len() - i,
        {
            let ghost before = self.model();
            let ghost rest = views(all@).skip(i as int);
            proof {
                assert(rest.len() > 0);
                assert(rest[0] == views(all@)[i as int]);
                assert(rest.drop_first() =~= views(all@).skip(i as int + 1));
                lemma_step_none_iff_aborts(v, before, rest[0]);
            }
            match self.load_line(all[i].as_slice()) {
                Ok(b) => {
                    if b {
                        processed += 1;
                    }
                },
                Err(e) => {
                    proof {
                        lemma_first_abort_none(v, views(all@));
                        lemma_run_lines_none_iff_abort(v, m0, views(all@));
                        if processed_count(spec_lines(data@)) == 0 {
                            lemma_processed_count_zero(spec_lines(data@));
                            assert(is_excluded(rest[0]));
                        }
                    }
                    return Err(e);
                },
            }
            i += 1;
        }
        proof {
            assert(views(all@).skip(i as int) =~= Seq::<Seq<u8>>::empty());
        }
        Ok(PocketStats { lines: all.len(), processed })
    }

    /// Decompresses one pocket file and loads it. A stream the decoder
    /// rejects aborts the run before any line is read.
    pub fn import_pocket(&mut self, gz_data: &[u8]) -> (r: Result<PocketStats, ImportError>)
        requires
            old(self).wf(),
        ensures
            final(self).wf(),
            final(self).schema() == old(self).schema(),
            gunzip_of(gz_data@) is None ==> (r matches Err(ImportError::Stream(_))) && *final(self)
                == *old(self),
            r matches Err(ImportError::Stream(_)) ==> gunzip_of(gz_data@) is None,
            r is Ok ==> gunzip_of(gz_data@) is Some,
            gunzip_of(gz_data@) matches Some(d) ==> ({
                &&& (r matches Ok(st) ==> run_lines(old(self).schema(), old(self).model(), spec_lines(d))
                    == Some(final(self).model()) && st.lines == spec_lines(d).len()
                    && st.processed == processed_count(spec_lines(d)))
                &&& (r matches Err(ImportError::MalformedLine(l)) ==> run_lines(
                    old(self).schema(),
                    old(self).model(),
                    spec_lines(d),
                ) is None && 0 <= first_abort(old(self).schema(), spec_lines(d)) < spec_lines(
                    d,
                ).len() && l@ == spec_lines(d)[first_abort(old(self).schema(), spec_lines(d))])
                &&& (run_lines(old(self).schema(), old(self).model(), spec_lines(d)) is None ==> (
                r matches Err(ImportError::MalformedLine(_))))
                &&& (processed_count(spec_lines(d)) == 0 ==> r is Ok)
            }),
    {
        let data = match gunzip(gz_data) {
            Ok(d) => d,
            Err(e) => {
                return Err(ImportError::Stream(e));
            },
        };
        self.load_pocket(data.as_slice())
    }

    /// Number of distinct packages seen so far.
    pub fn package_count(&self) -> (r: i64)
        requires
            self.wf(),
        ensures
            r as int == self.model().packages.len(),
    {
        self.package_cache.id_count()
    }

    /// Number of distinct directory prefixes seen so far.
    pub fn directory_count(&self) -> (r: i64)
        requires
            self.wf(),
        ensures
            r as int == self.model().directories.len(),
    {
        self.directory_cache.id_count()
    }

    /// Commits the run's transaction and hands back the connection; until
    /// this succeeds, nothing the run wrote is visible in the database file.
    pub fn finish(self) -> (r: Result<rusqlite::Connection, ImportError>) {
        match exec_batch(&self.conn, "COMMIT") {
            Ok(()) => Ok(self.conn),
            Err(e) => Err(ImportError::Db(e)),
        }
    }
}

} // verus!
