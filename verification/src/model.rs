//! The mathematical model of one import run: what the database rows and the
//! identifier caches hold after each accepted line, for each of the three
//! schema layouts.

use vstd::prelude::*;

use crate::filter::is_excluded;
use crate::parser::parse_entry;
use crate::segment::spec_segment;

verus! {

/// The three schema layouts a database can be created with.
#[derive(Clone, Copy, PartialEq, Eq, Structural, Debug)]
pub enum SchemaVersion {
    /// One table mapping each path to its package name.
    Flat,
    /// Package names held once in a lookup table; paths reference them by id.
    PackageNormalized,
    /// Additionally, paths are split into a shared directory prefix (held
    /// once, referenced by id) and a leaf name.
    PackageAndDirectoryNormalized,
}

impl SchemaVersion {
    /// The layout selected by a numeric schema version.
    pub fn from_number(n: i64) -> (r: Option<SchemaVersion>)
        ensures
            r == (if n == 1 {
                Some(SchemaVersion::Flat)
            } else if n == 2 {
                Some(SchemaVersion::PackageNormalized)
            } else if n == 3 {
                Some(SchemaVersion::PackageAndDirectoryNormalized)
            } else {
                None::<SchemaVersion>
            }),
    {
        if n == 1 {
            Some(SchemaVersion::Flat)
        } else if n == 2 {
            Some(SchemaVersion::PackageNormalized)
        } else if n == 3 {
            Some(SchemaVersion::PackageAndDirectoryNormalized)
        } else {
            None
        }
    }
}

/// Everything an import run has written or cached: the two identifier caches
/// (keys in allocation order; the key at position `i` has id `i + 1`) and the
/// leaf rows of whichever layout is in use. Layouts not in use keep their
/// fields empty.
#[verifier::ext_equal]
pub ghost struct RunModel {
    /// Package names, in allocation order.
    pub packages: Seq<Seq<u8>>,
    /// Directory prefixes, in allocation order.
    pub directories: Seq<Seq<u8>>,
    /// Flat layout: path to package name.
    pub flat_rows: Map<Seq<u8>, Seq<u8>>,
    /// Package-normalized layout: path to package id.
    pub path_rows: Map<Seq<u8>, int>,
    /// Package-and-directory layout: (directory, name) to package id.
    pub dir_rows: Map<(Seq<u8>, Seq<u8>), int>,
}

impl RunModel {
    /// The state at the start of a run.
    pub open spec fn empty() -> RunModel {
        RunModel {
            packages: Seq::empty(),
            directories: Seq::empty(),
            flat_rows: Map::empty(),
            path_rows: Map::empty(),
            dir_rows: Map::empty(),
        }
    }
}

/// `keys` after resolving `k`: unchanged when `k` was seen, else extended.
pub open spec fn intern(keys: Seq<Seq<u8>>, k: Seq<u8>) -> Seq<Seq<u8>> {
    if keys.contains(k) {
        keys
    } else {
        keys.push(k)
    }
}

/// The identifier of an allocated key: its position plus one.
pub open spec fn key_id(keys: Seq<Seq<u8>>, k: Seq<u8>) -> int {
    keys.index_of(k) + 1
}

/// The state after one raw line: unchanged for an excluded line, extended by
/// the line's entry otherwise, and `None` when the line aborts the run (it is
/// malformed, or the directory layout meets an empty path).
pub open spec fn step(v: SchemaVersion, m: RunModel, line: Seq<u8>) -> Option<RunModel> {
    if is_excluded(line) {
        Some(m)
    } else {
        match parse_entry(line) {
            None => None,
            Some(entry) => {
                let path = entry.0;
                let package = entry.1;
                match v {
                    SchemaVersion::Flat => Some(
                        RunModel {
                            packages: m.packages,
                            directories: m.directories,
                            flat_rows: m.flat_rows.insert(path, package),
                            path_rows: m.path_rows,
                            dir_rows: m.dir_rows,
                        },
                    ),
                    SchemaVersion::PackageNormalized => {
                        let packages = intern(m.packages, package);
                        Some(
                            RunModel {
                                packages: packages,
                                directories: m.directories,
                                flat_rows: m.flat_rows,
                                path_rows: m.path_rows.insert(path, key_id(packages, package)),
                                dir_rows: m.dir_rows,
                            },
                        )
                    },
                    SchemaVersion::PackageAndDirectoryNormalized => {
                        if path.len() == 0 {
                            None
                        } else {
                            let seg = spec_segment(path);
                            let directories = intern(m.directories, seg.0);
                            let packages = intern(m.packages, package);
                            Some(
                                RunModel {
                                    packages: packages,
                                    directories: directories,
                                    flat_rows: m.flat_rows,
                                    path_rows: m.path_rows,
                                    dir_rows: m.dir_rows.insert(
                                        (seg.0, seg.1),
                                        key_id(packages, package),
                                    ),
                                },
                            )
                        }
                    },
                }
            },
        }
    }
}

/// The state after a sequence of raw lines, `None` as soon as one aborts.
pub open spec fn run_lines(v: SchemaVersion, m: RunModel, lines: Seq<Seq<u8>>) -> Option<RunModel>
    decreases lines.len(),
{
    if lines.len() == 0 {
        Some(m)
    } else {
        match step(v, m, lines[0]) {
            None => None,
            Some(m2) => run_lines(v, m2, lines.drop_first()),
        }
    }
}

/// How many of `lines` are loaded (not dropped by the exclusion filter).
pub open spec fn processed_count(lines: Seq<Seq<u8>>) -> nat
    decreases lines.len(),
{
    if lines.len() == 0 {
        0
    } else {
        (if is_excluded(lines[0]) {
            0nat
        } else {
            1nat
        }) + processed_count(lines.drop_first())
    }
}

/// Whether one raw line aborts the run, independent of the state reached so
/// far: it is not excluded, and it is malformed (no separator), or the
/// directory layout meets an empty path.
pub open spec fn line_aborts(v: SchemaVersion, line: Seq<u8>) -> bool {
    !is_excluded(line) && match parse_entry(line) {
        None => true,
        Some(entry) => v == SchemaVersion::PackageAndDirectoryNormalized && entry.0.len() == 0,
    }
}

/// Index of the first line that aborts the run, or -1 when none does.
pub open spec fn first_abort(v: SchemaVersion, lines: Seq<Seq<u8>>) -> int
    decreases lines.len(),
{
    if lines.len() == 0 {
        -1
    } else if line_aborts(v, lines[0]) {
        0
    } else {
        let r = first_abort(v, lines.drop_first());
        if r < 0 {
            -1
        } else {
            r + 1
        }
    }
}

/// `step` aborts exactly on the lines `line_aborts` names, whatever state it
/// starts from.
pub proof fn lemma_step_none_iff_aborts(v: SchemaVersion, m: RunModel, line: Seq<u8>)
    ensures
        step(v, m, line) is None <==> line_aborts(v, line),
{
}

pub proof fn lemma_first_abort_is(v: SchemaVersion, lines: Seq<Seq<u8>>, k: int)
    requires
        0 <= k < lines.len(),
        line_aborts(v, lines[k]),
        forall|j: int| 0 <= j < k ==> !line_aborts(v, lines[j]),
    ensures
        first_abort(v, lines) == k,
    decreases lines.len(),
{
    if k > 0 {
        lemma_first_abort_is(v, lines.drop_first(), k - 1);
    }
}

pub proof fn lemma_first_abort_none(v: SchemaVersion, lines: Seq<Seq<u8>>)
    requires
        forall|j: int| 0 <= j < lines.len() ==> !line_aborts(v, lines[j]),
    ensures
        first_abort(v, lines) == -1,
    decreases lines.len(),
{
    if lines.len() > 0 {
        lemma_first_abort_none(v, lines.drop_first());
    }
}

/// A run aborts exactly when one of its lines is malformed for the layout:
/// a single malformed line fails the whole import, wherever it stands and
/// whatever state the run starts from.
pub proof fn lemma_run_lines_none_iff_abort(v: SchemaVersion, m: RunModel, lines: Seq<Seq<u8>>)
    ensures
        run_lines(v, m, lines) is None <==> first_abort(v, lines) >= 0,
    decreases lines.len(),
{
    if lines.len() > 0 {
        lemma_step_none_iff_aborts(v, m, lines[0]);
        match step(v, m, lines[0]) {
            None => {},
            Some(m1) => {
                lemma_run_lines_none_iff_abort(v, m1, lines.drop_first());
            },
        }
    }
}

/// No line is loaded exactly when every line is excluded.
pub proof fn lemma_processed_count_zero(lines: Seq<Seq<u8>>)
    ensures
        processed_count(lines) == 0 <==> (forall|j: int|
            0 <= j < lines.len() ==> is_excluded(lines[j])),
    decreases lines.len(),
{
    if lines.len() > 0 {
        lemma_processed_count_zero(lines.drop_first());
        if processed_count(lines) == 0 {
            assert forall|j: int| 0 <= j < lines.len() implies is_excluded(lines[j]) by {
                if j > 0 {
                    assert(lines.drop_first()[j - 1] == lines[j]);
                }
            }
        } else if forall|j: int| 0 <= j < lines.len() ==> is_excluded(lines[j]) {
            assert forall|j: int| 0 <= j < lines.drop_first().len() implies is_excluded(
                lines.drop_first()[j],
            ) by {
                assert(lines.drop_first()[j] == lines[j + 1]);
            }
        }
    }
}

/// Processing one batch of lines after another is processing their
/// concatenation: pocket files feed one accumulating state.
pub proof fn lemma_run_lines_append(
    v: SchemaVersion,
    m: RunModel,
    xs: Seq<Seq<u8>>,
    ys: Seq<Seq<u8>>,
)
    ensures
        run_lines(v, m, xs + ys) == (match run_lines(v, m, xs) {
            None => None::<RunModel>,
            Some(m2) => run_lines(v, m2, ys),
        }),
    decreases xs.len(),
{
    if xs.len() == 0 {
        assert(xs + ys =~= ys);
    } else {
        assert((xs + ys)[0] == xs[0]);
        assert((xs + ys).len() > 0);
        match step(v, m, xs[0]) {
            None => {},
            Some(m1) => {
                assert((xs + ys).drop_first() =~= xs.drop_first() + ys);
                lemma_run_lines_append(v, m1, xs.drop_first(), ys);
            },
        }
    }
}

/// Idempotence of the import: the state a run reaches is a function of the
/// schema layout, the starting state and the raw lines alone, so re-running
/// the same release against a fresh database re-derives the same rows, ids
/// and caches.
pub proof fn lemma_run_deterministic(
    v: SchemaVersion,
    m: RunModel,
    lines1: Seq<Seq<u8>>,
    lines2: Seq<Seq<u8>>,
)
    requires
        lines1 == lines2,
    ensures
        run_lines(v, m, lines1) == run_lines(v, m, lines2),
{
}

/// Conflict resolution, flat layout: of two accepted lines carrying the same
/// path, the later one decides the path's package.
pub proof fn lemma_flat_last_wins(
    m: RunModel,
    l1: Seq<u8>,
    l2: Seq<u8>,
    path: Seq<u8>,
    p1: Seq<u8>,
    p2: Seq<u8>,
)
    requires
        !is_excluded(l1),
        !is_excluded(l2),
        parse_entry(l1) == Some((path, p1)),
        parse_entry(l2) == Some((path, p2)),
    ensures
        run_lines(SchemaVersion::Flat, m, seq![l1, l2]) matches Some(m2) && m2.flat_rows[path]
            == p2,
{
    reveal_with_fuel(run_lines, 4);
    let lines = seq![l1, l2];
    assert(lines.drop_first() =~= seq![l2]);
    assert(seq![l2].drop_first() =~= Seq::<Seq<u8>>::empty());
}

/// Conflict resolution, package-normalized layout: of two accepted lines
/// carrying the same path, the later one decides the path's package id.
pub proof fn lemma_normalized_last_wins(
    m: RunModel,
    l1: Seq<u8>,
    l2: Seq<u8>,
    path: Seq<u8>,
    p1: Seq<u8>,
    p2: Seq<u8>,
)
    requires
        !is_excluded(l1),
        !is_excluded(l2),
        parse_entry(l1) == Some((path, p1)),
        parse_entry(l2) == Some((path, p2)),
    ensures
        run_lines(SchemaVersion::PackageNormalized, m, seq![l1, l2]) matches Some(m2)
            && m2.path_rows[path] == key_id(m2.packages, p2),
{
    reveal_with_fuel(run_lines, 4);
    let lines = seq![l1, l2];
    assert(lines.drop_first() =~= seq![l2]);
    assert(seq![l2].drop_first() =~= Seq::<Seq<u8>>::empty());
}

/// Conflict resolution, package-and-directory layout: of two accepted lines
/// whose paths split into the same (directory, name) pair, the later one
/// decides the pair's package id.
pub proof fn lemma_directory_last_wins(
    m: RunModel,
    l1: Seq<u8>,
    l2: Seq<u8>,
    path1: Seq<u8>,
    path2: Seq<u8>,
    p1: Seq<u8>,
    p2: Seq<u8>,
)
    requires
        !is_excluded(l1),
        !is_excluded(l2),
        parse_entry(l1) == Some((path1, p1)),
        parse_entry(l2) == Some((path2, p2)),
        path1.len() > 0,
        path2.len() > 0,
        spec_segment(path1) == spec_segment(path2),
    ensures
        run_lines(SchemaVersion::PackageAndDirectoryNormalized, m, seq![l1, l2]) matches Some(m2)
            && m2.dir_rows[spec_segment(path2)] == key_id(m2.packages, p2),
{
    reveal_with_fuel(run_lines, 4);
    let lines = seq![l1, l2];
    assert(lines.drop_first() =~= seq![l2]);
    assert(seq![l2].drop_first() =~= Seq::<Seq<u8>>::empty());
}

} // verus!
