//! The run's fixed naming rules: the four pockets of a release in their
//! processing order, the expected Contents file name of each pocket, and the
//! name of the database file a run produces.

use vstd::prelude::*;

use crate::bytes::append_bytes;
use crate::lines::views;
use crate::model::SchemaVersion;

verus! {

/// "-proposed"
pub open spec fn pocket_proposed() -> Seq<u8> {
    seq![45u8, 112u8, 114u8, 111u8, 112u8, 111u8, 115u8, 101u8, 100u8]
}

/// "-security"
pub open spec fn pocket_security() -> Seq<u8> {
    seq![45u8, 115u8, 101u8, 99u8, 117u8, 114u8, 105u8, 116u8, 121u8]
}

/// "-updates"
pub open spec fn pocket_updates() -> Seq<u8> {
    seq![45u8, 117u8, 112u8, 100u8, 97u8, 116u8, 101u8, 115u8]
}

/// The pocket suffixes of a release, in processing order. Later pockets
/// override earlier ones on conflicting rows.
pub open spec fn pocket_order() -> Seq<Seq<u8>> {
    seq![pocket_proposed(), Seq::<u8>::empty(), pocket_security(), pocket_updates()]
}

/// "-Contents-amd64.gz"
pub open spec fn contents_suffix() -> Seq<u8> {
    seq![
        45u8, 67u8, 111u8, 110u8, 116u8, 101u8, 110u8, 116u8, 115u8, 45u8, 97u8, 109u8, 100u8,
        54u8, 52u8, 46u8, 103u8, 122u8,
    ]
}

/// "contents-"
pub open spec fn db_name_head() -> Seq<u8> {
    seq![99u8, 111u8, 110u8, 116u8, 101u8, 110u8, 116u8, 115u8, 45u8]
}

/// "_v"
pub open spec fn db_name_mid() -> Seq<u8> {
    seq![95u8, 118u8]
}

/// ".sqlite3"
pub open spec fn db_name_tail() -> Seq<u8> {
    seq![46u8, 115u8, 113u8, 108u8, 105u8, 116u8, 101u8, 51u8]
}

/// The digit naming a schema layout in the database file name.
pub open spec fn version_digit(v: SchemaVersion) -> u8 {
    match v {
        SchemaVersion::Flat => 49,
        SchemaVersion::PackageNormalized => 50,
        SchemaVersion::PackageAndDirectoryNormalized => 51,
    }
}

/// The pocket suffixes in processing order, as owned values.
pub fn pocket_suffixes() -> (r: Vec<Vec<u8>>)
    ensures
        views(r@) == pocket_order(),
{
    let proposed: [u8; 9] = [45, 112, 114, 111, 112, 111, 115, 101, 100];
    let security: [u8; 9] = [45, 115, 101, 99, 117, 114, 105, 116, 121];
    let updates: [u8; 8] = [45, 117, 112, 100, 97, 116, 101, 115];
    let mut r: Vec<Vec<u8>> = Vec::new();
    let mut p: Vec<u8> = Vec::new();
    append_bytes(&mut p, proposed.as_slice());
    r.push(p);
    r.push(Vec::new());
    let mut s: Vec<u8> = Vec::new();
    append_bytes(&mut s, security.as_slice());
    r.push(s);
    let mut u: Vec<u8> = Vec::new();
    append_bytes(&mut u, updates.as_slice());
    r.push(u);
    proof {
        assert(proposed@ =~= pocket_proposed());
        assert(security@ =~= pocket_security());
        assert(updates@ =~= pocket_updates());
        assert(Seq::<u8>::empty() + proposed@ =~= proposed@);
        assert(Seq::<u8>::empty() + security@ =~= security@);
        assert(Seq::<u8>::empty() + updates@ =~= updates@);
        assert(views(r@) =~= pocket_order());
    }
    r
}

/// The expected file name of one pocket's Contents file:
/// `<cache_dir>/<release><pocket>-Contents-amd64.gz`.
pub fn contents_file_name(cache_dir: &[u8], release: &[u8], pocket: &[u8]) -> (r: Vec<u8>)
    ensures
        r@ == cache_dir@ + seq![47u8] + release@ + pocket@ + contents_suffix(),
{
    let suffix: [u8; 18] = [
        45, 67, 111, 110, 116, 101, 110, 116, 115, 45, 97, 109, 100, 54, 52, 46, 103, 122,
    ];
    let mut r: Vec<u8> = Vec::new();
    append_bytes(&mut r, cache_dir);
    r.push(47);
    append_bytes(&mut r, release);
    append_bytes(&mut r, pocket);
    append_bytes(&mut r, suffix.as_slice());
    proof {
        assert(suffix@ =~= contents_suffix());
        assert(r@ =~= cache_dir@ + seq![47u8] + release@ + pocket@ + contents_suffix());
    }
    r
}

/// The name of the database file a run produces:
/// `contents-<release>_v<schema-version>.sqlite3`.
pub fn db_file_name(release: &[u8], version: SchemaVersion) -> (r: Vec<u8>)
    ensures
        r@ == db_name_head() + release@ + db_name_mid() + seq![version_digit(version)]
            + db_name_tail(),
{
    let head: [u8; 9] = [99, 111, 110, 116, 101, 110, 116, 115, 45];
    let mid: [u8; 2] = [95, 118];
    let tail: [u8; 8] = [46, 115, 113, 108, 105, 116, 101, 51];
    let digit: u8 = match version {
        SchemaVersion::Flat => 49,
        SchemaVersion::PackageNormalized => 50,
        SchemaVersion::PackageAndDirectoryNormalized => 51,
    };
    let mut r: Vec<u8> = Vec::new();
    append_bytes(&mut r, head.as_slice());
    append_bytes(&mut r, release);
    append_bytes(&mut r, mid.as_slice());
    r.push(digit);
    append_bytes(&mut r, tail.as_slice());
    proof {
        assert(head@ =~= db_name_head());
        assert(mid@ =~= db_name_mid());
        assert(tail@ =~= db_name_tail());
        assert(r@ =~= db_name_head() + release@ + db_name_mid() + seq![version_digit(version)]
            + db_name_tail());
    }
    r
}

} // verus!
