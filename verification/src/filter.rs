//! The exclusion filter: drops index lines whose paths the database
//! intentionally ignores (documentation, locale, headers, build sources),
//! and metadata records that begin with a colon.

use vstd::prelude::*;

use crate::bytes::{bytes_eq, starts_with, starts_with_bytes};

verus! {

/// "boot/"
pub open spec fn pfx_boot() -> Seq<u8> {
    seq![98u8, 111u8, 111u8, 116u8, 47u8]
}

/// "var/"
pub open spec fn pfx_var() -> Seq<u8> {
    seq![118u8, 97u8, 114u8, 47u8]
}

/// "usr/include/"
pub open spec fn pfx_usr_include() -> Seq<u8> {
    seq![117u8, 115u8, 114u8, 47u8, 105u8, 110u8, 99u8, 108u8, 117u8, 100u8, 101u8, 47u8]
}

/// "usr/src/"
pub open spec fn pfx_usr_src() -> Seq<u8> {
    seq![117u8, 115u8, 114u8, 47u8, 115u8, 114u8, 99u8, 47u8]
}

/// "usr/share/doc/"
pub open spec fn pfx_share_doc() -> Seq<u8> {
    seq![117u8, 115u8, 114u8, 47u8, 115u8, 104u8, 97u8, 114u8, 101u8, 47u8, 100u8, 111u8, 99u8, 47u8]
}

/// "usr/share/gocode/"
pub open spec fn pfx_share_gocode() -> Seq<u8> {
    seq![117u8, 115u8, 114u8, 47u8, 115u8, 104u8, 97u8, 114u8, 101u8, 47u8, 103u8, 111u8, 99u8, 111u8, 100u8, 101u8, 47u8]
}

/// "usr/share/help/"
pub open spec fn pfx_share_help() -> Seq<u8> {
    seq![117u8, 115u8, 114u8, 47u8, 115u8, 104u8, 97u8, 114u8, 101u8, 47u8, 104u8, 101u8, 108u8, 112u8, 47u8]
}

/// "usr/share/icons/"
pub open spec fn pfx_share_icons() -> Seq<u8> {
    seq![117u8, 115u8, 114u8, 47u8, 115u8, 104u8, 97u8, 114u8, 101u8, 47u8, 105u8, 99u8, 111u8, 110u8, 115u8, 47u8]
}

/// "usr/share/locale/"
pub open spec fn pfx_share_locale() -> Seq<u8> {
    seq![117u8, 115u8, 114u8, 47u8, 115u8, 104u8, 97u8, 114u8, 101u8, 47u8, 108u8, 111u8, 99u8, 97u8, 108u8, 101u8, 47u8]
}

/// "usr/share/man/"
pub open spec fn pfx_share_man() -> Seq<u8> {
    seq![117u8, 115u8, 114u8, 47u8, 115u8, 104u8, 97u8, 114u8, 101u8, 47u8, 109u8, 97u8, 110u8, 47u8]
}

/// "usr/share/texlive/"
pub open spec fn pfx_share_texlive() -> Seq<u8> {
    seq![117u8, 115u8, 114u8, 47u8, 115u8, 104u8, 97u8, 114u8, 101u8, 47u8, 116u8, 101u8, 120u8, 108u8, 105u8, 118u8, 101u8, 47u8]
}

/// "usr/"
pub open spec fn pfx_usr() -> Seq<u8> {
    seq![117u8, 115u8, 114u8, 47u8]
}

/// "/include/"
pub open spec fn seg_include() -> Seq<u8> {
    seq![47u8, 105u8, 110u8, 99u8, 108u8, 117u8, 100u8, 101u8, 47u8]
}

/// A path "usr/<segment>/include/...": the line starts with "usr/", then one
/// nonempty path segment (no slash), then "/include/".
pub open spec fn usr_subdir_include(line: Seq<u8>) -> bool {
    exists|j: int|
        4 < j && j + 9 <= line.len() && starts_with(line, pfx_usr()) && (forall|k: int|
            4 <= k < j ==> line[k] != 47) && #[trigger] line.subrange(j, j + 9) == seg_include()
}

/// A line the importer drops: a metadata record (leading colon), or a path
/// under one of the excluded subtrees.
pub open spec fn is_excluded(line: Seq<u8>) -> bool {
    ||| (line.len() > 0 && line[0] == 58)
    ||| starts_with(line, pfx_boot())
    ||| starts_with(line, pfx_var())
    ||| starts_with(line, pfx_usr_include())
    ||| starts_with(line, pfx_usr_src())
    ||| starts_with(line, pfx_share_doc())
    ||| starts_with(line, pfx_share_gocode())
    ||| starts_with(line, pfx_share_help())
    ||| starts_with(line, pfx_share_icons())
    ||| starts_with(line, pfx_share_locale())
    ||| starts_with(line, pfx_share_man())
    ||| starts_with(line, pfx_share_texlive())
    ||| usr_subdir_include(line)
}

fn check_usr_subdir_include(line: &[u8]) -> (r: bool)
    ensures
        r == usr_subdir_include(line@),
{
    let usr: [u8; 4] = [117, 115, 114, 47];
    proof {
        assert(usr@ =~= pfx_usr());
    }
    if !starts_with_bytes(line, usr.as_slice()) {
        return false;
    }
    // Scan for the first slash after the "usr/" prefix.
    let mut j: usize = 4;
    while j < line.len() && line[j] != 47
        invariant
            4 <= j <= line@.len(),
            forall|k: int| 4 <= k < j ==> line@[k] != 47,
        decreases line.len() - j,
    {
        j += 1;
    }
    if j >= line.len() {
        // No slash after the prefix: any witness position would have to hold
        // a slash as the first byte of "/include/".
        proof {
            assert forall|j2: int| !(4 < j2 && j2 + 9 <= line@.len() && (forall|k: int|
                4 <= k < j2 ==> line@[k] != 47) && #[trigger] line@.subrange(j2, j2 + 9) == seg_include()) by {
                if 4 < j2 && j2 + 9 <= line@.len() && line@.subrange(j2, j2 + 9) == seg_include() {
                    assert(line@.subrange(j2, j2 + 9)[0] == 47);
                }
            }
        }
        return false;
    }
    if j == 4 {
        // The segment between "usr/" and the next slash is empty.
        proof {
            assert forall|j2: int| !(4 < j2 && j2 + 9 <= line@.len() && (forall|k: int|
                4 <= k < j2 ==> line@[k] != 47) && #[trigger] line@.subrange(j2, j2 + 9) == seg_include()) by {
                if 4 < j2 && (forall|k: int| 4 <= k < j2 ==> line@[k] != 47) {
                    assert(line@[4] != 47);
                }
            }
        }
        return false;
    }
    if line.len() - j < 9 {
        proof {
            assert forall|j2: int| !(4 < j2 && j2 + 9 <= line@.len() && (forall|k: int|
                4 <= k < j2 ==> line@[k] != 47) && #[trigger] line@.subrange(j2, j2 + 9) == seg_include()) by {
                if 4 < j2 && j2 + 9 <= line@.len() && (forall|k: int| 4 <= k < j2 ==> line@[k] != 47)
                    && line@.subrange(j2, j2 + 9) == seg_include() {
                    if j2 < j as int {
                        assert(line@[j2] == line@.subrange(j2, j2 + 9)[0]);
                    } else if j2 > j as int {
                        assert(line@[j as int] != 47);
                    }
                }
            }
        }
        return false;
    }
    let inc: [u8; 9] = [47, 105, 110, 99, 108, 117, 100, 101, 47];
    proof {
        assert(inc@ =~= seg_include());
    }
    let matched = bytes_eq(&line[j..j + 9], inc.as_slice());
    proof {
        if matched {
            assert(4 < j as int && j as int + 9 <= line@.len() && (forall|k: int|
                4 <= k < j as int ==> line@[k] != 47) && line@.subrange(j as int, j as int + 9)
                == seg_include());
        } else {
            assert forall|j2: int| !(4 < j2 && j2 + 9 <= line@.len() && (forall|k: int|
                4 <= k < j2 ==> line@[k] != 47) && #[trigger] line@.subrange(j2, j2 + 9) == seg_include()) by {
                if 4 < j2 && j2 + 9 <= line@.len() && (forall|k: int| 4 <= k < j2 ==> line@[k] != 47)
                    && line@.subrange(j2, j2 + 9) == seg_include() {
                    if j2 < j as int {
                        assert(line@[j2] == line@.subrange(j2, j2 + 9)[0]);
                    } else if j2 > j as int {
                        assert(line@[j as int] != 47);
                    }
                }
            }
        }
    }
    matched
}

/// True when the importer drops this raw line before parsing it.
pub fn line_is_excluded(line: &[u8]) -> (r: bool)
    ensures
        r == is_excluded(line@),
{
    if line.len() > 0 && line[0] == 58 {
        return true;
    }
    let boot: [u8; 5] = [98, 111, 111, 116, 47];
    proof {
        assert(boot@ =~= pfx_boot());
    }
    if starts_with_bytes(line, boot.as_slice()) {
        return true;
    }
    let var: [u8; 4] = [118, 97, 114, 47];
    proof {
        assert(var@ =~= pfx_var());
    }
    if starts_with_bytes(line, var.as_slice()) {
        return true;
    }
    let usr_include: [u8; 12] = [117, 115, 114, 47, 105, 110, 99, 108, 117, 100, 101, 47];
    proof {
        assert(usr_include@ =~= pfx_usr_include());
    }
    if starts_with_bytes(line, usr_include.as_slice()) {
        return true;
    }
    let usr_src: [u8; 8] = [117, 115, 114, 47, 115, 114, 99, 47];
    proof {
        assert(usr_src@ =~= pfx_usr_src());
    }
    if starts_with_bytes(line, usr_src.as_slice()) {
        return true;
    }
    let share_doc: [u8; 14] = [117, 115, 114, 47, 115, 104, 97, 114, 101, 47, 100, 111, 99, 47];
    proof {
        assert(share_doc@ =~= pfx_share_doc());
    }
    if starts_with_bytes(line, share_doc.as_slice()) {
        return true;
    }
    let share_gocode: [u8; 17] = [
        117, 115, 114, 47, 115, 104, 97, 114, 101, 47, 103, 111, 99, 111, 100, 101, 47,
    ];
    proof {
        assert(share_gocode@ =~= pfx_share_gocode());
    }
    if starts_with_bytes(line, share_gocode.as_slice()) {
        return true;
    }
    let share_help: [u8; 15] = [
        117, 115, 114, 47, 115, 104, 97, 114, 101, 47, 104, 101, 108, 112, 47,
    ];
    proof {
        assert(share_help@ =~= pfx_share_help());
    }
    if starts_with_bytes(line, share_help.as_slice()) {
        return true;
    }
    let share_icons: [u8; 16] = [
        117, 115, 114, 47, 115, 104, 97, 114, 101, 47, 105, 99, 111, 110, 115, 47,
    ];
    proof {
        assert(share_icons@ =~= pfx_share_icons());
    }
    if starts_with_bytes(line, share_icons.as_slice()) {
        return true;
    }
    let share_locale: [u8; 17] = [
        117, 115, 114, 47, 115, 104, 97, 114, 101, 47, 108, 111, 99, 97, 108, 101, 47,
    ];
    proof {
        assert(share_locale@ =~= pfx_share_locale());
    }
    if starts_with_bytes(line, share_locale.as_slice()) {
        return true;
    }
    let share_man: [u8; 14] = [117, 115, 114, 47, 115, 104, 97, 114, 101, 47, 109, 97, 110, 47];
    proof {
        assert(share_man@ =~= pfx_share_man());
    }
    if starts_with_bytes(line, share_man.as_slice()) {
        return true;
    }
    let share_texlive: [u8; 18] = [
        117, 115, 114, 47, 115, 104, 97, 114, 101, 47, 116, 101, 120, 108, 105, 118, 101, 47,
    ];
    proof {
        assert(share_texlive@ =~= pfx_share_texlive());
    }
    if starts_with_bytes(line, share_texlive.as_slice()) {
        return true;
    }
    check_usr_subdir_include(line)
}

} // verus!
