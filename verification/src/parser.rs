//! The entry parser: splits one accepted index line into a filesystem path
//! and the primary package name.
//!
//! A line reads `<path><tabs-or-spaces><section>/<package>[,<alternative>...]`.
//! The split point is the last tab-or-space on the line; the path keeps no
//! trailing whitespace; of the second column only the first comma-delimited
//! field counts, and of that field only the text after its last slash (the
//! part before it is a section name).
//!
//! The parser works on bytes, and trimming removes ASCII whitespace only:
//! the field separators are single ASCII bytes, and no byte of a multi-byte
//! encoded character can look like one, so a path ending in an encoded
//! non-ASCII whitespace character keeps it.

use vstd::prelude::*;

use crate::bytes::{
    find_first, find_last, find_last_sep, trim_trailing_ws, is_ws, find_first_byte, find_last_byte,
    find_last_sep_byte, subrange_vec, lemma_trim_trailing_ws_is, is_ws_byte,
};

verus! {

/// The path and package name encoded by a line, or `None` when the line is
/// malformed (it holds no tab-or-space separator).
pub open spec fn parse_entry(line: Seq<u8>) -> Option<(Seq<u8>, Seq<u8>)> {
    let i = find_last_sep(line);
    if i < 0 {
        None
    } else {
        let path = trim_trailing_ws(line.subrange(0, i));
        let rest = line.subrange(i + 1, line.len() as int);
        let c = find_first(rest, 44);
        let field = if c < 0 {
            rest
        } else {
            rest.subrange(0, c)
        };
        let k = find_last(field, 47);
        let package = if k < 0 {
            field
        } else {
            field.subrange(k + 1, field.len() as int)
        };
        Some((path, package))
    }
}

/// Splits `line` into its path (trailing whitespace removed) and its primary
/// package name; `None` when no tab-or-space separator exists.
pub fn parse_entry_line(line: &[u8]) -> (r: Option<(Vec<u8>, Vec<u8>)>)
    ensures
        r is Some <==> parse_entry(line@) is Some,
        r matches Some(pair) ==> parse_entry(line@) == Some((pair.0@, pair.1@)),
{
    let i = match find_last_sep_byte(line) {
        None => {
            return None;
        },
        Some(i) => i,
    };
    // Path: everything before the separator, with trailing whitespace removed.
    let mut end: usize = i;
    while end > 0 && is_ws_byte(line[end - 1])
        invariant
            end <= i < line@.len(),
            forall|j: int| end <= j < i ==> is_ws(line@.subrange(0, i as int)[j]),
        decreases end,
    {
        end -= 1;
    }
    proof {
        lemma_trim_trailing_ws_is(line@.subrange(0, i as int), end as int);
    }
    let path = subrange_vec(line, 0, end);
    proof {
        assert(line@.subrange(0, end as int) =~= line@.subrange(0, i as int).subrange(
            0,
            end as int,
        ));
    }
    // Second column: everything after the separator.
    let rest = subrange_vec(line, i + 1, line.len());
    // Keep only the first comma-delimited field.
    let field_end = match find_first_byte(rest.as_slice(), 44) {
        None => rest.len(),
        Some(c) => c,
    };
    // The package name follows the last slash of the field, if there is one.
    let field = subrange_vec(rest.as_slice(), 0, field_end);
    let pkg_start = match find_last_byte(field.as_slice(), 47) {
        None => 0,
        Some(k) => k + 1,
    };
    let package = subrange_vec(field.as_slice(), pkg_start, field.len());
    proof {
        let spec_rest = line@.subrange(i as int + 1, line@.len() as int);
        let c = find_first(spec_rest, 44);
        let spec_field = if c < 0 {
            spec_rest
        } else {
            spec_rest.subrange(0, c)
        };
        assert(field@ =~= spec_field);
        let k = find_last(spec_field, 47);
        let spec_package = if k < 0 {
            spec_field
        } else {
            spec_field.subrange(k + 1, spec_field.len() as int)
        };
        assert(package@ =~= spec_package);
    }
    Some((path, package))
}

} // verus!
