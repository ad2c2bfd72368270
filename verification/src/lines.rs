//! Splitting decompressed text into lines: a line ends at each newline byte,
//! and a carriage return immediately before the newline is dropped with it.
//! A final fragment without a newline is a line of its own; empty input has
//! no lines.

use vstd::prelude::*;

use crate::bytes::{find_first, lemma_find_first_is, lemma_find_first_none, subrange_vec};

verus! {

/// `s` without one trailing carriage return, if it ends in one.
pub open spec fn strip_cr(s: Seq<u8>) -> Seq<u8> {
    if s.len() > 0 && s.last() == 13 {
        s.drop_last()
    } else {
        s
    }
}

/// The lines of `data`.
pub open spec fn spec_lines(data: Seq<u8>) -> Seq<Seq<u8>>
    decreases data.len(),
{
    if data.len() == 0 {
        Seq::empty()
    } else {
        let i = find_first(data, 10);
        if i < 0 || i >= data.len() {
            seq![data]
        } else {
            seq![strip_cr(data.take(i))] + spec_lines(data.skip(i + 1))
        }
    }
}

/// The views of a vector of byte vectors.
pub open spec fn views(v: Seq<Vec<u8>>) -> Seq<Seq<u8>> {
    v.map_values(|x: Vec<u8>| x@)
}

/// Splits `data` into its lines.
pub fn split_lines(data: &[u8]) -> (r: Vec<Vec<u8>>)
    ensures
        views(r@) == spec_lines(data@),
{
    let mut out: Vec<Vec<u8>> = Vec::new();
    let mut start: usize = 0;
    let mut i: usize = 0;
    proof {
        assert(data@.skip(0) =~= data@);
        assert(views(out@) + spec_lines(data@) =~= spec_lines(data@));
    }
    while i < data.len()
        invariant
            start <= i <= data@.len(),
            forall|j: int| start <= j < i ==> data@[j] != 10,
            spec_lines(data@) == views(out@) + spec_lines(data@.skip(start as int)),
        decreases data.len() - i,
    {
        if data[i] == 10 {
            let mut end = i;
            if end > start && data[end - 1] == 13 {
                end -= 1;
            }
            let line = subrange_vec(data, start, end);
            proof {
                let rest = data@.skip(start as int);
                assert forall|j: int| 0 <= j < i - start implies rest[j] != 10 by {
                    assert(rest[j] == data@[start + j]);
                }
                lemma_find_first_is(rest, 10, i - start as int);
                assert(rest.take(i - start as int) =~= data@.subrange(start as int, i as int));
                assert(strip_cr(data@.subrange(start as int, i as int)) =~= data@.subrange(
                    start as int,
                    end as int,
                ));
                assert(rest.skip(i - start as int + 1) =~= data@.skip(i + 1));
                assert(views(out@.push(line)) =~= views(out@).push(line@));
                assert(views(out@.push(line)) + spec_lines(data@.skip(i + 1)) =~= views(out@) + (
                seq![strip_cr(rest.take(i - start as int))] + spec_lines(
                    rest.skip(i - start as int + 1),
                )));
            }
            out.push(line);
            start = i + 1;
        }
        i += 1;
    }
    if start < data.len() {
        let line = subrange_vec(data, start, data.len());
        proof {
            let rest = data@.skip(start as int);
            assert forall|j: int| 0 <= j < rest.len() implies rest[j] != 10 by {
                assert(rest[j] == data@[start + j]);
            }
            lemma_find_first_none(rest, 10);
            assert(rest =~= data@.subrange(start as int, data@.len() as int));
            assert(spec_lines(data@.skip(start as int)) =~= seq![line@]);
            assert(views(out@.push(line)) =~= views(out@).push(line@));
            assert(views(out@) + seq![line@] =~= views(out@).push(line@));
        }
        out.push(line);
    } else {
        proof {
            assert(data@.skip(start as int) =~= Seq::<u8>::empty());
            assert(views(out@) + spec_lines(data@.skip(start as int)) =~= views(out@));
        }
    }
    out
}

} // verus!
