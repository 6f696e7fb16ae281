//! The logical lines of a byte stream.
//!
//! A stream is read as newline-delimited lines: a line ends at a newline
//! byte, a carriage return directly before the newline is stripped, a final
//! unterminated line is still a line, and a trailing newline opens no empty
//! final line.

use crate::split::{lemma_split_at, lemma_split_none, match_at, split_seq, subvec};
use vstd::prelude::*;

verus! {

/// `l` without one trailing carriage-return byte.
pub open spec fn chomp(l: Seq<u8>) -> Seq<u8> {
    if l.len() > 0 && l.last() == 13u8 {
        l.drop_last()
    } else {
        l
    }
}

/// Every segment chomped.
pub open spec fn chomp_all(s: Seq<Seq<u8>>) -> Seq<Seq<u8>> {
    s.map_values(|l: Seq<u8>| chomp(l))
}

/// The terminated lines of a byte stream: what precedes each newline,
/// chomped; an unterminated tail is left out.
pub open spec fn terminated_lines(b: Seq<u8>) -> Seq<Seq<u8>> {
    chomp_all(split_seq(b, seq![10u8]).drop_last())
}

/// The logical lines of a byte stream: its terminated lines, and a final
/// unterminated line when there is one.
pub open spec fn byte_lines(b: Seq<u8>) -> Seq<Seq<u8>> {
    let raw = split_seq(b, seq![10u8]);
    if raw.last().len() == 0 {
        terminated_lines(b)
    } else {
        terminated_lines(b) + seq![raw.last()]
    }
}

/// The terminated lines of `b`, together with where its unterminated tail
/// begins.
fn split_segments(b: &Vec<u8>) -> (r: (Vec<Vec<u8>>, usize))
    ensures
        r.0.deep_view() == terminated_lines(b@),
        r.1 <= b.len(),
        split_seq(b@, seq![10u8]).last() == b@.subrange(r.1 as int, b@.len() as int),
{
    let mut lines: Vec<Vec<u8>> = Vec::new();
    let ghost mut rawdone: Seq<Seq<u8>> = Seq::empty();
    let mut start: usize = 0;
    let mut i: usize = 0;
    proof {
        assert(b@.skip(0) =~= b@);
        assert(lines.deep_view() =~~= chomp_all(rawdone));
        assert(rawdone + split_seq(b@, seq![10u8]) =~= split_seq(b@, seq![10u8]));
    }
    while i < b.len()
        invariant
            start <= i <= b.len(),
            split_seq(b@, seq![10u8]) == rawdone + split_seq(b@.skip(start as int), seq![10u8]),
            lines.deep_view() == chomp_all(rawdone),
            forall|p: int| start <= p < i ==> b@[p] != 10u8,
        decreases b.len() - i,
    {
        if b[i] == 10u8 {
            let end = if i > start && b[i - 1] == 13u8 {
                i - 1
            } else {
                i
            };
            let ghost prev = lines.deep_view();
            lines.push(subvec(b, start, end));
            proof {
                let t = b@.skip(start as int);
                let seg = b@.subrange(start as int, i as int);
                assert(t.subrange(i - start, i - start + 1) =~= seq![b@[i as int]]);
                assert(match_at(t, seq![10u8], i - start));
                assert forall|p: int| 0 <= p < i - start implies !match_at(t, seq![10u8], p) by {
                    if match_at(t, seq![10u8], p) {
                        assert(t.subrange(p, p + 1) =~= seq![b@[start + p]]);
                        assert(t.subrange(p, p + 1)[0] == 10u8);
                    }
                }
                lemma_split_at(t, seq![10u8], i - start);
                assert(t.take(i - start) =~= seg);
                assert(t.skip(i - start + 1) =~= b@.skip(i + 1));
                if i > start && b@[i - 1] == 13u8 {
                    assert(seg.len() > 0 && seg.last() == 13u8);
                    assert(chomp(seg) =~= b@.subrange(start as int, i - 1));
                } else {
                    assert(chomp(seg) =~= b@.subrange(start as int, i as int));
                }
                assert(b@.subrange(start as int, end as int) == chomp(seg));
                assert(lines.deep_view() =~~= prev + seq![chomp(seg)]);
                rawdone = rawdone + seq![seg];
                assert(chomp_all(rawdone) =~~= prev + seq![chomp(seg)]);
                assert(split_seq(b@, seq![10u8]) == rawdone + split_seq(
                    b@.skip(i + 1),
                    seq![10u8],
                ));
            }
            i = i + 1;
            start = i;
        } else {
            i = i + 1;
        }
    }
    let ghost t = b@.skip(start as int);
    proof {
        assert forall|p: int| !match_at(t, seq![10u8], p) by {
            if match_at(t, seq![10u8], p) {
                assert(t.subrange(p, p + 1) =~= seq![b@[start + p]]);
                assert(t.subrange(p, p + 1)[0] == 10u8);
            }
        }
        lemma_split_none(t, seq![10u8]);
        assert((rawdone + seq![t]).drop_last() =~= rawdone);
        assert((rawdone + seq![t]).last() == t);
        assert(t =~= b@.subrange(start as int, b@.len() as int));
    }
    (lines, start)
}

/// Split a byte stream into its logical lines.
pub fn split_lines(b: &Vec<u8>) -> (r: Vec<Vec<u8>>)
    ensures
        r.deep_view() == byte_lines(b@),
{
    let seg = split_segments(b);
    let mut lines = seg.0;
    let start = seg.1;
    let ghost raw = split_seq(b@, seq![10u8]);
    if start < b.len() {
        let ghost prev = lines.deep_view();
        lines.push(subvec(b, start, b.len()));
        proof {
            assert(raw.last().len() > 0);
            assert(lines.deep_view() =~~= prev + seq![raw.last()]);
            assert(lines.deep_view() =~~= byte_lines(b@));
        }
    } else {
        proof {
            assert(raw.last().len() == 0);
            assert(lines.deep_view() =~~= byte_lines(b@));
        }
    }
    lines
}

/// Split a byte stream into its terminated lines alone: when the stream
/// broke off mid-line, an unterminated tail may be incomplete, so it is not
/// scanned.
pub fn split_terminated(b: &Vec<u8>) -> (r: Vec<Vec<u8>>)
    ensures
        r.deep_view() == terminated_lines(b@),
{
    split_segments(b).0
}

} // verus!
