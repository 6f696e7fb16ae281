//! Scanning byte streams and walking archive members.
//!
//! A decoded byte stream is read as logical lines, each decoded as UTF-8
//! text and matched; a tar archive is walked member by member, in stored
//! order, scanning exactly the selected members.

use crate::archive::{member_selected, member_wanted, TarMember};
use crate::errors::ScanError;
use crate::lines::{byte_lines, split_lines};
use crate::matcher::{match_line, ScanOutcome};
use crate::predicate::{pred_ropt, pred_vals, value_matches, Predicate};
use crate::split::fields_of;
use crate::text::{chars_of, utf8_line, utf8_of};
use vstd::prelude::*;

verus! {

/// What scanning a sequence of byte lines emits, and the error that stops
/// the scan, if one does: lines are processed in order; a line that is not
/// valid UTF-8 text, or whose fields do not reach the target column, stops
/// the scan at once; otherwise the decoded line is emitted exactly when its
/// target column matches.
pub open spec fn scan_bytes_spec(
    bls: Seq<Seq<u8>>,
    delim: Seq<char>,
    col: int,
    ropt: Option<Seq<char>>,
    vals: Seq<Seq<char>>,
) -> (Seq<Seq<char>>, Option<ScanError>)
    decreases bls.len(),
{
    if bls.len() == 0 {
        (Seq::empty(), None)
    } else {
        match utf8_of(bls[0]) {
            None => (Seq::empty(), Some(ScanError::Encoding)),
            Some(line) => {
                let fs = fields_of(line, delim);
                if col >= fs.len() {
                    (Seq::empty(), Some(ScanError::ColumnOutOfRange))
                } else {
                    let rest = scan_bytes_spec(bls.drop_first(), delim, col, ropt, vals);
                    if value_matches(ropt, vals, fs[col]) {
                        (seq![line] + rest.0, rest.1)
                    } else {
                        rest
                    }
                }
            },
        }
    }
}

/// Scan a sequence of byte lines, line by line.
pub fn scan_byte_lines(bls: &Vec<Vec<u8>>, d: &Vec<char>, column: usize, pred: &Predicate) -> (out:
    ScanOutcome)
    ensures
        ({
            let r = scan_bytes_spec(
                bls.deep_view(),
                d@,
                column as int,
                pred_ropt(pred),
                pred_vals(pred),
            );
            out.lines.deep_view() == r.0 && out.error == r.1
        }),
{
    let ghost bv = bls.deep_view();
    let ghost ropt = pred_ropt(pred);
    let ghost vals = pred_vals(pred);
    let ghost col = column as int;
    let mut emitted: Vec<String> = Vec::new();
    let mut i: usize = 0;
    proof {
        assert(bv.skip(0) =~= bv);
        assert(emitted.deep_view() =~~= Seq::<Seq<char>>::empty());
        assert(emitted.deep_view() + scan_bytes_spec(bv, d@, col, ropt, vals).0 =~= scan_bytes_spec(
            bv,
            d@,
            col,
            ropt,
            vals,
        ).0);
    }
    while i < bls.len()
        invariant
            0 <= i <= bls.len(),
            bv == bls.deep_view(),
            bv.len() == bls.len(),
            ropt == pred_ropt(pred),
            vals == pred_vals(pred),
            col == column as int,
            scan_bytes_spec(bv, d@, col, ropt, vals).0 == emitted.deep_view() + scan_bytes_spec(
                bv.skip(i as int),
                d@,
                col,
                ropt,
                vals,
            ).0,
            scan_bytes_spec(bv, d@, col, ropt, vals).1 == scan_bytes_spec(
                bv.skip(i as int),
                d@,
                col,
                ropt,
                vals,
            ).1,
        decreases bls.len() - i,
    {
        proof {
            assert(bls.deep_view()[i as int] == bls@[i as int]@);
            assert(bv.skip(i as int)[0] == bv[i as int]);
            assert(bv.skip(i as int).drop_first() =~~= bv.skip(i + 1));
        }
        let line = match utf8_line(&bls[i]) {
            Ok(s) => s,
            Err(e) => {
                proof {
                    assert(utf8_of(bv.skip(i as int)[0]) is None);
                    assert(scan_bytes_spec(bv.skip(i as int), d@, col, ropt, vals).1 == Some(
                        ScanError::Encoding,
                    ));
                    assert(scan_bytes_spec(bv.skip(i as int), d@, col, ropt, vals).0
                        =~= Seq::<Seq<char>>::empty());
                    assert(emitted.deep_view() + Seq::<Seq<char>>::empty() =~= emitted.deep_view());
                }
                return ScanOutcome { lines: emitted, error: Some(e) };
            },
        };
        proof {
            assert(utf8_of(bv.skip(i as int)[0]) == Some(line@));
        }
        let lc = chars_of(line.as_str());
        match match_line(&lc, d, column, pred) {
            Ok(true) => {
                let ghost prev = emitted.deep_view();
                emitted.push(line);
                proof {
                    assert(emitted.deep_view() =~~= prev + seq![lc@]);
                }
            },
            Ok(false) => {
            },
            Err(e) => {
                proof {
                    assert((column as int) >= fields_of(lc@, d@).len());
                    assert(scan_bytes_spec(bv.skip(i as int), d@, col, ropt, vals).1 == Some(
                        ScanError::ColumnOutOfRange,
                    ));
                    assert(scan_bytes_spec(bv.skip(i as int), d@, col, ropt, vals).0
                        =~= Seq::<Seq<char>>::empty());
                    assert(emitted.deep_view() + Seq::<Seq<char>>::empty() =~= emitted.deep_view());
                }
                return ScanOutcome { lines: emitted, error: Some(e) };
            },
        }
        i = i + 1;
    }
    proof {
        assert(bv.skip(i as int).len() == 0);
        assert(scan_bytes_spec(bv.skip(i as int), d@, col, ropt, vals).0
            =~= Seq::<Seq<char>>::empty());
        assert(emitted.deep_view() + Seq::<Seq<char>>::empty() =~= emitted.deep_view());
    }
    ScanOutcome { lines: emitted, error: None }
}

/// What walking a sequence of archive members emits, and the error that
/// stops the walk, if one does: members are visited in stored order, only
/// selected members are scanned, and the first error inside a member stops
/// the whole walk — lines emitted before it stay.
pub open spec fn walk_spec(
    members: Seq<(Option<Seq<char>>, Seq<u8>)>,
    filters: Seq<Seq<char>>,
    delim: Seq<char>,
    col: int,
    ropt: Option<Seq<char>>,
    vals: Seq<Seq<char>>,
) -> (Seq<Seq<char>>, Option<ScanError>)
    decreases members.len(),
{
    if members.len() == 0 {
        (Seq::empty(), None)
    } else {
        let rest = walk_spec(members.drop_first(), filters, delim, col, ropt, vals);
        if member_selected(members[0].0, filters) {
            let m = scan_bytes_spec(byte_lines(members[0].1), delim, col, ropt, vals);
            if m.1 is Some {
                m
            } else {
                (m.0 + rest.0, rest.1)
            }
        } else {
            rest
        }
    }
}

/// Walk the members of a tar archive, scanning each selected member.
pub fn walk_members(
    members: &Vec<TarMember>,
    filters: &Vec<String>,
    d: &Vec<char>,
    column: usize,
    pred: &Predicate,
) -> (out: ScanOutcome)
    ensures
        ({
            let r = walk_spec(
                members.deep_view(),
                filters.deep_view(),
                d@,
                column as int,
                pred_ropt(pred),
                pred_vals(pred),
            );
            out.lines.deep_view() == r.0 && out.error == r.1
        }),
{
    let ghost mv = members.deep_view();
    let ghost fv = filters.deep_view();
    let ghost ropt = pred_ropt(pred);
    let ghost vals = pred_vals(pred);
    let ghost col = column as int;
    let mut emitted: Vec<String> = Vec::new();
    let mut i: usize = 0;
    proof {
        assert(mv.skip(0) =~= mv);
        assert(emitted.deep_view() =~~= Seq::<Seq<char>>::empty());
        assert(emitted.deep_view() + walk_spec(mv, fv, d@, col, ropt, vals).0 =~= walk_spec(
            mv,
            fv,
            d@,
            col,
            ropt,
            vals,
        ).0);
    }
    while i < members.len()
        invariant
            0 <= i <= members.len(),
            mv == members.deep_view(),
            mv.len() == members.len(),
            fv == filters.deep_view(),
            ropt == pred_ropt(pred),
            vals == pred_vals(pred),
            col == column as int,
            walk_spec(mv, fv, d@, col, ropt, vals).0 == emitted.deep_view() + walk_spec(
                mv.skip(i as int),
                fv,
                d@,
                col,
                ropt,
                vals,
            ).0,
            walk_spec(mv, fv, d@, col, ropt, vals).1 == walk_spec(
                mv.skip(i as int),
                fv,
                d@,
                col,
                ropt,
                vals,
            ).1,
        decreases members.len() - i,
    {
        proof {
            assert(members.deep_view()[i as int] == members@[i as int]@);
            assert(mv.skip(i as int)[0] == mv[i as int]);
            assert(mv.skip(i as int).drop_first() =~~= mv.skip(i + 1));
        }
        let m = &members[i];
        if member_wanted(&m.name, filters) {
            let mls = split_lines(&m.data);
            let mut sub = scan_byte_lines(&mls, d, column, pred);
            let ghost prev = emitted.deep_view();
            let ghost subv = sub.lines.deep_view();
            emitted.append(&mut sub.lines);
            proof {
                assert(emitted.deep_view() =~~= prev + subv);
            }
            match sub.error {
                Some(e) => {
                    return ScanOutcome { lines: emitted, error: Some(e) };
                },
                None => {
                },
            }
        }
        i = i + 1;
    }
    proof {
        assert(mv.skip(i as int).len() == 0);
        assert(walk_spec(mv.skip(i as int), fv, d@, col, ropt, vals).0
            =~= Seq::<Seq<char>>::empty());
        assert(emitted.deep_view() + Seq::<Seq<char>>::empty() =~= emitted.deep_view());
    }
    ScanOutcome { lines: emitted, error: None }
}

} // verus!
