//! The line matcher: split a line, extract one column, match, emit.
//!
//! A stream is matched line by line: each line is split on the delimiter,
//! the target column is extracted, and the whole, unmodified line is emitted
//! when that column matches the predicate.  A column index beyond a line's
//! fields is fatal to the whole run; what was emitted before it stays.

use crate::errors::ScanError;
use crate::predicate::{pred_matches, pred_ropt, pred_vals, value_matches, Predicate};
use crate::split::{fields_of, split_on};
use crate::text::chars_of;
use vstd::prelude::*;

verus! {

/// What a scan produced: the emitted lines in order, and the error that
/// stopped the run, if one did.  Lines emitted before an error remain.
pub struct ScanOutcome {
    /// The emitted lines, in input order, without their line terminators.
    pub lines: Vec<String>,
    /// What stopped the run early, if anything did.
    pub error: Option<ScanError>,
}

/// What scanning a sequence of text lines emits, and the error that stops
/// the scan, if one does: lines are processed in order; a line whose fields
/// do not reach the target column stops the scan at once; otherwise the
/// line is emitted exactly when its target column matches.
pub open spec fn scan_spec(
    lines: Seq<Seq<char>>,
    delim: Seq<char>,
    col: int,
    ropt: Option<Seq<char>>,
    vals: Seq<Seq<char>>,
) -> (Seq<Seq<char>>, Option<ScanError>)
    decreases lines.len(),
{
    if lines.len() == 0 {
        (Seq::empty(), None)
    } else {
        let fs = fields_of(lines[0], delim);
        if col >= fs.len() {
            (Seq::empty(), Some(ScanError::ColumnOutOfRange))
        } else {
            let rest = scan_spec(lines.drop_first(), delim, col, ropt, vals);
            if value_matches(ropt, vals, fs[col]) {
                (seq![lines[0]] + rest.0, rest.1)
            } else {
                rest
            }
        }
    }
}

/// Whether one line's target column matches, when it has one.
pub open spec fn line_pred(
    delim: Seq<char>,
    col: int,
    ropt: Option<Seq<char>>,
    vals: Seq<Seq<char>>,
) -> spec_fn(Seq<char>) -> bool {
    |l: Seq<char>| value_matches(ropt, vals, fields_of(l, delim)[col])
}

/// Whether one line's target column matches the predicate, or an error when
/// the line's fields do not reach the column.
pub fn match_line(line: &Vec<char>, delim: &Vec<char>, column: usize, pred: &Predicate) -> (r:
    Result<bool, ScanError>)
    ensures
        ({
            let fs = fields_of(line@, delim@);
            if (column as int) < fs.len() {
                r == Ok::<bool, ScanError>(pred_matches(pred, fs[column as int]))
            } else {
                r == Err::<bool, ScanError>(ScanError::ColumnOutOfRange)
            }
        }),
{
    let fields = split_on(line, delim);
    if column < fields.len() {
        proof {
            assert(fields.deep_view()[column as int] == fields@[column as int]@);
        }
        Ok(pred.matches(&fields[column]))
    } else {
        Err(ScanError::ColumnOutOfRange)
    }
}

/// Scan a sequence of text lines: emit, in order, each line whose target
/// column matches the predicate; stop at the first line whose fields do not
/// reach the column.
pub fn scan_lines(lines: &Vec<String>, delimiter: &str, column: usize, pred: &Predicate) -> (out:
    ScanOutcome)
    ensures
        ({
            let r = scan_spec(
                lines.deep_view(),
                delimiter@,
                column as int,
                pred_ropt(pred),
                pred_vals(pred),
            );
            out.lines.deep_view() == r.0 && out.error == r.1
        }),
{
    let d = chars_of(delimiter);
    let mut emitted: Vec<String> = Vec::new();
    let ghost lv = lines.deep_view();
    let ghost ropt = pred_ropt(pred);
    let ghost vals = pred_vals(pred);
    let ghost col = column as int;
    let mut i: usize = 0;
    proof {
        assert(lv.skip(0) =~= lv);
        assert(emitted.deep_view() =~~= Seq::<Seq<char>>::empty());
        assert(emitted.deep_view() + scan_spec(lv, d@, col, ropt, vals).0 =~= scan_spec(
            lv,
            d@,
            col,
            ropt,
            vals,
        ).0);
    }
    while i < lines.len()
        invariant
            0 <= i <= lines.len(),
            lv == lines.deep_view(),
            lv.len() == lines.len(),
            d@ == delimiter@,
            ropt == pred_ropt(pred),
            vals == pred_vals(pred),
            col == column as int,
            scan_spec(lv, d@, col, ropt, vals).0 == emitted.deep_view() + scan_spec(
                lv.skip(i as int),
                d@,
                col,
                ropt,
                vals,
            ).0,
            scan_spec(lv, d@, col, ropt, vals).1 == scan_spec(
                lv.skip(i as int),
                d@,
                col,
                ropt,
                vals,
            ).1,
        decreases lines.len() - i,
    {
        let lc = chars_of(lines[i].as_str());
        proof {
            assert(lv[i as int] == lines@[i as int]@);
            assert(lc@ == lv[i as int]);
            assert(lv.skip(i as int)[0] == lv[i as int]);
            assert(lv.skip(i as int).drop_first() =~~= lv.skip(i + 1));
        }
        match match_line(&lc, &d, column, pred) {
            Ok(true) => {
                let ghost prev = emitted.deep_view();
                emitted.push(lines[i].clone());
                proof {
                    assert(emitted.deep_view() =~~= prev + seq![lv[i as int]]);
                }
            },
            Ok(false) => {
            },
            Err(e) => {
                proof {
                    assert(scan_spec(lv.skip(i as int), d@, col, ropt, vals).0
                        =~= Seq::<Seq<char>>::empty());
                    assert(emitted.deep_view() + Seq::<Seq<char>>::empty() =~= emitted.deep_view());
                }
                return ScanOutcome { lines: emitted, error: Some(e) };
            },
        }
        i = i + 1;
    }
    proof {
        assert(lv.skip(i as int).len() == 0);
        assert(scan_spec(lv.skip(i as int), d@, col, ropt, vals).0 =~= Seq::<Seq<char>>::empty());
        assert(emitted.deep_view() + Seq::<Seq<char>>::empty() =~= emitted.deep_view());
    }
    ScanOutcome { lines: emitted, error: None }
}

/// For input where every line's fields reach the target column, no error
/// arises, and the emitted lines are exactly the input lines whose target
/// column matches the predicate — in original order, with original content.
pub proof fn lemma_scan_is_filter(
    lines: Seq<Seq<char>>,
    delim: Seq<char>,
    col: int,
    ropt: Option<Seq<char>>,
    vals: Seq<Seq<char>>,
)
    requires
        forall|i: int| 0 <= i < lines.len() ==> col < fields_of(#[trigger] lines[i], delim).len(),
    ensures
        scan_spec(lines, delim, col, ropt, vals).1 is None,
        scan_spec(lines, delim, col, ropt, vals).0 == lines.filter(
            line_pred(delim, col, ropt, vals),
        ),
    decreases lines.len(),
{
    let p = line_pred(delim, col, ropt, vals);
    if lines.len() == 0 {
        assert(lines.filter(p) =~= Seq::<Seq<char>>::empty());
    } else {
        let rest = lines.drop_first();
        assert(col < fields_of(lines[0], delim).len());
        assert forall|i: int| 0 <= i < rest.len() implies col < fields_of(
            #[trigger] rest[i],
            delim,
        ).len() by {
            assert(rest[i] == lines[i + 1]);
        }
        lemma_scan_is_filter(rest, delim, col, ropt, vals);
        assert(lines =~= seq![lines[0]] + rest);
        rest.lemma_filter_prepend(lines[0], p);
        assert(p(lines[0]) == value_matches(ropt, vals, fields_of(lines[0], delim)[col]));
        if value_matches(ropt, vals, fields_of(lines[0], delim)[col]) {
            assert(scan_spec(lines, delim, col, ropt, vals).0 =~= seq![lines[0]] + rest.filter(p));
        } else {
            assert(scan_spec(lines, delim, col, ropt, vals).0 =~= rest.filter(p));
        }
    }
}

} // verus!
