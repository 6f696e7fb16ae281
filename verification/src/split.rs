//! Splitting a sequence on a literal delimiter.
//!
//! A line is split on the exact delimiter string — a literal, leftmost,
//! non-overlapping substring split, where consecutive delimiters produce
//! empty fields.  The same machinery splits byte streams on the newline byte
//! and file names on `.` and `/`.

use vstd::prelude::*;

verus! {

/// `d` occurs in `s` at position `i`.
pub open spec fn match_at<T>(s: Seq<T>, d: Seq<T>, i: int) -> bool {
    0 <= i && i + d.len() <= s.len() && s.subrange(i, i + d.len() as int) == d
}

/// The fields that splitting `s` on the non-empty delimiter `d` produces:
/// the leftmost occurrence of `d` ends the first field, and the rest of the
/// sequence is split in the same way.  A sequence without an occurrence is a
/// single field, so the result is never empty.
pub open spec fn split_seq<T>(s: Seq<T>, d: Seq<T>) -> Seq<Seq<T>>
    decreases s.len(),
{
    if d.len() == 0 || s.len() == 0 {
        seq![s]
    } else if d.len() <= s.len() && s.take(d.len() as int) == d {
        seq![Seq::<T>::empty()] + split_seq(s.skip(d.len() as int), d)
    } else {
        let r = split_seq(s.skip(1), d);
        seq![seq![s[0]] + r[0]] + r.skip(1)
    }
}

/// A split has at least one field.
pub proof fn lemma_split_len<T>(s: Seq<T>, d: Seq<T>)
    ensures
        split_seq(s, d).len() >= 1,
    decreases s.len(),
{
    if d.len() == 0 || s.len() == 0 {
    } else if d.len() <= s.len() && s.take(d.len() as int) == d {
        lemma_split_len(s.skip(d.len() as int), d);
    } else {
        lemma_split_len(s.skip(1), d);
    }
}

/// If `d` occurs nowhere in `s`, the split is the single field `s`.
pub proof fn lemma_split_none<T>(s: Seq<T>, d: Seq<T>)
    requires
        d.len() > 0,
        forall|p: int| !match_at(s, d, p),
    ensures
        split_seq(s, d) == seq![s],
    decreases s.len(),
{
    if s.len() == 0 {
    } else if d.len() <= s.len() && s.take(d.len() as int) == d {
        assert(s.subrange(0, d.len() as int) =~= s.take(d.len() as int));
        assert(match_at(s, d, 0));
    } else {
        assert forall|p: int| !match_at(s.skip(1), d, p) by {
            if match_at(s.skip(1), d, p) {
                assert(s.skip(1).subrange(p, p + d.len() as int) =~= s.subrange(
                    p + 1,
                    p + 1 + d.len(),
                ));
                assert(match_at(s, d, p + 1));
            }
        }
        lemma_split_none(s.skip(1), d);
        let r = split_seq(s.skip(1), d);
        assert(r == seq![s.skip(1)]);
        assert(seq![s[0]] + s.skip(1) =~= s);
        assert(r.skip(1) =~= Seq::<Seq<T>>::empty());
        assert(split_seq(s, d) =~= seq![s]);
    }
}

/// If the leftmost occurrence of `d` in `s` is at `j`, the first field is
/// what precedes it, and the rest of the split is the split of what follows
/// it.
pub proof fn lemma_split_at<T>(s: Seq<T>, d: Seq<T>, j: int)
    requires
        d.len() > 0,
        match_at(s, d, j),
        forall|p: int| 0 <= p < j ==> !match_at(s, d, p),
    ensures
        split_seq(s, d) == seq![s.take(j)] + split_seq(s.skip(j + d.len() as int), d),
    decreases j,
{
    if j == 0 {
        assert(s.take(d.len() as int) =~= s.subrange(0, d.len() as int));
        assert(s.take(0) =~= Seq::<T>::empty());
        assert(split_seq(s, d) =~= seq![s.take(0)] + split_seq(s.skip(d.len() as int), d));
    } else {
        assert(!match_at(s, d, 0));
        if d.len() <= s.len() && s.take(d.len() as int) == d {
            assert(s.subrange(0, d.len() as int) =~= s.take(d.len() as int));
            assert(false);
        }
        assert(match_at(s.skip(1), d, j - 1)) by {
            assert(s.skip(1).subrange(j - 1, j - 1 + d.len() as int) =~= s.subrange(
                j,
                j + d.len(),
            ));
        }
        assert forall|p: int| 0 <= p < j - 1 implies !match_at(s.skip(1), d, p) by {
            if match_at(s.skip(1), d, p) {
                assert(s.skip(1).subrange(p, p + d.len() as int) =~= s.subrange(
                    p + 1,
                    p + 1 + d.len(),
                ));
                assert(match_at(s, d, p + 1));
            }
        }
        lemma_split_at(s.skip(1), d, j - 1);
        let r = split_seq(s.skip(1), d);
        assert(s.skip(1).take(j - 1) =~= s.subrange(1, j));
        assert(s.skip(1).skip(j - 1 + d.len() as int) =~= s.skip(j + d.len() as int));
        assert(r[0] == s.subrange(1, j));
        assert(seq![s[0]] + s.subrange(1, j) =~= s.take(j));
        assert(r.skip(1) =~= split_seq(s.skip(j + d.len() as int), d));
        assert(split_seq(s, d) =~= seq![s.take(j)] + split_seq(s.skip(j + d.len() as int), d));
    }
}

/// The fields of an empty-delimiter split: an empty field, one field per
/// element, and a final empty field.
pub open spec fn split_empty<T>(s: Seq<T>) -> Seq<Seq<T>> {
    seq![Seq::<T>::empty()] + Seq::new(s.len(), |i: int| seq![s[i]]) + seq![Seq::<T>::empty()]
}

/// The fields of splitting `s` on the delimiter `d`, for any `d`.
pub open spec fn fields_of(s: Seq<char>, d: Seq<char>) -> Seq<Seq<char>> {
    if d.len() == 0 {
        split_empty(s)
    } else {
        split_seq(s, d)
    }
}

/// The copy of `s[from..to]`.
pub fn subvec<T: Copy>(s: &Vec<T>, from: usize, to: usize) -> (r: Vec<T>)
    requires
        from <= to <= s.len(),
    ensures
        r@ == s@.subrange(from as int, to as int),
{
    let mut r: Vec<T> = Vec::new();
    let mut k: usize = from;
    while k < to
        invariant
            from <= k <= to <= s.len(),
            r@ == s@.subrange(from as int, k as int),
        decreases to - k,
    {
        r.push(s[k]);
        k = k + 1;
        proof {
            assert(r@ =~= s@.subrange(from as int, k as int));
        }
    }
    r
}

/// Two character vectors hold the same characters.
pub fn chars_eq(a: &Vec<char>, b: &Vec<char>) -> (r: bool)
    ensures
        r == (a@ == b@),
{
    if a.len() != b.len() {
        assert(a@ != b@);
        return false;
    }
    let mut k: usize = 0;
    while k < a.len()
        invariant
            a.len() == b.len(),
            0 <= k <= a.len(),
            forall|m: int| 0 <= m < k ==> a@[m] == b@[m],
        decreases a.len() - k,
    {
        if a[k] != b[k] {
            return false;
        }
        k = k + 1;
    }
    proof {
        assert(a@ =~= b@);
    }
    true
}

/// `d` occurs in `s` at position `i`.
fn eq_at(s: &Vec<char>, d: &Vec<char>, i: usize) -> (r: bool)
    requires
        i + d.len() <= s.len(),
    ensures
        r == match_at(s@, d@, i as int),
{
    let mut k: usize = 0;
    while k < d.len()
        invariant
            i + d.len() <= s.len(),
            0 <= k <= d.len(),
            forall|m: int| 0 <= m < k ==> s@[i + m] == d@[m],
        decreases d.len() - k,
    {
        if s[i + k] != d[k] {
            assert(s@.subrange(i as int, i + d@.len()) != d@) by {
                if s@.subrange(i as int, i + d@.len()) == d@ {
                    assert(s@.subrange(i as int, i + d@.len())[k as int] == d@[k as int]);
                }
            }
            return false;
        }
        k = k + 1;
    }
    proof {
        assert(s@.subrange(i as int, i + d@.len()) =~= d@);
    }
    true
}

/// Split `s` on the non-empty delimiter `d`.
fn split_chars(s: &Vec<char>, d: &Vec<char>) -> (r: Vec<Vec<char>>)
    requires
        d.len() > 0,
    ensures
        r.deep_view() == split_seq(s@, d@),
{
    let mut fields: Vec<Vec<char>> = Vec::new();
    let mut start: usize = 0;
    let mut i: usize = 0;
    proof {
        assert(s@.skip(0) =~= s@);
        assert(fields.deep_view() =~~= Seq::<Seq<char>>::empty());
    }
    while i <= s.len() && s.len() - i >= d.len()
        invariant
            d.len() > 0,
            start <= i <= s.len(),
            split_seq(s@, d@) == fields.deep_view() + split_seq(s@.skip(start as int), d@),
            forall|p: int| start <= p < i ==> !match_at(s@, d@, p),
        decreases s.len() - i,
    {
        if eq_at(s, d, i) {
            let ghost prev = fields.deep_view();
            fields.push(subvec(s, start, i));
            proof {
                let t = s@.skip(start as int);
                assert(t.subrange(i - start, i - start + d@.len()) =~= s@.subrange(
                    i as int,
                    i + d@.len(),
                ));
                assert(match_at(t, d@, i - start));
                assert forall|p: int| 0 <= p < i - start implies !match_at(t, d@, p) by {
                    if match_at(t, d@, p) {
                        assert(t.subrange(p, p + d@.len()) =~= s@.subrange(
                            start + p,
                            start + p + d@.len(),
                        ));
                        assert(match_at(s@, d@, start + p));
                    }
                }
                lemma_split_at(t, d@, i - start);
                assert(t.take(i - start) =~= s@.subrange(start as int, i as int));
                assert(t.skip(i - start + d@.len()) =~= s@.skip(i + d@.len()));
                assert(fields.deep_view() =~~= prev + seq![s@.subrange(start as int, i as int)]);
                assert(split_seq(s@, d@) == fields.deep_view() + split_seq(
                    s@.skip(i + d@.len()),
                    d@,
                ));
            }
            i = i + d.len();
            start = i;
        } else {
            i = i + 1;
        }
    }
    proof {
        let t = s@.skip(start as int);
        assert forall|p: int| !match_at(t, d@, p) by {
            if match_at(t, d@, p) {
                assert(t.subrange(p, p + d@.len()) =~= s@.subrange(
                    start + p,
                    start + p + d@.len(),
                ));
                assert(match_at(s@, d@, start + p));
                assert(start + p < i);
            }
        }
        lemma_split_none(t, d@);
    }
    let ghost prev = fields.deep_view();
    fields.push(subvec(s, start, s.len()));
    proof {
        assert(s@.skip(start as int) =~= s@.subrange(start as int, s@.len() as int));
        assert(fields.deep_view() =~~= prev + seq![s@.skip(start as int)]);
        assert(fields.deep_view() =~~= split_seq(s@, d@));
    }
    fields
}

/// Split `s` on the delimiter `d`, as the delimiter-split of the line
/// matcher: a literal substring split where consecutive delimiters produce
/// empty fields, and an empty delimiter separates every character.
pub fn split_on(s: &Vec<char>, d: &Vec<char>) -> (r: Vec<Vec<char>>)
    ensures
        r.deep_view() == fields_of(s@, d@),
        r.len() >= 1,
{
    proof {
        lemma_split_len(s@, d@);
    }
    if d.len() == 0 {
        let mut fields: Vec<Vec<char>> = Vec::new();
        fields.push(Vec::new());
        proof {
            assert(fields.deep_view() =~~= seq![Seq::<char>::empty()] + Seq::new(
                0,
                |k: int| seq![s@[k]],
            ));
        }
        let mut i: usize = 0;
        while i < s.len()
            invariant
                0 <= i <= s.len(),
                fields.deep_view() == seq![Seq::<char>::empty()] + Seq::new(
                    i as nat,
                    |k: int| seq![s@[k]],
                ),
            decreases s.len() - i,
        {
            let ghost prev = fields.deep_view();
            let mut one: Vec<char> = Vec::new();
            one.push(s[i]);
            fields.push(one);
            i = i + 1;
            proof {
                assert(fields.deep_view() =~~= prev + seq![seq![s@[i - 1]]]);
                assert(fields.deep_view() =~~= seq![Seq::<char>::empty()] + Seq::new(
                    i as nat,
                    |k: int| seq![s@[k]],
                ));
            }
        }
        let ghost prev = fields.deep_view();
        fields.push(Vec::new());
        proof {
            assert(fields.deep_view() =~~= prev + seq![Seq::<char>::empty()]);
            assert(fields.deep_view() =~~= split_empty(s@));
        }
        fields
    } else {
        let r = split_chars(s, d);
        proof {
            assert(r.deep_view().len() == r.len());
        }
        r
    }
}

} // verus!
