//! Fallback inference of compression and tar-ness from a file name.
//!
//! Inference inspects the suffix chain of the input file's base name and
//! runs only when the caller has neither set the tar flag nor chosen a
//! non-plain compression — a fallback, never an override of explicit flags.

use crate::compress::Compression;
use crate::split::{chars_eq, split_seq};
use crate::text::chars_of;
use vstd::prelude::*;

verus! {

/// The base name of a path: what follows its last slash.
pub open spec fn basename_of(path: Seq<char>) -> Seq<char> {
    split_seq(path, seq!['/']).last()
}

/// What the suffix chain of the base name `name` says: the compression kind
/// named by the last `.`-separated segment, and whether the name marks a tar
/// archive — either by a final `tar` segment, or by a `tar` segment directly
/// before a compression suffix.  A name of fewer than two segments says
/// plain, not tar.
pub open spec fn infer_from_name(name: Seq<char>) -> (Compression, bool) {
    let segs = split_seq(name, seq!['.']);
    if segs.len() < 2 {
        (Compression::Plain, false)
    } else {
        let last = segs.last();
        let tar_before = segs[segs.len() - 2] == seq!['t', 'a', 'r'];
        if last == seq!['g', 'z'] {
            (Compression::Gzip, tar_before)
        } else if last == seq!['b', 'z', '2'] {
            (Compression::Bzip2, tar_before)
        } else if last == seq!['x', 'z'] {
            (Compression::Xz, tar_before)
        } else if last == seq!['t', 'a', 'r'] {
            (Compression::Plain, true)
        } else {
            (Compression::Plain, false)
        }
    }
}

/// The flags a run actually uses: the explicit ones where any were given,
/// otherwise the ones inferred from the file name.
pub open spec fn resolve_spec(c: Compression, istar: bool, path: Seq<char>) -> (
    Compression,
    bool,
) {
    if istar || c != Compression::Plain {
        (c, istar)
    } else {
        infer_from_name(basename_of(path))
    }
}

/// A vector of exactly the characters pushed.
fn word2(a: char, b: char) -> (r: Vec<char>)
    ensures
        r@ == seq![a, b],
{
    let mut r: Vec<char> = Vec::new();
    r.push(a);
    r.push(b);
    proof {
        assert(r@ =~= seq![a, b]);
    }
    r
}

/// A vector of exactly the characters pushed.
fn word3(a: char, b: char, c: char) -> (r: Vec<char>)
    ensures
        r@ == seq![a, b, c],
{
    let mut r: Vec<char> = Vec::new();
    r.push(a);
    r.push(b);
    r.push(c);
    proof {
        assert(r@ =~= seq![a, b, c]);
    }
    r
}

/// Infer compression and tar-ness from the base name of `path`.
fn infer_exec(path: &Vec<char>) -> (r: (Compression, bool))
    ensures
        r == infer_from_name(basename_of(path@)),
{
    let mut slash: Vec<char> = Vec::new();
    slash.push('/');
    proof {
        assert(slash@ =~= seq!['/']);
    }
    let parts = crate::split::split_on(path, &slash);
    let name = &parts[parts.len() - 1];
    proof {
        assert(parts.deep_view()[parts@.len() - 1] == parts@[parts@.len() - 1]@);
        assert(basename_of(path@) == name@);
    }
    let mut dot: Vec<char> = Vec::new();
    dot.push('.');
    proof {
        assert(dot@ =~= seq!['.']);
    }
    let segs = crate::split::split_on(name, &dot);
    let ghost sv = split_seq(name@, seq!['.']);
    proof {
        assert(sv.len() == segs@.len());
    }
    if segs.len() < 2 {
        (Compression::Plain, false)
    } else {
        let last = &segs[segs.len() - 1];
        let before = &segs[segs.len() - 2];
        proof {
            assert(segs.deep_view()[segs@.len() - 1] == segs@[segs@.len() - 1]@);
            assert(segs.deep_view()[segs@.len() - 2] == segs@[segs@.len() - 2]@);
            assert(sv.last() == last@);
            assert(sv[sv.len() - 2] == before@);
        }
        let tar_word = word3('t', 'a', 'r');
        let tar_before = chars_eq(before, &tar_word);
        if chars_eq(last, &word2('g', 'z')) {
            (Compression::Gzip, tar_before)
        } else if chars_eq(last, &word3('b', 'z', '2')) {
            (Compression::Bzip2, tar_before)
        } else if chars_eq(last, &word2('x', 'z')) {
            (Compression::Xz, tar_before)
        } else if chars_eq(last, &tar_word) {
            (Compression::Plain, true)
        } else {
            (Compression::Plain, false)
        }
    }
}

/// The flags a run actually uses: the explicit compression kind and tar
/// flag where either was given, otherwise what the file name's suffix chain
/// says.
pub fn resolve_flags(c: &Compression, istar: bool, filepath: &str) -> (r: (Compression, bool))
    ensures
        r == resolve_spec(*c, istar, filepath@),
{
    let run_inference = !istar && match c {
        Compression::Plain => true,
        _ => false,
    };
    if run_inference {
        let chars = chars_of(filepath);
        infer_exec(&chars)
    } else {
        (*c, istar)
    }
}

/// Inference is idempotent with explicit flags: passing exactly the flags
/// that inference would produce for a path resolves to the same flags as
/// passing none at all.
pub proof fn lemma_resolve_idempotent(path: Seq<char>)
    ensures
        ({
            let (c, t) = infer_from_name(basename_of(path));
            resolve_spec(c, t, path)
        }) == resolve_spec(Compression::Plain, false, path),
{
}

} // verus!
