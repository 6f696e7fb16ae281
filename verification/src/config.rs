//! The run configuration and the top-level orchestration.
//!
//! A `ScanCsv` is an immutable snapshot of one run's parameters, built by
//! the command-line front end.  Running it resolves the compression flags,
//! undoes the compression, walks the archive members where the input is a
//! tar archive, and scans every selected stream line by line.

use crate::archive::tar_members;
use crate::compress::{decode, decoded_spec, Compression};
use crate::errors::ScanError;
use crate::infer::{resolve_flags, resolve_spec};
use crate::lines::{byte_lines, split_lines, split_terminated, terminated_lines};
use crate::matcher::ScanOutcome;
use crate::pattern::regex_valid;
use crate::pipeline::{scan_byte_lines, scan_bytes_spec, walk_members, walk_spec};
use crate::predicate::{pred_ropt, pred_vals, Predicate};
use crate::text::chars_of;
use vstd::prelude::*;

verus! {

/// An immutable snapshot of one run's parameters.
pub struct ScanCsv {
    /// The path of the input file.
    pub filepath: String,
    /// The explicit compression kind; plain when no flag was given.
    pub compression: Compression,
    /// Whether the input was explicitly marked as a tar archive.
    pub istar: bool,
    /// Archive member names to admit; empty admits every member.
    pub files: Vec<String>,
    /// The target column index.
    pub column: usize,
    /// The delimiter the lines are split on.
    pub delimiter: String,
    /// The regular-expression pattern, when one is configured; it takes
    /// precedence over the literal values.
    pub regex: Option<String>,
    /// The literal values of the exact-set predicate.
    pub values: Vec<String>,
    /// The output file to append to; nothing means standard output.
    pub output: Option<String>,
}

/// What a run of the configuration `cfg` on the raw input bytes `data`
/// emits, and the error that stops the run, if one does.  A corruption of
/// the compressed stream or of the archive stops the run, but what was
/// scanned before it — the terminated lines of the decoded prefix, the
/// well-formed members that precede the corruption — stays emitted.
pub open spec fn parse_spec(cfg: &ScanCsv, data: Seq<u8>) -> (Seq<Seq<char>>, Option<ScanError>) {
    let ropt = cfg.regex.deep_view();
    let vals = if cfg.regex is Some {
        Seq::<Seq<char>>::empty()
    } else {
        cfg.values.deep_view()
    };
    let col = cfg.column as int;
    let delim = cfg.delimiter@;
    if cfg.regex is Some && !regex_valid(cfg.regex->0@) {
        (Seq::empty(), Some(ScanError::BadPattern))
    } else {
        let flags = resolve_spec(cfg.compression, cfg.istar, cfg.filepath@);
        let dec = decoded_spec(flags.0, data);
        if flags.1 {
            let parsed = crate::archive::tar_members_of(dec.0);
            let w = walk_spec(parsed.0, cfg.files.deep_view(), delim, col, ropt, vals);
            if w.1 is Some {
                w
            } else if !parsed.1 {
                (w.0, Some(ScanError::Archive))
            } else if !dec.1 {
                (w.0, Some(ScanError::Decode))
            } else {
                w
            }
        } else {
            let bls = if dec.1 {
                byte_lines(dec.0)
            } else {
                terminated_lines(dec.0)
            };
            let s = scan_bytes_spec(bls, delim, col, ropt, vals);
            if s.1 is None && !dec.1 {
                (s.0, Some(ScanError::Decode))
            } else {
                s
            }
        }
    }
}

impl ScanCsv {
    /// Run the whole pipeline on the raw bytes of the input file: resolve
    /// the flags, undo the compression, and scan the stream — or, for a tar
    /// archive, each selected member — emitting every line whose target
    /// column matches.
    pub fn parse(&self, data: Vec<u8>) -> (out: ScanOutcome)
        ensures
            ({
                let r = parse_spec(self, data@);
                out.lines.deep_view() == r.0 && out.error == r.1
            }),
    {
        let pred = match Predicate::build(&self.regex, &self.values) {
            Ok(p) => p,
            Err(e) => {
                let empty: Vec<String> = Vec::new();
                proof {
                    assert(empty.deep_view() =~= Seq::<Seq<char>>::empty());
                }
                return ScanOutcome { lines: empty, error: Some(e) };
            },
        };
        proof {
            assert(pred_ropt(&pred) == self.regex.deep_view());
            assert(pred_vals(&pred) == if self.regex is Some {
                Seq::<Seq<char>>::empty()
            } else {
                self.values.deep_view()
            });
        }
        let d = chars_of(self.delimiter.as_str());
        let flags = resolve_flags(&self.compression, self.istar, self.filepath.as_str());
        let dec = decode(&flags.0, data);
        let decoded = dec.0;
        let dec_err = dec.1;
        if flags.1 {
            let parsed = tar_members(&decoded);
            let mut out = walk_members(&parsed.0, &self.files, &d, self.column, &pred);
            if out.error.is_none() {
                if parsed.1.is_some() {
                    out.error = parsed.1;
                } else if dec_err.is_some() {
                    out.error = dec_err;
                }
            }
            out
        } else {
            let bls = if dec_err.is_none() {
                split_lines(&decoded)
            } else {
                split_terminated(&decoded)
            };
            let mut out = scan_byte_lines(&bls, &d, self.column, &pred);
            if out.error.is_none() && dec_err.is_some() {
                out.error = dec_err;
            }
            out
        }
    }
}

/// Round trip: running on a compressed input whose bytes decode cleanly
/// equals running on the decoded bytes directly with plain compression,
/// whenever the plain run's file name makes inference keep plain and the
/// same tar flag.  What the decoded bytes are is the decompressor's answer,
/// so this is the statable core of the compressed-versus-plain round trip.
pub proof fn lemma_decode_round_trip(a: &ScanCsv, b: &ScanCsv, cdata: Seq<u8>, pdata: Seq<u8>)
    requires
        a.compression != Compression::Plain,
        decoded_spec(a.compression, cdata) == (pdata, true),
        resolve_spec(b.compression, b.istar, b.filepath@) == (Compression::Plain, a.istar),
        a.files == b.files,
        a.column == b.column,
        a.delimiter == b.delimiter,
        a.regex == b.regex,
        a.values == b.values,
    ensures
        parse_spec(a, cdata) == parse_spec(b, pdata),
{
    assert(resolve_spec(a.compression, a.istar, a.filepath@) == (a.compression, a.istar));
    assert(decoded_spec(Compression::Plain, pdata) == (pdata, true));
}

/// Output-sink equivalence: what a run emits does not depend on the
/// configured output destination.  Two runs that differ only in where the
/// emitted lines go produce the same line sequence, so console output and
/// file output carry identical content.
pub proof fn lemma_sink_independent(a: &ScanCsv, b: &ScanCsv, data: Seq<u8>)
    requires
        a.filepath == b.filepath,
        a.compression == b.compression,
        a.istar == b.istar,
        a.files == b.files,
        a.column == b.column,
        a.delimiter == b.delimiter,
        a.regex == b.regex,
        a.values == b.values,
    ensures
        parse_spec(a, data) == parse_spec(b, data),
{
}

} // verus!
