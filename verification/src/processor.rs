//! File processing: what one run does to one file.
//!
//! Reading and writing files is the caller's business; this module computes,
//! from a request and a file's text, a verified *plan*: the transformed text,
//! the backup step owed before any write, whether the operator must confirm,
//! and where the result goes. A dry run plans no disk action at all.

use vstd::prelude::*;
use vstd::string::StrSliceExecFns;
use vstd::string::StringExecFns;

use crate::engine::apply_rules;
use crate::engine::replace_strings;
use crate::rules::Config;
use crate::rules::ProcessingError;

verus! {

/// One file-processing request: the session configuration, the file, an
/// optional explicit output path, and the mode flags.
#[derive(Debug)]
pub struct ProcessingRequest {
    /// The rules and traversal flags of the session.
    pub config: Config,
    /// The file the request is about.
    pub input_path: String,
    /// Where to write the transformed text; without it the text is emitted to
    /// the standard output stream instead of written back.
    pub output_file: Option<String>,
    /// Compute and report only; touch nothing on disk.
    pub dry_run: bool,
    /// Preserve the original content beside the file before any write.
    pub backup: bool,
    /// Ask the operator before applying the change.
    pub interactive: bool,
    /// Verbose diagnostics; no bearing on what is planned.
    pub verbose: bool,
}

/// Where transformed text goes.
#[derive(Debug, Clone, PartialEq, Eq)]
pub enum WriteTarget {
    /// Write to this path.
    File(String),
    /// Emit to the standard output stream.
    Stdout,
}

/// The copy owed before the primary file may be modified: the original,
/// untransformed content, preserved at a sibling path.
#[derive(Debug, Clone, PartialEq, Eq)]
pub struct BackupStep {
    /// The sibling path (the file's extension changed to `bak`).
    pub path: String,
    /// The content to preserve: exactly the original text.
    pub content: String,
}

/// What processing one file amounts to, in order: the backup step if any,
/// then the confirmation gate if any, then the write.
#[derive(Debug, Clone, PartialEq, Eq)]
pub enum FilePlan {
    /// A dry run: show the would-be result; nothing on disk changes.
    Report { preview: String },
    /// Apply the change: perform `backup` first if present, then, unless
    /// `needs_confirm` and the operator declines, put `content` at `target`.
    Apply { backup: Option<BackupStep>, needs_confirm: bool, target: WriteTarget, content: String },
}

/// The outcome reported for one visited file.
#[derive(Debug, Clone, PartialEq, Eq)]
pub enum FileOutcome {
    /// The transformed text was written (or emitted).
    Written,
    /// A dry run reported the change without writing it.
    SkippedDryRun,
    /// The operator declined the change.
    SkippedByUser,
    /// Reading, transforming or writing the file failed.
    Failed,
}

/// The index of the last occurrence of `c` in `s`, or `-1` if there is none.
pub open spec fn last_index_of(s: Seq<char>, c: char) -> int
    decreases s.len(),
{
    if s.len() == 0 {
        -1
    } else if s[s.len() - 1] == c {
        s.len() - 1
    } else {
        last_index_of(s.take(s.len() - 1), c)
    }
}

/// The sibling path that preserves a file's original content: the file
/// name's extension replaced by `bak`, or `.bak` appended when the name has
/// no extension (a leading dot opens no extension).
pub open spec fn spec_backup_path(p: Seq<char>) -> Seq<char> {
    let slash = last_index_of(p, '/');
    let dot = last_index_of(p, '.');
    if dot > slash + 1 {
        p.take(dot) + ".bak"@
    } else {
        p + ".bak"@
    }
}

/// The index of the last occurrence of `c`, or `None` if `c` does not occur.
fn last_index(s: &str, c: char) -> (r: Option<usize>)
    ensures
        r matches Some(i) ==> i < s@.len() && last_index_of(s@, c) == i as int,
        r is None ==> last_index_of(s@, c) == -1,
{
    let n = s.unicode_len();
    proof {
        assert(s@.take(n as int) =~= s@);
    }
    let mut i: usize = n;
    while i > 0
        invariant
            n == s@.len(),
            i <= n,
            last_index_of(s@, c) == last_index_of(s@.take(i as int), c),
        decreases i,
    {
        if s.get_char(i - 1) == c {
            proof {
                assert(s@.take(i as int).len() == i);
                assert(s@.take(i as int)[i - 1] == s@[i - 1]);
            }
            return Some(i - 1);
        }
        proof {
            assert(s@.take(i as int)[i - 1] == s@[i - 1]);
            assert(s@.take(i as int).take(i - 1) =~= s@.take(i - 1));
        }
        i = i - 1;
    }
    proof {
        assert(s@.take(0).len() == 0);
    }
    None
}

/// The backup path for a file: its extension changed to `bak`.
pub fn backup_path(path: &str) -> (r: String)
    ensures
        r@ == spec_backup_path(path@),
{
    let slash = last_index(path, '/');
    let dot = last_index(path, '.');
    let stem_end: Option<usize> = match (dot, slash) {
        (Some(d), None) => if d > 0 {
            Some(d)
        } else {
            None
        },
        (Some(d), Some(sl)) => if d > sl && d - sl > 1 {
            Some(d)
        } else {
            None
        },
        (None, _) => None,
    };
    match stem_end {
        Some(d) => {
            let stem = path.substring_char(0, d);
            proof {
                assert(stem@ =~= path@.take(d as int));
            }
            let mut out = stem.to_owned();
            out.append(".bak");
            out
        },
        None => {
            let mut out = path.to_owned();
            out.append(".bak");
            out
        },
    }
}

/// The characters the interactive gate treats as blank space around an
/// answer: the characters with the Unicode white-space property.
pub open spec fn is_space_char(c: char) -> bool {
    ||| c == ' '
    ||| c == '\t'
    ||| c == '\n'
    ||| c == '\r'
    ||| c == '\u{000B}'
    ||| c == '\u{000C}'
    ||| c == '\u{0085}'
    ||| c == '\u{00A0}'
    ||| c == '\u{1680}'
    ||| (0x2000 <= (c as u32) && (c as u32) <= 0x200A)
    ||| c == '\u{2028}'
    ||| c == '\u{2029}'
    ||| c == '\u{202F}'
    ||| c == '\u{205F}'
    ||| c == '\u{3000}'
}

/// The answer with leading and trailing blank space removed.
pub open spec fn spec_trimmed(s: Seq<char>) -> Seq<char>
    decreases s.len(),
{
    if s.len() == 0 {
        s
    } else if is_space_char(s[0]) {
        spec_trimmed(s.skip(1))
    } else if is_space_char(s[s.len() - 1]) {
        spec_trimmed(s.take(s.len() - 1))
    } else {
        s
    }
}

/// An answer counts as consent exactly when it trims to a single `y`, in
/// either case.
pub open spec fn spec_is_yes(s: Seq<char>) -> bool {
    spec_trimmed(s) == seq!['y'] || spec_trimmed(s) == seq!['Y']
}

fn char_is_space(c: char) -> (b: bool)
    ensures
        b == is_space_char(c),
{
    c == ' ' || c == '\t' || c == '\n' || c == '\r' || c == '\u{000B}' || c == '\u{000C}' || c
        == '\u{0085}' || c == '\u{00A0}' || c == '\u{1680}' || (0x2000 <= (c as u32) && (c as u32)
        <= 0x200A) || c == '\u{2028}' || c == '\u{2029}' || c == '\u{202F}' || c == '\u{205F}' || c
        == '\u{3000}'
}

/// Whether an operator's answer, trimmed and case-insensitively, reads `y`.
pub fn answer_is_yes(answer: &str) -> (r: bool)
    ensures
        r == spec_is_yes(answer@),
{
    let n = answer.unicode_len();
    let mut lo: usize = 0;
    let mut hi: usize = n;
    proof {
        assert(answer@.subrange(0, n as int) =~= answer@);
    }
    while lo < hi && char_is_space(answer.get_char(lo))
        invariant
            n == answer@.len(),
            lo <= hi <= n,
            spec_trimmed(answer@) == spec_trimmed(answer@.subrange(lo as int, hi as int)),
        decreases hi - lo,
    {
        proof {
            let sub = answer@.subrange(lo as int, hi as int);
            assert(sub[0] == answer@[lo as int]);
            assert(sub.skip(1) =~= answer@.subrange(lo as int + 1, hi as int));
        }
        lo = lo + 1;
    }
    while lo < hi && char_is_space(answer.get_char(hi - 1))
        invariant
            n == answer@.len(),
            lo <= hi <= n,
            spec_trimmed(answer@) == spec_trimmed(answer@.subrange(lo as int, hi as int)),
            lo < hi ==> !is_space_char(answer@[lo as int]),
        decreases hi - lo,
    {
        proof {
            let sub = answer@.subrange(lo as int, hi as int);
            assert(sub[0] == answer@[lo as int]);
            assert(sub[sub.len() - 1] == answer@[hi - 1]);
            assert(sub.take(sub.len() - 1) =~= answer@.subrange(lo as int, hi as int - 1));
        }
        hi = hi - 1;
    }
    proof {
        let sub = answer@.subrange(lo as int, hi as int);
        if lo < hi {
            assert(sub[0] == answer@[lo as int]);
            assert(sub[sub.len() - 1] == answer@[hi - 1]);
            assert(spec_trimmed(sub) == sub);
        }
    }
    if hi - lo == 1 {
        let c = answer.get_char(lo);
        proof {
            let sub = answer@.subrange(lo as int, hi as int);
            assert(sub.len() == 1);
            assert(sub[0] == answer@[lo as int]);
            if c == 'y' {
                assert(sub =~= seq!['y']);
            }
            if c == 'Y' {
                assert(sub =~= seq!['Y']);
            }
        }
        c == 'y' || c == 'Y'
    } else {
        proof {
            let sub = answer@.subrange(lo as int, hi as int);
            assert(sub.len() != 1);
            assert(seq!['y'].len() == 1);
            assert(seq!['Y'].len() == 1);
        }
        false
    }
}

/// Plan the processing of one file whose text is `original`: transform it
/// under the request's rules, and lay out the backup, confirmation and write
/// steps the mode flags call for. A dry run plans no disk action; a backup
/// preserves exactly the original text at the sibling `bak` path; the write
/// goes to the explicit output file, or to the standard output stream
/// without one. Fails only as the engine does, on a regular-expression rule
/// whose pattern does not compile.
pub fn plan_file(req: &ProcessingRequest, original: &str) -> (r: Result<FilePlan, ProcessingError>)
    ensures
        r is Ok <==> apply_rules(original@, req.config.changes@) is Ok,
        r matches Err(e) ==> {
            &&& e matches ProcessingError::InvalidRegex(p)
            &&& apply_rules(original@, req.config.changes@) matches Err(q) && p@ == q
        },
        r matches Ok(plan) ==> apply_rules(original@, req.config.changes@) matches Ok(t) && {
            &&& req.dry_run ==> (plan matches FilePlan::Report { preview } && preview@ == t)
            &&& !req.dry_run ==> (plan matches FilePlan::Apply {
                backup,
                needs_confirm,
                target,
                content,
            } && {
                &&& content@ == t
                &&& needs_confirm == req.interactive
                &&& req.backup ==> (backup matches Some(b) && b.path@ == spec_backup_path(
                    req.input_path@,
                ) && b.content@ == original@)
                &&& !req.backup ==> backup is None
                &&& match req.output_file {
                    Option::Some(o) => target matches WriteTarget::File(f) && f@ == o@,
                    Option::None => target is Stdout,
                }
            })
        },
{
    let transformed = match replace_strings(original, &req.config.changes) {
        Ok(t) => t,
        Err(e) => {
            return Err(e);
        },
    };
    if req.dry_run {
        return Ok(FilePlan::Report { preview: transformed });
    }
    let backup = if req.backup {
        Some(
            BackupStep {
                path: backup_path(req.input_path.as_str()),
                content: original.to_owned(),
            },
        )
    } else {
        None
    };
    let target = match &req.output_file {
        Some(o) => WriteTarget::File(o.clone()),
        None => WriteTarget::Stdout,
    };
    Ok(
        FilePlan::Apply {
            backup,
            needs_confirm: req.interactive,
            target,
            content: transformed,
        },
    )
}

/// Whether a planned change may be applied: without a confirmation gate,
/// always; with one, only on an answer that counts as consent.
pub fn confirm_apply(needs_confirm: bool, answer: &Option<String>) -> (r: bool)
    ensures
        r == (needs_confirm ==> (answer matches Some(a) && spec_is_yes(a@))),
{
    if needs_confirm {
        match answer {
            Some(a) => answer_is_yes(a.as_str()),
            None => false,
        }
    } else {
        true
    }
}

/// The outcome recorded for one visited file: its plan, and whether the
/// gate let the write proceed, decide it.
pub fn outcome_for(plan: &FilePlan, proceed: bool) -> (o: FileOutcome)
    ensures
        plan matches FilePlan::Report { .. } ==> o == FileOutcome::SkippedDryRun,
        plan matches FilePlan::Apply { .. } && proceed ==> o == FileOutcome::Written,
        plan matches FilePlan::Apply { .. } && !proceed ==> o == FileOutcome::SkippedByUser,
{
    match plan {
        FilePlan::Report { .. } => FileOutcome::SkippedDryRun,
        FilePlan::Apply { .. } => if proceed {
            FileOutcome::Written
        } else {
            FileOutcome::SkippedByUser
        },
    }
}

/// A non-recursive run must name a single file: a directory root is the
/// caller's error.
pub fn check_root(recursive: bool, root_is_dir: bool) -> (r: Result<(), ProcessingError>)
    ensures
        r is Ok <==> (recursive || !root_is_dir),
        r matches Err(e) ==> e == ProcessingError::PathIsDirectory,
{
    if !recursive && root_is_dir {
        Err(ProcessingError::PathIsDirectory)
    } else {
        Ok(())
    }
}

/// The request a scripted `run` makes for a root path: the given
/// configuration with every mode flag off and no explicit output file.
pub fn script_request(config: Config, input_path: String) -> (r: ProcessingRequest)
    ensures
        r.config == config,
        r.input_path == input_path,
        r.output_file is None,
        !r.dry_run,
        !r.backup,
        !r.interactive,
        !r.verbose,
{
    ProcessingRequest {
        config,
        input_path,
        output_file: None,
        dry_run: false,
        backup: false,
        interactive: false,
        verbose: false,
    }
}

} // verus!
