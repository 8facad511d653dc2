//! Filling in token usage for sessions recorded before usage was captured.

use vstd::prelude::*;
use crate::text::{nat_text, push_nat, strings_view};

verus! {

/// What to do for one session of a backfill run.
#[derive(Clone, Debug)]
pub enum BackfillStep {
    /// The session already has usage and the run does not force a new parse.
    SkipExisting,
    /// No event of the session recorded a transcript path.
    NoTranscript,
    /// Parse the transcript at this path.
    Parse(String),
}

/// Decides what a backfill run does for one session.
pub fn backfill_step(force: bool, has_usage: bool, transcript_path: Option<String>) -> (r: BackfillStep)
    ensures
        !force && has_usage ==> r matches BackfillStep::SkipExisting,
        (force || !has_usage) ==> match transcript_path {
            Some(p) => r matches BackfillStep::Parse(q) && q@ == p@,
            None => r matches BackfillStep::NoTranscript,
        },
{
    if !force && has_usage {
        return BackfillStep::SkipExisting;
    }
    match transcript_path {
        Some(p) => BackfillStep::Parse(p),
        None => BackfillStep::NoTranscript,
    }
}

/// How one session of a backfill run ended.
#[derive(Clone, Copy, Debug, PartialEq, Eq, Structural)]
pub enum BackfillOutcome {
    Updated,
    SkippedExisting,
    NoTranscript,
    MissingFile,
    ParseError,
}

/// The counts of a backfill run.
#[derive(Clone, Copy, Debug, PartialEq, Eq, Structural)]
pub struct BackfillTally {
    pub updated: u64,
    pub skipped_existing: u64,
    pub no_transcript: u64,
    pub missing_file: u64,
    pub parse_errors: u64,
}

impl BackfillTally {
    /// A run that has seen no session yet.
    pub fn new() -> (r: BackfillTally)
        ensures
            r == (BackfillTally {
                updated: 0,
                skipped_existing: 0,
                no_transcript: 0,
                missing_file: 0,
                parse_errors: 0,
            }),
    {
        BackfillTally { updated: 0, skipped_existing: 0, no_transcript: 0, missing_file: 0, parse_errors: 0 }
    }

    /// Counts one more session with outcome `o`.
    pub fn record(&mut self, o: BackfillOutcome)
        requires
            old(self).updated < u64::MAX,
            old(self).skipped_existing < u64::MAX,
            old(self).no_transcript < u64::MAX,
            old(self).missing_file < u64::MAX,
            old(self).parse_errors < u64::MAX,
        ensures
            final(self).updated == old(self).updated + if o == BackfillOutcome::Updated { 1int } else { 0int },
            final(self).skipped_existing == old(self).skipped_existing + if o == BackfillOutcome::SkippedExisting { 1int } else { 0int },
            final(self).no_transcript == old(self).no_transcript + if o == BackfillOutcome::NoTranscript { 1int } else { 0int },
            final(self).missing_file == old(self).missing_file + if o == BackfillOutcome::MissingFile { 1int } else { 0int },
            final(self).parse_errors == old(self).parse_errors + if o == BackfillOutcome::ParseError { 1int } else { 0int },
    {
        match o {
            BackfillOutcome::Updated => self.updated = self.updated + 1,
            BackfillOutcome::SkippedExisting => self.skipped_existing = self.skipped_existing + 1,
            BackfillOutcome::NoTranscript => self.no_transcript = self.no_transcript + 1,
            BackfillOutcome::MissingFile => self.missing_file = self.missing_file + 1,
            BackfillOutcome::ParseError => self.parse_errors = self.parse_errors + 1,
        }
    }
}

/// The report of a backfill run, line by line: the sessions updated, then a line for each
/// other outcome that occurred.
pub open spec fn backfill_report_lines(t: BackfillTally) -> Seq<Seq<char>> {
    seq!["Backfilled token usage for "@ + nat_text(t.updated as nat) + " session(s)."@]
        + (if t.skipped_existing > 0 {
        seq!["  "@ + nat_text(t.skipped_existing as nat) + " already had usage data (use --force to re-parse)."@]
    } else {
        Seq::empty()
    }) + (if t.no_transcript > 0 {
        seq!["  "@ + nat_text(t.no_transcript as nat) + " had no transcript path recorded."@]
    } else {
        Seq::empty()
    }) + (if t.missing_file > 0 {
        seq!["  "@ + nat_text(t.missing_file as nat) + " referenced a transcript file that no longer exists."@]
    } else {
        Seq::empty()
    }) + (if t.parse_errors > 0 {
        seq!["  "@ + nat_text(t.parse_errors as nat) + " transcript(s) could not be read or parsed."@]
    } else {
        Seq::empty()
    })
}

fn count_line(prefix: &str, n: u64, suffix: &str) -> (r: String)
    ensures
        r@ == prefix@ + nat_text(n as nat) + suffix@,
{
    let mut s = prefix.to_string();
    push_nat(&mut s, n);
    s.append(suffix);
    s
}

/// Writes the report of a backfill run (see `backfill_report_lines`).
pub fn backfill_report(t: &BackfillTally) -> (r: Vec<String>)
    ensures
        strings_view(r@) == backfill_report_lines(*t),
{
    let mut out: Vec<String> = Vec::new();
    out.push(count_line("Backfilled token usage for ", t.updated, " session(s)."));
    if t.skipped_existing > 0 {
        out.push(count_line("  ", t.skipped_existing, " already had usage data (use --force to re-parse)."));
    }
    if t.no_transcript > 0 {
        out.push(count_line("  ", t.no_transcript, " had no transcript path recorded."));
    }
    if t.missing_file > 0 {
        out.push(count_line("  ", t.missing_file, " referenced a transcript file that no longer exists."));
    }
    if t.parse_errors > 0 {
        out.push(count_line("  ", t.parse_errors, " transcript(s) could not be read or parsed."));
    }
    proof {
        assert(strings_view(out@) =~= backfill_report_lines(*t));
    }
    out
}

} // verus!
