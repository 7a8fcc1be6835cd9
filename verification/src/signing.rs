//! Parsing of the signing tools' textual output.
//!
//! The certificate-extraction step is judged successful exactly when its
//! diagnostic output names an executable; the certificate-inspection step's
//! report is parsed by taking its first two lines, removing the colons that
//! join hex bytes, and keeping what follows the last `=` of each line.

use vstd::prelude::*;
use crate::text::contains_sub;
use crate::text::remove_char;
use crate::text::removed;
use crate::text::split_two_lines;
use crate::text::str_has_sub;
use crate::text::suffix_after_last;
use crate::text::suffix_after_last_char;
use crate::text::two_lines;

verus! {

/// The marker whose presence in the certificate-extraction tool's
/// diagnostic output signals that the tool recognized the executable.
pub open spec fn codesign_marker() -> Seq<char> {
    "Executable="@
}

/// Judges the certificate-extraction tool's diagnostic output: true exactly
/// when it contains the success marker.
pub fn codesign_succeeded(diag: &str) -> (r: bool)
    ensures
        r == contains_sub(diag@, codesign_marker()),
{
    str_has_sub(diag, "Executable=")
}

/// A `label=value` line, colon-joined hex allowed: the characters after the
/// last `=`, with every colon removed; the whole line (colons removed) when
/// no `=` occurs.
pub open spec fn parsed_field(line: Seq<char>) -> Seq<char> {
    suffix_after_last(removed(line, ':'), '=')
}

/// The fingerprint read from the inspection report: its first line's field.
pub open spec fn sha1_of_report(out: Seq<char>) -> Seq<char> {
    parsed_field(two_lines(out).0)
}

/// The modulus read from the inspection report: its second line's field
/// (the first again when the report has a single line).
pub open spec fn modulus_of_report(out: Seq<char>) -> Seq<char> {
    parsed_field(two_lines(out).1)
}

/// Parses the certificate-inspection report into the fingerprint and the
/// modulus. An unexpected shape degrades to empty strings, never an error.
pub fn parse_inspection_report(out: &str) -> (r: (String, String))
    ensures
        r.0@ == sha1_of_report(out@),
        r.1@ == modulus_of_report(out@),
{
    let (l0, l1) = split_two_lines(out);
    let c0 = remove_char(l0.as_str(), ':');
    let sha1 = suffix_after_last_char(c0.as_str(), '=');
    let c1 = remove_char(l1.as_str(), ':');
    let modulus = suffix_after_last_char(c1.as_str(), '=');
    (sha1, modulus)
}

} // verus!
