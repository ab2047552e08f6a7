//! What running another program gives.

use crate::text;
use crate::unicode::{self, lossy, utf8_string};
use vstd::prelude::*;
use vstd::utf8;

verus! {

/// What came of running a program.
pub enum ProcessResult {
    /// It could not be run, for the reason given.
    Failed(String),
    /// It ran and ended.
    Done { success: bool, stdout: Vec<u8>, stderr: Vec<u8> },
}

/// What a list of strings holds.
pub open spec fn strings(v: Seq<String>) -> Seq<Seq<char>> {
    v.map_values(|s: String| s@)
}

impl ProcessResult {
    /// What the program wrote, where it succeeded and wrote valid UTF-8.
    pub open spec fn spec_stdout(self) -> Option<Seq<char>> {
        match self {
            ProcessResult::Done { success: true, stdout, .. } if utf8::valid_utf8(stdout@) => Some(
                utf8::decode_utf8(stdout@),
            ),
            _ => None,
        }
    }

    /// What the program wrote, where it succeeded and wrote valid UTF-8.
    pub fn into_stdout(self) -> (r: Option<String>)
        ensures
            match r {
                Some(s) => self.spec_stdout() == Some(s@),
                None => self.spec_stdout() is None,
            },
    {
        match self {
            ProcessResult::Done { success, stdout, .. } => if success {
                utf8_string(stdout)
            } else {
                None
            },
            ProcessResult::Failed(_) => None,
        }
    }
}

/// What a program wrote to its error output, read as UTF-8 with replacement
/// characters and without white space at either end.
pub fn err_msg(stderr: &[u8]) -> (r: String)
    ensures
        r@ == text::trim(unicode::utf8_lossy(stderr@)),
        utf8::valid_utf8(stderr@) ==> r@ == text::trim(utf8::decode_utf8(stderr@)),
{
    text::trimmed_string(lossy(stderr).as_str())
}

// ── Laws ────────────────────────────────────────────────────────────────────

/// What a program wrote counts exactly where it could be run, succeeded and wrote
/// valid UTF-8; then it counts as it was written.
pub proof fn law_output_counts(stdout: Vec<u8>, stderr: Vec<u8>, message: String)
    ensures
        (ProcessResult::Failed(message)).spec_stdout() is None,
        (ProcessResult::Done { success: false, stdout, stderr }).spec_stdout() is None,
        (ProcessResult::Done { success: true, stdout, stderr }).spec_stdout()
            == if utf8::valid_utf8(stdout@) {
            Some(utf8::decode_utf8(stdout@))
        } else {
            None
        },
{
}

} // verus!
