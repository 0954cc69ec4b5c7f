use vstd::prelude::*;
use crate::text::{decimal, push_decimal, push_text};

verus! {

/// Why a capture run failed.
#[derive(Clone, Copy, Debug, PartialEq, Eq, Structural)]
pub enum CaptureError {
    /// The capture program exited with this non-zero status.
    Failed(i32),
    /// The capture program ended without an exit status (it was killed).
    Unknown,
}

/// The outcome of a capture run, from the exit status of the capture program.
pub open spec fn capture_outcome_spec(code: Option<i32>) -> Result<(), CaptureError> {
    match code {
        Some(0) => Ok(()),
        Some(c) => Err(CaptureError::Failed(c)),
        None => Err(CaptureError::Unknown),
    }
}

/// Interprets the exit status of the capture program: only status 0 is success.
pub fn capture_outcome(code: Option<i32>) -> (r: Result<(), CaptureError>)
    ensures
        r == capture_outcome_spec(code),
{
    match code {
        Some(0) => Ok(()),
        Some(c) => Err(CaptureError::Failed(c)),
        None => Err(CaptureError::Unknown),
    }
}

/// The arguments of the capture program: capture on `interface`, stop after
/// `duration` seconds, write the frames to `output`.
pub open spec fn capture_args_spec(interface: Seq<char>, duration: nat, output: Seq<char>) -> Seq<Seq<char>> {
    seq!["-i"@, interface, "-a"@, "duration:"@ + decimal(duration), "-w"@, output]
}

/// Builds the arguments of the capture program.
pub fn capture_args(interface: &str, duration: u64, output: &str) -> (r: Vec<String>)
    ensures
        r@.map_values(|a: String| a@) == capture_args_spec(interface@, duration as nat, output@),
{
    let mut limit = String::from_str("duration:");
    push_decimal(&mut limit, duration);
    let mut r: Vec<String> = Vec::new();
    r.push(String::from_str("-i"));
    r.push(String::from_str(interface));
    r.push(String::from_str("-a"));
    r.push(limit);
    r.push(String::from_str("-w"));
    r.push(String::from_str(output));
    assert(r@.map_values(|a: String| a@) =~= capture_args_spec(interface@, duration as nat, output@));
    r
}

} // verus!
