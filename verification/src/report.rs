//! The record a probe emits for one repository, and its mathematical model.
use vstd::prelude::*;

use crate::text::decimal_of;
use crate::text::trimmed;
use crate::text::u64_to_decimal;

verus! {

/// Wall-clock time an update run took, split into whole seconds and the
/// remaining nanoseconds.
#[derive(Clone, Copy, PartialEq, Eq, Structural, Debug)]
pub struct Elapsed {
    pub secs: u64,
    pub nanos: u32,
}

/// The model of an [`InspectionResult`]: the same record with every piece of
/// text as a sequence of characters.
pub ghost struct ResultModel {
    pub repo: Seq<char>,
    pub dirty: bool,
    pub branch: Seq<char>,
    pub message: Seq<char>,
    pub elapsed: Option<Elapsed>,
}

/// What one probe reports for one repository: the path it was probed at, the
/// dirty flag, the head reference name, the trimmed output of the update run,
/// and how long that run took. `elapsed` is present exactly when an update
/// was attempted, which happens exactly when the working tree was clean.
pub struct InspectionResult {
    pub repo_name: String,
    pub is_dirty: bool,
    pub branch: String,
    pub message: String,
    pub elapsed: Option<Elapsed>,
}

impl View for InspectionResult {
    type V = ResultModel;

    open spec fn view(&self) -> ResultModel {
        ResultModel {
            repo: self.repo_name@,
            dirty: self.is_dirty,
            branch: self.branch@,
            message: self.message@,
            elapsed: self.elapsed,
        }
    }
}

impl InspectionResult {
    /// The record for a dirty repository: no update is attempted, so the
    /// message is empty and no duration is present.
    pub fn for_dirty(repo_name: String, branch: String) -> (r: InspectionResult)
        ensures
            r@ == (ResultModel {
                repo: repo_name@,
                dirty: true,
                branch: branch@,
                message: Seq::<char>::empty(),
                elapsed: None,
            }),
    {
        let message = String::new();
        proof {
            assert(message@ =~= Seq::<char>::empty());
        }
        InspectionResult { repo_name, is_dirty: true, branch, message, elapsed: None }
    }

    /// The record for a clean repository whose update run produced `output`
    /// in `elapsed` time: the message is the output trimmed of surrounding
    /// whitespace.
    pub fn for_clean(repo_name: String, branch: String, output: &str, elapsed: Elapsed) -> (r:
        InspectionResult)
        ensures
            r@ == (ResultModel {
                repo: repo_name@,
                dirty: false,
                branch: branch@,
                message: trimmed(output@),
                elapsed: Some(elapsed),
            }),
    {
        let message = crate::text::trim_spaces(output);
        InspectionResult { repo_name, is_dirty: false, branch, message, elapsed: Some(elapsed) }
    }
}

/// Zero characters prepended to `s` until it is at least `width` long.
pub open spec fn zero_padded(s: Seq<char>, width: nat) -> Seq<char>
    decreases width - s.len(),
{
    if s.len() >= width {
        s
    } else {
        zero_padded(seq!['0'].add(s), width)
    }
}

/// The text of an elapsed duration: whole seconds, a point, and the
/// nanoseconds padded to nine digits.
pub open spec fn elapsed_text(e: Elapsed) -> Seq<char> {
    decimal_of(e.secs as nat) + seq!['.'] + zero_padded(decimal_of(e.nanos as nat), 9)
}

/// `s` preceded by zeros until it is at least `width` characters long.
fn pad_left_zeros(s: String, width: usize) -> (r: String)
    ensures
        r@ == zero_padded(s@, width as nat),
    decreases width - s@.len(),
{
    let n = s.as_str().unicode_len();
    if n >= width {
        s
    } else {
        proof {
            reveal_strlit("0");
        }
        let mut z = "0".to_owned();
        z.append(s.as_str());
        proof {
            assert(z@ =~= seq!['0'].add(s@));
        }
        pad_left_zeros(z, width)
    }
}

/// The elapsed duration rendered as seconds-point-nanoseconds.
pub fn format_elapsed(e: Elapsed) -> (r: String)
    ensures
        r@ == elapsed_text(e),
{
    let mut r = u64_to_decimal(e.secs);
    proof {
        reveal_strlit(".");
    }
    r.append(".");
    let nanos = pad_left_zeros(u64_to_decimal(e.nanos as u64), 9);
    r.append(nanos.as_str());
    proof {
        assert(r@ =~= elapsed_text(e));
    }
    r
}

} // verus!
