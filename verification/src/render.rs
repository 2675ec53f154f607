//! Turning one result record into the printed line.
//!
//! The line is built here as a sequence of segments, each with the colour it
//! should be printed in; the surrounding program applies the colours and
//! writes the segments out in order. A dirty repository gets a red marker in
//! front; the branch is green on the conventional primary branch and cyan on
//! any other; a clean repository's line carries the update summary, with the
//! captured output in yellow.
use vstd::prelude::*;

use crate::report::Elapsed;
use crate::report::InspectionResult;
use crate::report::ResultModel;
use crate::report::elapsed_text;
use crate::report::format_elapsed;

verus! {

/// The colour one segment of a line is printed in.
#[derive(Clone, Copy, PartialEq, Eq, Structural, Debug)]
pub enum Paint {
    Plain,
    Red,
    Green,
    Cyan,
    Yellow,
}

/// One stretch of a printed line with its colour.
pub struct Segment {
    pub text: String,
    pub paint: Paint,
}

/// The model of a [`Segment`].
#[verifier::ext_equal]
pub ghost struct SegModel {
    pub text: Seq<char>,
    pub paint: Paint,
}

impl View for Segment {
    type V = SegModel;

    open spec fn view(&self) -> SegModel {
        SegModel { text: self.text@, paint: self.paint }
    }
}

/// The models of a sequence of segments.
pub open spec fn segs_model(s: Seq<Segment>) -> Seq<SegModel> {
    s.map_values(|seg: Segment| seg@)
}

/// The reference name of the conventional primary branch.
pub open spec fn primary_branch() -> Seq<char> {
    "refs/heads/master"@
}

/// Green on the primary branch, cyan anywhere else.
pub open spec fn branch_paint(branch: Seq<char>) -> Paint {
    if branch == primary_branch() {
        Paint::Green
    } else {
        Paint::Cyan
    }
}

/// The line for one record: the dirty marker if any, then the path, the
/// coloured branch, and the message — preceded by the update summary when an
/// update ran.
pub open spec fn rendered(r: ResultModel) -> Seq<SegModel> {
    (if r.dirty {
        seq![SegModel { text: "**** "@, paint: Paint::Red }]
    } else {
        Seq::<SegModel>::empty()
    }) + seq![
        SegModel { text: "Received from "@ + r.repo + " ["@, paint: Paint::Plain },
        SegModel { text: r.branch, paint: branch_paint(r.branch) },
        SegModel { text: "]: "@, paint: Paint::Plain },
    ] + (match r.elapsed {
        Some(e) => seq![
            SegModel { text: "Updated in "@ + elapsed_text(e) + " secs: "@, paint: Paint::Plain },
            SegModel { text: r.message, paint: Paint::Yellow },
        ],
        None => seq![SegModel { text: r.message, paint: Paint::Plain }],
    })
}

/// Build the printable segments for one record.
pub fn render_result(r: &InspectionResult) -> (v: Vec<Segment>)
    ensures
        segs_model(v@) == rendered(r@),
{
    let mut v: Vec<Segment> = Vec::new();
    if r.is_dirty {
        v.push(Segment { text: "**** ".to_owned(), paint: Paint::Red });
    }
    let mut intro = "Received from ".to_owned();
    intro.append(r.repo_name.as_str());
    intro.append(" [");
    v.push(Segment { text: intro, paint: Paint::Plain });
    let primary = "refs/heads/master".to_owned();
    let paint = if r.branch == primary {
        Paint::Green
    } else {
        Paint::Cyan
    };
    v.push(Segment { text: r.branch.clone(), paint });
    v.push(Segment { text: "]: ".to_owned(), paint: Paint::Plain });
    match r.elapsed {
        Some(e) => {
            let mut summary = "Updated in ".to_owned();
            let took = format_elapsed(e);
            summary.append(took.as_str());
            summary.append(" secs: ");
            v.push(Segment { text: summary, paint: Paint::Plain });
            v.push(Segment { text: r.message.clone(), paint: Paint::Yellow });
        },
        None => {
            v.push(Segment { text: r.message.clone(), paint: Paint::Plain });
        },
    }
    proof {
        assert(segs_model(v@) =~~= rendered(r@));
    }
    v
}

} // verus!
