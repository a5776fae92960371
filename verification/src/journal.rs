//! Pure helpers of the journal editor: the five-stage progress record and
//! its fixed textual forms.

use vstd::prelude::*;

verus! {

/// The per-stage progress of one implementation.
pub struct Progress {
    pub stage_1: String,
    pub stage_2: String,
    pub stage_3: String,
    pub stage_4: String,
    pub stage_5: String,
}

/// A stage identifier.
#[derive(Clone, Copy, PartialEq, Eq, Structural, Debug)]
pub enum Stage {
    Stage1,
    Stage2,
    Stage3,
    Stage4,
    Stage5,
}

/// A stage status.
#[derive(Clone, Copy, PartialEq, Eq, Structural, Debug)]
pub enum StatusVal {
    NotStarted,
    InProgress,
    Complete,
}

/// The text of the field that records stage `s`.
pub open spec fn stage_field(p: Progress, s: Stage) -> Seq<char> {
    match s {
        Stage::Stage1 => p.stage_1@,
        Stage::Stage2 => p.stage_2@,
        Stage::Stage3 => p.stage_3@,
        Stage::Stage4 => p.stage_4@,
        Stage::Stage5 => p.stage_5@,
    }
}

/// The status text recorded for one stage.
pub fn stage_get<'a>(p: &'a Progress, s: Stage) -> (r: &'a String)
    ensures
        r@ == stage_field(*p, s),
{
    match s {
        Stage::Stage1 => &p.stage_1,
        Stage::Stage2 => &p.stage_2,
        Stage::Stage3 => &p.stage_3,
        Stage::Stage4 => &p.stage_4,
        Stage::Stage5 => &p.stage_5,
    }
}

/// Sets the status text of one stage, leaving every other stage as it was.
pub fn stage_set(p: &mut Progress, s: Stage, v: &str)
    ensures
        stage_field(*final(p), s) == v@,
        forall|t: Stage| t != s ==> stage_field(*final(p), t) == stage_field(*old(p), t),
{
    match s {
        Stage::Stage1 => {
            p.stage_1 = String::from_str(v);
        },
        Stage::Stage2 => {
            p.stage_2 = String::from_str(v);
        },
        Stage::Stage3 => {
            p.stage_3 = String::from_str(v);
        },
        Stage::Stage4 => {
            p.stage_4 = String::from_str(v);
        },
        Stage::Stage5 => {
            p.stage_5 = String::from_str(v);
        },
    }
}

pub open spec fn status_str_spec(s: StatusVal) -> Seq<char> {
    match s {
        StatusVal::NotStarted => "not-started"@,
        StatusVal::InProgress => "in-progress"@,
        StatusVal::Complete => "complete"@,
    }
}

/// The canonical text of a status value.
pub fn status_to_str(s: StatusVal) -> (r: &'static str)
    ensures
        r@ == status_str_spec(s),
{
    match s {
        StatusVal::NotStarted => "not-started",
        StatusVal::InProgress => "in-progress",
        StatusVal::Complete => "complete",
    }
}

/// The lines of the progress table, header first.
pub open spec fn progress_table_spec(p: Progress) -> Seq<Seq<char>> {
    seq![
        "Stage     Status"@,
        "--------  -----------"@,
        "stage-1  "@ + p.stage_1@,
        "stage-2  "@ + p.stage_2@,
        "stage-3  "@ + p.stage_3@,
        "stage-4  "@ + p.stage_4@,
        "stage-5  "@ + p.stage_5@,
    ]
}

pub fn progress_table(p: &Progress) -> (r: Vec<String>)
    ensures
        r.deep_view() == progress_table_spec(*p),
{
    let mut r: Vec<String> = Vec::new();
    r.push(String::from_str("Stage     Status"));
    r.push(String::from_str("--------  -----------"));
    let mut l1 = String::from_str("stage-1  ");
    l1.append(p.stage_1.as_str());
    r.push(l1);
    let mut l2 = String::from_str("stage-2  ");
    l2.append(p.stage_2.as_str());
    r.push(l2);
    let mut l3 = String::from_str("stage-3  ");
    l3.append(p.stage_3.as_str());
    r.push(l3);
    let mut l4 = String::from_str("stage-4  ");
    l4.append(p.stage_4.as_str());
    r.push(l4);
    let mut l5 = String::from_str("stage-5  ");
    l5.append(p.stage_5.as_str());
    r.push(l5);
    proof {
        assert(r.deep_view() =~~= progress_table_spec(*p));
    }
    r
}

} // verus!
