//! The stages of a revocation.

use vstd::prelude::*;
use crate::text::same_text;

verus! {

/// How many stages a revocation has.
pub const STAGES: usize = 8;

/// The name of the stage of rank `r`.
pub open spec fn stage_text(r: int) -> Seq<char> {
    if r == 0 {
        "detect"@
    } else if r == 1 {
        "report_sent"@
    } else if r == 2 {
        "report_received"@
    } else if r == 3 {
        "decision"@
    } else if r == 4 {
        "issued"@
    } else if r == 5 {
        "published"@
    } else if r == 6 {
        "downloaded"@
    } else {
        "enforced"@
    }
}

/// The name of the stage of rank `r`.
pub fn stage_name(r: usize) -> (s: &'static str)
    requires
        r < STAGES,
    ensures
        s@ == stage_text(r as int),
{
    match r {
        0 => "detect",
        1 => "report_sent",
        2 => "report_received",
        3 => "decision",
        4 => "issued",
        5 => "published",
        6 => "downloaded",
        _ => "enforced",
    }
}

/// The rank of a stage in the order of a revocation, if it is a declared stage.
pub open spec fn rank_of_stage(name: Seq<char>) -> Option<usize> {
    if name == stage_text(0) {
        Some(0)
    } else if name == stage_text(1) {
        Some(1)
    } else if name == stage_text(2) {
        Some(2)
    } else if name == stage_text(3) {
        Some(3)
    } else if name == stage_text(4) {
        Some(4)
    } else if name == stage_text(5) {
        Some(5)
    } else if name == stage_text(6) {
        Some(6)
    } else if name == stage_text(7) {
        Some(7)
    } else {
        None
    }
}

/// The rank of a stage in the order of a revocation, if it is a declared stage.
pub fn stage_rank(name: &str) -> (r: Option<usize>)
    ensures
        r == rank_of_stage(name@),
        r matches Some(k) ==> k < STAGES && name@ == stage_text(k as int),
{
    if same_text(name, "detect") {
        Some(0)
    } else if same_text(name, "report_sent") {
        Some(1)
    } else if same_text(name, "report_received") {
        Some(2)
    } else if same_text(name, "decision") {
        Some(3)
    } else if same_text(name, "issued") {
        Some(4)
    } else if same_text(name, "published") {
        Some(5)
    } else if same_text(name, "downloaded") {
        Some(6)
    } else if same_text(name, "enforced") {
        Some(7)
    } else {
        None
    }
}

/// Every rank is that of its stage's name: the stages have different names.
pub proof fn stage_ranks_are_distinct(r: usize)
    requires
        r < STAGES,
    ensures
        rank_of_stage(stage_text(r as int)) == Some(r),
{
    reveal_strlit("detect");
    reveal_strlit("report_sent");
    reveal_strlit("report_received");
    reveal_strlit("decision");
    reveal_strlit("issued");
    reveal_strlit("published");
    reveal_strlit("downloaded");
    reveal_strlit("enforced");
    assert("detect"@.len() == 6);
    assert("report_sent"@.len() == 11);
    assert("report_received"@.len() == 15);
    assert("decision"@.len() == 8);
    assert("issued"@.len() == 6);
    assert("published"@.len() == 9);
    assert("downloaded"@.len() == 10);
    assert("enforced"@.len() == 8);
    assert("detect"@[0] != "issued"@[0]);
    assert("decision"@[0] != "enforced"@[0]);
}

/// A revocation goes from its detection over the report, which is sent and then received, to
/// the decision; then it is issued, published, downloaded and enforced.
pub proof fn the_stages_follow_one_another()
    ensures
        stage_text(0) == "detect"@,
        stage_text(1) == "report_sent"@,
        stage_text(2) == "report_received"@,
        stage_text(3) == "decision"@,
        stage_text(4) == "issued"@,
        stage_text(5) == "published"@,
        stage_text(6) == "downloaded"@,
        stage_text(7) == "enforced"@,
        STAGES == 8,
{
}

} // verus!
