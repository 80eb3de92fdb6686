//
// The bar's display state: the workspace label row and the clock line.
// The GUI shell owns the widgets; this model decides what they show.
// A workspace-change signal triggers a rebuild from a fresh query
// payload; the periodic tick replaces the clock line. Both operations
// absorb malformed input instead of failing.
//
use vstd::prelude::*;
use crate::clock::{now, spec_format_ts};
use crate::render::{spec_labels, workspace_labels, LabelSpec, LabelV};
use crate::wire::{decode_workspaces, spec_decode};

verus! {

/// What the label row must show after a rebuild from the query payload
/// `payload`: the rendering of the decoded records, whatever the row
/// held before.
pub open spec fn spec_rebuild(prior: Seq<LabelV>, payload: Seq<u8>) -> Seq<LabelV> {
    spec_labels(spec_decode(payload))
}

/// The display state of the bar: one label per workspace, and the
/// clock line's text.
pub struct UiModel {
    pub labels: Vec<LabelSpec>,
    pub clock: String,
}

impl UiModel {
    /// An empty bar: no workspace labels, an empty clock line.
    pub fn new() -> (r: UiModel)
        ensures
            r.labels@.len() == 0,
            r.clock@.len() == 0,
    {
        UiModel { labels: Vec::new(), clock: String::new() }
    }

    /// Replaces the label row with the rendering of the given query
    /// payload; the clock line is untouched. The result does not depend
    /// on what the row held before.
    pub fn rebuild_workspaces(&mut self, payload: &Vec<u8>)
        ensures
            final(self).labels@.map_values(|l: LabelSpec| l@) == spec_rebuild(
                old(self).labels@.map_values(|l: LabelSpec| l@),
                payload@,
            ),
            final(self).clock == old(self).clock,
    {
        let ws = decode_workspaces(payload);
        let ls = workspace_labels(&ws);
        self.labels = ls;
    }

    /// Replaces the clock line with the current wall-clock time,
    /// rendered as `YYYY-MM-DD HH:MM:SS`; the label row is untouched.
    pub fn tick(&mut self)
        ensures
            final(self).labels == old(self).labels,
            exists|y: int, mo: int, d: int, h: int, mi: int, s: int|
                1 <= mo <= 12 && 1 <= d <= 31 && 0 <= h <= 23 && 0 <= mi <= 59 && 0 <= s <= 59
                    && final(self).clock@ == #[trigger] spec_format_ts(y, mo, d, h, mi, s),
    {
        let t = now();
        self.clock = t;
    }
}

/// A rebuild is a function of the query payload alone: two rebuilds
/// from any two prior rows end in the same row when their payloads are
/// equal.
pub proof fn lemma_rebuild_idempotent(
    prior1: Seq<LabelV>,
    prior2: Seq<LabelV>,
    payload: Seq<u8>,
)
    ensures
        spec_rebuild(prior1, payload) == spec_rebuild(prior2, payload),
{
}

} // verus!
