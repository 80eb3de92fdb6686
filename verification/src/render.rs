//
// Turning a workspace list into the bar's label row: one label per
// record, the record's name as text, a bright foreground for the
// focused workspace and a dim one for the rest.
//
use vstd::prelude::*;
use crate::workspace::{Workspace, WorkspaceV};

verus! {

/// The two foreground colors a workspace label can take. The GUI shell
/// maps them to its own color values.
#[derive(Clone, Copy, Debug, PartialEq, Eq, Structural)]
pub enum Color {
    /// The bright foreground of the focused workspace.
    Gray,
    /// The dim foreground of every other workspace.
    DarkGray,
}

/// One label of the workspace row: its text (as UTF-8 bytes) and its
/// foreground color.
#[derive(Clone, Debug)]
pub struct LabelSpec {
    pub text: Vec<u8>,
    pub color: Color,
}

/// The mathematical view of one label.
pub struct LabelV {
    pub text: Seq<u8>,
    pub color: Color,
}

impl View for LabelSpec {
    type V = LabelV;

    open spec fn view(&self) -> LabelV {
        LabelV { text: self.text@, color: self.color }
    }
}

/// The label a single workspace record is rendered to.
pub open spec fn spec_label_of(w: WorkspaceV) -> LabelV {
    LabelV {
        text: w.name,
        color: if w.focused {
            Color::Gray
        } else {
            Color::DarkGray
        },
    }
}

/// The label row a workspace list is rendered to, in the list's order.
pub open spec fn spec_labels(ws: Seq<WorkspaceV>) -> Seq<LabelV> {
    ws.map_values(|w: WorkspaceV| spec_label_of(w))
}

/// How many labels of a row carry the bright foreground.
pub open spec fn count_gray(ls: Seq<LabelV>) -> int
    decreases ls.len(),
{
    if ls.len() == 0 {
        0
    } else {
        count_gray(ls.drop_last()) + if ls.last().color == Color::Gray {
            1int
        } else {
            0int
        }
    }
}

/// How many records of a workspace list are focused.
pub open spec fn count_focused(ws: Seq<WorkspaceV>) -> int
    decreases ws.len(),
{
    if ws.len() == 0 {
        0
    } else {
        count_focused(ws.drop_last()) + if ws.last().focused {
            1int
        } else {
            0int
        }
    }
}

fn copy_bytes(v: &Vec<u8>) -> (r: Vec<u8>)
    ensures
        r@ == v@,
{
    let mut r: Vec<u8> = Vec::new();
    let mut i: usize = 0;
    while i < v.len()
        invariant
            i <= v@.len(),
            r@ == v@.subrange(0, i as int),
        decreases v@.len() - i,
    {
        r.push(v[i]);
        i = i + 1;
        proof {
            assert(r@ =~= v@.subrange(0, i as int));
        }
    }
    proof {
        assert(r@ =~= v@);
    }
    r
}

/// Renders the workspace list into the label row: one label per record,
/// in order, the record's name as the text, and the bright foreground
/// exactly on the focused records.
pub fn workspace_labels(ws: &Vec<Workspace>) -> (r: Vec<LabelSpec>)
    ensures
        r@.map_values(|l: LabelSpec| l@) == spec_labels(ws@.map_values(|w: Workspace| w@)),
{
    let ghost wsv: Seq<WorkspaceV> = ws@.map_values(|w: Workspace| w@);
    let mut r: Vec<LabelSpec> = Vec::new();
    let mut i: usize = 0;
    while i < ws.len()
        invariant
            i <= ws@.len(),
            wsv == ws@.map_values(|w: Workspace| w@),
            r@.len() == i,
            forall|k: int| 0 <= k < i ==> #[trigger] r@[k]@ == spec_label_of(wsv[k]),
        decreases ws@.len() - i,
    {
        let w = &ws[i];
        let color = if w.focused {
            Color::Gray
        } else {
            Color::DarkGray
        };
        let label = LabelSpec { text: copy_bytes(&w.name), color };
        proof {
            assert(wsv[i as int] == ws@[i as int]@);
            assert(label@ == spec_label_of(wsv[i as int]));
        }
        r.push(label);
        i = i + 1;
    }
    proof {
        let s1 = r@.map_values(|l: LabelSpec| l@);
        let s2 = spec_labels(wsv);
        assert forall|k: int| 0 <= k < wsv.len() implies s1[k] == s2[k] by {
            assert(r@[k]@ == spec_label_of(wsv[k]));
        }
        assert(s1 =~= s2);
    }
    r
}

/// The rendered label row lists, in order, exactly the `name` fields of
/// the records it was built from.
pub proof fn lemma_labels_are_names(ws: Seq<WorkspaceV>)
    ensures
        spec_labels(ws).len() == ws.len(),
        spec_labels(ws).map_values(|l: LabelV| l.text) =~= ws.map_values(|w: WorkspaceV| w.name),
{
    let lhs = spec_labels(ws).map_values(|l: LabelV| l.text);
    let rhs = ws.map_values(|w: WorkspaceV| w.name);
    assert forall|i: int| 0 <= i < ws.len() implies lhs[i] == rhs[i] by {
        assert(spec_labels(ws)[i] == spec_label_of(ws[i]));
    }
    assert(lhs =~= rhs);
}

/// The bright foreground appears exactly as often as a record is
/// focused, and every other label carries the dim foreground.
pub proof fn lemma_gray_count(ws: Seq<WorkspaceV>)
    ensures
        count_gray(spec_labels(ws)) == count_focused(ws),
        forall|i: int|
            0 <= i < ws.len() && spec_labels(ws)[i].color != Color::Gray
                ==> spec_labels(ws)[i].color == Color::DarkGray,
    decreases ws.len(),
{
    if ws.len() == 0 {
        assert(spec_labels(ws).len() == 0);
    } else {
        lemma_gray_count(ws.drop_last());
        assert(spec_labels(ws.drop_last()) =~= spec_labels(ws).drop_last());
        assert(spec_labels(ws).last() == spec_label_of(ws.last()));
    }
}

} // verus!
