//
// The decoded form of one workspace record from the window manager's
// query response. Display strings are kept as their UTF-8 bytes; the
// GUI shell turns them into toolkit strings at the edge.
//
use vstd::prelude::*;

verus! {

/// The geometry rectangle of a workspace record.
#[derive(Clone, Copy, Debug, PartialEq, Eq, Structural)]
pub struct Rect {
    pub x: i64,
    pub y: i64,
    pub width: i64,
    pub height: i64,
}

/// One workspace record, with every field the wire format carries.
/// Only `name` and `focused` drive the display; the rest must still
/// decode cleanly for the record to count as well formed.
#[derive(Clone, Debug)]
pub struct Workspace {
    pub id: i64,
    pub name: Vec<u8>,
    pub rect: Rect,
    pub layout: Vec<u8>,
    pub urgent: bool,
    pub fullscreen_mode: i64,
    pub output: Vec<u8>,
    pub focused: bool,
    pub visible: bool,
}

/// The mathematical view of a workspace record.
pub struct WorkspaceV {
    pub id: int,
    pub name: Seq<u8>,
    pub rect: Rect,
    pub layout: Seq<u8>,
    pub urgent: bool,
    pub fullscreen_mode: int,
    pub output: Seq<u8>,
    pub focused: bool,
    pub visible: bool,
}

impl View for Workspace {
    type V = WorkspaceV;

    open spec fn view(&self) -> WorkspaceV {
        WorkspaceV {
            id: self.id as int,
            name: self.name@,
            rect: self.rect,
            layout: self.layout@,
            urgent: self.urgent,
            fullscreen_mode: self.fullscreen_mode as int,
            output: self.output@,
            focused: self.focused,
            visible: self.visible,
        }
    }
}

} // verus!
