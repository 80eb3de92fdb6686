//
// A minimal status bar core for a tiling window manager: it decodes the
// manager's workspace query payload, turns the records into label
// descriptions (text and one of two foreground colors), formats the
// wall-clock line, and keeps the bar's display state as a small model
// that the surrounding GUI shell mirrors into widgets.
//
pub mod clock;
pub mod model;
pub mod render;
pub mod wire;
pub mod workspace;
