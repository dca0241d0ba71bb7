//! A terminal-UI focus-and-pagination engine.
//!
//! The crate owns a set of named widgets behind a uniform capability
//! interface, routes abstract input events through a modal state machine
//! (normal / insert / pending-`g`) to the focused widget, and implements
//! soft-wrap pagination for a styled text panel and a multi-column
//! selectable table.  Rendering and raw input stay outside: the engine
//! only computes what is visible.

pub mod app;
pub mod errors;
pub mod events;
pub mod geom;
pub mod pagination;
pub mod paragraph;
pub mod style;
pub mod table;
pub mod text;
pub mod widget;

pub use app::{App, Outcome, Status, WidgetPlan};
pub use errors::UiError;
pub use events::{ChannelClosed, Event, Events};
pub use geom::{Direction, Rect, Region};
pub use pagination::Run;
pub use paragraph::IParagraph;
pub use style::{Color, Style};
pub use table::{ColumnPlan, Highlight, HighlightRule, ITable};
pub use widget::{IEmpty, NavCap, RenderPlan, Widget};
