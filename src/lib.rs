//! Sprite-based widgets for small monochrome displays.
//!
//! Glyph bitmaps live in immutable sprites; widgets remember what they last
//! drew, mark stale cells dirty and hand one draw call per dirty cell to a
//! sink. A sink either blits bitmaps onto a local canvas or forwards compact
//! render requests to a remote controller that stores the sprites itself.
pub mod display;
pub mod fx;
pub mod geometry;
pub mod glyphs;
pub mod layout;
pub mod prelude;
pub mod request;
pub mod sink;
pub mod sprites;
pub mod widgets;

pub use display::SpriteDisplay;
pub use fx::{FxCommand, FxDisplay, Link, LinkRead};
pub use geometry::{Point, Rectangle, Size};
pub use glyphs::{Glyph, Glyphs, SpriteId};
pub use layout::{
    DirDown, DirLeft, DirRight, DirUp, GridLayout, Layout, WrapLayout, DIR_DOWN, DIR_LTR, DIR_RTL,
    DIR_UP,
};
pub use request::RenderRequest;
pub use sink::{clear_plan, Canvas, Display};
pub use sprites::FlashSprite;
pub use widgets::background::Background;
pub use widgets::grid::Grid;
pub use widgets::group::{Group, Mux, MuxNode};
pub use widgets::icon::Icon;
pub use widgets::tile::Tile;
pub use widgets::{GlyphIcon, Label, VerticalLabel, Widget, WrapPanel, UNWRAPPED};
