//! Rich text and formatting primitives for the terminal, with contracts
//! checked by Verus.

pub mod strutil;
pub mod control;
pub mod errors;
pub mod color_names;
pub mod color;
pub mod cells;
pub mod emoji;
pub mod box_drawing;
pub mod filesize;
pub mod style;
pub mod segment;
pub mod text;
pub mod export;
pub mod theme;
pub mod console;
pub mod measure;
pub mod align;
pub mod markup;
pub mod layout;
pub mod table;
pub mod columns;
pub mod panel;
pub mod inspect;
pub mod ansi;
pub mod prompt;
pub mod log_render;
pub mod padding;
pub mod constrain;
pub mod containers;
pub mod pager;
pub mod live_render;
pub mod palette;
pub mod progress_columns;
pub mod pretty;
pub mod json;
pub mod markdown;
pub mod file_proxy;
pub mod highlighter;
pub mod diagnose;
pub mod logging;
pub mod live;
