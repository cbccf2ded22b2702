//! Extraction of a tool-head path from a G-code command stream, for a viewer
//! that draws the path as a wireframe.
//!
//! A line of text is decoded into a directive, on its own and with no memory
//! of the lines before it. The directives of a file, taken in order, are
//! resolved against a running cursor into the sequence of points that the
//! tool head visits: an axis that a directive leaves out keeps the value it
//! had at the point before.
//!
//! - [`syntax`] reads the command that a line leads with, through the
//!   `gcode` parser;
//! - [`decode`] reads kind and axis fields out of that command;
//! - [`path`] resolves directives into points;
//! - [`text`] holds the text overlay that the viewer draws over the path.

pub mod decode;
pub mod path;
pub mod syntax;
pub mod text;
