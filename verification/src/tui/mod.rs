//! What the terminal shows.

pub mod msg_area;
pub mod style;
