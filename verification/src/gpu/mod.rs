//! Items that describe work for the graphics hardware.

pub mod render_pass;
