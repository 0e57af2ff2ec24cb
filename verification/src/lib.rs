use vstd::prelude::*;

pub mod error;
pub mod chars;
pub mod number;
pub mod util;
pub mod stroke;
pub mod transform;
pub mod text;
pub mod path;
pub mod canvas;
pub mod commands;
pub mod render;
