pub mod color;
pub mod morse;
pub mod off;
pub mod pattern;
pub mod strobe;
pub mod util;
pub mod wave;
