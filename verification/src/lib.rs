//! everwall: recolor wallpapers onto the Everforest palettes.
//!
//! The verified library holds the integer side of the program: hex color
//! parsing, the palette tables and how a palette is assembled from them, the
//! choice of which palette anchors take part in a pixel's blend, and the
//! default output file name.

pub mod color;
pub mod palette;
pub mod recolor;
pub mod output;
