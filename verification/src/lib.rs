//! Parsing and geometric analysis of 3D mesh files (STL, OBJ and friends),
//! with the decisions of the tagging and processing pipeline around them.
//!
//! Coordinates are carried as IEEE-754 binary32 bit patterns (`u32`), so that
//! every coordinate read from a file is kept exactly and compared by the
//! order that binary32 values have.
pub mod error;
pub mod float_bits;
pub mod geometry;
pub mod mesh;
pub mod obj;
pub mod parser;
pub mod processor;
pub mod stl;
pub mod tagger;
pub mod text;
pub mod thumbnail;
