//! Small collection utilities: an integer sequence with checked and safe
//! access plus in-place scaling, a string-keyed integer map with
//! update-or-insert semantics, mean/median/mode statistics, and a Pig Latin
//! text transform, together with a handful of small verified examples
//! (rectangle areas, enums, strings, slices, structs).

pub mod enums;
pub mod generics;
pub mod maps;
pub mod pig_latin;
pub mod rectangles;
pub mod references;
pub mod restaurant;
pub mod slices;
pub mod stats;
pub mod strings;
pub mod structs;
pub mod vectors;
