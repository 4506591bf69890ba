//! The configuration and selection engine of a wallpaper picker: the
//! `key = value` configuration file, the catalog of images in the wallpaper
//! directory, and the steps of one run, from setup to the recorded history.
use vstd::prelude::*;

pub mod text;
pub mod config;
pub mod catalog;
pub mod session;
pub mod flow;

verus! {

} // verus!
