use vstd::prelude::*;

pub mod text;
pub mod number;
pub mod models;
pub mod session;
pub mod camera;
pub mod desktop;
pub mod devices;
pub mod preferences;
pub mod doctor;
pub mod wireless;
pub mod runtime;
pub mod creator;
pub mod managed;
pub mod desktop_backup;
pub mod desktop_watch;

verus! {

} // verus!
