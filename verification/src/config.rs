//! Names and numbers that identify the application.

use vstd::prelude::*;

verus! {

/// Directory name under which the application keeps its session folders.
pub const APP_NAME: &'static str = "mailviewer";

/// Version shown in the window title.
pub const VERSION: &'static str = "1.0.0";

} // verus!
