//! The one piece of configuration the core itself owns: the separator drawn
//! between board names in the navigation path line. Colors and styling are
//! presentation concerns and live with the application.

use vstd::prelude::*;

verus! {

/// Separator between the names of nested boards in the path line.
pub struct PathSeparator(pub String);

impl Default for PathSeparator {
    fn default() -> (r: Self)
        ensures
            r.0@ == " 〉 "@,
    {
        PathSeparator(" 〉 ".to_owned())
    }
}

} // verus!
