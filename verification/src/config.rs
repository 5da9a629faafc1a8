//! User preferences.

use vstd::prelude::*;

verus! {

/// The preferences that are kept between runs. There are none yet.
#[derive(Clone, Copy, Debug, PartialEq, Eq, Structural)]
pub struct Config {}

impl Default for Config {
    fn default() -> (res: Self)
        ensures
            res == (Config {  }),
    {
        Config {  }
    }
}

} // verus!
