//! The settings of a replay.

use vstd::prelude::*;

use crate::config::Config;

verus! {

/// The settings of a replay.
pub fn replay_config() -> (c: Config)
    ensures
        c.is_offline(),
{
    Config::offline()
}

} // verus!
