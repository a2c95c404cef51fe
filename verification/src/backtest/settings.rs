//! The settings of a backtest.

use vstd::prelude::*;

use crate::config::Config;

verus! {

/// The settings of a backtest.
pub fn backtest_config() -> (c: Config)
    ensures
        c.is_offline(),
{
    Config::offline()
}

} // verus!
