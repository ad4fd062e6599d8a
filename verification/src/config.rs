//! The settings of the database.

use vstd::prelude::*;

verus! {

/// The settings of the database.
#[derive(Debug, Clone, Copy)]
pub struct Config {
    /// How many cells a hive may hold.
    pub max_cells_per_hive: usize,
    /// The compression level, from 0 to 9.
    pub compression_level: u8,
    /// Whether swarm optimization is switched on.
    pub enable_swarm_optimization: bool,
    /// Width and height of the grid of a hive.
    pub grid_dimensions: (usize, usize),
}

impl Config {
    /// The settings that hold where none are given: 10,000 cells in a hive,
    /// compression level 6, swarm optimization on, a grid of 64 by 64.
    pub open spec fn spec_default() -> Config {
        Config {
            max_cells_per_hive: 10_000,
            compression_level: 6,
            enable_swarm_optimization: true,
            grid_dimensions: (64, 64),
        }
    }
}

impl Default for Config {
    /// The settings that hold where none are given.
    fn default() -> (config: Config)
        ensures
            config == Config::spec_default(),
    {
        Config {
            max_cells_per_hive: 10_000,
            compression_level: 6,
            enable_swarm_optimization: true,
            grid_dimensions: (64, 64),
        }
    }
}

/// The settings with each given value in place of the default one.
pub fn new_config(
    max_cells: Option<usize>,
    compression: Option<u8>,
    swarm_opt: Option<bool>,
    dimensions: Option<(usize, usize)>,
) -> (config: Config)
    ensures
        config.max_cells_per_hive == match max_cells {
            Some(n) => n,
            None => Config::spec_default().max_cells_per_hive,
        },
        config.compression_level == match compression {
            Some(level) => level,
            None => Config::spec_default().compression_level,
        },
        config.enable_swarm_optimization == match swarm_opt {
            Some(on) => on,
            None => Config::spec_default().enable_swarm_optimization,
        },
        config.grid_dimensions == match dimensions {
            Some(d) => d,
            None => Config::spec_default().grid_dimensions,
        },
{
    let default: Config = Config::default();
    Config {
        max_cells_per_hive: match max_cells {
            Some(n) => n,
            None => default.max_cells_per_hive,
        },
        compression_level: match compression {
            Some(level) => level,
            None => default.compression_level,
        },
        enable_swarm_optimization: match swarm_opt {
            Some(on) => on,
            None => default.enable_swarm_optimization,
        },
        grid_dimensions: match dimensions {
            Some(d) => d,
            None => default.grid_dimensions,
        },
    }
}

} // verus!
