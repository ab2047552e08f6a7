//! The settings that are kept between runs.

use vstd::prelude::*;

verus! {

/// The settings.
#[derive(Debug, Clone, Copy, PartialEq, Eq, Structural)]
pub struct Config {
    /// The charge limit that is wanted, in percent, 20 to 100.
    pub charge_limit: u8,
    /// Whether the limit is set when the program starts.
    pub auto_apply_on_start: bool,
    /// Whether the limit is set again at each start of the system.
    pub persistent_limit: bool,
    /// How many seconds pass between two readings.
    pub refresh_secs: u64,
}

/// The settings where none are stored.
pub open spec fn default_config() -> Config {
    Config {
        charge_limit: 80,
        auto_apply_on_start: false,
        persistent_limit: false,
        refresh_secs: 5,
    }
}

impl Default for Config {
    fn default() -> (r: Self)
        ensures
            r == default_config(),
    {
        Config {
            charge_limit: 80,
            auto_apply_on_start: false,
            persistent_limit: false,
            refresh_secs: 5,
        }
    }
}

/// The charge limit that is nearest to a stored one: 20 to 100 percent.
pub open spec fn limit_within(limit: u8) -> u8 {
    if limit < 20 {
        20
    } else if limit > 100 {
        100
    } else {
        limit
    }
}

/// The settings that are loaded, given those that are stored.
pub open spec fn loaded(stored: Option<Config>) -> Config {
    match stored {
        Some(c) => Config { charge_limit: limit_within(c.charge_limit), ..c },
        None => default_config(),
    }
}

/// Settings with a charge limit that a battery can have are loaded as they were
/// stored.
pub proof fn law_settings_read_back(c: Config)
    requires
        20 <= c.charge_limit <= 100,
    ensures
        loaded(Some(c)) == c,
{
}

/// Settings that were loaded and are stored again are loaded as they are.
pub proof fn law_loading_settles(stored: Option<Config>)
    ensures
        loaded(Some(loaded(stored))) == loaded(stored),
{
}

impl Config {
    /// The settings that are stored, with the nearest charge limit that a
    /// battery can have; the usual ones where none are stored, or none that can
    /// be read.
    pub fn load(stored: Option<Config>) -> (r: Self)
        ensures
            r == loaded(stored),
            20 <= r.charge_limit <= 100,
    {
        match stored {
            Some(c) => {
                let charge_limit: u8 = if c.charge_limit < 20 {
                    20
                } else if c.charge_limit > 100 {
                    100
                } else {
                    c.charge_limit
                };
                Config { charge_limit, ..c }
            },
            None => Config::default(),
        }
    }
}

// ── Laws ────────────────────────────────────────────────────────────────────

/// No limit that a battery can have is nearer to the stored one than the one
/// that is loaded; the other settings are loaded as they are stored.
pub proof fn law_nearest_limit_loaded(c: Config, limit: u8)
    requires
        20 <= limit <= 100,
    ensures
        ({
            let l = loaded(Some(c)).charge_limit as int;
            let stored = c.charge_limit as int;
            let off = if l < stored {
                stored - l
            } else {
                l - stored
            };
            let other = if limit < stored {
                stored - limit
            } else {
                limit - stored
            };
            &&& 20 <= l <= 100
            &&& off <= other
            &&& loaded(Some(c)) == (Config { charge_limit: l as u8, ..c })
        }),
{
}


/// Where nothing is stored, the limit is eighty percent and set neither at the
/// start nor for good, and everything is read every five seconds.
pub proof fn law_usual_settings()
    ensures
        ({
            let c = loaded(None);
            &&& c.charge_limit == 80
            &&& !c.auto_apply_on_start
            &&& !c.persistent_limit
            &&& c.refresh_secs == 5
        }),
{
}

} // verus!
