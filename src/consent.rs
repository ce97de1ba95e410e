//! The per-group, per-user switch that decides whether a user's messages are archived.
use vstd::prelude::*;

verus! {

/// One user's archiving switch in one group: archiving is on when `allow` is not zero.
#[derive(Clone, Copy, Debug, PartialEq, Eq, Structural)]
pub struct Config {
    pub group_id: i64,
    pub user_id: u64,
    pub allow: u64,
}

/// The switch of a user who never touched it: archiving on.
pub open spec fn default_config(group_id: i64, user_id: u64) -> Config {
    Config { group_id, user_id, allow: 1 }
}

/// The switch after it is set to `allow`.
pub open spec fn set_config(c: Config, allow: bool) -> Config {
    Config {
        allow: if allow {
            1
        } else {
            0
        },
        ..c
    }
}

impl Config {
    pub open spec fn allows(self) -> bool {
        self.allow != 0
    }

    /// The stored switch if there is one, else the default one, which allows.
    pub fn get_or_default(stored: Option<Config>, group_id: i64, user_id: u64) -> (r: Config)
        ensures
            r == match stored {
                Some(c) => c,
                None => default_config(group_id, user_id),
            },
    {
        match stored {
            Some(c) => c,
            None => Config { group_id, user_id, allow: 1 },
        }
    }

    /// Whether this user's messages in this group are archived.
    pub fn is_allowed(&self) -> (r: bool)
        ensures
            r == self.allows(),
    {
        self.allow != 0
    }

    /// The switch set to `allow`; last write wins.
    pub fn with_allow(&self, allow: bool) -> (r: Config)
        ensures
            r == set_config(*self, allow),
    {
        Config {
            group_id: self.group_id,
            user_id: self.user_id,
            allow: if allow {
                1
            } else {
                0
            },
        }
    }

    /// The switch turned the other way.
    pub fn toggled(&self) -> (r: Config)
        ensures
            r == set_config(*self, !self.allows()),
    {
        self.with_allow(!self.is_allowed())
    }
}

/// Setting the switch twice to one value is setting it once; toggling flips it, and
/// toggling twice gives back what it allowed; a pair that was never set allows.
pub proof fn lemma_consent_toggle(c: Config, v: bool, group_id: i64, user_id: u64)
    ensures
        set_config(set_config(c, v), v) == set_config(c, v),
        set_config(c, v).allows() == v,
        set_config(c, !c.allows()).allows() == !c.allows(),
        set_config(set_config(c, !c.allows()), !set_config(c, !c.allows()).allows()).allows()
            == c.allows(),
        default_config(group_id, user_id).allows(),
{
}

} // verus!
