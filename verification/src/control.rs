//! The colorization policy: whether escape codes should be emitted at all.
//!
//! The decision combines, in strict precedence order, a manual override, the
//! resolved `CLICOLOR_FORCE`/`NO_COLOR` signals, and the `CLICOLOR`/terminal
//! signal. Reading the environment and the terminal is the embedding
//! application's business; this module receives those observations as plain
//! values and is verified to combine them exactly as documented.

use vstd::prelude::*;
use crate::strutil::str_eq;

verus! {

/// A flag to tell if coloring should occur.
#[derive(Clone, Copy, Debug)]
pub struct ShouldColorize {
    /// `CLICOLOR` status, already combined with the terminal check.
    clicolor: bool,
    /// Resolved `CLICOLOR_FORCE`/`NO_COLOR` status, if either was present.
    clicolor_force: Option<bool>,
    /// Whether a manual override is in effect.
    has_manual_override: bool,
    /// The manual override value, meaningful when an override is in effect.
    manual_override: bool,
}

impl ShouldColorize {
    /// The `CLICOLOR` signal, combined with the terminal check, as resolved
    /// from the environment.
    pub closed spec fn spec_clicolor(self) -> bool {
        self.clicolor
    }

    /// The resolved `CLICOLOR_FORCE`/`NO_COLOR` signal.
    pub closed spec fn spec_clicolor_force(self) -> Option<bool> {
        self.clicolor_force
    }

    /// The manual override, if one is in effect.
    pub closed spec fn spec_manual_override(self) -> Option<bool> {
        if self.has_manual_override {
            Some(self.manual_override)
        } else {
            None
        }
    }

    /// The decision the policy resolves to: override first, then the
    /// force signal, then `CLICOLOR`.
    pub open spec fn spec_should_colorize(self) -> bool {
        match self.spec_manual_override() {
            Some(v) => v,
            None => match self.spec_clicolor_force() {
                Some(forced) => forced,
                None => self.spec_clicolor(),
            },
        }
    }

    /// Interprets one environment variable lookup: absent means no signal,
    /// any value other than the literal `"0"` means enabled.
    pub open spec fn spec_normalize_env(env_res: Option<Seq<char>>) -> Option<bool> {
        match env_res {
            None => None,
            Some(s) => Some(s != seq!['0']),
        }
    }

    /// Resolution of the forcing signals: `CLICOLOR_FORCE` set and not `"0"`
    /// forces on; otherwise `NO_COLOR` set (to anything) forces off;
    /// otherwise no signal.
    pub open spec fn spec_resolve_clicolor_force(
        no_color: Option<Seq<char>>,
        clicolor_force: Option<Seq<char>>,
    ) -> Option<bool> {
        if Self::spec_normalize_env(clicolor_force) == Some(true) {
            Some(true)
        } else if Self::spec_normalize_env(no_color) is Some {
            Some(false)
        } else {
            None
        }
    }

    /// Interprets one environment variable lookup as an enable/disable signal.
    pub fn normalize_env(env_res: Option<String>) -> (r: Option<bool>)
        ensures
            r == Self::spec_normalize_env(match env_res {
                Some(s) => Some(s@),
                None => None,
            }),
    {
        match env_res {
            None => None,
            Some(s) => {
                proof {
                    reveal_strlit("0");
                    assert("0"@ =~= seq!['0']);
                }
                Some(!str_eq(s.as_str(), "0"))
            },
        }
    }

    /// Resolves the `CLICOLOR_FORCE` and `NO_COLOR` environment signals.
    pub fn resolve_clicolor_force(
        no_color: Option<String>,
        clicolor_force: Option<String>,
    ) -> (r: Option<bool>)
        ensures
            r == Self::spec_resolve_clicolor_force(
                match no_color {
                    Some(s) => Some(s@),
                    None => None,
                },
                match clicolor_force {
                    Some(s) => Some(s@),
                    None => None,
                },
            ),
    {
        let force = Self::normalize_env(clicolor_force);
        if force == Some(true) {
            Some(true)
        } else if Self::normalize_env(no_color).is_some() {
            Some(false)
        } else {
            None
        }
    }

    /// Builds the policy from the three environment lookups and the
    /// "is standard output an interactive terminal" observation.
    pub fn from_env_parts(
        clicolor: Option<String>,
        no_color: Option<String>,
        clicolor_force: Option<String>,
        stdout_is_tty: bool,
    ) -> (r: Self)
        ensures
            r.spec_clicolor() == ({
                let sig = Self::spec_normalize_env(match clicolor {
                    Some(s) => Some(s@),
                    None => None,
                });
                (match sig {
                    Some(v) => v,
                    None => true,
                }) && stdout_is_tty
            }),
            r.spec_clicolor_force() == Self::spec_resolve_clicolor_force(
                match no_color {
                    Some(s) => Some(s@),
                    None => None,
                },
                match clicolor_force {
                    Some(s) => Some(s@),
                    None => None,
                },
            ),
            r.spec_manual_override() is None,
    {
        let cli = match Self::normalize_env(clicolor) {
            Some(v) => v,
            None => true,
        };
        ShouldColorize {
            clicolor: cli && stdout_is_tty,
            clicolor_force: Self::resolve_clicolor_force(no_color, clicolor_force),
            has_manual_override: false,
            manual_override: false,
        }
    }

    /// Returns if the current coloring is expected.
    pub fn should_colorize(&self) -> (r: bool)
        ensures
            r == self.spec_should_colorize(),
    {
        if self.has_manual_override {
            return self.manual_override;
        }
        if let Some(forced_value) = self.clicolor_force {
            return forced_value;
        }
        self.clicolor
    }

    /// Use this to force the policy to ignore the environment and always or
    /// never colorize.
    pub fn set_override(&mut self, override_colorize: bool)
        ensures
            final(self).spec_manual_override() == Some(override_colorize),
            final(self).spec_clicolor() == old(self).spec_clicolor(),
            final(self).spec_clicolor_force() == old(self).spec_clicolor_force(),
    {
        self.has_manual_override = true;
        self.manual_override = override_colorize;
    }

    /// Removes the manual override and lets the environment decide whether
    /// it is ok to colorize.
    pub fn unset_override(&mut self)
        ensures
            final(self).spec_manual_override() is None,
            final(self).spec_clicolor() == old(self).spec_clicolor(),
            final(self).spec_clicolor_force() == old(self).spec_clicolor_force(),
    {
        self.has_manual_override = false;
    }
}

/// With `NO_COLOR` set and `CLICOLOR_FORCE` unset or `"0"`, a policy
/// without a manual override never colorizes, whatever `CLICOLOR` and the
/// terminal said.
pub proof fn lemma_no_color_forces_off(
    p: ShouldColorize,
    no_color: Seq<char>,
    clicolor_force: Option<Seq<char>>,
)
    requires
        p.spec_manual_override() is None,
        p.spec_clicolor_force() == ShouldColorize::spec_resolve_clicolor_force(
            Some(no_color),
            clicolor_force,
        ),
        ShouldColorize::spec_normalize_env(clicolor_force) != Some(true),
    ensures
        !p.spec_should_colorize(),
{
}

/// With `CLICOLOR_FORCE` set to anything but `"0"`, a policy without a
/// manual override always colorizes, whatever `NO_COLOR`, `CLICOLOR` and
/// the terminal said.
pub proof fn lemma_clicolor_force_wins(
    p: ShouldColorize,
    no_color: Option<Seq<char>>,
    clicolor_force: Seq<char>,
)
    requires
        p.spec_manual_override() is None,
        p.spec_clicolor_force() == ShouldColorize::spec_resolve_clicolor_force(
            no_color,
            Some(clicolor_force),
        ),
        clicolor_force != seq!['0'],
    ensures
        p.spec_should_colorize(),
{
}

/// A manual override decides alone, whatever the environment resolved to.
pub proof fn lemma_override_wins(p: ShouldColorize, v: bool)
    requires
        p.spec_manual_override() == Some(v),
    ensures
        p.spec_should_colorize() == v,
{
}

impl Default for ShouldColorize {
    /// The policy with no environment signals: colorize.
    fn default() -> (r: Self)
        ensures
            r.spec_clicolor() == true,
            r.spec_clicolor_force() is None,
            r.spec_manual_override() is None,
    {
        ShouldColorize {
            clicolor: true,
            clicolor_force: None,
            has_manual_override: false,
            manual_override: false,
        }
    }
}

} // verus!
