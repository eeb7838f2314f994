//! Usage accounting for the Command Code, Grok and OpenCode command-line tools: parsing of
//! their local logs and API payloads, the saved-account stores, the plan-limit cache and the
//! user preferences.

pub mod accounts;
pub mod json;
pub mod order;
pub mod preferences;
pub mod text;
pub mod time;
pub mod usage;

use vstd::prelude::*;
use std::time::{Duration, Instant};
use preferences::{Favorite, Preferences};
use usage::cache::{now, elapsed, as_nanos};

verus! {

/// What the menu-bar app keeps between events: the preferences, and when the panel was last
/// shown (the panel hides when it loses focus, except right after it was shown).
pub struct AppState {
    pub preferences: Preferences,
    pub shown_at: Option<Instant>,
}

impl AppState {
    /// The state at start-up, with the preferences that were loaded.
    pub fn new(preferences: Preferences) -> (r: AppState)
        ensures
            r.preferences == preferences,
            r.shown_at is None,
    {
        AppState { preferences, shown_at: None }
    }

    /// Notes that the panel was shown just now.
    pub fn mark_shown(&mut self)
        ensures
            final(self).preferences == old(self).preferences,
            final(self).shown_at is Some,
    {
        self.shown_at = Some(now());
    }

    /// The starred tool, if any.
    pub fn favorite(&self) -> (r: Option<Favorite>)
        ensures
            r == self.preferences.favorite,
    {
        self.preferences.favorite
    }

    /// Whether the panel was shown less than `threshold` ago; never before it was first shown.
    /// How long ago it was, and `threshold` in nanoseconds, are read from std; the rule applied
    /// to those readings is [`shown_within`], as [`AppState::was_shown_within`] states for every
    /// age.
    pub fn was_just_shown(&self, threshold: Duration) -> (r: bool)
        ensures
            exists|age: u128, limit: u128| r == #[trigger] shown_within(self.shown_at is Some, age, limit),
            self.shown_at is None ==> !r,
    {
        let age = match &self.shown_at {
            Some(shown) => as_nanos(elapsed(shown)),
            None => 0,
        };
        self.was_shown_within(age, as_nanos(threshold))
    }

    /// Whether the panel was shown, `age` nanoseconds ago, less than `limit` nanoseconds ago.
    pub fn was_shown_within(&self, age: u128, limit: u128) -> (r: bool)
        ensures
            r == shown_within(self.shown_at is Some, age, limit),
    {
        self.shown_at.is_some() && age < limit
    }
}

/// Whether a panel shown (`shown`) `age` nanoseconds ago was shown less than `limit`
/// nanoseconds ago.
pub open spec fn shown_within(shown: bool, age: u128, limit: u128) -> bool {
    shown && age < limit
}

} // verus!
