//! Which player executable a load runs: the backend and its executable are
//! one runtime choice, so once a player was warmed, loads keep feeding it
//! even when the settings name another executable for the next launch.
use vstd::prelude::*;

use crate::text::to_owned;

verus! {

/// The executable the running backend was warmed with.
#[derive(Debug)]
pub struct PlayerPathChoice {
    pub warmed_path: Option<String>,
}

impl PlayerPathChoice {
    /// Nothing warmed yet.
    pub fn new() -> (r: Self)
        ensures
            r.warmed_path is None,
    {
        PlayerPathChoice { warmed_path: None }
    }

    /// The backend was warmed with `path`.
    pub fn warm(&mut self, path: &str)
        ensures
            final(self).warmed_path matches Some(p) && p@ == path@,
    {
        self.warmed_path = Some(to_owned(path));
    }

    /// The backend was replaced: nothing is warmed any more.
    pub fn replace(&mut self)
        ensures
            final(self).warmed_path is None,
    {
        self.warmed_path = None;
    }

    /// The executable a load asking for `requested` runs: the warmed one
    /// when there is one, else `requested`.
    pub fn path_for_open(&self, requested: &str) -> (r: String)
        ensures
            r@ == (match self.warmed_path {
                Some(p) => p@,
                None => requested@,
            }),
    {
        match &self.warmed_path {
            Some(p) => p.clone(),
            None => to_owned(requested),
        }
    }
}

} // verus!
