use vstd::prelude::*;

verus! {

/// A season/episode inclusion predicate derived from the specificity of a
/// user-supplied URL: a URL naming a whole series constrains nothing, one
/// naming a season constrains the season number, one naming an episode
/// constrains both numbers.
pub struct UrlFilter {
    pub season: Option<u32>,
    pub episode: Option<u32>,
}

impl UrlFilter {
    /// A filter that accepts every season and episode.
    pub fn all() -> (f: UrlFilter)
        ensures
            f.season is None,
            f.episode is None,
    {
        UrlFilter { season: None, episode: None }
    }

    pub open spec fn spec_is_season_valid(self, season_number: u32) -> bool {
        self.season matches Some(s) ==> s == season_number
    }

    pub open spec fn spec_is_episode_valid(self, episode_number: u32, season_number: u32) -> bool {
        &&& self.spec_is_season_valid(season_number)
        &&& (self.episode matches Some(e) ==> e == episode_number)
    }

    /// Whether the given season number is in scope for this filter.
    pub fn is_season_valid(&self, season_number: u32) -> (r: bool)
        ensures
            r == self.spec_is_season_valid(season_number),
    {
        match self.season {
            None => true,
            Some(s) => s == season_number,
        }
    }

    /// Whether the given (episode number, season number) pair is in scope.
    pub fn is_episode_valid(&self, episode_number: u32, season_number: u32) -> (r: bool)
        ensures
            r == self.spec_is_episode_valid(episode_number, season_number),
    {
        if !self.is_season_valid(season_number) {
            false
        } else {
            match self.episode {
                None => true,
                Some(e) => e == episode_number,
            }
        }
    }
}

} // verus!
