use vstd::prelude::*;
use crate::media::{Episode, Movie, StreamVariant, SubtitleTrack};

verus! {

/// The resolved unit of work: one entity, one chosen stream variant, and at
/// most one chosen subtitle track, together with everything needed to name an
/// output file.
#[derive(Debug, PartialEq, Eq)]
pub struct Format {
    pub title: String,
    pub series_name: String,
    pub season_title: String,
    pub audio: String,
    pub season_number: u32,
    pub episode_number: u32,
    /// The position of the episode within its season's episode list, counted
    /// from one; zero when the episode is not in the supplied list.
    pub relative_episode_number: usize,
    pub series_id: String,
    pub season_id: String,
    pub episode_id: String,
    pub stream: StreamVariant,
    /// Zero or one chosen subtitle tracks, kept as a list for uniform
    /// handling.
    pub subtitles: Vec<SubtitleTrack>,
}

/// The mathematical image of a `Format`.
pub struct FormatView {
    pub title: String,
    pub series_name: String,
    pub season_title: String,
    pub audio: String,
    pub season_number: u32,
    pub episode_number: u32,
    pub relative_episode_number: usize,
    pub series_id: String,
    pub season_id: String,
    pub episode_id: String,
    pub stream: StreamVariant,
    pub subtitles: Seq<SubtitleTrack>,
}

impl View for Format {
    type V = FormatView;

    open spec fn view(&self) -> FormatView {
        FormatView {
            title: self.title,
            series_name: self.series_name,
            season_title: self.season_title,
            audio: self.audio,
            season_number: self.season_number,
            episode_number: self.episode_number,
            relative_episode_number: self.relative_episode_number,
            series_id: self.series_id,
            season_id: self.season_id,
            episode_id: self.episode_id,
            stream: self.stream,
            subtitles: self.subtitles@,
        }
    }
}

impl Format {
    pub open spec fn wf(self) -> bool {
        self.subtitles@.len() <= 1
    }
}

/// The index of the first episode of `eps` whose id is `id`.
pub open spec fn spec_index_by_id(eps: Seq<Episode>, id: Seq<char>) -> Option<int>
    decreases eps.len(),
{
    if eps.len() == 0 {
        None
    } else if eps[0].id@ == id {
        Some(0int)
    } else {
        match spec_index_by_id(eps.skip(1), id) {
            None => None,
            Some(k) => Some(k + 1),
        }
    }
}

/// The first index holds a match, nothing before it does, and absence means
/// no episode matches at all.
pub proof fn lemma_index_by_id(eps: Seq<Episode>, id: Seq<char>)
    ensures
        match spec_index_by_id(eps, id) {
            None => forall|j: int| 0 <= j < eps.len() ==> eps[j].id@ != id,
            Some(k) => 0 <= k < eps.len() && eps[k].id@ == id && (forall|j: int|
                0 <= j < k ==> eps[j].id@ != id),
        },
    decreases eps.len(),
{
    if eps.len() > 0 && eps[0].id@ != id {
        lemma_index_by_id(eps.skip(1), id);
        match spec_index_by_id(eps.skip(1), id) {
            None => {
                assert forall|j: int| 0 <= j < eps.len() implies eps[j].id@ != id by {
                    if j > 0 {
                        assert(eps.skip(1)[j - 1] == eps[j]);
                    }
                }
            },
            Some(k) => {
                assert(eps.skip(1)[k] == eps[k + 1]);
                assert forall|j: int| 0 <= j < k + 1 implies eps[j].id@ != id by {
                    if j > 0 {
                        assert(eps.skip(1)[j - 1] == eps[j]);
                    }
                }
            },
        }
    }
}

/// The relative episode number used by output-path templating: the position
/// of the episode in its season's list, counted from one, or zero when it is
/// not listed.
pub open spec fn spec_relative_episode_number(eps: Seq<Episode>, id: Seq<char>) -> usize {
    match spec_index_by_id(eps, id) {
        Some(k) => (k + 1) as usize,
        None => 0,
    }
}

/// Computes the relative episode number of the episode with id `id` against
/// a season's episode list.
pub fn relative_episode_number(eps: &Vec<Episode>, id: &String) -> (r: usize)
    ensures
        r == spec_relative_episode_number(eps@, id@),
{
    let mut i: usize = 0;
    while i < eps.len()
        invariant
            i <= eps.len(),
            forall|j: int| 0 <= j < i ==> eps@[j].id@ != id@,
        decreases eps.len() - i,
    {
        if eps[i].id == *id {
            proof {
                lemma_index_by_id(eps@, id@);
            }
            return i + 1;
        }
        i += 1;
    }
    proof {
        lemma_index_by_id(eps@, id@);
    }
    0
}

/// The format an episode resolves to, given the chosen stream and subtitle
/// selection.
pub open spec fn spec_format_of_episode(
    episode: Episode,
    eps: Seq<Episode>,
    stream: StreamVariant,
    subs: Seq<SubtitleTrack>,
) -> FormatView {
    FormatView {
        title: episode.title,
        series_name: episode.series_title,
        season_title: episode.season_title,
        audio: episode.audio_locale,
        season_number: episode.season_number,
        episode_number: episode.episode_number,
        relative_episode_number: spec_relative_episode_number(eps, episode.id@),
        series_id: episode.series_id,
        season_id: episode.season_id,
        episode_id: episode.id,
        stream,
        subtitles: subs,
    }
}

/// The format a movie resolves to, given the chosen stream. A movie stands
/// alone, so its season and episode positions are one, and its listing fills
/// the series-side naming fields.
pub open spec fn spec_format_of_movie(movie: Movie, stream: StreamVariant) -> FormatView {
    FormatView {
        title: movie.title,
        series_name: movie.listing_title,
        season_title: movie.listing_title,
        audio: movie.audio_locale,
        season_number: 1,
        episode_number: 1,
        relative_episode_number: 1,
        series_id: movie.listing_id,
        season_id: movie.listing_id,
        episode_id: movie.id,
        stream,
        subtitles: Seq::empty(),
    }
}

impl Format {
    /// Builds the resolved format for an episode.
    pub fn new_from_episode(
        episode: &Episode,
        season_episodes: &Vec<Episode>,
        stream: StreamVariant,
        subtitles: Vec<SubtitleTrack>,
    ) -> (f: Format)
        requires
            subtitles@.len() <= 1,
        ensures
            f.wf(),
            f@ == spec_format_of_episode(*episode, season_episodes@, stream, subtitles@),
    {
        Format {
            title: episode.title.clone(),
            series_name: episode.series_title.clone(),
            season_title: episode.season_title.clone(),
            audio: episode.audio_locale.clone(),
            season_number: episode.season_number,
            episode_number: episode.episode_number,
            relative_episode_number: relative_episode_number(season_episodes, &episode.id),
            series_id: episode.series_id.clone(),
            season_id: episode.season_id.clone(),
            episode_id: episode.id.clone(),
            stream,
            subtitles,
        }
    }

    /// Builds the resolved format for a movie.
    pub fn new_from_movie(movie: &Movie, stream: StreamVariant) -> (f: Format)
        ensures
            f.wf(),
            f@ == spec_format_of_movie(*movie, stream),
    {
        let f = Format {
            title: movie.title.clone(),
            series_name: movie.listing_title.clone(),
            season_title: movie.listing_title.clone(),
            audio: movie.audio_locale.clone(),
            season_number: 1,
            episode_number: 1,
            relative_episode_number: 1,
            series_id: movie.listing_id.clone(),
            season_id: movie.listing_id.clone(),
            episode_id: movie.id.clone(),
            stream,
            subtitles: Vec::new(),
        };
        assert(f.subtitles@ =~= Seq::<SubtitleTrack>::empty());
        f
    }
}

} // verus!
