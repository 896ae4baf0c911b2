use vstd::prelude::*;
use crate::filter::UrlFilter;
use crate::format::{spec_format_of_episode, spec_format_of_movie, Format, FormatView};
use crate::intent::DownloadIntent;
use crate::media::{
    find_subtitle, locale_listed, locales_contain, spec_find_subtitle, Episode, MediaNode, Movie,
    MovieListing, Season, Series, SubtitleTrack,
};
use crate::selector::{select_stream, spec_select, ResolutionTarget};
use crate::some_vec_or_none;

verus! {

// ---------------------------------------------------------------------------
// Outcomes
// ---------------------------------------------------------------------------

/// A constraint an entity failed to meet: reported, non-fatal, and never a
/// reason to stop resolving the remaining siblings.
#[derive(Debug, PartialEq, Eq)]
pub enum Diagnostic {
    SeriesAudioMissing { series_title: String, audio: String },
    SeasonAudioMissing { season_number: u32, audio: String },
    EpisodeAudioMissing { season_number: u32, episode_number: u32, audio: String },
    EpisodeSubtitleMissing { season_number: u32, episode_number: u32, subtitle: String },
    MovieSubtitleMissing { movie_title: String, subtitle: String },
}

/// The hard-abort condition: a requested resolution that an otherwise
/// selected entity does not offer is a configuration error, not a content
/// gap, and ends the whole run for this URL.
#[derive(Debug, PartialEq, Eq)]
pub enum ResolveError {
    ResolutionUnavailable { target: ResolutionTarget, title: String },
}

pub open spec fn push_opt<T>(s: Seq<T>, o: Option<T>) -> Seq<T> {
    match o {
        Some(x) => s.push(x),
        None => s,
    }
}

pub open spec fn opt_seq<T>(o: Option<Seq<T>>) -> Seq<T> {
    match o {
        Some(s) => s,
        None => Seq::empty(),
    }
}

// ---------------------------------------------------------------------------
// Leaf entities
// ---------------------------------------------------------------------------

pub open spec fn episode_audio_diag(intent: DownloadIntent, episode: Episode) -> Diagnostic {
    Diagnostic::EpisodeAudioMissing {
        season_number: episode.season_number,
        episode_number: episode.episode_number,
        audio: intent.audio,
    }
}

pub open spec fn episode_subtitle_diag(episode: Episode, sub: String) -> Diagnostic {
    Diagnostic::EpisodeSubtitleMissing {
        season_number: episode.season_number,
        episode_number: episode.episode_number,
        subtitle: sub,
    }
}

/// The stream-selection step shared by every accepted episode.
pub open spec fn spec_episode_stream(
    intent: DownloadIntent,
    episode: Episode,
    season_episodes: Seq<Episode>,
    subs: Seq<SubtitleTrack>,
) -> Result<(Option<FormatView>, Option<Diagnostic>), ResolveError> {
    match spec_select(episode.variants@, intent.resolution) {
        None => Err(
            ResolveError::ResolutionUnavailable {
                target: intent.resolution,
                title: episode.title,
            },
        ),
        Some(v) => Ok(
            (Some(spec_format_of_episode(episode, season_episodes, v, subs)), None),
        ),
    }
}

/// What resolving one episode yields: a rejected audio constraint or a
/// missing subtitle produce a diagnostic and nothing else, an episode out of
/// the URL's scope is skipped silently, and a missing exact resolution is the
/// hard abort.
pub open spec fn spec_episode_outcome(
    intent: DownloadIntent,
    episode: Episode,
    url_filter: UrlFilter,
    season_episodes: Seq<Episode>,
    filter_audio: bool,
) -> Result<(Option<FormatView>, Option<Diagnostic>), ResolveError> {
    if filter_audio && episode.audio_locale@ != intent.audio@ {
        Ok((None, Some(episode_audio_diag(intent, episode))))
    } else if !url_filter.spec_is_episode_valid(episode.episode_number, episode.season_number) {
        Ok((None, None))
    } else {
        match intent.subtitle {
            Some(sub) => match spec_find_subtitle(episode.subtitles@, sub@) {
                None => Ok((None, Some(episode_subtitle_diag(episode, sub)))),
                Some(track) => spec_episode_stream(intent, episode, season_episodes, seq![track]),
            },
            None => spec_episode_stream(intent, episode, season_episodes, Seq::empty()),
        }
    }
}

/// How an executable leaf result corresponds to its mathematical outcome.
pub open spec fn leaf_result_matches(
    r: Result<(Option<Format>, Option<Diagnostic>), ResolveError>,
    s: Result<(Option<FormatView>, Option<Diagnostic>), ResolveError>,
) -> bool {
    match (r, s) {
        (Ok(p), Ok(q)) => p.1 == q.1 && (match (p.0, q.0) {
            (None, None) => true,
            (Some(f), Some(fv)) => f@ == fv && f.wf(),
            _ => false,
        }),
        (Err(a), Err(b)) => a == b,
        _ => false,
    }
}

/// Resolves one episode against the run's intent and URL filter.
pub fn format_from_episode(
    intent: &DownloadIntent,
    episode: &Episode,
    url_filter: &UrlFilter,
    season_episodes: &Vec<Episode>,
    filter_audio: bool,
) -> (r: Result<(Option<Format>, Option<Diagnostic>), ResolveError>)
    ensures
        leaf_result_matches(
            r,
            spec_episode_outcome(*intent, *episode, *url_filter, season_episodes@, filter_audio),
        ),
{
    if filter_audio && !(episode.audio_locale == intent.audio) {
        return Ok(
            (
                None,
                Some(
                    Diagnostic::EpisodeAudioMissing {
                        season_number: episode.season_number,
                        episode_number: episode.episode_number,
                        audio: intent.audio.clone(),
                    },
                ),
            ),
        );
    }
    if !url_filter.is_episode_valid(episode.episode_number, episode.season_number) {
        return Ok((None, None));
    }
    let subtitles: Vec<SubtitleTrack>;
    match &intent.subtitle {
        Some(sub) => {
            match find_subtitle(&episode.subtitles, sub) {
                None => {
                    return Ok(
                        (
                            None,
                            Some(
                                Diagnostic::EpisodeSubtitleMissing {
                                    season_number: episode.season_number,
                                    episode_number: episode.episode_number,
                                    subtitle: sub.clone(),
                                },
                            ),
                        ),
                    );
                },
                Some(track) => {
                    let ghost t = track;
                    let mut v: Vec<SubtitleTrack> = Vec::new();
                    v.push(track);
                    assert(v@ =~= seq![t]);
                    subtitles = v;
                },
            }
        },
        None => {
            let v: Vec<SubtitleTrack> = Vec::new();
            assert(v@ =~= Seq::<SubtitleTrack>::empty());
            subtitles = v;
        },
    }
    match select_stream(&episode.variants, &intent.resolution) {
        None => Err(
            ResolveError::ResolutionUnavailable {
                target: intent.resolution,
                title: episode.title.clone(),
            },
        ),
        Some(v) => Ok(
            (Some(Format::new_from_episode(episode, season_episodes, v, subtitles)), None),
        ),
    }
}

pub open spec fn movie_subtitle_diag(movie: Movie, sub: String) -> Diagnostic {
    Diagnostic::MovieSubtitleMissing { movie_title: movie.title, subtitle: sub }
}

/// The stream-selection step for an accepted movie.
pub open spec fn spec_movie_stream(intent: DownloadIntent, movie: Movie) -> Result<
    (Option<FormatView>, Option<Diagnostic>),
    ResolveError,
> {
    match spec_select(movie.variants@, intent.resolution) {
        None => Err(
            ResolveError::ResolutionUnavailable { target: intent.resolution, title: movie.title },
        ),
        Some(v) => Ok((Some(spec_format_of_movie(movie, v)), None)),
    }
}

/// What resolving one movie yields: a requested subtitle locale absent from
/// its track list produces a diagnostic and nothing else; otherwise one
/// variant is selected by resolution.
pub open spec fn spec_movie_outcome(intent: DownloadIntent, movie: Movie) -> Result<
    (Option<FormatView>, Option<Diagnostic>),
    ResolveError,
> {
    match intent.subtitle {
        Some(sub) => if spec_find_subtitle(movie.subtitles@, sub@) is None {
            Ok((None, Some(movie_subtitle_diag(movie, sub))))
        } else {
            spec_movie_stream(intent, movie)
        },
        None => spec_movie_stream(intent, movie),
    }
}

/// Resolves one movie. The URL filter has nothing to say about movies, so it
/// is accepted and ignored, as the interface is uniform over leaf kinds.
pub fn format_from_movie(
    intent: &DownloadIntent,
    movie: &Movie,
    _url_filter: &UrlFilter,
) -> (r: Result<(Option<Format>, Option<Diagnostic>), ResolveError>)
    ensures
        leaf_result_matches(r, spec_movie_outcome(*intent, *movie)),
{
    match &intent.subtitle {
        Some(sub) => {
            if find_subtitle(&movie.subtitles, sub).is_none() {
                return Ok(
                    (
                        None,
                        Some(
                            Diagnostic::MovieSubtitleMissing {
                                movie_title: movie.title.clone(),
                                subtitle: sub.clone(),
                            },
                        ),
                    ),
                );
            }
        },
        None => {},
    }
    match select_stream(&movie.variants, &intent.resolution) {
        None => Err(
            ResolveError::ResolutionUnavailable {
                target: intent.resolution,
                title: movie.title.clone(),
            },
        ),
        Some(v) => Ok((Some(Format::new_from_movie(movie, v)), None)),
    }
}

// ---------------------------------------------------------------------------
// Sibling folds
// ---------------------------------------------------------------------------

/// How an executable aggregate result corresponds to its mathematical
/// outcome: the diagnostics agree, an absent list means nothing matched, and
/// a present one matches the outcome's formats element by element.
pub open spec fn formats_match(v: Seq<Format>, s: Seq<FormatView>) -> bool {
    v.len() == s.len() && (forall|i: int| 0 <= i < v.len() ==> #[trigger] v[i]@ == s[i] && v[i].wf())
}

pub open spec fn list_result_matches(
    r: Result<(Option<Vec<Format>>, Vec<Diagnostic>), ResolveError>,
    s: Result<(Option<Seq<FormatView>>, Seq<Diagnostic>), ResolveError>,
) -> bool {
    match (r, s) {
        (Ok(p), Ok(q)) => p.1@ == q.1 && (match (p.0, q.0) {
            (None, None) => true,
            (Some(v), Some(fs)) => formats_match(v@, fs),
            _ => false,
        }),
        (Err(a), Err(b)) => a == b,
        _ => false,
    }
}

/// Folds episode resolution over a season's episode list in order,
/// collecting formats and diagnostics and stopping at the first hard abort.
pub open spec fn spec_episodes_outcome(
    intent: DownloadIntent,
    eps: Seq<Episode>,
    all: Seq<Episode>,
    url_filter: UrlFilter,
) -> Result<(Seq<FormatView>, Seq<Diagnostic>), ResolveError>
    decreases eps.len(),
{
    if eps.len() == 0 {
        Ok((Seq::empty(), Seq::empty()))
    } else {
        match spec_episodes_outcome(intent, eps.drop_last(), all, url_filter) {
            Err(e) => Err(e),
            Ok(p) => match spec_episode_outcome(intent, eps.last(), url_filter, all, true) {
                Err(e) => Err(e),
                Ok(q) => Ok((push_opt(p.0, q.0), push_opt(p.1, q.1))),
            },
        }
    }
}

/// An abort inside a prefix settles the fold of the whole list.
proof fn lemma_episodes_err_persists(
    intent: DownloadIntent,
    eps: Seq<Episode>,
    all: Seq<Episode>,
    url_filter: UrlFilter,
    k: int,
)
    requires
        0 <= k <= eps.len(),
        spec_episodes_outcome(intent, eps.take(k), all, url_filter) is Err,
    ensures
        spec_episodes_outcome(intent, eps, all, url_filter) == spec_episodes_outcome(
            intent,
            eps.take(k),
            all,
            url_filter,
        ),
    decreases eps.len() - k,
{
    if k < eps.len() {
        assert(eps.take(k + 1).drop_last() =~= eps.take(k));
        assert(spec_episodes_outcome(intent, eps.take(k + 1), all, url_filter)
            == spec_episodes_outcome(intent, eps.take(k), all, url_filter));
        lemma_episodes_err_persists(intent, eps, all, url_filter, k + 1);
    } else {
        assert(eps.take(k) =~= eps);
    }
}

pub open spec fn season_audio_diag(intent: DownloadIntent, season_number: u32) -> Diagnostic {
    Diagnostic::SeasonAudioMissing { season_number, audio: intent.audio }
}

/// What resolving one season yields: a season out of the URL's scope is
/// skipped silently, one without the requested audio produces exactly one
/// diagnostic, and otherwise its episodes are resolved in order.
pub open spec fn spec_season_outcome(
    intent: DownloadIntent,
    season: Season,
    url_filter: UrlFilter,
) -> Result<(Option<Seq<FormatView>>, Seq<Diagnostic>), ResolveError> {
    if !url_filter.spec_is_season_valid(season.season_number) {
        Ok((None, Seq::empty()))
    } else if !locale_listed(season.audio_locales.deep_view(), intent.audio@) {
        Ok((None, seq![season_audio_diag(intent, season.season_number)]))
    } else {
        match spec_episodes_outcome(intent, season.episodes@, season.episodes@, url_filter) {
            Err(e) => Err(e),
            Ok(p) => Ok(
                (
                    if p.0.len() == 0 {
                        None
                    } else {
                        Some(p.0)
                    },
                    p.1,
                ),
            ),
        }
    }
}

/// Resolves every episode of one season, in original order; an episode that
/// fails a constraint is skipped with a diagnostic, and only a missing exact
/// resolution aborts.
pub fn formats_from_season(
    intent: &DownloadIntent,
    season: &Season,
    url_filter: &UrlFilter,
) -> (r: Result<(Option<Vec<Format>>, Vec<Diagnostic>), ResolveError>)
    ensures
        list_result_matches(r, spec_season_outcome(*intent, *season, *url_filter)),
{
    if !url_filter.is_season_valid(season.season_number) {
        let d: Vec<Diagnostic> = Vec::new();
        assert(d@ =~= Seq::<Diagnostic>::empty());
        return Ok((None, d));
    }
    if !locales_contain(&season.audio_locales, &intent.audio) {
        let mut d: Vec<Diagnostic> = Vec::new();
        d.push(
            Diagnostic::SeasonAudioMissing {
                season_number: season.season_number,
                audio: intent.audio.clone(),
            },
        );
        assert(d@ =~= seq![season_audio_diag(*intent, season.season_number)]);
        return Ok((None, d));
    }
    let mut formats: Vec<Format> = Vec::new();
    let mut diags: Vec<Diagnostic> = Vec::new();
    let mut i: usize = 0;
    assert(season.episodes@.take(0) =~= Seq::<Episode>::empty());
    while i < season.episodes.len()
        invariant
            i <= season.episodes@.len(),
            url_filter.spec_is_season_valid(season.season_number),
            locale_listed(season.audio_locales.deep_view(), intent.audio@),
            ({
                let o = spec_episodes_outcome(
                    *intent,
                    season.episodes@.take(i as int),
                    season.episodes@,
                    *url_filter,
                );
                o matches Ok(p) && formats_match(formats@, p.0) && diags@ == p.1
            }),
        decreases season.episodes@.len() - i,
    {
        assert(season.episodes@.take(i as int + 1).drop_last() =~= season.episodes@.take(i as int));
        assert(season.episodes@.take(i as int + 1).last() == season.episodes@[i as int]);
        let step = format_from_episode(intent, &season.episodes[i], url_filter, &season.episodes, true);
        match step {
            Err(e) => {
                proof {
                    lemma_episodes_err_persists(
                        *intent,
                        season.episodes@,
                        season.episodes@,
                        *url_filter,
                        i as int + 1,
                    );
                }
                return Err(e);
            },
            Ok(p) => {
                let (fo, dg) = p;
                match fo {
                    Some(f) => formats.push(f),
                    None => {},
                }
                match dg {
                    Some(d) => diags.push(d),
                    None => {},
                }
            },
        }
        i += 1;
    }
    assert(season.episodes@.take(season.episodes@.len() as int) =~= season.episodes@);
    Ok((some_vec_or_none(formats), diags))
}

/// Folds movie resolution over a listing's members in order.
pub open spec fn spec_movies_outcome(intent: DownloadIntent, movies: Seq<Movie>) -> Result<
    (Seq<FormatView>, Seq<Diagnostic>),
    ResolveError,
>
    decreases movies.len(),
{
    if movies.len() == 0 {
        Ok((Seq::empty(), Seq::empty()))
    } else {
        match spec_movies_outcome(intent, movies.drop_last()) {
            Err(e) => Err(e),
            Ok(p) => match spec_movie_outcome(intent, movies.last()) {
                Err(e) => Err(e),
                Ok(q) => Ok((push_opt(p.0, q.0), push_opt(p.1, q.1))),
            },
        }
    }
}

proof fn lemma_movies_err_persists(intent: DownloadIntent, movies: Seq<Movie>, k: int)
    requires
        0 <= k <= movies.len(),
        spec_movies_outcome(intent, movies.take(k)) is Err,
    ensures
        spec_movies_outcome(intent, movies) == spec_movies_outcome(intent, movies.take(k)),
    decreases movies.len() - k,
{
    if k < movies.len() {
        assert(movies.take(k + 1).drop_last() =~= movies.take(k));
        assert(spec_movies_outcome(intent, movies.take(k + 1)) == spec_movies_outcome(
            intent,
            movies.take(k),
        ));
        lemma_movies_err_persists(intent, movies, k + 1);
    } else {
        assert(movies.take(k) =~= movies);
    }
}

/// What resolving a movie listing yields: each member movie in order.
pub open spec fn spec_listing_outcome(intent: DownloadIntent, listing: MovieListing) -> Result<
    (Option<Seq<FormatView>>, Seq<Diagnostic>),
    ResolveError,
> {
    match spec_movies_outcome(intent, listing.movies@) {
        Err(e) => Err(e),
        Ok(p) => Ok(
            (
                if p.0.len() == 0 {
                    None
                } else {
                    Some(p.0)
                },
                p.1,
            ),
        ),
    }
}

/// Resolves every movie of one listing, in original order.
pub fn format_from_movie_listing(
    intent: &DownloadIntent,
    movie_listing: &MovieListing,
    url_filter: &UrlFilter,
) -> (r: Result<(Option<Vec<Format>>, Vec<Diagnostic>), ResolveError>)
    ensures
        list_result_matches(r, spec_listing_outcome(*intent, *movie_listing)),
{
    let mut formats: Vec<Format> = Vec::new();
    let mut diags: Vec<Diagnostic> = Vec::new();
    let mut i: usize = 0;
    assert(movie_listing.movies@.take(0) =~= Seq::<Movie>::empty());
    while i < movie_listing.movies.len()
        invariant
            i <= movie_listing.movies@.len(),
            ({
                let o = spec_movies_outcome(*intent, movie_listing.movies@.take(i as int));
                o matches Ok(p) && formats_match(formats@, p.0) && diags@ == p.1
            }),
        decreases movie_listing.movies@.len() - i,
    {
        assert(movie_listing.movies@.take(i as int + 1).drop_last() =~= movie_listing.movies@.take(
            i as int,
        ));
        assert(movie_listing.movies@.take(i as int + 1).last() == movie_listing.movies@[i as int]);
        let step = format_from_movie(intent, &movie_listing.movies[i], url_filter);
        match step {
            Err(e) => {
                proof {
                    lemma_movies_err_persists(*intent, movie_listing.movies@, i as int + 1);
                }
                return Err(e);
            },
            Ok(p) => {
                let (fo, dg) = p;
                match fo {
                    Some(f) => formats.push(f),
                    None => {},
                }
                match dg {
                    Some(d) => diags.push(d),
                    None => {},
                }
            },
        }
        i += 1;
    }
    assert(movie_listing.movies@.take(movie_listing.movies@.len() as int)
        =~= movie_listing.movies@);
    Ok((some_vec_or_none(formats), diags))
}

/// Folds season resolution over a list of seasons in order, concatenating
/// the formats and diagnostics each one yields.
pub open spec fn spec_seasons_outcome(
    intent: DownloadIntent,
    seasons: Seq<Season>,
    url_filter: UrlFilter,
) -> Result<(Seq<FormatView>, Seq<Diagnostic>), ResolveError>
    decreases seasons.len(),
{
    if seasons.len() == 0 {
        Ok((Seq::empty(), Seq::empty()))
    } else {
        match spec_seasons_outcome(intent, seasons.drop_last(), url_filter) {
            Err(e) => Err(e),
            Ok(p) => match spec_season_outcome(intent, seasons.last(), url_filter) {
                Err(e) => Err(e),
                Ok(q) => Ok((p.0 + opt_seq(q.0), p.1 + q.1)),
            },
        }
    }
}

proof fn lemma_seasons_err_persists(
    intent: DownloadIntent,
    seasons: Seq<Season>,
    url_filter: UrlFilter,
    k: int,
)
    requires
        0 <= k <= seasons.len(),
        spec_seasons_outcome(intent, seasons.take(k), url_filter) is Err,
    ensures
        spec_seasons_outcome(intent, seasons, url_filter) == spec_seasons_outcome(
            intent,
            seasons.take(k),
            url_filter,
        ),
    decreases seasons.len() - k,
{
    if k < seasons.len() {
        assert(seasons.take(k + 1).drop_last() =~= seasons.take(k));
        assert(spec_seasons_outcome(intent, seasons.take(k + 1), url_filter)
            == spec_seasons_outcome(intent, seasons.take(k), url_filter));
        lemma_seasons_err_persists(intent, seasons, url_filter, k + 1);
    } else {
        assert(seasons.take(k) =~= seasons);
    }
}

/// Resolves an already chosen list of seasons, in order; the result gathers
/// everything their episodes yield.
pub fn formats_from_seasons(
    intent: &DownloadIntent,
    seasons: &Vec<Season>,
    url_filter: &UrlFilter,
) -> (r: Result<(Option<Vec<Format>>, Vec<Diagnostic>), ResolveError>)
    ensures
        ({
            let s = spec_seasons_outcome(*intent, seasons@, *url_filter);
            match (r, s) {
                (Ok(p), Ok(q)) => p.1@ == q.1 && (match p.0 {
                    None => q.0.len() == 0,
                    Some(v) => q.0.len() > 0 && formats_match(v@, q.0),
                }),
                (Err(a), Err(b)) => a == b,
                _ => false,
            }
        }),
{
    let mut formats: Vec<Format> = Vec::new();
    let mut diags: Vec<Diagnostic> = Vec::new();
    let mut i: usize = 0;
    assert(seasons@.take(0) =~= Seq::<Season>::empty());
    while i < seasons.len()
        invariant
            i <= seasons@.len(),
            ({
                let o = spec_seasons_outcome(*intent, seasons@.take(i as int), *url_filter);
                o matches Ok(p) && formats_match(formats@, p.0) && diags@ == p.1
            }),
        decreases seasons@.len() - i,
    {
        assert(seasons@.take(i as int + 1).drop_last() =~= seasons@.take(i as int));
        assert(seasons@.take(i as int + 1).last() == seasons@[i as int]);
        let ghost pre_formats = formats@;
        let ghost pre_diags = diags@;
        let step = formats_from_season(intent, &seasons[i], url_filter);
        match step {
            Err(e) => {
                proof {
                    lemma_seasons_err_persists(*intent, seasons@, *url_filter, i as int + 1);
                }
                return Err(e);
            },
            Ok(p) => {
                let (fo, mut dg) = p;
                match fo {
                    Some(mut v) => {
                        let ghost sub = v@;
                        formats.append(&mut v);
                        assert(formats@ == pre_formats + sub);
                    },
                    None => {},
                }
                diags.append(&mut dg);
            },
        }
        proof {
            let o = spec_seasons_outcome(*intent, seasons@.take(i as int), *url_filter);
            let q = spec_season_outcome(*intent, seasons@[i as int], *url_filter);
            if o is Ok && q is Ok {
                let pp = o->Ok_0;
                let qq = q->Ok_0;
                if qq.0 is None {
                    assert(pp.0 + opt_seq(qq.0) =~= pp.0);
                }
                assert forall|j: int| 0 <= j < formats@.len() implies #[trigger] formats@[j]@ == (
                pp.0 + opt_seq(qq.0))[j] && formats@[j].wf() by {
                    if j < pre_formats.len() {
                        assert(formats@[j] == pre_formats[j]);
                    }
                }
                assert(formats_match(formats@, pp.0 + opt_seq(qq.0)));
            }
        }
        i += 1;
    }
    assert(seasons@.take(seasons@.len() as int) =~= seasons@);
    Ok((some_vec_or_none(formats), diags))
}

// ---------------------------------------------------------------------------
// Series: pruning, duplicate handling, planning
// ---------------------------------------------------------------------------

/// A series that declares audio locales, none of which is the requested one,
/// is unavailable as a whole.
pub open spec fn spec_series_unavailable(intent: DownloadIntent, series: Series) -> bool {
    series.audio_locales@.len() > 0 && !locale_listed(
        series.audio_locales.deep_view(),
        intent.audio@,
    )
}

pub open spec fn series_audio_diag(intent: DownloadIntent, series: Series) -> Diagnostic {
    Diagnostic::SeriesAudioMissing { series_title: series.title, audio: intent.audio }
}

/// The series-level audio gate, decidable from the series' own metadata
/// before any season is fetched.
pub fn series_is_unavailable(intent: &DownloadIntent, series: &Series) -> (r: bool)
    ensures
        r == spec_series_unavailable(*intent, *series),
{
    series.audio_locales.len() > 0 && !locales_contain(&series.audio_locales, &intent.audio)
}

/// Whether position `i` holds the first season with its season number.
pub open spec fn is_first_of_number(seasons: Seq<Season>, i: int) -> bool {
    forall|j: int| 0 <= j < i ==> seasons[j].season_number != seasons[i].season_number
}

/// Whether any season with number `n` declares the audio locale.
pub open spec fn number_has_audio(seasons: Seq<Season>, n: u32, audio: Seq<char>) -> bool {
    exists|j: int|
        0 <= j < seasons.len() && #[trigger] seasons[j].season_number == n && locale_listed(
            seasons[j].audio_locales.deep_view(),
            audio,
        )
}

/// The diagnostics of the audio pass over the first `upto` seasons: one per
/// season number none of whose holders declares the requested audio, at its
/// first occurrence.
pub open spec fn spec_prune_diags(seasons: Seq<Season>, intent: DownloadIntent, upto: int) -> Seq<
    Diagnostic,
>
    decreases upto,
{
    if upto <= 0 {
        Seq::empty()
    } else {
        let prev = spec_prune_diags(seasons, intent, upto - 1);
        if is_first_of_number(seasons, upto - 1) && !number_has_audio(
            seasons,
            seasons[upto - 1].season_number,
            intent.audio@,
        ) {
            prev.push(season_audio_diag(intent, seasons[upto - 1].season_number))
        } else {
            prev
        }
    }
}

/// The seasons that survive the audio pass: those that declare the requested
/// audio locale, in original order.
pub open spec fn spec_audio_retained(seasons: Seq<Season>, audio: Seq<char>) -> Seq<Season>
    decreases seasons.len(),
{
    if seasons.len() == 0 {
        Seq::empty()
    } else {
        let prev = spec_audio_retained(seasons.drop_last(), audio);
        if locale_listed(seasons.last().audio_locales.deep_view(), audio) {
            prev.push(seasons.last())
        } else {
            prev
        }
    }
}

/// The seasons that survive the URL pass: those whose number the filter
/// admits, in order. Filtering after the audio pass keeps seasons the URL
/// already excludes from ever triggering interactive disambiguation.
pub open spec fn spec_filter_retained(seasons: Seq<Season>, url_filter: UrlFilter) -> Seq<Season>
    decreases seasons.len(),
{
    if seasons.len() == 0 {
        Seq::empty()
    } else {
        let prev = spec_filter_retained(seasons.drop_last(), url_filter);
        if url_filter.spec_is_season_valid(seasons.last().season_number) {
            prev.push(seasons.last())
        } else {
            prev
        }
    }
}

/// Both pruning passes, in their fixed order.
pub open spec fn spec_pruned_seasons(
    seasons: Seq<Season>,
    intent: DownloadIntent,
    url_filter: UrlFilter,
) -> Seq<Season> {
    spec_filter_retained(spec_audio_retained(seasons, intent.audio@), url_filter)
}

/// Whether two distinct positions share a season number.
pub open spec fn has_duplicate_numbers(seasons: Seq<Season>) -> bool {
    exists|i: int, j: int|
        0 <= i < j < seasons.len() && #[trigger] seasons[i].season_number == #[trigger] seasons[j].season_number
}

/// Detects sibling seasons sharing a season number.
pub fn has_duplicate_season_numbers(seasons: &Vec<Season>) -> (r: bool)
    ensures
        r == has_duplicate_numbers(seasons@),
{
    let n = seasons.len();
    let mut i: usize = 0;
    while i < n
        invariant
            i <= n == seasons@.len(),
            forall|a: int, b: int|
                0 <= a < b < seasons@.len() && a < i ==> #[trigger] seasons@[a].season_number
                    != #[trigger] seasons@[b].season_number,
        decreases n - i,
    {
        let mut j: usize = i + 1;
        while j < n
            invariant
                i < j <= n == seasons@.len(),
                forall|b: int|
                    i < b < j ==> seasons@[i as int].season_number != #[trigger] seasons@[b].season_number,
            decreases n - j,
        {
            if seasons[i].season_number == seasons[j].season_number {
                return true;
            }
            j += 1;
        }
        i += 1;
    }
    false
}

/// The three explicit passes of the series-level season filtering: the audio
/// pass with its per-number diagnostics, then the URL pass.
pub fn prune_seasons(
    intent: &DownloadIntent,
    seasons: Vec<Season>,
    url_filter: &UrlFilter,
) -> (r: (Vec<Season>, Vec<Diagnostic>))
    ensures
        r.0@ == spec_pruned_seasons(seasons@, *intent, *url_filter),
        r.1@ == spec_prune_diags(seasons@, *intent, seasons@.len() as int),
{
    let ghost all = seasons@;
    let n = seasons.len();
    let mut diags: Vec<Diagnostic> = Vec::new();
    let mut i: usize = 0;
    assert(diags@ =~= spec_prune_diags(all, *intent, 0));
    while i < n
        invariant
            i <= n == all.len(),
            seasons@ == all,
            diags@ == spec_prune_diags(all, *intent, i as int),
        decreases n - i,
    {
        let mut first = true;
        let mut j: usize = 0;
        while j < i
            invariant
                j <= i < n == all.len(),
                seasons@ == all,
                first <==> (forall|k: int|
                    0 <= k < j ==> all[k].season_number != all[i as int].season_number),
            decreases i - j,
        {
            if seasons[j].season_number == seasons[i].season_number {
                first = false;
            }
            j += 1;
        }
        if first {
            let mut audio_found = false;
            let mut k: usize = 0;
            while k < n
                invariant
                    k <= n == all.len(),
                    i < n,
                    seasons@ == all,
                    audio_found <==> (exists|m: int|
                        0 <= m < k && #[trigger] all[m].season_number
                            == all[i as int].season_number && locale_listed(
                            all[m].audio_locales.deep_view(),
                            intent.audio@,
                        )),
                decreases n - k,
            {
                if seasons[k].season_number == seasons[i].season_number && locales_contain(
                    &seasons[k].audio_locales,
                    &intent.audio,
                ) {
                    audio_found = true;
                }
                k += 1;
            }
            if !audio_found {
                diags.push(
                    Diagnostic::SeasonAudioMissing {
                        season_number: seasons[i].season_number,
                        audio: intent.audio.clone(),
                    },
                );
            }
        }
        i += 1;
    }
    let mut rest = seasons;
    let mut kept: Vec<Season> = Vec::new();
    let mut k: usize = 0;
    assert(rest@ =~= all.skip(0));
    assert(kept@ =~= spec_audio_retained(all.take(0), intent.audio@));
    while k < n
        invariant
            k <= n == all.len(),
            rest@ == all.skip(k as int),
            kept@ == spec_audio_retained(all.take(k as int), intent.audio@),
        decreases n - k,
    {
        let s0 = rest.remove(0);
        assert(s0 == all[k as int]);
        assert(all.skip(k as int).remove(0) =~= all.skip(k as int + 1));
        assert(all.take(k as int + 1).drop_last() =~= all.take(k as int));
        assert(all.take(k as int + 1).last() == all[k as int]);
        if locales_contain(&s0.audio_locales, &intent.audio) {
            kept.push(s0);
        }
        k += 1;
    }
    assert(all.take(n as int) =~= all);
    let ghost mid = kept@;
    let m = kept.len();
    let mut rest2 = kept;
    let mut out: Vec<Season> = Vec::new();
    let mut k2: usize = 0;
    assert(rest2@ =~= mid.skip(0));
    assert(out@ =~= spec_filter_retained(mid.take(0), *url_filter));
    while k2 < m
        invariant
            k2 <= m == mid.len(),
            rest2@ == mid.skip(k2 as int),
            out@ == spec_filter_retained(mid.take(k2 as int), *url_filter),
        decreases m - k2,
    {
        let s0 = rest2.remove(0);
        assert(s0 == mid[k2 as int]);
        assert(mid.skip(k2 as int).remove(0) =~= mid.skip(k2 as int + 1));
        assert(mid.take(k2 as int + 1).drop_last() =~= mid.take(k2 as int));
        assert(mid.take(k2 as int + 1).last() == mid[k2 as int]);
        if url_filter.is_season_valid(s0.season_number) {
            out.push(s0);
        }
        k2 += 1;
    }
    assert(mid.take(m as int) =~= mid);
    (out, diags)
}

/// What a series hands to its caller before any episode work: either it is
/// unavailable in the requested audio, or its pruned seasons still hold
/// duplicate numbers and an interactive run must have them disambiguated
/// externally, or they are ready to resolve.
pub enum SeriesPlan {
    Unavailable(Vec<Diagnostic>),
    NeedsChoice(Vec<Season>, Vec<Diagnostic>),
    Ready(Vec<Season>, Vec<Diagnostic>),
}

/// Whether resolving this series must stop for an external season choice.
pub open spec fn spec_series_plan_needs_choice(
    intent: DownloadIntent,
    series: Series,
    url_filter: UrlFilter,
) -> bool {
    &&& !spec_series_unavailable(intent, series)
    &&& !intent.yes
    &&& has_duplicate_numbers(spec_pruned_seasons(series.seasons@, intent, url_filter))
}

/// Plans the resolution of a series: the audio gate, then the three pruning
/// passes, then the decision whether an external disambiguation is needed.
/// With the non-interactive flag set, no disambiguation is performed and
/// duplicate numbers pass through uncollapsed.
pub fn plan_series(intent: &DownloadIntent, series: Series, url_filter: &UrlFilter) -> (p:
    SeriesPlan)
    ensures
        spec_series_unavailable(*intent, series) ==> (p matches SeriesPlan::Unavailable(d) && d@
            == seq![series_audio_diag(*intent, series)]),
        !spec_series_unavailable(*intent, series) && spec_series_plan_needs_choice(
            *intent,
            series,
            *url_filter,
        ) ==> (p matches SeriesPlan::NeedsChoice(sn, d) && sn@ == spec_pruned_seasons(
            series.seasons@,
            *intent,
            *url_filter,
        ) && d@ == spec_prune_diags(series.seasons@, *intent, series.seasons@.len() as int)),
        !spec_series_unavailable(*intent, series) && !spec_series_plan_needs_choice(
            *intent,
            series,
            *url_filter,
        ) ==> (p matches SeriesPlan::Ready(sn, d) && sn@ == spec_pruned_seasons(
            series.seasons@,
            *intent,
            *url_filter,
        ) && d@ == spec_prune_diags(series.seasons@, *intent, series.seasons@.len() as int)),
{
    if series.audio_locales.len() > 0 && !locales_contain(&series.audio_locales, &intent.audio) {
        let mut d: Vec<Diagnostic> = Vec::new();
        d.push(
            Diagnostic::SeriesAudioMissing {
                series_title: series.title.clone(),
                audio: intent.audio.clone(),
            },
        );
        assert(d@ =~= seq![series_audio_diag(*intent, series)]);
        return SeriesPlan::Unavailable(d);
    }
    let (kept, diags) = prune_seasons(intent, series.seasons, url_filter);
    if !intent.yes && has_duplicate_season_numbers(&kept) {
        SeriesPlan::NeedsChoice(kept, diags)
    } else {
        SeriesPlan::Ready(kept, diags)
    }
}

/// What resolving a whole series yields on a path that needs no external
/// choice: the audio gate with its single diagnostic, or the pruned seasons
/// resolved in order behind the pruning diagnostics.
pub open spec fn spec_series_outcome(
    intent: DownloadIntent,
    series: Series,
    url_filter: UrlFilter,
) -> Result<(Option<Seq<FormatView>>, Seq<Diagnostic>), ResolveError> {
    if spec_series_unavailable(intent, series) {
        Ok((None, seq![series_audio_diag(intent, series)]))
    } else {
        let pruned = spec_pruned_seasons(series.seasons@, intent, url_filter);
        let pdiags = spec_prune_diags(series.seasons@, intent, series.seasons@.len() as int);
        match spec_seasons_outcome(intent, pruned, url_filter) {
            Err(e) => Err(e),
            Ok(p) => Ok(
                (
                    if p.0.len() == 0 {
                        None
                    } else {
                        Some(p.0)
                    },
                    pdiags + p.1,
                ),
            ),
        }
    }
}

/// Resolves a series end to end when no interactive disambiguation is
/// called for; an interactive run with surviving duplicate season numbers
/// must go through `plan_series` and an external choice instead, and then
/// resolve the chosen seasons with `formats_from_seasons`.
pub fn formats_from_series(
    intent: &DownloadIntent,
    series: Series,
    url_filter: &UrlFilter,
) -> (r: Result<(Option<Vec<Format>>, Vec<Diagnostic>), ResolveError>)
    requires
        !spec_series_plan_needs_choice(*intent, series, *url_filter),
    ensures
        list_result_matches(r, spec_series_outcome(*intent, series, *url_filter)),
{
    match plan_series(intent, series, url_filter) {
        SeriesPlan::Unavailable(d) => Ok((None, d)),
        SeriesPlan::NeedsChoice(_sn, _d) => vstd::pervasive::unreached(),
        SeriesPlan::Ready(seasons, diags) => {
            match formats_from_seasons(intent, &seasons, url_filter) {
                Err(e) => Err(e),
                Ok(p) => {
                    let (fopt, ds2) = p;
                    let mut all_diags = diags;
                    let mut tail = ds2;
                    all_diags.append(&mut tail);
                    Ok((fopt, all_diags))
                },
            }
        },
    }
}

/// Lifts a leaf outcome to the uniform aggregate shape: one format becomes a
/// one-element list, one diagnostic a one-element sequence.
pub open spec fn lift_leaf(
    s: Result<(Option<FormatView>, Option<Diagnostic>), ResolveError>,
) -> Result<(Option<Seq<FormatView>>, Seq<Diagnostic>), ResolveError> {
    match s {
        Err(e) => Err(e),
        Ok(p) => Ok(
            (
                match p.0 {
                    Some(f) => Some(seq![f]),
                    None => None,
                },
                push_opt(Seq::empty(), p.1),
            ),
        ),
    }
}

/// What resolving any media node yields. A node that is a bare episode is
/// resolved without audio filtering and without a season context, so its
/// relative episode number is reported as zero.
pub open spec fn spec_node_outcome(
    intent: DownloadIntent,
    node: MediaNode,
    url_filter: UrlFilter,
) -> Result<(Option<Seq<FormatView>>, Seq<Diagnostic>), ResolveError> {
    match node {
        MediaNode::Series(sr) => spec_series_outcome(intent, sr, url_filter),
        MediaNode::Season(sn) => spec_season_outcome(intent, sn, url_filter),
        MediaNode::Episode(ep) => lift_leaf(
            spec_episode_outcome(intent, ep, url_filter, Seq::empty(), false),
        ),
        MediaNode::MovieListing(l) => spec_listing_outcome(intent, l),
        MediaNode::Movie(m) => lift_leaf(spec_movie_outcome(intent, m)),
    }
}

/// Resolves one parsed URL's media node into the flat list of formats to
/// download, dispatching on the node kind.
pub fn resolve_media_node(
    intent: &DownloadIntent,
    node: MediaNode,
    url_filter: &UrlFilter,
) -> (r: Result<(Option<Vec<Format>>, Vec<Diagnostic>), ResolveError>)
    requires
        node matches MediaNode::Series(sr) ==> !spec_series_plan_needs_choice(
            *intent,
            sr,
            *url_filter,
        ),
    ensures
        list_result_matches(r, spec_node_outcome(*intent, node, *url_filter)),
{
    match node {
        MediaNode::Series(sr) => formats_from_series(intent, sr, url_filter),
        MediaNode::Season(sn) => formats_from_season(intent, &sn, url_filter),
        MediaNode::Episode(ep) => {
            let empty_eps: Vec<Episode> = Vec::new();
            match format_from_episode(intent, &ep, url_filter, &empty_eps, false) {
                Err(e) => Err(e),
                Ok(p) => {
                    let (fo, dg) = p;
                    let mut diags: Vec<Diagnostic> = Vec::new();
                    match dg {
                        Some(d) => {
                            let ghost dv = d;
                            diags.push(d);
                            assert(diags@ =~= Seq::<Diagnostic>::empty().push(dv));
                        },
                        None => {
                            assert(diags@ =~= Seq::<Diagnostic>::empty());
                        },
                    }
                    match fo {
                        Some(f) => {
                            let ghost fv = f@;
                            let mut v: Vec<Format> = Vec::new();
                            v.push(f);
                            assert(v@.len() == 1);
                            Ok((Some(v), diags))
                        },
                        None => Ok((None, diags)),
                    }
                },
            }
        },
        MediaNode::MovieListing(l) => format_from_movie_listing(intent, &l, url_filter),
        MediaNode::Movie(m) => {
            match format_from_movie(intent, &m, url_filter) {
                Err(e) => Err(e),
                Ok(p) => {
                    let (fo, dg) = p;
                    let mut diags: Vec<Diagnostic> = Vec::new();
                    match dg {
                        Some(d) => {
                            let ghost dv = d;
                            diags.push(d);
                            assert(diags@ =~= Seq::<Diagnostic>::empty().push(dv));
                        },
                        None => {
                            assert(diags@ =~= Seq::<Diagnostic>::empty());
                        },
                    }
                    match fo {
                        Some(f) => {
                            let mut v: Vec<Format> = Vec::new();
                            v.push(f);
                            assert(v@.len() == 1);
                            Ok((Some(v), diags))
                        },
                        None => Ok((None, diags)),
                    }
                },
            }
        },
    }
}

// ---------------------------------------------------------------------------
// Laws of the resolution pipeline
// ---------------------------------------------------------------------------

/// A series whose declared audio locales are non-empty and exclude the
/// requested audio resolves, descendants and all, to nothing, with exactly
/// one diagnostic for the series level.
pub proof fn lemma_unavailable_series_yields_nothing(
    intent: DownloadIntent,
    series: Series,
    url_filter: UrlFilter,
)
    requires
        spec_series_unavailable(intent, series),
    ensures
        spec_series_outcome(intent, series, url_filter) == Ok::<
            (Option<Seq<FormatView>>, Seq<Diagnostic>),
            ResolveError,
        >((None, seq![series_audio_diag(intent, series)])),
{
}

/// A season that does not declare the requested audio resolves, episodes and
/// all, to nothing, with exactly one diagnostic for the season level.
pub proof fn lemma_unavailable_season_yields_nothing(
    intent: DownloadIntent,
    season: Season,
    url_filter: UrlFilter,
)
    requires
        url_filter.spec_is_season_valid(season.season_number),
        !locale_listed(season.audio_locales.deep_view(), intent.audio@),
    ensures
        spec_season_outcome(intent, season, url_filter) == Ok::<
            (Option<Seq<FormatView>>, Seq<Diagnostic>),
            ResolveError,
        >((None, seq![season_audio_diag(intent, season.season_number)])),
{
}

/// With the non-interactive flag set, resolution never stops for an external
/// season choice: duplicate season numbers pass through uncollapsed.
pub proof fn lemma_non_interactive_never_prompts(
    intent: DownloadIntent,
    series: Series,
    url_filter: UrlFilter,
)
    requires
        intent.yes,
    ensures
        !spec_series_plan_needs_choice(intent, series, url_filter),
{
}

/// A movie lacking the requested subtitle locale yields nothing but its one
/// diagnostic, and in particular nothing that a transcoder run could start
/// from.
pub proof fn lemma_movie_without_subtitle_yields_nothing(intent: DownloadIntent, movie: Movie)
    requires
        intent.subtitle matches Some(sub) && spec_find_subtitle(movie.subtitles@, sub@) is None,
    ensures
        spec_movie_outcome(intent, movie) == Ok::<
            (Option<FormatView>, Option<Diagnostic>),
            ResolveError,
        >((None, Some(movie_subtitle_diag(movie, intent.subtitle->0)))),
{
}

} // verus!
