use crunchy_cli_core::filter::UrlFilter;
use crunchy_cli_core::format::Format;
use crunchy_cli_core::intent::DownloadIntent;
use crunchy_cli_core::media::{
    Episode, MediaNode, Movie, MovieListing, Season, Series, StreamVariant, SubtitleTrack,
};
use crunchy_cli_core::resolve::{
    format_from_episode, format_from_movie, format_from_movie_listing, formats_from_season,
    formats_from_seasons, formats_from_series, has_duplicate_season_numbers, plan_series,
    prune_seasons, resolve_media_node, Diagnostic, ResolveError, SeriesPlan,
};
use crunchy_cli_core::selector::ResolutionTarget;
use crunchy_cli_core::some_vec_or_none;

fn variant(width: u64, height: u64) -> StreamVariant {
    StreamVariant {
        width,
        height,
        fps_hundredths: 2397,
        source: format!("v{}", height),
    }
}

fn ladder() -> Vec<StreamVariant> {
    vec![variant(1920, 1080), variant(1280, 720), variant(640, 360)]
}

fn intent(audio: &str) -> DownloadIntent {
    DownloadIntent {
        audio: audio.to_string(),
        subtitle: None,
        resolution: ResolutionTarget::Best,
        output: "{title}.mp4".to_string(),
        preset: None,
        skip_existing: false,
        yes: true,
    }
}

fn episode(id: &str, season_number: u32, episode_number: u32, audio: &str) -> Episode {
    Episode {
        id: id.to_string(),
        title: format!("episode {}", id),
        series_id: "SR".to_string(),
        series_title: "series".to_string(),
        season_id: format!("SN{}", season_number),
        season_title: format!("season {}", season_number),
        season_number,
        episode_number,
        audio_locale: audio.to_string(),
        variants: ladder(),
        subtitles: vec![],
    }
}

fn season(season_number: u32, audio: &str, episodes: Vec<Episode>) -> Season {
    Season {
        id: format!("SN{}", season_number),
        title: format!("season {}", season_number),
        series_title: "series".to_string(),
        season_number,
        audio_locales: vec![audio.to_string()],
        episodes,
    }
}

fn movie(id: &str, subtitles: Vec<SubtitleTrack>) -> Movie {
    Movie {
        id: id.to_string(),
        title: format!("movie {}", id),
        listing_id: "L".to_string(),
        listing_title: "listing".to_string(),
        audio_locale: "ja-JP".to_string(),
        variants: ladder(),
        subtitles,
    }
}

fn titles(formats: &[Format]) -> Vec<String> {
    formats.iter().map(|f| f.title.clone()).collect()
}

#[test]
fn series_excluding_requested_audio_yields_one_diagnostic() {
    let series = Series {
        id: "SR".to_string(),
        title: "series".to_string(),
        audio_locales: vec!["en-US".to_string()],
        seasons: vec![season(1, "en-US", vec![episode("e1", 1, 1, "en-US")])],
    };
    let it = intent("ja-JP");
    let filter = UrlFilter::all();
    let r = resolve_media_node(&it, MediaNode::Series(series), &filter).unwrap();
    assert!(r.0.is_none());
    assert_eq!(
        r.1,
        vec![Diagnostic::SeriesAudioMissing {
            series_title: "series".to_string(),
            audio: "ja-JP".to_string(),
        }]
    );
}

#[test]
fn season_without_audio_yields_one_diagnostic_not_one_per_episode() {
    let sn = season(
        1,
        "en-US",
        vec![episode("e1", 1, 1, "en-US"), episode("e2", 1, 2, "en-US")],
    );
    let it = intent("ja-JP");
    let r = formats_from_season(&it, &sn, &UrlFilter::all()).unwrap();
    assert!(r.0.is_none());
    assert_eq!(
        r.1,
        vec![Diagnostic::SeasonAudioMissing { season_number: 1, audio: "ja-JP".to_string() }]
    );
}

#[test]
fn season_resolves_matching_episodes_in_order() {
    let sn = season(
        1,
        "ja-JP",
        vec![
            episode("e1", 1, 1, "ja-JP"),
            episode("e2", 1, 2, "en-US"),
            episode("e3", 1, 3, "ja-JP"),
        ],
    );
    let it = intent("ja-JP");
    let (formats, diags) = formats_from_season(&it, &sn, &UrlFilter::all()).unwrap();
    let formats = formats.unwrap();
    assert_eq!(titles(&formats), vec!["episode e1", "episode e3"]);
    assert_eq!(formats[0].relative_episode_number, 1);
    assert_eq!(formats[1].relative_episode_number, 3);
    assert_eq!(
        diags,
        vec![Diagnostic::EpisodeAudioMissing {
            season_number: 1,
            episode_number: 2,
            audio: "ja-JP".to_string(),
        }]
    );
}

#[test]
fn url_filter_skips_episodes_silently() {
    let sn = season(
        2,
        "ja-JP",
        vec![episode("e1", 2, 1, "ja-JP"), episode("e2", 2, 2, "ja-JP")],
    );
    let it = intent("ja-JP");
    let filter = UrlFilter { season: Some(2), episode: Some(2) };
    let (formats, diags) = formats_from_season(&it, &sn, &filter).unwrap();
    assert_eq!(titles(&formats.unwrap()), vec!["episode e2"]);
    assert!(diags.is_empty());
}

#[test]
fn url_filter_rejects_whole_season_silently() {
    let sn = season(2, "ja-JP", vec![episode("e1", 2, 1, "ja-JP")]);
    let it = intent("ja-JP");
    let filter = UrlFilter { season: Some(3), episode: None };
    let (formats, diags) = formats_from_season(&it, &sn, &filter).unwrap();
    assert!(formats.is_none());
    assert!(diags.is_empty());
}

#[test]
fn missing_exact_resolution_aborts_the_run() {
    let sn = season(1, "ja-JP", vec![episode("e1", 1, 1, "ja-JP")]);
    let mut it = intent("ja-JP");
    it.resolution = ResolutionTarget::Exact { width: 854, height: 480 };
    let r = formats_from_season(&it, &sn, &UrlFilter::all());
    assert_eq!(
        r,
        Err(ResolveError::ResolutionUnavailable {
            target: ResolutionTarget::Exact { width: 854, height: 480 },
            title: "episode e1".to_string(),
        })
    );
}

#[test]
fn episode_missing_subtitle_yields_diagnostic() {
    let ep = episode("e1", 1, 1, "ja-JP");
    let mut it = intent("ja-JP");
    it.subtitle = Some("de-DE".to_string());
    let r = format_from_episode(&it, &ep, &UrlFilter::all(), &vec![], false).unwrap();
    assert!(r.0.is_none());
    assert_eq!(
        r.1,
        Some(Diagnostic::EpisodeSubtitleMissing {
            season_number: 1,
            episode_number: 1,
            subtitle: "de-DE".to_string(),
        })
    );
}

#[test]
fn episode_with_subtitle_carries_the_track() {
    let mut ep = episode("e1", 1, 1, "ja-JP");
    ep.subtitles = vec![SubtitleTrack {
        locale: "de-DE".to_string(),
        source: "sub-de".to_string(),
    }];
    let mut it = intent("ja-JP");
    it.subtitle = Some("de-DE".to_string());
    let r = format_from_episode(&it, &ep, &UrlFilter::all(), &vec![], false).unwrap();
    let f = r.0.unwrap();
    assert_eq!(f.subtitles.len(), 1);
    assert_eq!(f.subtitles[0].source, "sub-de");
    assert!(r.1.is_none());
}

#[test]
fn duplicate_seasons_stay_when_non_interactive() {
    let series = Series {
        id: "SR".to_string(),
        title: "series".to_string(),
        audio_locales: vec![],
        seasons: vec![
            season(2, "ja-JP", vec![episode("dub", 2, 1, "ja-JP")]),
            season(2, "ja-JP", vec![episode("sub", 2, 1, "ja-JP")]),
        ],
    };
    let it = intent("ja-JP");
    let (formats, diags) = formats_from_series(&it, series, &UrlFilter::all()).unwrap();
    assert_eq!(titles(&formats.unwrap()), vec!["episode dub", "episode sub"]);
    assert!(diags.is_empty());
}

#[test]
fn duplicate_seasons_interactive_choice_keeps_only_chosen() {
    let series = Series {
        id: "SR".to_string(),
        title: "series".to_string(),
        audio_locales: vec![],
        seasons: vec![
            season(2, "ja-JP", vec![episode("dub", 2, 1, "ja-JP")]),
            season(2, "ja-JP", vec![episode("sub", 2, 1, "ja-JP")]),
        ],
    };
    let mut it = intent("ja-JP");
    it.yes = false;
    let filter = UrlFilter::all();
    match plan_series(&it, series, &filter) {
        SeriesPlan::NeedsChoice(seasons, diags) => {
            assert_eq!(seasons.len(), 2);
            assert!(diags.is_empty());
            // A disambiguation collaborator that always picks the first
            // choice per duplicated number.
            let mut chosen: Vec<Season> = Vec::new();
            for s in seasons {
                if !chosen.iter().any(|c| c.season_number == s.season_number) {
                    chosen.push(s);
                }
            }
            let (formats, diags2) = formats_from_seasons(&it, &chosen, &filter).unwrap();
            assert_eq!(titles(&formats.unwrap()), vec!["episode dub"]);
            assert!(diags2.is_empty());
        }
        _ => panic!("expected an interactive choice"),
    }
}

#[test]
fn audio_pruning_drops_disqualified_siblings_and_reports_lost_numbers() {
    let seasons = vec![
        season(1, "en-US", vec![]),
        season(2, "ja-JP", vec![]),
        season(2, "en-US", vec![]),
    ];
    let it = intent("ja-JP");
    let (kept, diags) = prune_seasons(&it, seasons, &UrlFilter::all());
    assert_eq!(kept.len(), 1);
    assert_eq!(kept[0].season_number, 2);
    assert_eq!(kept[0].audio_locales, vec!["ja-JP".to_string()]);
    assert_eq!(
        diags,
        vec![Diagnostic::SeasonAudioMissing { season_number: 1, audio: "ja-JP".to_string() }]
    );
}

#[test]
fn url_pruning_prevents_needless_disambiguation() {
    // The duplicate pair is excluded by the URL filter, so an interactive
    // run has nothing to ask about.
    let series = Series {
        id: "SR".to_string(),
        title: "series".to_string(),
        audio_locales: vec![],
        seasons: vec![
            season(1, "ja-JP", vec![episode("a", 1, 1, "ja-JP")]),
            season(2, "ja-JP", vec![episode("dub", 2, 1, "ja-JP")]),
            season(2, "ja-JP", vec![episode("sub", 2, 1, "ja-JP")]),
        ],
    };
    let mut it = intent("ja-JP");
    it.yes = false;
    let filter = UrlFilter { season: Some(1), episode: None };
    match plan_series(&it, series, &filter) {
        SeriesPlan::Ready(seasons, _) => assert_eq!(seasons.len(), 1),
        _ => panic!("expected no interactive choice"),
    }
}

#[test]
fn duplicate_detection() {
    let a = vec![season(1, "x", vec![]), season(2, "x", vec![])];
    assert!(!has_duplicate_season_numbers(&a));
    let b = vec![season(1, "x", vec![]), season(2, "x", vec![]), season(1, "x", vec![])];
    assert!(has_duplicate_season_numbers(&b));
}

#[test]
fn movie_missing_subtitle_yields_one_diagnostic_and_no_format() {
    let m = movie("m1", vec![]);
    let mut it = intent("ja-JP");
    it.subtitle = Some("de-DE".to_string());
    let r = format_from_movie(&it, &m, &UrlFilter::all()).unwrap();
    assert!(r.0.is_none());
    assert_eq!(
        r.1,
        Some(Diagnostic::MovieSubtitleMissing {
            movie_title: "movie m1".to_string(),
            subtitle: "de-DE".to_string(),
        })
    );
}

#[test]
fn movie_listing_resolves_each_member() {
    let listing = MovieListing {
        id: "L".to_string(),
        title: "listing".to_string(),
        movies: vec![movie("m1", vec![]), movie("m2", vec![])],
    };
    let it = intent("ja-JP");
    let (formats, diags) = format_from_movie_listing(&it, &listing, &UrlFilter::all()).unwrap();
    let formats = formats.unwrap();
    assert_eq!(titles(&formats), vec!["movie m1", "movie m2"]);
    assert_eq!(formats[0].stream.width, 1920);
    assert!(diags.is_empty());
}

#[test]
fn bare_episode_node_resolves_without_audio_filtering() {
    let ep = episode("e9", 3, 9, "en-US");
    let it = intent("ja-JP");
    let r = resolve_media_node(&it, MediaNode::Episode(ep), &UrlFilter::all()).unwrap();
    let formats = r.0.unwrap();
    assert_eq!(formats.len(), 1);
    assert_eq!(formats[0].title, "episode e9");
    assert_eq!(formats[0].relative_episode_number, 0);
    assert!(r.1.is_empty());
}

#[test]
fn some_vec_or_none_distinguishes_empty() {
    assert_eq!(some_vec_or_none(Vec::<u32>::new()), None);
    assert_eq!(some_vec_or_none(vec![1u32, 2]), Some(vec![1u32, 2]));
}

#[test]
fn url_filter_predicates() {
    let f = UrlFilter { season: Some(2), episode: Some(5) };
    assert!(f.is_season_valid(2));
    assert!(!f.is_season_valid(3));
    assert!(f.is_episode_valid(5, 2));
    assert!(!f.is_episode_valid(4, 2));
    assert!(!f.is_episode_valid(5, 3));
    let all = UrlFilter::all();
    assert!(all.is_season_valid(7));
    assert!(all.is_episode_valid(1, 7));
}

#[test]
fn season_node_dispatches_like_a_season() {
    let sn = season(1, "ja-JP", vec![episode("e1", 1, 1, "ja-JP")]);
    let it = intent("ja-JP");
    let r = resolve_media_node(&it, MediaNode::Season(sn), &UrlFilter::all()).unwrap();
    assert_eq!(titles(&r.0.unwrap()), vec!["episode e1"]);
}

#[test]
fn movie_node_resolves_to_single_format() {
    let m = movie("m1", vec![]);
    let mut it = intent("ja-JP");
    it.resolution = ResolutionTarget::Worst;
    let r = resolve_media_node(&it, MediaNode::Movie(m), &UrlFilter::all()).unwrap();
    let formats = r.0.unwrap();
    assert_eq!(formats.len(), 1);
    assert_eq!(formats[0].stream.width, 640);
    assert_eq!(formats[0].season_number, 1);
    assert_eq!(formats[0].subtitles.len(), 0);
}

#[test]
fn movie_with_requested_subtitle_present_still_selects() {
    let m = movie(
        "m1",
        vec![SubtitleTrack { locale: "de-DE".to_string(), source: "s".to_string() }],
    );
    let mut it = intent("ja-JP");
    it.subtitle = Some("de-DE".to_string());
    let r = format_from_movie(&it, &m, &UrlFilter::all()).unwrap();
    let f = r.0.unwrap();
    assert_eq!(f.stream.width, 1920);
    assert!(r.1.is_none());
}

#[test]
fn one_diagnostic_per_lost_season_number() {
    let seasons = vec![
        season(1, "en-US", vec![]),
        season(1, "en-US", vec![]),
        season(2, "en-US", vec![]),
    ];
    let it = intent("ja-JP");
    let (kept, diags) = prune_seasons(&it, seasons, &UrlFilter::all());
    assert!(kept.is_empty());
    assert_eq!(
        diags,
        vec![
            Diagnostic::SeasonAudioMissing { season_number: 1, audio: "ja-JP".to_string() },
            Diagnostic::SeasonAudioMissing { season_number: 2, audio: "ja-JP".to_string() },
        ]
    );
}
