use vstd::prelude::*;

verus! {

/// One concrete encoded rendition of an entity. Several variants exist per
/// entity; they are mutually exclusive choices. The frame rate is carried in
/// hundredths of a frame per second so that it stays an integer.
#[derive(Debug, PartialEq, Eq)]
pub struct StreamVariant {
    pub width: u64,
    pub height: u64,
    pub fps_hundredths: u64,
    /// Opaque handle usable to retrieve the media payload of this rendition.
    pub source: String,
}

impl Clone for StreamVariant {
    fn clone(&self) -> (r: Self)
        ensures
            r == *self,
    {
        StreamVariant {
            width: self.width,
            height: self.height,
            fps_hundredths: self.fps_hundredths,
            source: self.source.clone(),
        }
    }
}

/// One subtitle rendition for an entity, keyed by locale.
#[derive(Debug, PartialEq, Eq)]
pub struct SubtitleTrack {
    pub locale: String,
    /// Opaque handle usable to retrieve the timed text of this track.
    pub source: String,
}

impl Clone for SubtitleTrack {
    fn clone(&self) -> (r: Self)
        ensures
            r == *self,
    {
        SubtitleTrack { locale: self.locale.clone(), source: self.source.clone() }
    }
}

/// An episode together with its already fetched stream manifest: the remote
/// client hands the hierarchy over as plain data before resolution starts.
pub struct Episode {
    pub id: String,
    pub title: String,
    pub series_id: String,
    pub series_title: String,
    pub season_id: String,
    pub season_title: String,
    pub season_number: u32,
    pub episode_number: u32,
    pub audio_locale: String,
    pub variants: Vec<StreamVariant>,
    pub subtitles: Vec<SubtitleTrack>,
}

pub struct Season {
    pub id: String,
    pub title: String,
    pub series_title: String,
    pub season_number: u32,
    pub audio_locales: Vec<String>,
    pub episodes: Vec<Episode>,
}

pub struct Series {
    pub id: String,
    pub title: String,
    pub audio_locales: Vec<String>,
    pub seasons: Vec<Season>,
}

pub struct Movie {
    pub id: String,
    pub title: String,
    pub listing_id: String,
    pub listing_title: String,
    pub audio_locale: String,
    pub variants: Vec<StreamVariant>,
    pub subtitles: Vec<SubtitleTrack>,
}

pub struct MovieListing {
    pub id: String,
    pub title: String,
    pub movies: Vec<Movie>,
}

/// Closed sum over the media kinds that a URL can resolve to.
pub enum MediaNode {
    Series(Series),
    Season(Season),
    Episode(Episode),
    MovieListing(MovieListing),
    Movie(Movie),
}

/// Whether the locale `locale` occurs in the list `locales`, compared by
/// content.
pub open spec fn locale_listed(locales: Seq<Seq<char>>, locale: Seq<char>) -> bool {
    exists|i: int| 0 <= i < locales.len() && locales[i] == locale
}

/// Membership test of a locale in a declared locale list.
pub fn locales_contain(locales: &Vec<String>, locale: &String) -> (r: bool)
    ensures
        r == locale_listed(locales.deep_view(), locale@),
{
    let mut i: usize = 0;
    while i < locales.len()
        invariant
            i <= locales.len(),
            forall|j: int| 0 <= j < i ==> locales.deep_view()[j] != locale@,
        decreases locales.len() - i,
    {
        if locales[i] == *locale {
            assert(locales.deep_view()[i as int] == locale@);
            return true;
        }
        i += 1;
    }
    false
}

/// The first subtitle track of `subs` whose locale is `locale`, if any.
pub open spec fn spec_find_subtitle(subs: Seq<SubtitleTrack>, locale: Seq<char>) -> Option<
    SubtitleTrack,
>
    decreases subs.len(),
{
    if subs.len() == 0 {
        None
    } else if subs[0].locale@ == locale {
        Some(subs[0])
    } else {
        spec_find_subtitle(subs.skip(1), locale)
    }
}

/// Looks a requested subtitle locale up in an entity's track list; the first
/// track with that locale wins.
pub fn find_subtitle(subs: &Vec<SubtitleTrack>, locale: &String) -> (r: Option<SubtitleTrack>)
    ensures
        r == spec_find_subtitle(subs@, locale@),
{
    let mut i: usize = 0;
    assert(subs@.skip(0) =~= subs@);
    while i < subs.len()
        invariant
            i <= subs.len(),
            spec_find_subtitle(subs@, locale@) == spec_find_subtitle(subs@.skip(i as int), locale@),
        decreases subs.len() - i,
    {
        if subs[i].locale == *locale {
            assert(subs@.skip(i as int)[0] == subs@[i as int]);
            return Some(subs[i].clone());
        }
        assert(subs@.skip(i as int).skip(1) =~= subs@.skip(i as int + 1));
        i += 1;
    }
    assert(subs@.skip(i as int).len() == 0);
    None
}

} // verus!
