//! The catalog entry: one audio file with what its tags and its audio
//! stream say about it.
use crate::text::{decimal, decimal_string, str_eq};
use vstd::prelude::*;

verus! {

/// What the audio stream of a file reports about itself.
#[derive(Debug, PartialEq, Eq)]
pub struct AudioProperties {
    /// Length in whole seconds; zero when unknown.
    pub duration: u64,
    pub channels: Option<u8>,
    pub sample_rate: Option<u32>,
    pub audio_bitrate: Option<u32>,
    pub bit_depth: Option<u8>,
}

/// The tag fields of a file. A missing field is an ordinary state.
#[derive(Debug, PartialEq, Eq)]
pub struct TrackTags {
    pub title: Option<String>,
    pub artist: Option<String>,
    pub album: Option<String>,
    pub genre: Option<String>,
    pub year: Option<u32>,
    pub track: Option<u32>,
    pub track_total: Option<u32>,
}

/// One audio file of the library.
#[derive(Debug, PartialEq, Eq)]
pub struct Song {
    pub path: String,
    pub cover_path: Option<String>,
    pub cover_data: Option<Vec<u8>>,
    pub title: Option<String>,
    pub artist: Option<String>,
    pub album: Option<String>,
    pub genre: Option<String>,
    pub year: Option<u32>,
    pub track: Option<u32>,
    pub track_total: Option<u32>,
    /// Length in whole seconds; zero when unknown.
    pub duration: u64,
    pub channels: Option<u8>,
    pub sample_rate: Option<u32>,
    pub audio_bitrate: Option<u32>,
    pub bit_depth: Option<u8>,
}

/// A song as a mathematical value: texts as sequences of characters.
pub struct SongView {
    pub path: Seq<char>,
    pub cover_path: Option<Seq<char>>,
    pub cover_data: Option<Seq<u8>>,
    pub title: Option<Seq<char>>,
    pub artist: Option<Seq<char>>,
    pub album: Option<Seq<char>>,
    pub genre: Option<Seq<char>>,
    pub year: Option<u32>,
    pub track: Option<u32>,
    pub track_total: Option<u32>,
    pub duration: u64,
    pub channels: Option<u8>,
    pub sample_rate: Option<u32>,
    pub audio_bitrate: Option<u32>,
    pub bit_depth: Option<u8>,
}

/// The characters of an optional text.
pub open spec fn text_view(text: Option<String>) -> Option<Seq<char>> {
    match text {
        Some(s) => Some(s@),
        None => None,
    }
}

/// The bytes of an optional buffer.
pub open spec fn bytes_view(bytes: Option<Vec<u8>>) -> Option<Seq<u8>> {
    match bytes {
        Some(b) => Some(b@),
        None => None,
    }
}

/// The text, or the empty text where there is none.
pub open spec fn text_or_empty(text: Option<Seq<char>>) -> Seq<char> {
    match text {
        Some(s) => s,
        None => Seq::empty(),
    }
}

/// The number, or zero where there is none.
pub open spec fn number_or_zero(number: Option<u32>) -> u32 {
    match number {
        Some(n) => n,
        None => 0,
    }
}

impl View for Song {
    type V = SongView;

    open spec fn view(&self) -> SongView {
        SongView {
            path: self.path@,
            cover_path: text_view(self.cover_path),
            cover_data: bytes_view(self.cover_data),
            title: text_view(self.title),
            artist: text_view(self.artist),
            album: text_view(self.album),
            genre: text_view(self.genre),
            year: self.year,
            track: self.track,
            track_total: self.track_total,
            duration: self.duration,
            channels: self.channels,
            sample_rate: self.sample_rate,
            audio_bitrate: self.audio_bitrate,
            bit_depth: self.bit_depth,
        }
    }
}

/// The views of a sequence of songs, in the same order.
pub open spec fn song_views(songs: Seq<Song>) -> Seq<SongView> {
    Seq::new(songs.len(), |i: int| songs[i]@)
}

impl SongView {
    /// The record that `Song::new` makes for `path`: nothing is known yet.
    pub open spec fn unloaded(path: Seq<char>) -> SongView {
        SongView {
            path,
            cover_path: None,
            cover_data: None,
            title: None,
            artist: None,
            album: None,
            genre: None,
            year: None,
            track: None,
            track_total: None,
            duration: 0,
            channels: None,
            sample_rate: None,
            audio_bitrate: None,
            bit_depth: None,
        }
    }

    /// The cover path, or the empty path where no cover was resolved.
    pub open spec fn cover_or_empty(self) -> Seq<char> {
        text_or_empty(self.cover_path)
    }
}

/// A copy of an optional text.
pub fn clone_text(text: &Option<String>) -> (r: Option<String>)
    ensures
        text_view(r) == text_view(*text),
{
    match text {
        Some(s) => Some(s.clone()),
        None => None,
    }
}

/// A copy of an optional buffer.
pub fn clone_bytes(bytes: &Option<Vec<u8>>) -> (r: Option<Vec<u8>>)
    ensures
        bytes_view(r) == bytes_view(*bytes),
{
    match bytes {
        Some(b) => {
            let c = b.clone();
            Some(c)
        },
        None => None,
    }
}

impl Clone for Song {
    fn clone(&self) -> (r: Self)
        ensures
            r@ == self@,
    {
        Song {
            path: self.path.clone(),
            cover_path: clone_text(&self.cover_path),
            cover_data: clone_bytes(&self.cover_data),
            title: clone_text(&self.title),
            artist: clone_text(&self.artist),
            album: clone_text(&self.album),
            genre: clone_text(&self.genre),
            year: self.year,
            track: self.track,
            track_total: self.track_total,
            duration: self.duration,
            channels: self.channels,
            sample_rate: self.sample_rate,
            audio_bitrate: self.audio_bitrate,
            bit_depth: self.bit_depth,
        }
    }
}

impl Default for Song {
    fn default() -> (r: Self)
        ensures
            r@ == SongView::unloaded(Seq::empty()),
    {
        Song::new(String::new())
    }
}

impl Song {
    /// A record for the file at `path`, with nothing loaded yet.
    pub fn new(path: String) -> (r: Self)
        ensures
            r@ == SongView::unloaded(path@),
    {
        Song {
            path,
            cover_path: None,
            cover_data: None,
            title: None,
            artist: None,
            album: None,
            genre: None,
            year: None,
            track: None,
            track_total: None,
            duration: 0,
            channels: None,
            sample_rate: None,
            audio_bitrate: None,
            bit_depth: None,
        }
    }

    /// The path of the file.
    pub fn get_path(&self) -> (r: String)
        ensures
            r@ == self@.path,
    {
        self.path.clone()
    }

    /// The path of the cover image; empty where no cover was resolved.
    pub fn get_cover_path(&self) -> (r: String)
        ensures
            r@ == self@.cover_or_empty(),
    {
        match &self.cover_path {
            Some(p) => p.clone(),
            None => String::new(),
        }
    }
}

/// A field of a song that can be asked for by name.
#[derive(Clone, Copy, Debug, PartialEq, Eq, Structural)]
pub enum SongField {
    Title,
    Album,
    Artist,
    Genre,
    Year,
    Track,
    Duration,
    CoverPath,
}

/// The field that `key` names, if it names one. Names are matched exactly.
pub open spec fn field_of_key(key: Seq<char>) -> Option<SongField> {
    if key == "title"@ {
        Some(SongField::Title)
    } else if key == "album"@ {
        Some(SongField::Album)
    } else if key == "artist"@ {
        Some(SongField::Artist)
    } else if key == "genre"@ {
        Some(SongField::Genre)
    } else if key == "year"@ {
        Some(SongField::Year)
    } else if key == "track"@ {
        Some(SongField::Track)
    } else if key == "duration"@ {
        Some(SongField::Duration)
    } else if key == "cover_path"@ {
        Some(SongField::CoverPath)
    } else {
        None
    }
}

impl SongField {
    /// The field that `key` names, if it names one.
    pub fn from_key(key: &str) -> (r: Option<SongField>)
        ensures
            r == field_of_key(key@),
    {
        if str_eq(key, "title") {
            Some(SongField::Title)
        } else if str_eq(key, "album") {
            Some(SongField::Album)
        } else if str_eq(key, "artist") {
            Some(SongField::Artist)
        } else if str_eq(key, "genre") {
            Some(SongField::Genre)
        } else if str_eq(key, "year") {
            Some(SongField::Year)
        } else if str_eq(key, "track") {
            Some(SongField::Track)
        } else if str_eq(key, "duration") {
            Some(SongField::Duration)
        } else if str_eq(key, "cover_path") {
            Some(SongField::CoverPath)
        } else {
            None
        }
    }
}

impl SongView {
    /// The field as text. A missing text reads as the empty text, a missing
    /// number as zero; numbers are written in decimal.
    pub open spec fn field_text(self, field: SongField) -> Seq<char> {
        match field {
            SongField::Title => text_or_empty(self.title),
            SongField::Album => text_or_empty(self.album),
            SongField::Artist => text_or_empty(self.artist),
            SongField::Genre => text_or_empty(self.genre),
            SongField::Year => decimal(number_or_zero(self.year) as nat),
            SongField::Track => decimal(number_or_zero(self.track) as nat),
            SongField::Duration => decimal(self.duration as nat),
            SongField::CoverPath => self.cover_or_empty(),
        }
    }

    /// The field that `key` names, as text; the empty text where `key` names
    /// no field.
    pub open spec fn info(self, key: Seq<char>) -> Seq<char> {
        match field_of_key(key) {
            Some(field) => self.field_text(field),
            None => Seq::empty(),
        }
    }
}

/// The text, or the empty text where there is none.
pub fn text_or_default(text: &Option<String>) -> (r: String)
    ensures
        r@ == text_or_empty(text_view(*text)),
{
    match text {
        Some(s) => s.clone(),
        None => String::new(),
    }
}

/// The number, or zero where there is none.
pub fn number_or_default(number: Option<u32>) -> (r: u32)
    ensures
        r == number_or_zero(number),
{
    match number {
        Some(n) => n,
        None => 0,
    }
}

impl Song {
    /// Takes over what the tag reader found in the file: the audio properties,
    /// the tags and the embedded picture. The path and the cover stay.
    pub fn load_metadata(
        &mut self,
        properties: AudioProperties,
        tags: TrackTags,
        picture: Option<Vec<u8>>,
    )
        ensures
            final(self)@ == (SongView {
                path: old(self)@.path,
                cover_path: old(self)@.cover_path,
                cover_data: bytes_view(picture),
                title: text_view(tags.title),
                artist: text_view(tags.artist),
                album: text_view(tags.album),
                genre: text_view(tags.genre),
                year: tags.year,
                track: tags.track,
                track_total: tags.track_total,
                duration: properties.duration,
                channels: properties.channels,
                sample_rate: properties.sample_rate,
                audio_bitrate: properties.audio_bitrate,
                bit_depth: properties.bit_depth,
            }),
    {
        self.cover_data = picture;
        self.title = tags.title;
        self.artist = tags.artist;
        self.album = tags.album;
        self.genre = tags.genre;
        self.year = tags.year;
        self.track = tags.track;
        self.track_total = tags.track_total;
        self.duration = properties.duration;
        self.channels = properties.channels;
        self.sample_rate = properties.sample_rate;
        self.audio_bitrate = properties.audio_bitrate;
        self.bit_depth = properties.bit_depth;
    }

    /// Gives the song its cover, or none where none could be resolved.
    pub fn set_cover_path(&mut self, cover_path: Option<String>)
        ensures
            final(self)@ == (SongView { cover_path: text_view(cover_path), ..old(self)@ }),
    {
        self.cover_path = cover_path;
    }

    /// The field as text.
    pub fn field_text(&self, field: SongField) -> (r: String)
        ensures
            r@ == self@.field_text(field),
    {
        match field {
            SongField::Title => text_or_default(&self.title),
            SongField::Album => text_or_default(&self.album),
            SongField::Artist => text_or_default(&self.artist),
            SongField::Genre => text_or_default(&self.genre),
            SongField::Year => decimal_string(number_or_default(self.year) as u64),
            SongField::Track => decimal_string(number_or_default(self.track) as u64),
            SongField::Duration => decimal_string(self.duration),
            SongField::CoverPath => self.get_cover_path(),
        }
    }

    /// The field that `key` names, as text; the empty text where `key` names
    /// no field.
    pub fn info(&self, key: &str) -> (r: String)
        ensures
            r@ == self@.info(key@),
    {
        match SongField::from_key(key) {
            Some(field) => self.field_text(field),
            None => String::new(),
        }
    }
}

} // verus!
