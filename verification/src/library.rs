//! The catalog: which files of the audio directory are songs, and which of
//! them could be read.
use crate::song::{song_views, Song, SongView};
use crate::text::{chars_of, ends_with, has_suffix, texts};
use vstd::prelude::*;

verus! {

/// Whether a file of this name is taken for an audio file: its name ends in
/// one of the extensions that the library plays.
pub open spec fn is_audio_name(name: Seq<char>) -> bool {
    ||| ends_with(name, ".mp3"@)
    ||| ends_with(name, ".ogg"@)
    ||| ends_with(name, ".wav"@)
    ||| ends_with(name, ".flac"@)
    ||| ends_with(name, ".aac"@)
    ||| ends_with(name, ".m4a"@)
}

/// Whether a file of this name is taken for an audio file.
pub fn is_audio_file(name: &str) -> (r: bool)
    ensures
        r == is_audio_name(name@),
{
    let chars = chars_of(name);
    has_suffix(&chars, &chars_of(".mp3")) || has_suffix(&chars, &chars_of(".ogg")) || has_suffix(
        &chars,
        &chars_of(".wav"),
    ) || has_suffix(&chars, &chars_of(".flac")) || has_suffix(&chars, &chars_of(".aac"))
        || has_suffix(&chars, &chars_of(".m4a"))
}

/// Those of `paths` that name audio files, in the same order.
pub open spec fn audio_among(paths: Seq<Seq<char>>) -> Seq<Seq<char>> {
    paths.filter(|path: Seq<char>| is_audio_name(path))
}

/// Those of `paths` that name audio files, in the same order.
pub fn audio_files(paths: &Vec<String>) -> (r: Vec<String>)
    ensures
        texts(r@) == audio_among(texts(paths@)),
{
    let mut out: Vec<String> = Vec::new();
    let mut i: usize = 0;
    let ghost keep = |path: Seq<char>| is_audio_name(path);
    proof {
        reveal(Seq::filter);
    }
    while i < paths.len()
        invariant
            i <= paths.len(),
            keep == |path: Seq<char>| is_audio_name(path),
            texts(out@) == texts(paths@).take(i as int).filter(keep),
        decreases paths.len() - i,
    {
        proof {
            reveal(Seq::filter);
            assert(texts(paths@).take(i + 1).drop_last() =~= texts(paths@).take(i as int));
        }
        if is_audio_file(paths[i].as_str()) {
            out.push(paths[i].clone());
        }
        i += 1;
    }
    assert(texts(paths@).take(i as int) =~= texts(paths@));
    out
}

/// Why the tags of a file could not be read.
#[derive(Clone, Copy, Debug, PartialEq, Eq, Structural)]
pub enum TagError {
    /// The file could not be opened or read.
    UnreadableMedia,
    /// The file holds no tags in a form that is understood.
    UnsupportedFormat,
}

/// The songs among the outcomes of reading files, in the same order: a file
/// that could not be read is left out.
pub open spec fn songs_read(loads: Seq<Result<Song, TagError>>) -> Seq<SongView>
    decreases loads.len(),
{
    if loads.len() == 0 {
        Seq::empty()
    } else {
        let before = songs_read(loads.drop_last());
        match loads.last() {
            Ok(song) => before.push(song@),
            Err(_) => before,
        }
    }
}

/// The catalog made of the outcomes of reading files: every song that was
/// read, in order. A failure costs the one file and nothing else.
pub fn catalog_of(loads: &Vec<Result<Song, TagError>>) -> (r: Vec<Song>)
    ensures
        song_views(r@) == songs_read(loads@),
{
    let mut out: Vec<Song> = Vec::new();
    let mut i: usize = 0;
    while i < loads.len()
        invariant
            i <= loads.len(),
            song_views(out@) == songs_read(loads@.take(i as int)),
        decreases loads.len() - i,
    {
        assert(loads@.take(i + 1).drop_last() =~= loads@.take(i as int));
        if let Ok(song) = &loads[i] {
            out.push(song.clone());
        }
        i += 1;
    }
    assert(loads@.take(i as int) =~= loads@);
    out
}

} // verus!
