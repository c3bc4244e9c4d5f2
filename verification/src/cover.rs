//! Cover art: where the cover of an album is kept in the cover cache, how a
//! picture is cut to a square, and what to do when the cache has no cover.
use crate::index::{label_of, Category};
use crate::song::{text_or_default, text_or_empty, Song};
use crate::text::{
    chars_of, contains_text, ends_with, followed_by, has_suffix, has_text, lemma_run_before_is,
    run_before, str_eq, string_of, texts,
};
use vstd::prelude::*;

verus! {

/// A square inside a picture: its top left corner and the length of its side,
/// in pixels.
#[derive(Clone, Copy, Debug, PartialEq, Eq, Structural)]
pub struct CropRect {
    pub x: u32,
    pub y: u32,
    pub side: u32,
}

/// The largest square in the middle of a picture of the given size: as long
/// as the shorter side, and centered on the longer one.
pub open spec fn square_of(width: u32, height: u32) -> CropRect {
    let side = if width < height {
        width
    } else {
        height
    };
    CropRect { x: ((width - side) / 2) as u32, y: ((height - side) / 2) as u32, side }
}

/// The largest square in the middle of a picture of the given size.
pub fn square_crop(width: u32, height: u32) -> (r: CropRect)
    ensures
        r == square_of(width, height),
{
    if width < height {
        CropRect { x: 0, y: (height - width) / 2, side: width }
    } else {
        CropRect { x: (width - height) / 2, y: 0, side: height }
    }
}

/// The square lies inside the picture, is as long as its shorter side, and
/// sits in the middle: the margins on opposite sides differ by at most one
/// pixel.
pub proof fn lemma_square_is_centered(width: u32, height: u32)
    ensures
        ({
            let r = square_of(width, height);
            &&& r.side <= width && r.side <= height
            &&& r.side == width || r.side == height
            &&& r.x + r.side <= width
            &&& r.y + r.side <= height
            &&& 0 <= (width - r.side - r.x) - r.x <= 1
            &&& 0 <= (height - r.side - r.y) - r.y <= 1
        }),
{
}

/// Whether `c` may not stand in the name of a cover file: it would end the
/// name or lead out of the cache directory.
pub open spec fn is_unsafe_in_name(c: char) -> bool {
    c == '/' || c == '\\' || c == '\0'
}

/// The name under which the cover of the album `album` is kept: the label with
/// an underscore for each character that may not stand in a file name. The
/// empty label is a name like any other.
pub open spec fn cache_key_of(album: Seq<char>) -> Seq<char> {
    Seq::new(
        album.len(),
        |i: int|
            if is_unsafe_in_name(album[i]) {
                '_'
            } else {
                album[i]
            },
    )
}

/// The name under which the cover of the album `album` is kept.
pub fn cache_key(album: &str) -> (r: String)
    ensures
        r@ == cache_key_of(album@),
{
    let chars = chars_of(album);
    let mut out: Vec<char> = Vec::new();
    let mut i: usize = 0;
    while i < chars.len()
        invariant
            i <= chars.len(),
            chars@ == album@,
            out@ == cache_key_of(album@).take(i as int),
        decreases chars.len() - i,
    {
        let c = chars[i];
        let kept = if c == '/' || c == '\\' || c == '\0' {
            '_'
        } else {
            c
        };
        out.push(kept);
        i += 1;
    }
    string_of(&out)
}

/// A cache key holds no character that may not stand in a file name, and the
/// key of a key is the key itself.
pub proof fn lemma_cache_key_is_safe(album: Seq<char>)
    ensures
        cache_key_of(album).len() == album.len(),
        forall|i: int|
            0 <= i < album.len() ==> !is_unsafe_in_name(#[trigger] cache_key_of(album)[i]),
        cache_key_of(cache_key_of(album)) == cache_key_of(album),
{
}

/// Whether `extension` is one under which covers are kept.
pub open spec fn is_cover_extension(extension: Seq<char>) -> bool {
    extension == "webp"@ || extension == "png"@ || extension == "jpg"@
}

/// The name of the cover file of `key` with `extension`.
pub open spec fn cover_file_of(key: Seq<char>, extension: Seq<char>) -> Seq<char> {
    key + seq!['.'] + extension
}

/// Whether the file called `name` is a cover kept under `key`.
pub open spec fn is_cover_of(name: Seq<char>, key: Seq<char>) -> bool {
    ||| name == cover_file_of(key, "webp"@)
    ||| name == cover_file_of(key, "png"@)
    ||| name == cover_file_of(key, "jpg"@)
}

/// The name of the cover file of `key` with `extension`.
pub fn cover_file_name(key: &str, extension: &str) -> (r: String)
    ensures
        r@ == cover_file_of(key@, extension@),
{
    let mut name = followed_by(key, ".");
    name.append(extension);
    proof {
        reveal_strlit(".");
    }
    name
}

/// Whether the file called `name` is a cover kept under `key`.
pub fn is_cover_file(name: &str, key: &str) -> (r: bool)
    ensures
        r == is_cover_of(name@, key@),
{
    str_eq(name, cover_file_name(key, "webp").as_str()) || str_eq(
        name,
        cover_file_name(key, "png").as_str(),
    ) || str_eq(name, cover_file_name(key, "jpg").as_str())
}

/// Whether `at` is the place of the first cover of `key` among `files`.
pub open spec fn is_first_cover(files: Seq<Seq<char>>, key: Seq<char>, at: int) -> bool {
    &&& 0 <= at < files.len()
    &&& is_cover_of(files[at], key)
    &&& forall|j: int| 0 <= j < at ==> !is_cover_of(#[trigger] files[j], key)
}

/// Whether none of `files` is a cover of `key`.
pub open spec fn has_no_cover(files: Seq<Seq<char>>, key: Seq<char>) -> bool {
    forall|j: int| 0 <= j < files.len() ==> !is_cover_of(#[trigger] files[j], key)
}

/// The place of the first cover of `key` among `files`, the names of the
/// files in the cover cache; nothing where the cache has no cover of `key`.
pub fn find_cached_cover(files: &Vec<String>, key: &str) -> (r: Option<usize>)
    ensures
        match r {
            Some(at) => is_first_cover(texts(files@), key@, at as int),
            None => has_no_cover(texts(files@), key@),
        },
{
    let mut i: usize = 0;
    while i < files.len()
        invariant
            i <= files.len(),
            forall|j: int| 0 <= j < i ==> !is_cover_of(#[trigger] texts(files@)[j], key@),
        decreases files.len() - i,
    {
        if is_cover_file(files[i].as_str(), key) {
            return Some(i);
        }
        i += 1;
    }
    None
}

/// What has to be done to give a song its cover.
#[derive(Clone, Copy, Debug, PartialEq, Eq, Structural)]
pub enum CoverPlan {
    /// The cache holds the cover: it is the file at this place.
    UseCached(usize),
    /// Cut the embedded picture to a square and keep it in the cache.
    CropEmbedded,
    /// Ask the thumbnail service for a picture and keep it in the cache.
    FetchThumbnail,
}

/// What has to be done to give a song its cover: the cached cover is used
/// where there is one; where there is none, the embedded picture is cut, and
/// only without one is the thumbnail service asked.
pub fn plan_cover(files: &Vec<String>, key: &str, has_picture: bool) -> (r: CoverPlan)
    ensures
        match r {
            CoverPlan::UseCached(at) => is_first_cover(texts(files@), key@, at as int),
            CoverPlan::CropEmbedded => has_no_cover(texts(files@), key@) && has_picture,
            CoverPlan::FetchThumbnail => has_no_cover(texts(files@), key@) && !has_picture,
        },
{
    match find_cached_cover(files, key) {
        Some(at) => CoverPlan::UseCached(at),
        None => if has_picture {
            CoverPlan::CropEmbedded
        } else {
            CoverPlan::FetchThumbnail
        },
    }
}

/// The first cover of a key is one place: what `find_cached_cover` hands back
/// is determined by the listing.
pub proof fn lemma_first_cover_is_unique(files: Seq<Seq<char>>, key: Seq<char>, a: int, b: int)
    requires
        is_first_cover(files, key, a),
        is_first_cover(files, key, b),
    ensures
        a == b,
        !has_no_cover(files, key),
{
}

/// A warm cache answers: once the cover of `key` was written into a cache
/// that had none, under any of the cover extensions and at whatever place in
/// the listing, it is the first cover of `key`, so that the next resolution
/// uses that very file and asks nobody.
pub proof fn lemma_written_cover_is_found(
    files: Seq<Seq<char>>,
    key: Seq<char>,
    extension: Seq<char>,
    at: int,
)
    requires
        has_no_cover(files, key),
        is_cover_extension(extension),
        0 <= at <= files.len(),
    ensures
        is_first_cover(files.insert(at, cover_file_of(key, extension)), key, at),
{
}

/// The text that the thumbnail service is asked for: title and album with a
/// space between them.
pub fn thumbnail_query(title: &str, album: &str) -> (r: String)
    ensures
        r@ == title@ + seq![' '] + album@,
{
    let mut query = followed_by(title, " ");
    query.append(album);
    proof {
        reveal_strlit(" ");
    }
    query
}

/// The address `url` without its query: what stands before the first
/// question mark.
pub open spec fn without_query(url: Seq<char>) -> Seq<char> {
    url.take(run_before(url, '?') as int)
}

/// The extension under which the thumbnail at `url` is kept: the one that the
/// address ends in, before its query, where that is a cover extension, and
/// `jpg` where none can be told.
pub open spec fn thumbnail_extension_of(url: Seq<char>) -> Seq<char> {
    let stem = without_query(url);
    if ends_with(stem, ".png"@) {
        "png"@
    } else if ends_with(stem, ".webp"@) {
        "webp"@
    } else {
        "jpg"@
    }
}

/// The extension under which the thumbnail at `url` is kept.
pub fn thumbnail_extension(url: &str) -> (r: String)
    ensures
        r@ == thumbnail_extension_of(url@),
{
    let chars = chars_of(url);
    let mut stem: Vec<char> = Vec::new();
    let mut i: usize = 0;
    while i < chars.len() && chars[i] != '?'
        invariant
            i <= chars.len(),
            stem@ == chars@.take(i as int),
            forall|j: int| 0 <= j < i ==> #[trigger] chars@[j] != '?',
        decreases chars.len() - i,
    {
        stem.push(chars[i]);
        i += 1;
    }
    proof {
        lemma_run_before_is(chars@, '?', i as int);
    }
    if has_suffix(&stem, &chars_of(".png")) {
        "png".to_owned()
    } else if has_suffix(&stem, &chars_of(".webp")) {
        "webp".to_owned()
    } else {
        "jpg".to_owned()
    }
}

/// Whatever the address, the thumbnail is kept under a cover extension.
pub proof fn lemma_thumbnail_extension_is_cover(url: Seq<char>)
    ensures
        is_cover_extension(thumbnail_extension_of(url)),
{
}

/// The path of the file called `name` in the directory `directory`.
pub fn path_in(directory: &str, name: &str) -> (r: String)
    ensures
        r@ == directory@ + seq!['/'] + name@,
{
    let mut path = followed_by(directory, "/");
    path.append(name);
    proof {
        reveal_strlit("/");
    }
    path
}

/// The path under which the thumbnail at `url` is kept in the cache directory
/// `directory` as the cover of the album `album`.
pub open spec fn thumbnail_path_of(directory: Seq<char>, album: Seq<char>, url: Seq<char>) -> Seq<
    char,
> {
    directory + seq!['/'] + cover_file_of(cache_key_of(album), thumbnail_extension_of(url))
}

/// The path under which the thumbnail at `url` is kept in the cache directory
/// `directory` as the cover of the album `album`.
pub fn thumbnail_path(directory: &str, album: &str, url: &str) -> (r: String)
    ensures
        r@ == thumbnail_path_of(directory@, album@, url@),
{
    let key = cache_key(album);
    let extension = thumbnail_extension(url);
    let name = cover_file_name(key.as_str(), extension.as_str());
    path_in(directory, name.as_str())
}

/// The next thing to do to give a song its cover.
#[derive(Debug, PartialEq, Eq)]
pub enum CoverStep {
    /// The cover is in the cache, at this path.
    UseCached(String),
    /// Cut the embedded picture to the square that `square_crop` gives for its
    /// size and keep it, as a PNG file, at this path: that file is the cover.
    KeepEmbedded(String),
    /// Ask the thumbnail service with this text; what it finds is kept under
    /// `thumbnail_path`.
    FetchThumbnail(String),
}

/// The next thing to do to give `song` its cover, with `files` the names of
/// the files in the cache directory `directory`. The cover is kept under the
/// cache key of the album. A cover in the cache is used as it is; without
/// one, the embedded picture is to be cut to a square and kept as a PNG file;
/// only a song without a picture has the thumbnail service asked, for its
/// title and album.
pub fn next_cover_step(song: &Song, directory: &str, files: &Vec<String>) -> (r: CoverStep)
    ensures
        ({
            let album = label_of(song@, Category::Album);
            let key = cache_key_of(album);
            let listing = texts(files@);
            match r {
                CoverStep::UseCached(path) => exists|at: int|
                    is_first_cover(listing, key, at) && path@ == directory@ + seq!['/']
                        + #[trigger] listing[at],
                CoverStep::KeepEmbedded(path) => {
                    &&& has_no_cover(listing, key)
                    &&& song@.cover_data is Some
                    &&& path@ == directory@ + seq!['/'] + cover_file_of(key, "png"@)
                },
                CoverStep::FetchThumbnail(query) => {
                    &&& has_no_cover(listing, key)
                    &&& song@.cover_data is None
                    &&& query@ == text_or_empty(song@.title) + seq![' '] + album
                },
            }
        }),
{
    let album = song.label(Category::Album);
    let key = cache_key(album.as_str());
    match plan_cover(files, key.as_str(), song.cover_data.is_some()) {
        CoverPlan::UseCached(at) => {
            CoverStep::UseCached(path_in(directory, files[at].as_str()))
        },
        CoverPlan::CropEmbedded => {
            let name = cover_file_name(key.as_str(), "png");
            CoverStep::KeepEmbedded(path_in(directory, name.as_str()))
        },
        CoverPlan::FetchThumbnail => {
            let title = text_or_default(&song.title);
            CoverStep::FetchThumbnail(thumbnail_query(title.as_str(), album.as_str()))
        },
    }
}

/// Whether the file called `name` is a cover picture laid beside the songs of
/// the album `album`: its name holds the album, then `-cover.jpg` or
/// `-cover.png`.
pub open spec fn is_sidecar_of(name: Seq<char>, album: Seq<char>) -> bool {
    contains_text(name, album + "-cover.jpg"@) || contains_text(name, album + "-cover.png"@)
}

/// The place of the first of `files`, the names of the files in the audio
/// directory, that is a cover picture laid beside the songs of `album`.
pub fn find_sidecar_cover(files: &Vec<String>, album: &str) -> (r: Option<usize>)
    ensures
        match r {
            Some(at) => {
                &&& at < files@.len()
                &&& is_sidecar_of(files@[at as int]@, album@)
                &&& forall|j: int| 0 <= j < at ==> !is_sidecar_of(#[trigger] files@[j]@, album@)
            },
            None => forall|j: int|
                0 <= j < files@.len() ==> !is_sidecar_of(#[trigger] files@[j]@, album@),
        },
{
    let jpg = chars_of(followed_by(album, "-cover.jpg").as_str());
    let png = chars_of(followed_by(album, "-cover.png").as_str());
    let mut i: usize = 0;
    while i < files.len()
        invariant
            i <= files.len(),
            jpg@ == album@ + "-cover.jpg"@,
            png@ == album@ + "-cover.png"@,
            forall|j: int| 0 <= j < i ==> !is_sidecar_of(#[trigger] files@[j]@, album@),
        decreases files.len() - i,
    {
        let name = chars_of(files[i].as_str());
        if has_text(&name, &jpg) || has_text(&name, &png) {
            return Some(i);
        }
        i += 1;
    }
    None
}

} // verus!
