//! Playlists: the songs of the catalog that share an album, an artist or a
//! genre, made on demand from the catalog and the playlist index.
use crate::index::{label_of, Category, EntryView, PlaylistIndex};
use crate::song::{song_views, Song, SongView};
use crate::text::{str_eq, texts};
use vstd::prelude::*;

verus! {

/// A named list of songs with a cover.
#[derive(Debug, PartialEq, Eq)]
pub struct Playlist {
    pub name: String,
    /// The path of the cover image; empty where the playlist has none.
    pub cover_path: String,
    pub song_list: Vec<Song>,
}

/// A playlist as a mathematical value.
pub struct PlaylistView {
    pub name: Seq<char>,
    pub cover_path: Seq<char>,
    pub songs: Seq<SongView>,
}

impl View for Playlist {
    type V = PlaylistView;

    open spec fn view(&self) -> PlaylistView {
        PlaylistView {
            name: self.name@,
            cover_path: self.cover_path@,
            songs: song_views(self.song_list@),
        }
    }
}

/// The views of a sequence of playlists, in the same order.
pub open spec fn playlist_views(playlists: Seq<Playlist>) -> Seq<PlaylistView> {
    Seq::new(playlists.len(), |i: int| playlists[i]@)
}

impl PlaylistView {
    /// The playlist that `Playlist::new` makes: no songs, no cover.
    pub open spec fn fresh() -> PlaylistView {
        PlaylistView { name: "New playlist"@, cover_path: Seq::empty(), songs: Seq::empty() }
    }

    /// The playlist called `name` of `songs`: its cover is that of the first
    /// song, and empty where there is no song.
    pub open spec fn from_songs(name: Seq<char>, songs: Seq<SongView>) -> PlaylistView {
        PlaylistView {
            name,
            cover_path: if songs.len() > 0 {
                songs[0].cover_or_empty()
            } else {
                Seq::empty()
            },
            songs,
        }
    }

    /// Whether the playlist is shown in listings: only with a cover that is
    /// among the files `covers`.
    pub open spec fn is_listed(self, covers: Seq<Seq<char>>) -> bool {
        self.cover_path.len() > 0 && covers.contains(self.cover_path)
    }
}

/// The songs of `catalog` whose label in `category` is `label`, letter for
/// letter, in the order of the catalog.
pub open spec fn songs_of(catalog: Seq<SongView>, category: Category, label: Seq<char>) -> Seq<
    SongView,
> {
    catalog.filter(|song: SongView| label_of(song, category) == label)
}

/// The playlist of `label` in `category`: the matching songs of the catalog
/// where the index knows the label, and a fresh playlist where it does not.
pub open spec fn playlist_for(
    index: Seq<EntryView>,
    catalog: Seq<SongView>,
    category: Category,
    label: Seq<char>,
) -> PlaylistView {
    if index.contains(EntryView { category, label }) {
        PlaylistView::from_songs(label, songs_of(catalog, category, label))
    } else {
        PlaylistView::fresh()
    }
}

/// The playlists of `category` that listings show: one for each entry of
/// that category, in the order of the entries, left out where its cover is
/// not among the files `covers`.
pub open spec fn listed(
    entries: Seq<EntryView>,
    catalog: Seq<SongView>,
    category: Category,
    covers: Seq<Seq<char>>,
) -> Seq<PlaylistView>
    decreases entries.len(),
{
    if entries.len() == 0 {
        Seq::empty()
    } else {
        let before = listed(entries.drop_last(), catalog, category, covers);
        let entry = entries.last();
        let playlist = PlaylistView::from_songs(
            entry.label,
            songs_of(catalog, category, entry.label),
        );
        if entry.category == category && playlist.is_listed(covers) {
            before.push(playlist)
        } else {
            before
        }
    }
}

/// Whether `path` is one of `paths`.
pub fn is_among(paths: &Vec<String>, path: &str) -> (r: bool)
    ensures
        r == texts(paths@).contains(path@),
{
    let mut i: usize = 0;
    while i < paths.len()
        invariant
            i <= paths.len(),
            forall|j: int| 0 <= j < i ==> texts(paths@)[j] != path@,
        decreases paths.len() - i,
    {
        if str_eq(paths[i].as_str(), path) {
            assert(texts(paths@)[i as int] == path@);
            return true;
        }
        i += 1;
    }
    false
}

/// The songs of `catalog` whose label in `category` is `label`.
pub fn songs_matching(catalog: &Vec<Song>, category: Category, label: &str) -> (r: Vec<Song>)
    ensures
        song_views(r@) == songs_of(song_views(catalog@), category, label@),
{
    let mut out: Vec<Song> = Vec::new();
    let mut i: usize = 0;
    let ghost keep = |song: SongView| label_of(song, category) == label@;
    proof {
        reveal(Seq::filter);
    }
    while i < catalog.len()
        invariant
            i <= catalog.len(),
            keep == |song: SongView| label_of(song, category) == label@,
            song_views(out@) == song_views(catalog@).take(i as int).filter(keep),
        decreases catalog.len() - i,
    {
        proof {
            reveal(Seq::filter);
            assert(song_views(catalog@).take(i + 1).drop_last() =~= song_views(catalog@).take(
                i as int,
            ));
        }
        let own = catalog[i].label(category);
        if str_eq(own.as_str(), label) {
            out.push(catalog[i].clone());
        }
        i += 1;
    }
    assert(song_views(catalog@).take(i as int) =~= song_views(catalog@));
    out
}

impl Playlist {
    /// A playlist without songs.
    pub fn new() -> (r: Self)
        ensures
            r@ == PlaylistView::fresh(),
    {
        let r = Playlist {
            name: "New playlist".to_owned(),
            cover_path: String::new(),
            song_list: Vec::new(),
        };
        assert(r@.songs =~= Seq::<SongView>::empty());
        r
    }

    /// The playlist called `this` of the songs `song_list`; its cover is that
    /// of the first song.
    pub fn new_playlist_from(this: &String, song_list: Vec<Song>) -> (r: Self)
        ensures
            r@ == PlaylistView::from_songs(this@, song_views(song_list@)),
    {
        let cover_path = if song_list.len() > 0 {
            song_list[0].get_cover_path()
        } else {
            String::new()
        };
        Playlist { name: this.clone(), cover_path, song_list }
    }
}

/// The playlist of `label` in `category`, from the catalog and the index. A
/// label that the index does not know, or that no song carries, gives a
/// playlist without songs and without a cover.
pub fn build_playlist(
    index: &PlaylistIndex,
    catalog: &Vec<Song>,
    category: Category,
    label: &String,
) -> (r: Playlist)
    ensures
        r@ == playlist_for(index@, song_views(catalog@), category, label@),
        r@.songs.len() == 0 ==> r@.cover_path.len() == 0,
{
    if index.contains(category, label.as_str()) {
        Playlist::new_playlist_from(label, songs_matching(catalog, category, label.as_str()))
    } else {
        Playlist::new()
    }
}

/// The playlists of `category` to show: one for each entry of that category
/// in the index, left out where its cover is not among `covers`, the paths of
/// the cover files that exist.
pub fn list_playlists(
    index: &PlaylistIndex,
    catalog: &Vec<Song>,
    category: Category,
    covers: &Vec<String>,
) -> (r: Vec<Playlist>)
    ensures
        playlist_views(r@) == listed(index@, song_views(catalog@), category, texts(covers@)),
{
    let mut out: Vec<Playlist> = Vec::new();
    let mut i: usize = 0;
    while i < index.entries.len()
        invariant
            i <= index.entries.len(),
            playlist_views(out@) == listed(
                index@.take(i as int),
                song_views(catalog@),
                category,
                texts(covers@),
            ),
        decreases index.entries.len() - i,
    {
        assert(index@.take(i + 1).drop_last() =~= index@.take(i as int));
        let entry = &index.entries[i];
        if entry.category == category {
            let playlist = Playlist::new_playlist_from(
                &entry.label,
                songs_matching(catalog, category, entry.label.as_str()),
            );
            if !playlist.cover_path.as_str().is_empty() && is_among(
                covers,
                playlist.cover_path.as_str(),
            ) {
                out.push(playlist);
            }
        }
        i += 1;
    }
    assert(index@.take(i as int) =~= index@);
    out
}

/// Every playlist that listings show has a cover, and its cover is among the
/// cover files: a playlist without a cover is never shown.
pub proof fn lemma_listed_have_covers(
    entries: Seq<EntryView>,
    catalog: Seq<SongView>,
    category: Category,
    covers: Seq<Seq<char>>,
)
    ensures
        forall|k: int|
            0 <= k < listed(entries, catalog, category, covers).len() ==> (#[trigger] listed(
                entries,
                catalog,
                category,
                covers,
            )[k]).is_listed(covers),
    decreases entries.len(),
{
    if entries.len() > 0 {
        lemma_listed_have_covers(entries.drop_last(), catalog, category, covers);
        let before = listed(entries.drop_last(), catalog, category, covers);
        let all = listed(entries, catalog, category, covers);
        assert forall|k: int| 0 <= k < all.len() implies (#[trigger] all[k]).is_listed(covers) by {
            if k < before.len() {
                assert(all[k] == before[k]);
            }
        }
    }
}

} // verus!
