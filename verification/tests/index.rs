use bupl::index::{text_to_append, Category, IndexEntry, PlaylistIndex};
use bupl::song::Song;

fn entry(category: Category, label: &str) -> IndexEntry {
    IndexEntry { category, label: label.to_string() }
}

fn tagged(path: &str, album: Option<&str>, artist: Option<&str>, genre: Option<&str>) -> Song {
    let mut song = Song::new(path.to_string());
    song.album = album.map(str::to_string);
    song.artist = artist.map(str::to_string);
    song.genre = genre.map(str::to_string);
    song
}

#[test]
fn category_names_read_back() {
    for category in [Category::Album, Category::Artist, Category::Genre] {
        assert_eq!(Category::from_name(category.name()), Some(category));
    }
    assert_eq!(Category::Album.name(), "Album");
    assert_eq!(Category::Artist.name(), "Artist");
    assert_eq!(Category::Genre.name(), "Genre");
    assert_eq!(Category::from_name("album"), None);
    assert_eq!(Category::from_name(""), None);
    assert_eq!(Category::from_name("Albums"), None);
}

#[test]
fn a_song_falls_under_its_tags() {
    let song = tagged("a.mp3", Some("Record"), None, Some("Jazz"));
    assert_eq!(song.label(Category::Album), "Record");
    assert_eq!(song.label(Category::Artist), "");
    assert_eq!(song.label(Category::Genre), "Jazz");
}

#[test]
fn parse_reads_one_entry_per_line() {
    let index = PlaylistIndex::parse("Album Dark Side\nArtist Pink Floyd\nGenre Rock\n");
    assert_eq!(index.entries, vec![
        entry(Category::Album, "Dark Side"),
        entry(Category::Artist, "Pink Floyd"),
        entry(Category::Genre, "Rock"),
    ]);
}

#[test]
fn parse_joins_the_words_of_a_label_by_single_spaces() {
    let index = PlaylistIndex::parse("  Album   Dark \t Side  \r\nGenre\u{00A0}Rock");
    assert_eq!(index.entries, vec![
        entry(Category::Album, "Dark Side"),
        entry(Category::Genre, "Rock"),
    ]);
}

#[test]
fn parse_passes_over_lines_without_a_category() {
    let text = "\n\nalbum x\nSomething else\nAlbumX y\nArtist\nAlbum A\nAlbum A\n";
    let index = PlaylistIndex::parse(text);
    assert_eq!(index.entries, vec![
        entry(Category::Artist, ""),
        entry(Category::Album, "A"),
        entry(Category::Album, "A"),
    ]);
    assert_eq!(PlaylistIndex::parse("").entries, Vec::new());
    assert_eq!(PlaylistIndex::parse("").entries, PlaylistIndex::new().entries);
}

#[test]
fn contains_matches_category_and_label_exactly() {
    let index = PlaylistIndex::parse("Album Dark Side\n");
    assert!(index.contains(Category::Album, "Dark Side"));
    assert!(!index.contains(Category::Artist, "Dark Side"));
    assert!(!index.contains(Category::Album, "dark side"));
    assert!(!index.contains(Category::Album, "Dark"));
    assert!(!index.contains(Category::Album, "Dark  Side"));
}

#[test]
fn register_hands_back_the_line_of_a_new_entry() {
    let mut index = PlaylistIndex::new();
    assert_eq!(index.register(Category::Album, "Dark Side"), Some("Album Dark Side\n".to_string()));
    assert_eq!(
        index.register(Category::Artist, "Dark Side"),
        Some("Artist Dark Side\n".to_string())
    );
    assert_eq!(index.register(Category::Genre, "Rock"), Some("Genre Rock\n".to_string()));
    assert_eq!(index.entries, vec![
        entry(Category::Album, "Dark Side"),
        entry(Category::Artist, "Dark Side"),
        entry(Category::Genre, "Rock"),
    ]);
}

#[test]
fn registering_twice_persists_one_line() {
    let mut index = PlaylistIndex::new();
    let mut persisted = String::new();
    for _ in 0..2 {
        if let Some(line) = index.register(Category::Album, "Unknown") {
            persisted.push_str(&line);
        }
    }
    assert_eq!(persisted, "Album Unknown\n");
    assert_eq!(index.entries, vec![entry(Category::Album, "Unknown")]);
    let mut read_back = PlaylistIndex::parse(&persisted);
    assert_eq!(read_back, index);
    assert_eq!(read_back.register(Category::Album, "Unknown"), None);
    assert_eq!(read_back, index);
}

#[test]
fn register_is_not_fooled_by_a_longer_label() {
    let mut index = PlaylistIndex::parse("Album Foobar\n");
    assert_eq!(index.register(Category::Album, "Foo"), Some("Album Foo\n".to_string()));
    assert_eq!(index.register(Category::Album, "bar"), Some("Album bar\n".to_string()));
}

#[test]
fn register_passes_over_labels_without_a_word() {
    let mut index = PlaylistIndex::new();
    assert_eq!(index.register(Category::Album, ""), None);
    assert_eq!(index.register(Category::Artist, " \t\n"), None);
    assert_eq!(index.entries, Vec::new());
}

#[test]
fn register_keeps_a_label_on_one_line() {
    let mut index = PlaylistIndex::new();
    let line = index.register(Category::Album, "  Two\nLines\t here ").unwrap();
    assert_eq!(line, "Album Two Lines here\n");
    assert_eq!(index.register(Category::Album, "Two Lines here"), None);
    assert_eq!(index.register(Category::Album, "Two  Lines  here"), None);
    assert_eq!(PlaylistIndex::parse(&line), index);
}

#[test]
fn register_labels_from_catalog_adds_what_is_new_in_order() {
    let catalog = vec![
        tagged("1.mp3", Some("Record"), Some("Band"), Some("Rock")),
        tagged("2.mp3", Some("Record"), Some("Band"), None),
        tagged("3.mp3", None, Some("Other Band"), Some("Rock")),
        tagged("4.mp3", Some("Rock"), Some(""), Some("Jazz")),
    ];
    let mut index = PlaylistIndex::parse("Genre Rock\n");
    let lines = index.register_labels_from_catalog(&catalog);
    assert_eq!(lines, "Album Record\nArtist Band\nArtist Other Band\nAlbum Rock\nGenre Jazz\n");
    assert_eq!(index.entries, vec![
        entry(Category::Genre, "Rock"),
        entry(Category::Album, "Record"),
        entry(Category::Artist, "Band"),
        entry(Category::Artist, "Other Band"),
        entry(Category::Album, "Rock"),
        entry(Category::Genre, "Jazz"),
    ]);
}

#[test]
fn register_labels_from_catalog_is_safe_to_repeat() {
    let catalog = vec![
        tagged("1.mp3", Some("Record"), Some("Band"), Some("Rock")),
        tagged("2.mp3", Some("Other  Record"), None, Some("Rock")),
    ];
    let mut index = PlaylistIndex::new();
    let mut persisted = index.register_labels_from_catalog(&catalog);
    assert_eq!(persisted, "Album Record\nArtist Band\nGenre Rock\nAlbum Other Record\n");
    let first = PlaylistIndex::parse(&persisted);
    assert_eq!(first, index);
    assert_eq!(index.register_labels_from_catalog(&catalog), "");
    assert_eq!(index, first);
    let mut read_back = PlaylistIndex::parse(&persisted);
    persisted.push_str(&read_back.register_labels_from_catalog(&catalog));
    assert_eq!(persisted, "Album Record\nArtist Band\nGenre Rock\nAlbum Other Record\n");
    assert_eq!(index.register_labels_from_catalog(&Vec::new()), "");
}

#[test]
fn text_to_append_puts_new_lines_on_lines_of_their_own() {
    assert_eq!(text_to_append("", "Album A\n"), "Album A\n");
    assert_eq!(text_to_append("Genre G\n", "Album A\n"), "Album A\n");
    assert_eq!(text_to_append("Genre G", "Album A\n"), "\nAlbum A\n");
    assert_eq!(text_to_append("Genre G\r", "Album A\n"), "\nAlbum A\n");
    assert_eq!(text_to_append("Genre G", ""), "");
    assert_eq!(text_to_append("", ""), "");
}

#[test]
fn what_is_appended_reads_back_after_an_unclosed_text() {
    let held = "Genre Rock\nAlbum Red";
    let mut index = PlaylistIndex::parse(held);
    let line = index.register(Category::Album, "Blue").unwrap();
    let written = format!("{held}{}", text_to_append(held, &line));
    assert_eq!(written, "Genre Rock\nAlbum Red\nAlbum Blue\n");
    let mut read_back = PlaylistIndex::parse(&written);
    assert_eq!(read_back, index);
    assert_eq!(read_back.register(Category::Album, "Blue"), None);
}
