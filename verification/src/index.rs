//! The playlist index: the labels known per category, kept as one line of
//! text each, so that the library need not be searched to list them.
use crate::song::{song_views, text_or_default, text_or_empty, Song, SongView};
use crate::text::{
    all_words, chars_of, followed_by, is_word, join, join_words, lemma_last_line,
    lemma_lines_appended, lemma_lines_of_closed_line, lemma_lines_of_closed_text,
    lemma_normalized_is_one_line, lemma_normalized_is_stable, lemma_words_after_word,
    lemma_words_are_words, lemma_words_of_join, lines, normalized, rows, split_lines,
    split_words, str_eq, string_of, words,
};
use vstd::prelude::*;

verus! {

/// What a playlist groups songs by.
#[derive(Clone, Copy, Debug, PartialEq, Eq, Structural)]
pub enum Category {
    Album,
    Artist,
    Genre,
}

/// The word that stands for `category` in the index.
pub open spec fn category_name(category: Category) -> Seq<char> {
    match category {
        Category::Album => "Album"@,
        Category::Artist => "Artist"@,
        Category::Genre => "Genre"@,
    }
}

/// The category that `name` stands for, if it stands for one.
pub open spec fn category_of_name(name: Seq<char>) -> Option<Category> {
    if name == "Album"@ {
        Some(Category::Album)
    } else if name == "Artist"@ {
        Some(Category::Artist)
    } else if name == "Genre"@ {
        Some(Category::Genre)
    } else {
        None
    }
}

impl Category {
    /// The word that stands for the category in the index.
    pub fn name(self) -> (r: &'static str)
        ensures
            r@ == category_name(self),
    {
        match self {
            Category::Album => "Album",
            Category::Artist => "Artist",
            Category::Genre => "Genre",
        }
    }

    /// The category that `name` stands for, if it stands for one.
    pub fn from_name(name: &str) -> (r: Option<Category>)
        ensures
            r == category_of_name(name@),
    {
        if str_eq(name, "Album") {
            Some(Category::Album)
        } else if str_eq(name, "Artist") {
            Some(Category::Artist)
        } else if str_eq(name, "Genre") {
            Some(Category::Genre)
        } else {
            None
        }
    }
}

/// The label under which `song` falls in `category`: the tag field, or the
/// empty text where the song has none.
pub open spec fn label_of(song: SongView, category: Category) -> Seq<char> {
    match category {
        Category::Album => text_or_empty(song.album),
        Category::Artist => text_or_empty(song.artist),
        Category::Genre => text_or_empty(song.genre),
    }
}

impl Song {
    /// The label under which the song falls in `category`.
    pub fn label(&self, category: Category) -> (r: String)
        ensures
            r@ == label_of(self@, category),
    {
        match category {
            Category::Album => text_or_default(&self.album),
            Category::Artist => text_or_default(&self.artist),
            Category::Genre => text_or_default(&self.genre),
        }
    }
}

/// One known label.
#[derive(Debug, PartialEq, Eq)]
pub struct IndexEntry {
    pub category: Category,
    pub label: String,
}

/// An entry as a mathematical value.
pub struct EntryView {
    pub category: Category,
    pub label: Seq<char>,
}

impl View for IndexEntry {
    type V = EntryView;

    open spec fn view(&self) -> EntryView {
        EntryView { category: self.category, label: self.label@ }
    }
}

/// The views of a sequence of entries, in the same order.
pub open spec fn entry_views(entries: Seq<IndexEntry>) -> Seq<EntryView> {
    Seq::new(entries.len(), |i: int| entries[i]@)
}

/// The entry that a line of the index holds: its first word names the
/// category, its other words, joined by single spaces, are the label. A line
/// whose first word names no category holds none.
pub open spec fn parse_line(line: Seq<char>) -> Option<EntryView> {
    let ws = words(line);
    if ws.len() == 0 {
        None
    } else {
        match category_of_name(ws[0]) {
            Some(category) => Some(EntryView { category, label: join(ws.drop_first()) }),
            None => None,
        }
    }
}

/// The entries that the lines hold, in order.
pub open spec fn parse_lines(ls: Seq<Seq<char>>) -> Seq<EntryView>
    decreases ls.len(),
{
    if ls.len() == 0 {
        Seq::empty()
    } else {
        let before = parse_lines(ls.drop_last());
        match parse_line(ls.last()) {
            Some(entry) => before.push(entry),
            None => before,
        }
    }
}

/// The entries that the text of an index holds, in order.
pub open spec fn parse_index(text: Seq<char>) -> Seq<EntryView> {
    parse_lines(lines(text))
}

/// The line that persists `entry`.
pub open spec fn render_line(entry: EntryView) -> Seq<char> {
    category_name(entry.category) + seq![' '] + entry.label + seq!['\n']
}

/// The lines that persist `entries`, one after the other.
pub open spec fn render(entries: Seq<EntryView>) -> Seq<char>
    decreases entries.len(),
{
    if entries.len() == 0 {
        Seq::empty()
    } else {
        render(entries.drop_last()) + render_line(entries.last())
    }
}

/// The entry under which `label` is kept in `category`: white space in a
/// label counts as single spaces between its words.
pub open spec fn entry_for(category: Category, label: Seq<char>) -> EntryView {
    EntryView { category, label: normalized(label) }
}

/// Whether registering `label` in `category` adds an entry to `index`: only a
/// label with a word in it that the index does not hold yet.
pub open spec fn is_new(index: Seq<EntryView>, category: Category, label: Seq<char>) -> bool {
    normalized(label).len() > 0 && !index.contains(entry_for(category, label))
}

/// The index after `label` was registered in `category`.
pub open spec fn registered(index: Seq<EntryView>, category: Category, label: Seq<char>) -> Seq<
    EntryView,
> {
    if is_new(index, category, label) {
        index.push(entry_for(category, label))
    } else {
        index
    }
}

/// The index after the album, the artist and the genre of `song` were
/// registered, in this order.
pub open spec fn registered_song(index: Seq<EntryView>, song: SongView) -> Seq<EntryView> {
    registered(
        registered(
            registered(index, Category::Album, label_of(song, Category::Album)),
            Category::Artist,
            label_of(song, Category::Artist),
        ),
        Category::Genre,
        label_of(song, Category::Genre),
    )
}

/// The index after every song of `songs` was registered, in order.
pub open spec fn registered_catalog(index: Seq<EntryView>, songs: Seq<SongView>) -> Seq<
    EntryView,
>
    decreases songs.len(),
{
    if songs.len() == 0 {
        index
    } else {
        registered_song(registered_catalog(index, songs.drop_last()), songs.last())
    }
}

/// The known labels, in the order in which they were first registered.
#[derive(Debug, PartialEq, Eq)]
pub struct PlaylistIndex {
    pub entries: Vec<IndexEntry>,
}

impl View for PlaylistIndex {
    type V = Seq<EntryView>;

    open spec fn view(&self) -> Seq<EntryView> {
        entry_views(self.entries@)
    }
}

/// The entry that `line` holds, if it holds one.
fn parse_entry(line: &Vec<char>) -> (r: Option<IndexEntry>)
    ensures
        match r {
            Some(entry) => parse_line(line@) == Some(entry@),
            None => parse_line(line@) is None,
        },
{
    let ws = split_words(line);
    if ws.len() == 0 {
        None
    } else {
        let name = string_of(&ws[0]);
        match Category::from_name(name.as_str()) {
            Some(category) => {
                let label = string_of(&join_words(&ws, 1));
                Some(IndexEntry { category, label })
            },
            None => None,
        }
    }
}

impl PlaylistIndex {
    /// An index without entries.
    pub fn new() -> (r: Self)
        ensures
            r@ == Seq::<EntryView>::empty(),
    {
        PlaylistIndex { entries: Vec::new() }
    }

    /// The index that `text` persists.
    pub fn parse(text: &str) -> (r: Self)
        ensures
            r@ == parse_index(text@),
    {
        let chars = chars_of(text);
        let ls = split_lines(&chars);
        let mut entries: Vec<IndexEntry> = Vec::new();
        let mut i: usize = 0;
        while i < ls.len()
            invariant
                i <= ls.len(),
                entry_views(entries@) == parse_lines(rows(ls@).take(i as int)),
            decreases ls.len() - i,
        {
            assert(rows(ls@).take(i + 1).drop_last() =~= rows(ls@).take(i as int));
            if let Some(entry) = parse_entry(&ls[i]) {
                entries.push(entry);
            }
            i += 1;
        }
        assert(rows(ls@).take(i as int) =~= rows(ls@));
        PlaylistIndex { entries }
    }

    /// Whether the index holds `label` in `category`, letter for letter.
    pub fn contains(&self, category: Category, label: &str) -> (r: bool)
        ensures
            r == self@.contains(EntryView { category, label: label@ }),
    {
        let ghost target = EntryView { category, label: label@ };
        let mut i: usize = 0;
        while i < self.entries.len()
            invariant
                i <= self.entries.len(),
                target == (EntryView { category, label: label@ }),
                forall|j: int| 0 <= j < i ==> self@[j] != target,
            decreases self.entries.len() - i,
        {
            if self.entries[i].category == category && str_eq(
                self.entries[i].label.as_str(),
                label,
            ) {
                assert(self@[i as int] == target);
                return true;
            }
            i += 1;
        }
        false
    }

    /// Registers `label` in `category`. Where this adds an entry, the line that
    /// persists it is handed back, to be added to the end of the persisted
    /// text.
    pub fn register(&mut self, category: Category, label: &str) -> (r: Option<String>)
        ensures
            final(self)@ == registered(old(self)@, category, label@),
            match r {
                Some(line) => is_new(old(self)@, category, label@) && line@ == render_line(
                    entry_for(category, label@),
                ),
                None => !is_new(old(self)@, category, label@),
            },
    {
        let chars = chars_of(label);
        let ws = split_words(&chars);
        let key = string_of(&join_words(&ws, 0));
        assert(rows(ws@).skip(0) =~= rows(ws@));
        if key.as_str().is_empty() || self.contains(category, key.as_str()) {
            None
        } else {
            let mut line = followed_by(category.name(), " ");
            line.append(key.as_str());
            line.append("\n");
            proof {
                reveal_strlit(" ");
                reveal_strlit("\n");
            }
            self.entries.push(IndexEntry { category, label: key });
            Some(line)
        }
    }

    /// Registers `label` in `category` and adds the line that persists a new
    /// entry to the end of `out`.
    fn register_into(
        &mut self,
        category: Category,
        label: &str,
        out: &mut String,
        start: Ghost<int>,
    )
        requires
            0 <= start@ <= old(self)@.len(),
            old(out)@ == render(old(self)@.skip(start@)),
        ensures
            final(self)@ == registered(old(self)@, category, label@),
            final(out)@ == render(final(self)@.skip(start@)),
            old(self)@.len() <= final(self)@.len(),
            final(self)@.take(old(self)@.len() as int) == old(self)@,
    {
        let ghost before = self@;
        if let Some(line) = self.register(category, label) {
            out.append(line.as_str());
            assert(self@.skip(start@).drop_last() =~= before.skip(start@));
        }
    }

    /// Registers the album, the artist and the genre of every song of
    /// `catalog`, in order, and hands back the lines that persist the new
    /// entries, to be added to the end of the persisted text. Entries that the
    /// index held before stay where they were.
    pub fn register_labels_from_catalog(&mut self, catalog: &Vec<Song>) -> (r: String)
        ensures
            final(self)@ == registered_catalog(old(self)@, song_views(catalog@)),
            old(self)@.len() <= final(self)@.len(),
            final(self)@.take(old(self)@.len() as int) == old(self)@,
            r@ == render(final(self)@.skip(old(self)@.len() as int)),
    {
        let mut out = String::new();
        let ghost first = self@;
        let ghost start = self@.len() as int;
        let mut i: usize = 0;
        while i < catalog.len()
            invariant
                i <= catalog.len(),
                start == first.len(),
                start <= self@.len(),
                self@.take(start) == first,
                self@ == registered_catalog(first, song_views(catalog@).take(i as int)),
                out@ == render(self@.skip(start)),
            decreases catalog.len() - i,
        {
            assert(song_views(catalog@).take(i + 1).drop_last() =~= song_views(catalog@).take(
                i as int,
            ));
            let song = &catalog[i];
            let album = song.label(Category::Album);
            let artist = song.label(Category::Artist);
            let genre = song.label(Category::Genre);
            self.register_into(Category::Album, album.as_str(), &mut out, Ghost(start));
            self.register_into(Category::Artist, artist.as_str(), &mut out, Ghost(start));
            self.register_into(Category::Genre, genre.as_str(), &mut out, Ghost(start));
            i += 1;
        }
        assert(song_views(catalog@).take(i as int) =~= song_views(catalog@));
        out
    }
}

/// The name of a category is one word, and it names that category.
pub proof fn lemma_category_names(category: Category)
    ensures
        is_word(category_name(category)),
        category_of_name(category_name(category)) == Some(category),
        forall|i: int|
            0 <= i < category_name(category).len() ==> #[trigger] category_name(category)[i]
                != '\n',
{
    reveal_strlit("Album");
    reveal_strlit("Artist");
    reveal_strlit("Genre");
    assert("Album"@[0] == 'A' && "Genre"@[0] == 'G');
}

/// The entries of two runs of lines, one after the other, are the entries of
/// the first followed by those of the second.
pub proof fn lemma_parse_lines_concat(x: Seq<Seq<char>>, y: Seq<Seq<char>>)
    ensures
        parse_lines(x + y) == parse_lines(x) + parse_lines(y),
    decreases y.len(),
{
    if y.len() > 0 {
        lemma_parse_lines_concat(x, y.drop_last());
        assert((x + y).drop_last() =~= x + y.drop_last());
    }
}

/// Whether `label` stands as the index keeps labels: as words with single
/// spaces between them.
pub open spec fn is_kept_label(label: Seq<char>) -> bool {
    normalized(label) == label
}

/// Whether every label of `index` stands as the index keeps labels.
pub open spec fn all_kept(index: Seq<EntryView>) -> bool {
    forall|k: int| 0 <= k < index.len() ==> is_kept_label(#[trigger] index[k].label)
}

/// Whether lines can be written after `text`: it is empty or ends in a line
/// feed.
pub open spec fn is_closed(text: Seq<char>) -> bool {
    text.len() == 0 || text.last() == '\n'
}

/// What is to be written after the persisted text `held` so that `lines`
/// stand in it as lines of their own: `lines`, after a line feed where `held`
/// does not end in one; nothing where there are no lines.
pub open spec fn appended(held: Seq<char>, lines: Seq<char>) -> Seq<char> {
    if lines.len() == 0 {
        Seq::empty()
    } else if is_closed(held) {
        lines
    } else {
        seq!['\n'] + lines
    }
}

/// What is to be written after the persisted text `held` so that `lines`, as
/// `register` and `register_labels_from_catalog` hand them back, stand in it
/// as lines of their own.
pub fn text_to_append(held: &str, lines: &str) -> (r: String)
    ensures
        r@ == appended(held@, lines@),
{
    if lines.is_empty() {
        return String::new();
    }
    let chars = chars_of(held);
    if chars.len() == 0 || chars[chars.len() - 1] == '\n' {
        lines.to_owned()
    } else {
        proof {
            reveal_strlit("\n");
        }
        followed_by("\n", lines)
    }
}

/// The line that persists an entry, without its line feed, reads back as that
/// entry.
pub proof fn lemma_parse_rendered(entry: EntryView)
    requires
        is_kept_label(entry.label),
    ensures
        parse_line(category_name(entry.category) + seq![' '] + entry.label) == Some(entry),
{
    let name = category_name(entry.category);
    let line = name + seq![' '] + entry.label;
    lemma_category_names(entry.category);
    let tail = seq![' '] + entry.label;
    assert(line =~= name + tail);
    lemma_words_after_word(name, tail);
    assert(tail.drop_first() =~= entry.label);
    let ws = words(line);
    assert(ws.drop_first() =~= words(entry.label));
}

/// Reading back one line: where the line of an entry is written after a
/// closed text, the text holds what it held before, and then that entry.
pub proof fn lemma_persisted_line_reads_back(text: Seq<char>, entry: EntryView)
    requires
        is_closed(text),
        is_kept_label(entry.label),
    ensures
        parse_index(text + render_line(entry)) == parse_index(text).push(entry),
        is_closed(text + render_line(entry)),
{
    let name = category_name(entry.category);
    let body = name + seq![' '] + entry.label;
    let line = render_line(entry);
    lemma_category_names(entry.category);
    lemma_normalized_is_one_line(entry.label);
    assert forall|i: int| 0 <= i < body.len() implies #[trigger] body[i] != '\n' by {}
    lemma_lines_of_closed_line(body);
    lemma_lines_appended(text, line);
    lemma_last_line(text);
    lemma_parse_rendered(entry);
    let kept = lines(text).drop_last();
    let nothing = Seq::<char>::empty();
    assert(lines(text).last() =~= nothing);
    assert(lines(text) =~= kept + seq![nothing]);
    lemma_parse_lines_concat(kept, seq![nothing]);
    lemma_parse_lines_concat(kept, seq![body, nothing]);
    assert(seq![nothing].drop_last() =~= Seq::<Seq<char>>::empty());
    assert(seq![body, nothing].drop_last() =~= seq![body]);
    assert(seq![body].drop_last() =~= Seq::<Seq<char>>::empty());
    assert(parse_lines(seq![body]) =~= seq![entry]);
}

/// Reading back: where the lines of entries are written after a closed text,
/// the text holds what it held before, and then those entries.
pub proof fn lemma_persisted_lines_read_back(text: Seq<char>, entries: Seq<EntryView>)
    requires
        is_closed(text),
        all_kept(entries),
    ensures
        parse_index(text + render(entries)) == parse_index(text) + entries,
        is_closed(text + render(entries)),
    decreases entries.len(),
{
    if entries.len() > 0 {
        let before = entries.drop_last();
        let entry = entries.last();
        lemma_persisted_lines_read_back(text, before);
        lemma_persisted_line_reads_back(text + render(before), entry);
        assert(text + render(entries) =~= (text + render(before)) + render_line(entry));
    }
}

/// A line feed written after a text closes it and adds no entry.
pub proof fn lemma_closing_adds_nothing(text: Seq<char>)
    ensures
        parse_index(text + seq!['\n']) == parse_index(text),
        is_closed(text + seq!['\n']),
{
    lemma_lines_of_closed_text(text);
    let nothing = Seq::<char>::empty();
    assert(lines(text).push(nothing).drop_last() =~= lines(text));
}

/// Reading back what was appended: where the lines of entries are written
/// after any text in the way `text_to_append` says, the text holds what it
/// held before, and then those entries.
pub proof fn lemma_appended_lines_read_back(held: Seq<char>, entries: Seq<EntryView>)
    requires
        all_kept(entries),
    ensures
        parse_index(held + appended(held, render(entries))) == parse_index(held) + entries,
{
    if entries.len() > 0 {
        if is_closed(held) {
            lemma_persisted_lines_read_back(held, entries);
        } else {
            lemma_closing_adds_nothing(held);
            lemma_persisted_lines_read_back(held + seq!['\n'], entries);
            assert(held + appended(held, render(entries)) =~= (held + seq!['\n']) + render(
                entries,
            ));
        }
    }
}

/// What a line holds is a label as the index keeps labels.
pub proof fn lemma_parsed_label_is_kept(line: Seq<char>)
    ensures
        parse_line(line) is Some ==> is_kept_label(parse_line(line).unwrap().label),
{
    let ws = words(line);
    if ws.len() > 0 {
        lemma_words_are_words(line);
        let rest = ws.drop_first();
        lemma_words_of_join(rest);
    }
}

/// What a text holds are labels as the index keeps labels.
pub proof fn lemma_parsed_labels_are_kept(text: Seq<char>)
    ensures
        all_kept(parse_index(text)),
{
    lemma_parsed_lines_are_kept(lines(text));
}

proof fn lemma_parsed_lines_are_kept(ls: Seq<Seq<char>>)
    ensures
        all_kept(parse_lines(ls)),
    decreases ls.len(),
{
    if ls.len() > 0 {
        lemma_parsed_lines_are_kept(ls.drop_last());
        lemma_parsed_label_is_kept(ls.last());
    }
}

/// Registering a label twice is registering it once: the second time nothing
/// is added and no line is handed back; and a label that was new occurs
/// exactly once afterwards.
pub proof fn lemma_register_twice(index: Seq<EntryView>, category: Category, label: Seq<char>)
    ensures
        !is_new(registered(index, category, label), category, label),
        registered(registered(index, category, label), category, label) == registered(
            index,
            category,
            label,
        ),
        is_new(index, category, label) ==> registered(index, category, label).to_multiset().count(
            entry_for(category, label),
        ) == 1,
{
    let entry = entry_for(category, label);
    let once = registered(index, category, label);
    if is_new(index, category, label) {
        assert(once.last() == entry);
        index.to_multiset_ensures();
    }
}

/// Persisted idempotence: a label is registered on the index that a text
/// holds, and the line handed back, if any, is written after the text in the
/// way `text_to_append` says. The text then holds the index as it is after
/// the registration, and registering the label again on what the text holds
/// hands back no line.
pub proof fn lemma_register_twice_persisted(text: Seq<char>, category: Category, label: Seq<char>)
    ensures
        ({
            let index = parse_index(text);
            let line = if is_new(index, category, label) {
                render_line(entry_for(category, label))
            } else {
                Seq::empty()
            };
            let written = text + appended(text, line);
            &&& parse_index(written) == registered(index, category, label)
            &&& !is_new(parse_index(written), category, label)
        }),
{
    let index = parse_index(text);
    let entry = entry_for(category, label);
    lemma_register_twice(index, category, label);
    if is_new(index, category, label) {
        lemma_normalized_is_stable(label);
        assert(seq![entry].drop_last() =~= Seq::<EntryView>::empty());
        assert(render(Seq::<EntryView>::empty()) =~= Seq::<char>::empty());
        assert(render(seq![entry]) =~= render_line(entry));
        lemma_appended_lines_read_back(text, seq![entry]);
    }
}

/// Registering adds to the end: what the index held stays in place, and what
/// is added is a label as the index keeps labels.
pub proof fn lemma_registered_extends(index: Seq<EntryView>, category: Category, label: Seq<char>)
    ensures
        index.len() <= registered(index, category, label).len(),
        registered(index, category, label).take(index.len() as int) == index,
        all_kept(registered(index, category, label).skip(index.len() as int)),
{
    lemma_normalized_is_stable(label);
}

/// Registering a catalog adds to the end: what the index held stays in place,
/// and what is added are labels as the index keeps labels.
pub proof fn lemma_registered_catalog_extends(index: Seq<EntryView>, songs: Seq<SongView>)
    ensures
        index.len() <= registered_catalog(index, songs).len(),
        registered_catalog(index, songs).take(index.len() as int) == index,
        all_kept(registered_catalog(index, songs).skip(index.len() as int)),
    decreases songs.len(),
{
    let n = index.len() as int;
    if songs.len() > 0 {
        let song = songs.last();
        let s0 = registered_catalog(index, songs.drop_last());
        let s1 = registered(s0, Category::Album, label_of(song, Category::Album));
        let s2 = registered(s1, Category::Artist, label_of(song, Category::Artist));
        let s3 = registered(s2, Category::Genre, label_of(song, Category::Genre));
        lemma_registered_catalog_extends(index, songs.drop_last());
        lemma_registered_extends(s0, Category::Album, label_of(song, Category::Album));
        lemma_registered_extends(s1, Category::Artist, label_of(song, Category::Artist));
        lemma_registered_extends(s2, Category::Genre, label_of(song, Category::Genre));
        assert forall|k: int| 0 <= k < s3.skip(n).len() implies is_kept_label(
            #[trigger] s3.skip(n)[k].label,
        ) by {
            let at = k + n;
            if at < s0.len() {
                assert(s3[at] == s0.skip(n)[k]);
            } else if at < s1.len() {
                assert(s3[at] == s1.skip(s0.len() as int)[at - s0.len()]);
            } else if at < s2.len() {
                assert(s3[at] == s2.skip(s1.len() as int)[at - s1.len()]);
            } else {
                assert(s3[at] == s3.skip(s2.len() as int)[at - s2.len()]);
            }
        }
    }
}

/// The persisted text follows the index: a catalog is registered on the
/// index that a text holds, and the lines handed back are written after the
/// text in the way `text_to_append` says. The text then holds the index as it
/// is after the registration.
pub proof fn lemma_catalog_registration_persists(text: Seq<char>, songs: Seq<SongView>)
    ensures
        ({
            let index = parse_index(text);
            let after = registered_catalog(index, songs);
            let new_lines = render(after.skip(index.len() as int));
            parse_index(text + appended(text, new_lines)) == after
        }),
{
    let index = parse_index(text);
    let after = registered_catalog(index, songs);
    let added = after.skip(index.len() as int);
    lemma_registered_catalog_extends(index, songs);
    lemma_appended_lines_read_back(text, added);
}

/// Registering keeps what the index holds.
pub proof fn lemma_registered_keeps(
    index: Seq<EntryView>,
    category: Category,
    label: Seq<char>,
    entry: EntryView,
)
    requires
        index.contains(entry),
    ensures
        registered(index, category, label).contains(entry),
{
    let i = choose|i: int| 0 <= i < index.len() && index[i] == entry;
    assert(registered(index, category, label)[i] == entry);
}

/// After a song was registered, none of its labels is new, and what the index
/// held it still holds.
pub proof fn lemma_registered_song(index: Seq<EntryView>, song: SongView)
    ensures
        forall|category: Category|
            !is_new(registered_song(index, song), category, #[trigger] label_of(song, category)),
        forall|entry: EntryView|
            index.contains(entry) ==> #[trigger] registered_song(index, song).contains(entry),
{
    let album = label_of(song, Category::Album);
    let artist = label_of(song, Category::Artist);
    let genre = label_of(song, Category::Genre);
    let a = registered(index, Category::Album, album);
    let b = registered(a, Category::Artist, artist);
    lemma_register_twice(index, Category::Album, album);
    lemma_register_twice(a, Category::Artist, artist);
    lemma_register_twice(b, Category::Genre, genre);
    if normalized(album).len() > 0 {
        lemma_registered_keeps(a, Category::Artist, artist, entry_for(Category::Album, album));
        lemma_registered_keeps(b, Category::Genre, genre, entry_for(Category::Album, album));
    }
    if normalized(artist).len() > 0 {
        lemma_registered_keeps(b, Category::Genre, genre, entry_for(Category::Artist, artist));
    }
    assert forall|category: Category|
        !is_new(registered_song(index, song), category, #[trigger] label_of(song, category)) by {
        match category {
            Category::Album => {},
            Category::Artist => {},
            Category::Genre => {},
        }
    }
    assert forall|entry: EntryView| index.contains(entry) implies #[trigger] registered_song(
        index,
        song,
    ).contains(entry) by {
        lemma_registered_keeps(index, Category::Album, album, entry);
        lemma_registered_keeps(a, Category::Artist, artist, entry);
        lemma_registered_keeps(b, Category::Genre, genre, entry);
    }
}

/// After a catalog was registered, no label of any of its songs is new, and
/// what the index held it still holds.
pub proof fn lemma_registered_catalog(index: Seq<EntryView>, songs: Seq<SongView>)
    ensures
        forall|k: int, category: Category|
            0 <= k < songs.len() ==> !is_new(
                registered_catalog(index, songs),
                category,
                #[trigger] label_of(songs[k], category),
            ),
        forall|entry: EntryView|
            index.contains(entry) ==> #[trigger] registered_catalog(index, songs).contains(entry),
    decreases songs.len(),
{
    if songs.len() > 0 {
        let before = registered_catalog(index, songs.drop_last());
        let after = registered_catalog(index, songs);
        lemma_registered_catalog(index, songs.drop_last());
        lemma_registered_song(before, songs.last());
        assert forall|k: int, category: Category| 0 <= k < songs.len() implies !is_new(
            after,
            category,
            #[trigger] label_of(songs[k], category),
        ) by {
            if k < songs.len() - 1 {
                assert(songs[k] == songs.drop_last()[k]);
            }
        }
    }
}

/// Registering a catalog is safe to repeat: on an index on which the catalog
/// was registered, registering it again changes nothing.
pub proof fn lemma_register_catalog_twice(index: Seq<EntryView>, songs: Seq<SongView>)
    ensures
        registered_catalog(registered_catalog(index, songs), songs) == registered_catalog(
            index,
            songs,
        ),
{
    let once = registered_catalog(index, songs);
    lemma_registered_catalog(index, songs);
    lemma_nothing_new(once, songs, songs.len() as int);
    assert(songs.take(songs.len() as int) =~= songs);
}

/// Where no label of the first `n` songs is new, registering them changes
/// nothing.
proof fn lemma_nothing_new(index: Seq<EntryView>, songs: Seq<SongView>, n: int)
    requires
        0 <= n <= songs.len(),
        forall|k: int, category: Category|
            0 <= k < songs.len() ==> !is_new(
                index,
                category,
                #[trigger] label_of(songs[k], category),
            ),
    ensures
        registered_catalog(index, songs.take(n)) == index,
    decreases n,
{
    if n > 0 {
        lemma_nothing_new(index, songs, n - 1);
        assert(songs.take(n).drop_last() =~= songs.take(n - 1));
    }
}

} // verus!
