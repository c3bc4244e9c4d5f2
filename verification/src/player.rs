//! The playback engine: a queue of songs and the state of the transport that
//! plays them. The engine decides; whoever owns the audio output carries out
//! the `TransportCommand` that each operation hands back.
use crate::song::{song_views, Song, SongView};
use vstd::prelude::*;

verus! {

/// The loudest volume, in thousandths of full scale.
pub const VOLUME_MAX: u16 = 1000;

/// The volume of a new player, in thousandths of full scale.
pub const VOLUME_DEFAULT: u16 = 500;

/// What the transport is doing.
#[derive(Clone, Copy, Debug, PartialEq, Eq, Structural)]
pub enum TransportStatus {
    /// Nothing was played since the queue was last empty.
    Idle,
    Playing,
    Paused,
}

/// Why the engine refused an operation.
#[derive(Clone, Copy, Debug, PartialEq, Eq, Structural)]
pub enum PlayerError {
    /// The index names no entry of the queue.
    IndexOutOfRange,
}

/// What the audio output has to do after an operation.
#[derive(Clone, Copy, Debug, PartialEq, Eq, Structural)]
pub enum TransportCommand {
    /// Leave the output as it is.
    NoOp,
    /// Stop what is sounding and play the current song from its beginning.
    Start,
    Pause,
    Resume,
    /// Move to this many seconds from the beginning of the current song.
    SeekTo(u64),
    /// Set the volume, in thousandths of full scale.
    SetVolume(u16),
    /// Stop and drop all audio.
    Clear,
}

/// The engine as a mathematical value.
pub struct PlayerView {
    pub queue: Seq<SongView>,
    pub current: Option<SongView>,
    pub index: int,
    pub status: TransportStatus,
    pub volume: int,
    pub repeat: bool,
    pub shuffled: bool,
}

impl PlayerView {
    /// What every engine satisfies: the index points into the queue (or is
    /// zero where the queue is empty), the volume is on the scale, there is a
    /// current song exactly when something was played, and until the queue is
    /// shuffled the current song is the entry at the index.
    pub open spec fn valid(self) -> bool {
        &&& 0 <= self.volume <= VOLUME_MAX
        &&& 0 <= self.index
        &&& self.queue.len() > 0 ==> self.index < self.queue.len()
        &&& self.queue.len() == 0 ==> self.index == 0 && self.status is Idle
        &&& (self.current is None <==> self.status is Idle)
        &&& self.current is Some && !self.shuffled ==> self.current == Some(self.queue[self.index])
    }

    /// A new engine.
    pub open spec fn initial() -> PlayerView {
        PlayerView {
            queue: Seq::empty(),
            current: None,
            index: 0,
            status: TransportStatus::Idle,
            volume: VOLUME_DEFAULT as int,
            repeat: false,
            shuffled: false,
        }
    }

    /// Whether `index` names an entry of the queue.
    pub open spec fn in_range(self, index: int) -> bool {
        0 <= index < self.queue.len()
    }

    /// The engine after `song` joined the end of the queue.
    pub open spec fn enqueued(self, song: SongView) -> PlayerView {
        PlayerView { queue: self.queue.push(song), ..self }
    }

    /// The engine after it began to play the entry at `index`.
    pub open spec fn played(self, index: int) -> PlayerView
        recommends
            self.in_range(index),
    {
        PlayerView {
            current: Some(self.queue[index]),
            index,
            status: TransportStatus::Playing,
            ..self
        }
    }

    /// The engine after a request to play the entry at `index`, which is
    /// refused where the index names none.
    pub open spec fn play(self, index: int) -> PlayerView {
        if self.in_range(index) {
            self.played(index)
        } else {
            self
        }
    }

    /// The engine after a move of `delta` entries, which holds its place where
    /// the move would leave the queue.
    pub open spec fn skipped(self, delta: int) -> PlayerView {
        self.play(self.index + delta)
    }

    /// The engine after the pause button: playing and paused change places.
    pub open spec fn toggled(self) -> PlayerView {
        PlayerView {
            status: match self.status {
                TransportStatus::Idle => TransportStatus::Idle,
                TransportStatus::Playing => TransportStatus::Paused,
                TransportStatus::Paused => TransportStatus::Playing,
            },
            ..self
        }
    }

    /// The engine after the queue was emptied.
    pub open spec fn emptied(self) -> PlayerView {
        PlayerView {
            queue: Seq::empty(),
            current: None,
            index: 0,
            status: TransportStatus::Idle,
            shuffled: false,
            ..self
        }
    }

    /// The engine after its queue was replaced by `songs` and the first of
    /// them, if there is one, began to play.
    pub open spec fn loaded(self, songs: Seq<SongView>) -> PlayerView {
        (PlayerView { queue: songs, ..self.emptied() }).play(0)
    }

    /// The engine after the volume moved by `delta` thousandths.
    pub open spec fn volume_adjusted(self, delta: int) -> PlayerView {
        PlayerView { volume: clamp(self.volume + delta, 0, VOLUME_MAX as int), ..self }
    }

    /// The length of the current song in seconds; zero where there is none.
    pub open spec fn current_duration(self) -> u64 {
        match self.current {
            Some(song) => song.duration,
            None => 0,
        }
    }
}

/// `value` held within `low` and `high`.
pub open spec fn clamp(value: int, low: int, high: int) -> int {
    if value < low {
        low
    } else if value > high {
        high
    } else {
        value
    }
}

/// The position, in seconds, that a seek by `delta` from `position` reaches in
/// a song of `duration` seconds.
pub open spec fn seek_target(position: u64, delta: i32, duration: u64) -> int {
    clamp(position + delta, 0, duration as int)
}

/// The playback engine.
pub struct Player {
    current_song: Option<Song>,
    queue: Vec<Song>,
    repeat: bool,
    is_shuffled: bool,
    queue_index: usize,
    volume: u16,
    status: TransportStatus,
}

/// The view of an optional song.
pub open spec fn optional_song_view(song: Option<Song>) -> Option<SongView> {
    match song {
        Some(s) => Some(s@),
        None => None,
    }
}

impl View for Player {
    type V = PlayerView;

    closed spec fn view(&self) -> PlayerView {
        PlayerView {
            queue: song_views(self.queue@),
            current: optional_song_view(self.current_song),
            index: self.queue_index as int,
            status: self.status,
            volume: self.volume as int,
            repeat: self.repeat,
            shuffled: self.is_shuffled,
        }
    }
}

/// `rand::seq::SliceRandom::shuffle`, fed by `rand::thread_rng`: it only swaps
/// entries, so the songs afterwards are the songs before in some order.
#[verifier::external_body]
fn shuffle_songs(songs: &mut Vec<Song>)
    ensures
        song_views(final(songs)@).to_multiset() == song_views(old(songs)@).to_multiset(),
{
    rand::seq::SliceRandom::shuffle(songs.as_mut_slice(), &mut rand::thread_rng());
}

impl Player {
    /// An engine with an empty queue, at the default volume.
    pub fn new() -> (r: Self)
        ensures
            r@ == PlayerView::initial(),
            r@.valid(),
    {
        let r = Player {
            current_song: None,
            queue: Vec::new(),
            repeat: false,
            is_shuffled: false,
            queue_index: 0,
            volume: VOLUME_DEFAULT,
            status: TransportStatus::Idle,
        };
        assert(r@.queue =~= Seq::empty());
        r
    }

    /// Plays the entry at `index`, or refuses where the queue has none there.
    pub fn play(&mut self, index: usize) -> (r: Result<TransportCommand, PlayerError>)
        requires
            old(self)@.valid(),
        ensures
            final(self)@.valid(),
            final(self)@ == old(self)@.play(index as int),
            old(self)@.in_range(index as int) ==> r == Ok::<TransportCommand, PlayerError>(
                TransportCommand::Start,
            ),
            !old(self)@.in_range(index as int) ==> r == Err::<TransportCommand, PlayerError>(
                PlayerError::IndexOutOfRange,
            ),
    {
        if index < self.queue.len() {
            self.current_song = Some(self.queue[index].clone());
            self.queue_index = index;
            self.status = TransportStatus::Playing;
            Ok(TransportCommand::Start)
        } else {
            Err(PlayerError::IndexOutOfRange)
        }
    }

    /// Moves `to` entries along the queue and plays the entry there. Where the
    /// move would leave the queue, nothing changes.
    pub fn skip(&mut self, to: i32) -> (r: TransportCommand)
        requires
            old(self)@.valid(),
        ensures
            final(self)@.valid(),
            final(self)@ == old(self)@.skipped(to as int),
            r == if old(self)@.in_range(old(self)@.index + to) {
                TransportCommand::Start
            } else {
                TransportCommand::NoOp
            },
    {
        let target: i128 = self.queue_index as i128 + to as i128;
        if 0 <= target && target < self.queue.len() as i128 {
            match self.play(target as usize) {
                Ok(command) => command,
                Err(_) => TransportCommand::NoOp,
            }
        } else {
            TransportCommand::NoOp
        }
    }

    /// Puts `song` at the end of the queue.
    pub fn add_to_queue(&mut self, song: Song)
        requires
            old(self)@.valid(),
        ensures
            final(self)@.valid(),
            final(self)@ == old(self)@.enqueued(song@),
    {
        self.queue.push(song);
        assert(song_views(self.queue@) =~= song_views(old(self).queue@).push(song@));
    }

    /// Pauses what plays, resumes what is paused.
    pub fn pause_resume(&mut self) -> (r: TransportCommand)
        requires
            old(self)@.valid(),
        ensures
            final(self)@.valid(),
            final(self)@ == old(self)@.toggled(),
            r == match old(self)@.status {
                TransportStatus::Idle => TransportCommand::NoOp,
                TransportStatus::Playing => TransportCommand::Pause,
                TransportStatus::Paused => TransportCommand::Resume,
            },
    {
        match self.status {
            TransportStatus::Idle => TransportCommand::NoOp,
            TransportStatus::Playing => {
                self.status = TransportStatus::Paused;
                TransportCommand::Pause
            },
            TransportStatus::Paused => {
                self.status = TransportStatus::Playing;
                TransportCommand::Resume
            },
        }
    }

    /// Whether playback is paused.
    pub fn song_paused(&self) -> (r: bool)
        ensures
            r == (self@.status is Paused),
    {
        match self.status {
            TransportStatus::Paused => true,
            _ => false,
        }
    }

    /// Rearranges the queue at random, once: a shuffled queue stays as it is.
    pub fn shuffle_queue(&mut self)
        requires
            old(self)@.valid(),
        ensures
            final(self)@.valid(),
            old(self)@.shuffled ==> final(self)@ == old(self)@,
            !old(self)@.shuffled ==> final(self)@ == (PlayerView {
                queue: final(self)@.queue,
                shuffled: true,
                ..old(self)@
            }),
            final(self)@.queue.to_multiset() == old(self)@.queue.to_multiset(),
            final(self)@.queue.len() == old(self)@.queue.len(),
    {
        if !self.is_shuffled {
            shuffle_songs(&mut self.queue);
            proof {
                song_views(self.queue@).to_multiset_ensures();
                song_views(old(self).queue@).to_multiset_ensures();
            }
            self.is_shuffled = true;
        }
    }

    /// Empties the queue and returns to the idle state.
    pub fn empty_queue(&mut self) -> (r: TransportCommand)
        requires
            old(self)@.valid(),
        ensures
            final(self)@.valid(),
            final(self)@ == old(self)@.emptied(),
            r == TransportCommand::Clear,
    {
        self.queue.clear();
        self.current_song = None;
        self.queue_index = 0;
        self.status = TransportStatus::Idle;
        self.is_shuffled = false;
        assert(song_views(self.queue@) =~= Seq::empty());
        TransportCommand::Clear
    }

    /// Moves the volume by `by` thousandths of full scale, staying on the scale.
    pub fn adjust_volume(&mut self, by: i32) -> (r: TransportCommand)
        requires
            old(self)@.valid(),
        ensures
            final(self)@.valid(),
            final(self)@ == old(self)@.volume_adjusted(by as int),
            r == TransportCommand::SetVolume(final(self)@.volume as u16),
    {
        let sum: i64 = self.volume as i64 + by as i64;
        if sum < 0 {
            self.volume = 0;
        } else if sum > VOLUME_MAX as i64 {
            self.volume = VOLUME_MAX;
        } else {
            self.volume = sum as u16;
        }
        TransportCommand::SetVolume(self.volume)
    }

    /// Where a seek by `by` seconds from `position` lands: within the current
    /// song. Without a current song there is nothing to seek in.
    pub fn seek_position(&self, position: u64, by: i32) -> (r: TransportCommand)
        ensures
            r == match self@.current {
                Some(song) => TransportCommand::SeekTo(
                    seek_target(position, by, song.duration) as u64,
                ),
                None => TransportCommand::NoOp,
            },
            self@.valid() && self@.queue.len() == 0 ==> r == TransportCommand::NoOp,
    {
        match &self.current_song {
            Some(song) => {
                let target: i128 = position as i128 + by as i128;
                if target < 0 {
                    TransportCommand::SeekTo(0)
                } else if target > song.duration as i128 {
                    TransportCommand::SeekTo(song.duration)
                } else {
                    TransportCommand::SeekTo(target as u64)
                }
            },
            None => TransportCommand::NoOp,
        }
    }

    /// Starts the first entry where the output has run dry, and otherwise
    /// pauses or resumes. `transport_drained` says whether the output has no
    /// audio left to play.
    pub fn play_or_pause(&mut self, transport_drained: bool) -> (r: Result<
        TransportCommand,
        PlayerError,
    >)
        requires
            old(self)@.valid(),
        ensures
            final(self)@.valid(),
            final(self)@ == if transport_drained {
                old(self)@.play(0)
            } else {
                old(self)@.toggled()
            },
            r == if !transport_drained {
                Ok::<TransportCommand, PlayerError>(
                    match old(self)@.status {
                        TransportStatus::Idle => TransportCommand::NoOp,
                        TransportStatus::Playing => TransportCommand::Pause,
                        TransportStatus::Paused => TransportCommand::Resume,
                    },
                )
            } else if old(self)@.queue.len() > 0 {
                Ok::<TransportCommand, PlayerError>(TransportCommand::Start)
            } else {
                Err::<TransportCommand, PlayerError>(PlayerError::IndexOutOfRange)
            },
    {
        if transport_drained {
            self.play(0)
        } else {
            Ok(self.pause_resume())
        }
    }

    /// The length of the current song in seconds; zero where there is none.
    pub fn current_duration(&self) -> (r: u64)
        ensures
            r == self@.current_duration(),
    {
        match &self.current_song {
            Some(song) => song.duration,
            None => 0,
        }
    }

    /// Whether the caller is to play the current song again when it ends.
    pub fn repeat(&self) -> (r: bool)
        ensures
            r == self@.repeat,
    {
        self.repeat
    }

    /// Turns repeating on where it is off, and off where it is on.
    pub fn toggle_repeat(&mut self)
        ensures
            final(self)@ == (PlayerView { repeat: !old(self)@.repeat, ..old(self)@ }),
    {
        self.repeat = !self.repeat;
    }

    /// Whether the queue was shuffled since it was last empty.
    pub fn is_shuffled(&self) -> (r: bool)
        ensures
            r == self@.shuffled,
    {
        self.is_shuffled
    }

    /// The songs of the queue, in order.
    pub fn queue(&self) -> (r: &Vec<Song>)
        ensures
            song_views(r@) == self@.queue,
    {
        &self.queue
    }

    /// The song that plays or is paused, if any.
    pub fn current_song(&self) -> (r: &Option<Song>)
        ensures
            optional_song_view(*r) == self@.current,
    {
        &self.current_song
    }

    /// The place in the queue of the entry last played; zero before any.
    pub fn queue_index(&self) -> (r: usize)
        ensures
            r == self@.index,
    {
        self.queue_index
    }

    /// The volume, in thousandths of full scale.
    pub fn volume(&self) -> (r: u16)
        ensures
            r == self@.volume,
    {
        self.volume
    }

    /// What the transport is doing.
    pub fn status(&self) -> (r: TransportStatus)
        ensures
            r == self@.status,
    {
        self.status
    }

    /// A field of the current song, asked for by name. Without a current song
    /// the answer is that of a song of which nothing is known.
    pub fn current_song_info(&self, key: &str) -> (r: String)
        ensures
            r@ == match self@.current {
                Some(song) => song.info(key@),
                None => SongView::unloaded(Seq::empty()).info(key@),
            },
    {
        match &self.current_song {
            Some(song) => song.info(key),
            None => Song::default().info(key),
        }
    }

    /// The cover path of each song of the queue, in order.
    pub fn cover_path_queue(&self) -> (r: Vec<String>)
        ensures
            r@.len() == self@.queue.len(),
            forall|i: int|
                0 <= i < r@.len() ==> (#[trigger] r@[i])@ == self@.queue[i].cover_or_empty(),
    {
        let mut covers: Vec<String> = Vec::new();
        let mut i: usize = 0;
        while i < self.queue.len()
            invariant
                i <= self.queue.len(),
                covers@.len() == i,
                forall|j: int|
                    0 <= j < i ==> (#[trigger] covers@[j])@ == self.queue@[j]@.cover_or_empty(),
            decreases self.queue.len() - i,
        {
            covers.push(self.queue[i].get_cover_path());
            i += 1;
        }
        covers
    }

    /// Replaces the queue by the songs of a playlist and plays the first. The
    /// command is owed to the audio output in either case: to start the first
    /// song, or, for an empty playlist, to clear what was sounding. An empty
    /// playlist leaves an empty queue, and the request to play its first song
    /// is refused like any request to play what is not there.
    pub fn play_playlist(&mut self, songs: &Vec<Song>) -> (r: (
        TransportCommand,
        Result<(), PlayerError>,
    ))
        requires
            old(self)@.valid(),
        ensures
            final(self)@.valid(),
            final(self)@ == old(self)@.loaded(song_views(songs@)),
            songs@.len() > 0 ==> r == (TransportCommand::Start, Ok::<(), PlayerError>(())),
            songs@.len() == 0 ==> r == (
                TransportCommand::Clear,
                Err::<(), PlayerError>(PlayerError::IndexOutOfRange),
            ),
    {
        self.empty_queue();
        let ghost emptied = self@;
        let mut i: usize = 0;
        assert(song_views(songs@).take(0) =~= Seq::<SongView>::empty());
        while i < songs.len()
            invariant
                i <= songs.len(),
                self@.valid(),
                self@ == (PlayerView { queue: song_views(songs@).take(i as int), ..emptied }),
            decreases songs.len() - i,
        {
            let song = songs[i].clone();
            self.add_to_queue(song);
            assert(song_views(songs@).take(i as int).push(song@) =~= song_views(songs@).take(
                i + 1,
            ));
            i += 1;
        }
        assert(song_views(songs@).take(i as int) =~= song_views(songs@));
        match self.play(0) {
            Ok(command) => (command, Ok(())),
            Err(refusal) => (TransportCommand::Clear, Err(refusal)),
        }
    }
}

/// However far and in whichever direction the volume is moved, it stays on
/// the scale.
pub proof fn lemma_volume_stays_on_scale(player: PlayerView, delta: int)
    ensures
        0 <= player.volume_adjusted(delta).volume <= VOLUME_MAX,
{
}

/// A seek lands within the song, from zero to its length, wherever it
/// started and however far it went.
pub proof fn lemma_seek_stays_in_song(position: u64, delta: i32, duration: u64)
    ensures
        0 <= seek_target(position, delta, duration) <= duration,
{
}

/// An engine with an empty queue has no current song, so there is nothing to
/// seek in.
pub proof fn lemma_empty_queue_has_no_current(player: PlayerView)
    requires
        player.valid(),
        player.queue.len() == 0,
    ensures
        player.current is None,
{
}

/// A skip never leads out of the queue: afterwards the engine is valid, its
/// index names an entry wherever the queue has one, and a skip past either
/// end changes nothing at all.
pub proof fn lemma_skip_stays_in_queue(player: PlayerView, delta: int)
    requires
        player.valid(),
    ensures
        player.skipped(delta).valid(),
        player.queue.len() > 0 ==> player.skipped(delta).in_range(player.skipped(delta).index),
        !player.in_range(player.index + delta) ==> player.skipped(delta) == player,
        player.in_range(player.index + delta) ==> player.skipped(delta).index == player.index
            + delta && player.skipped(delta).current == Some(player.queue[player.index + delta]),
{
}

/// A request to play at an index that names no entry changes nothing,
/// whatever the queue; on an empty queue that is every index.
pub proof fn lemma_play_out_of_range(player: PlayerView, index: int)
    ensures
        !player.in_range(index) ==> player.play(index) == player,
        player.queue.len() == 0 ==> !player.in_range(index),
{
}

/// Every operation leaves a valid engine valid.
pub proof fn lemma_operations_keep_valid(
    player: PlayerView,
    song: SongView,
    songs: Seq<SongView>,
    index: int,
    delta: int,
)
    requires
        player.valid(),
    ensures
        PlayerView::initial().valid(),
        player.enqueued(song).valid(),
        player.play(index).valid(),
        player.skipped(delta).valid(),
        player.toggled().valid(),
        player.emptied().valid(),
        player.loaded(songs).valid(),
        player.volume_adjusted(delta).valid(),
{
}

} // verus!
