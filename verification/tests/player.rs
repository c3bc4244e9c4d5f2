use bupl::player::{
    Player, PlayerError, TransportCommand, TransportStatus, VOLUME_DEFAULT, VOLUME_MAX,
};
use bupl::song::{AudioProperties, Song, TrackTags};

fn queue_of(paths: &[&str]) -> Player {
    let mut player = Player::new();
    for path in paths {
        player.add_to_queue(Song::new(path.to_string()));
    }
    player
}

fn song_lasting(path: &str, seconds: u64) -> Song {
    let mut song = Song::new(path.to_string());
    song.duration = seconds;
    song
}

fn paths_in_queue(player: &Player) -> Vec<String> {
    player.queue().iter().map(|song| song.get_path()).collect()
}

#[test]
fn a_new_player_is_idle_and_empty() {
    let player = Player::new();
    assert!(player.queue().is_empty());
    assert!(player.current_song().is_none());
    assert_eq!(player.status(), TransportStatus::Idle);
    assert_eq!(player.queue_index(), 0);
    assert_eq!(player.volume(), VOLUME_DEFAULT);
    assert_eq!(player.volume(), 500);
    assert!(!player.repeat());
    assert!(!player.is_shuffled());
    assert!(!player.song_paused());
    assert_eq!(player.current_duration(), 0);
}

#[test]
fn add_to_queue_appends_and_changes_nothing_else() {
    let mut player = queue_of(&["A.mp3"]);
    assert_eq!(player.play(0), Ok(TransportCommand::Start));
    player.add_to_queue(Song::new("B.mp3".to_string()));
    assert_eq!(paths_in_queue(&player), vec!["A.mp3", "B.mp3"]);
    assert_eq!(player.queue_index(), 0);
    assert_eq!(player.status(), TransportStatus::Playing);
    assert_eq!(player.current_song().as_ref().unwrap().get_path(), "A.mp3");
}

#[test]
fn skip_moves_within_the_queue_and_holds_at_its_end() {
    let mut player = queue_of(&["A.mp3", "B.mp3", "C.mp3"]);
    assert_eq!(player.play(0), Ok(TransportCommand::Start));
    assert_eq!(player.skip(1), TransportCommand::Start);
    assert_eq!(player.queue_index(), 1);
    assert_eq!(player.current_song().as_ref().unwrap().get_path(), "B.mp3");
    assert_eq!(player.skip(5), TransportCommand::NoOp);
    assert_eq!(player.queue_index(), 1);
    assert_eq!(player.current_song().as_ref().unwrap().get_path(), "B.mp3");
    assert_eq!(player.status(), TransportStatus::Playing);
}

#[test]
fn skip_holds_at_the_front_of_the_queue() {
    let mut player = queue_of(&["A.mp3", "B.mp3", "C.mp3"]);
    assert_eq!(player.play(1), Ok(TransportCommand::Start));
    assert_eq!(player.skip(-2), TransportCommand::NoOp);
    assert_eq!(player.queue_index(), 1);
    assert_eq!(player.skip(i32::MIN), TransportCommand::NoOp);
    assert_eq!(player.skip(i32::MAX), TransportCommand::NoOp);
    assert_eq!(player.queue_index(), 1);
    assert_eq!(player.skip(-1), TransportCommand::Start);
    assert_eq!(player.queue_index(), 0);
    assert_eq!(player.current_song().as_ref().unwrap().get_path(), "A.mp3");
}

#[test]
fn skip_on_an_empty_queue_does_nothing() {
    let mut player = Player::new();
    assert_eq!(player.skip(1), TransportCommand::NoOp);
    assert_eq!(player.skip(0), TransportCommand::NoOp);
    assert_eq!(player.queue_index(), 0);
    assert_eq!(player.status(), TransportStatus::Idle);
}

#[test]
fn skip_by_nothing_plays_the_entry_again() {
    let mut player = queue_of(&["A.mp3", "B.mp3"]);
    assert_eq!(player.play(1), Ok(TransportCommand::Start));
    assert_eq!(player.pause_resume(), TransportCommand::Pause);
    assert_eq!(player.skip(0), TransportCommand::Start);
    assert_eq!(player.queue_index(), 1);
    assert_eq!(player.status(), TransportStatus::Playing);
}

#[test]
fn play_on_an_empty_queue_is_refused() {
    let mut player = Player::new();
    assert_eq!(player.play(0), Err(PlayerError::IndexOutOfRange));
    assert_eq!(player.status(), TransportStatus::Idle);
    assert!(player.current_song().is_none());
}

#[test]
fn play_past_the_end_is_refused_and_changes_nothing() {
    let mut player = queue_of(&["A.mp3", "B.mp3"]);
    assert_eq!(player.play(1), Ok(TransportCommand::Start));
    assert_eq!(player.play(2), Err(PlayerError::IndexOutOfRange));
    assert_eq!(player.play(usize::MAX), Err(PlayerError::IndexOutOfRange));
    assert_eq!(player.queue_index(), 1);
    assert_eq!(player.current_song().as_ref().unwrap().get_path(), "B.mp3");
    assert_eq!(player.status(), TransportStatus::Playing);
}

#[test]
fn pause_resume_toggles_and_is_idle_when_idle() {
    let mut player = queue_of(&["A.mp3"]);
    assert_eq!(player.pause_resume(), TransportCommand::NoOp);
    assert_eq!(player.status(), TransportStatus::Idle);
    assert_eq!(player.play(0), Ok(TransportCommand::Start));
    assert_eq!(player.pause_resume(), TransportCommand::Pause);
    assert_eq!(player.status(), TransportStatus::Paused);
    assert!(player.song_paused());
    assert_eq!(player.pause_resume(), TransportCommand::Resume);
    assert_eq!(player.status(), TransportStatus::Playing);
    assert!(!player.song_paused());
}

#[test]
fn volume_is_held_on_the_scale() {
    let mut player = Player::new();
    assert_eq!(player.adjust_volume(800), TransportCommand::SetVolume(1000));
    assert_eq!(player.volume(), VOLUME_MAX);
    assert_eq!(player.adjust_volume(i32::MAX), TransportCommand::SetVolume(1000));
    assert_eq!(player.adjust_volume(-250), TransportCommand::SetVolume(750));
    assert_eq!(player.adjust_volume(-751), TransportCommand::SetVolume(0));
    assert_eq!(player.adjust_volume(i32::MIN), TransportCommand::SetVolume(0));
    assert_eq!(player.adjust_volume(1), TransportCommand::SetVolume(1));
    assert_eq!(player.volume(), 1);
}

#[test]
fn seek_lands_within_the_current_song() {
    let mut player = Player::new();
    player.add_to_queue(song_lasting("A.mp3", 200));
    assert_eq!(player.play(0), Ok(TransportCommand::Start));
    assert_eq!(player.current_duration(), 200);
    assert_eq!(player.seek_position(50, 10), TransportCommand::SeekTo(60));
    assert_eq!(player.seek_position(50, -10), TransportCommand::SeekTo(40));
    assert_eq!(player.seek_position(5, -10), TransportCommand::SeekTo(0));
    assert_eq!(player.seek_position(195, 10), TransportCommand::SeekTo(200));
    assert_eq!(player.seek_position(u64::MAX, i32::MAX), TransportCommand::SeekTo(200));
    assert_eq!(player.seek_position(0, i32::MIN), TransportCommand::SeekTo(0));
    assert_eq!(player.seek_position(300, -150), TransportCommand::SeekTo(150));
}

#[test]
fn seek_without_a_current_song_does_nothing() {
    let player = Player::new();
    assert_eq!(player.seek_position(0, 10), TransportCommand::NoOp);
    let waiting = queue_of(&["A.mp3"]);
    assert_eq!(waiting.seek_position(3, -1), TransportCommand::NoOp);
}

#[test]
fn shuffle_rearranges_once() {
    let names: Vec<String> = (0..200).map(|i| format!("{i}.mp3")).collect();
    let mut player = Player::new();
    for name in &names {
        player.add_to_queue(Song::new(name.clone()));
    }
    player.shuffle_queue();
    assert!(player.is_shuffled());
    let shuffled = paths_in_queue(&player);
    assert_ne!(shuffled, names);
    let mut sorted_back = shuffled.clone();
    sorted_back.sort();
    let mut sorted_names = names.clone();
    sorted_names.sort();
    assert_eq!(sorted_back, sorted_names);
    player.shuffle_queue();
    assert_eq!(paths_in_queue(&player), shuffled);
}

#[test]
fn shuffle_keeps_index_status_and_current_song() {
    let mut player = queue_of(&["A.mp3", "B.mp3", "C.mp3"]);
    assert_eq!(player.play(2), Ok(TransportCommand::Start));
    player.shuffle_queue();
    assert_eq!(player.queue_index(), 2);
    assert_eq!(player.status(), TransportStatus::Playing);
    assert_eq!(player.current_song().as_ref().unwrap().get_path(), "C.mp3");
    assert_eq!(player.queue().len(), 3);
}

#[test]
fn empty_queue_returns_to_idle() {
    let mut player = queue_of(&["A.mp3", "B.mp3"]);
    assert_eq!(player.play(1), Ok(TransportCommand::Start));
    player.shuffle_queue();
    player.toggle_repeat();
    assert_eq!(player.adjust_volume(100), TransportCommand::SetVolume(600));
    assert_eq!(player.empty_queue(), TransportCommand::Clear);
    assert!(player.queue().is_empty());
    assert!(player.current_song().is_none());
    assert_eq!(player.queue_index(), 0);
    assert_eq!(player.status(), TransportStatus::Idle);
    assert!(!player.is_shuffled());
    assert!(player.repeat());
    assert_eq!(player.volume(), 600);
    assert_eq!(player.play(0), Err(PlayerError::IndexOutOfRange));
}

#[test]
fn play_or_pause_starts_the_first_entry_when_the_output_ran_dry() {
    let mut player = queue_of(&["A.mp3", "B.mp3"]);
    assert_eq!(player.play_or_pause(true), Ok(TransportCommand::Start));
    assert_eq!(player.queue_index(), 0);
    assert_eq!(player.status(), TransportStatus::Playing);
    assert_eq!(player.play_or_pause(false), Ok(TransportCommand::Pause));
    assert_eq!(player.play_or_pause(false), Ok(TransportCommand::Resume));
    assert_eq!(player.skip(1), TransportCommand::Start);
    assert_eq!(player.play_or_pause(true), Ok(TransportCommand::Start));
    assert_eq!(player.queue_index(), 0);
    let mut empty = Player::new();
    assert_eq!(empty.play_or_pause(true), Err(PlayerError::IndexOutOfRange));
    assert_eq!(empty.play_or_pause(false), Ok(TransportCommand::NoOp));
}

#[test]
fn play_playlist_replaces_the_queue() {
    let mut player = queue_of(&["A.mp3", "B.mp3", "C.mp3"]);
    assert_eq!(player.play(2), Ok(TransportCommand::Start));
    player.shuffle_queue();
    let songs = vec![Song::new("X.mp3".to_string()), Song::new("Y.mp3".to_string())];
    assert_eq!(player.play_playlist(&songs), (TransportCommand::Start, Ok(())));
    assert_eq!(paths_in_queue(&player), vec!["X.mp3", "Y.mp3"]);
    assert_eq!(player.queue_index(), 0);
    assert_eq!(player.current_song().as_ref().unwrap().get_path(), "X.mp3");
    assert_eq!(player.status(), TransportStatus::Playing);
    assert!(!player.is_shuffled());
    assert_eq!(
        player.play_playlist(&Vec::new()),
        (TransportCommand::Clear, Err(PlayerError::IndexOutOfRange))
    );
    assert!(player.queue().is_empty());
    assert_eq!(player.status(), TransportStatus::Idle);
    assert!(player.current_song().is_none());
}

#[test]
fn repeat_toggles() {
    let mut player = Player::new();
    player.toggle_repeat();
    assert!(player.repeat());
    player.toggle_repeat();
    assert!(!player.repeat());
}

#[test]
fn current_song_info_answers_by_name() {
    let mut song = Song::new("/music/a.flac".to_string());
    song.load_metadata(
        AudioProperties {
            duration: 245,
            channels: Some(2),
            sample_rate: Some(44100),
            audio_bitrate: Some(900),
            bit_depth: Some(16),
        },
        TrackTags {
            title: Some("Song".to_string()),
            artist: Some("Band".to_string()),
            album: Some("Record".to_string()),
            genre: None,
            year: Some(1999),
            track: Some(7),
            track_total: Some(12),
        },
        None,
    );
    song.set_cover_path(Some("/cache/Record.png".to_string()));
    let mut player = Player::new();
    player.add_to_queue(song);
    assert_eq!(player.current_song_info("title"), "");
    assert_eq!(player.current_song_info("year"), "0");
    assert_eq!(player.current_song_info("duration"), "0");
    assert_eq!(player.play(0), Ok(TransportCommand::Start));
    assert_eq!(player.current_song_info("title"), "Song");
    assert_eq!(player.current_song_info("album"), "Record");
    assert_eq!(player.current_song_info("artist"), "Band");
    assert_eq!(player.current_song_info("genre"), "");
    assert_eq!(player.current_song_info("year"), "1999");
    assert_eq!(player.current_song_info("track"), "7");
    assert_eq!(player.current_song_info("duration"), "245");
    assert_eq!(player.current_song_info("cover_path"), "/cache/Record.png");
    assert_eq!(player.current_song_info("Title"), "");
    assert_eq!(player.current_song_info("track_total"), "");
    assert_eq!(player.current_song_info(""), "");
}

#[test]
fn cover_path_queue_lists_the_covers_in_order() {
    let mut with_cover = Song::new("A.mp3".to_string());
    with_cover.set_cover_path(Some("/cache/A.png".to_string()));
    let mut player = Player::new();
    player.add_to_queue(with_cover);
    player.add_to_queue(Song::new("B.mp3".to_string()));
    assert_eq!(player.cover_path_queue(), vec!["/cache/A.png".to_string(), String::new()]);
}

#[test]
fn half_volume_raised_by_eight_tenths_is_full_volume() {
    let mut player = Player::new();
    assert_eq!(f32::from(player.volume()) / 1000.0, 0.5);
    let by = (0.8f32 * 1000.0).round() as i32;
    assert_eq!(player.adjust_volume(by), TransportCommand::SetVolume(1000));
    assert_eq!(f32::from(player.volume()) / 1000.0, 1.0);
}
