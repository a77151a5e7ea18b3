use lamp::app::{App, Effect, Focus, InputMode, SavedPlaylists};
use lamp::clock::{poll_timeout, tick_due};
use lamp::keys::Key;
use lamp::path::SongPath;
use lamp::remote::{ExternalCommand, Playback, Repeat, SharedState};
use lamp::song::{contains_song, find_path, sort_by_title, Song, SongMetadata};
use lamp::sort::sort_names;

fn song(path: &str, title: &str, artist: &str, album: &str) -> Song {
    Song {
        path: SongPath { bytes: path.as_bytes().to_vec() },
        metadata: SongMetadata {
            title: title.to_string(),
            artist: artist.to_string(),
            album: album.to_string(),
        },
    }
}

fn plain(title: &str) -> Song {
    song(&format!("m/{title}.mp3"), title, "N/A", "N/A")
}

fn none() -> SavedPlaylists {
    SavedPlaylists { playlists: vec![] }
}

fn titles(list: &[Song]) -> Vec<String> {
    list.iter().map(|s| s.metadata.title.clone()).collect()
}

fn content(app: &App, name: &str) -> Vec<String> {
    titles(app.playlists.get(name).unwrap())
}

fn press(app: &mut App, keys: &str) -> Vec<Effect> {
    let mut last = vec![];
    for c in keys.chars() {
        let key = if c == '\n' { Key::Enter } else { Key::Char(c) };
        assert!(app.can_handle(key));
        last = app.handle_key(key, true);
    }
    last
}

fn three() -> App {
    App::new(vec![plain("c"), plain("a"), plain("b")], none())
}

#[test]
fn the_start() {
    let app = three();
    assert_eq!(titles(&app.library), ["a", "b", "c"]);
    assert_eq!(titles(&app.current_list), ["a", "b", "c"]);
    assert_eq!(app.library_selected, Some(0));
    assert_eq!(app.current_selected, Some(0));
    assert_eq!(app.playlist_selected, None);
    assert_eq!(app.content_selected, None);
    assert_eq!(app.active_playlist_name, "Library");
    assert_eq!(app.focus, Focus::Library);
    assert_eq!(app.input_mode, InputMode::Normal);
    assert!(!app.is_playing && !app.loop_mode && !app.shuffle_mode);
    assert!(app.playing_song.is_none() && app.current_index.is_none());
    let empty = App::new(vec![], none());
    assert_eq!((empty.library_selected, empty.current_selected), (None, None));
}

#[test]
fn sorting_by_title_is_stable() {
    let list = vec![
        song("1", "b", "x", "N/A"),
        song("2", "a", "x", "N/A"),
        song("3", "b", "y", "N/A"),
        song("4", "a", "y", "N/A"),
        song("5", "B", "z", "N/A"),
    ];
    let sorted = sort_by_title(list);
    let paths: Vec<String> =
        sorted.iter().map(|s| String::from_utf8(s.path.bytes.clone()).unwrap()).collect();
    assert_eq!(paths, ["5", "2", "4", "1", "3"]);
    let names = ["b", "", "B", "a", "b", "aa"];
    let got = sort_names(names.iter().map(|s| s.to_string()).collect());
    assert_eq!(got, ["", "B", "a", "aa", "b", "b"]);
}

#[test]
fn songs_are_the_same_by_path_and_metadata() {
    let a = song("m/./x.mp3", "t", "a", "b");
    assert!(a == song("m//x.mp3", "t", "a", "b"));
    assert!(a != song("m/x.mp3", "T", "a", "b"));
    assert!(a != song("m/y.mp3", "t", "a", "b"));
    let list = vec![song("q", "t", "a", "b"), song("m/x.mp3", "t", "a", "b")];
    assert!(contains_song(&list, &a));
    assert_eq!(find_path(&list, &a.path), Some(1));
    assert_eq!(find_path(&list, &plain("z").path), None);
}

#[test]
fn albums_get_playlists() {
    let x1 = song("1", "s1", "a", "X");
    let x2 = song("2", "s2", "a", "X");
    let saved = SavedPlaylists {
        playlists: vec![
            ("X".to_string(), vec![x2.clone()]),
            ("Mine".to_string(), vec![plain("p")]),
            ("Mine".to_string(), vec![plain("r")]),
        ],
    };
    let single = song("3", "s3", "a", "Single");
    let app = App::new(vec![x1, x2, single, plain("p"), song("4", "s4", "b", "Y")], saved);
    assert_eq!(app.playlist_names, ["Mine", "X", "Y"]);
    assert_eq!(content(&app, "X"), ["s2", "s1"]);
    assert_eq!(content(&app, "Y"), ["s4"]);
    assert_eq!(content(&app, "Mine"), ["r"]);
    assert!(app.playlists.get("Single").is_none());
    assert!(app.playlists.get("N/A").is_none());
    assert_eq!(app.playlist_selected, Some(0));
}

#[test]
fn what_is_saved_is_loaded() {
    let mut app = App::new(vec![song("1", "s1", "a", "X"), song("2", "s2", "a", "Y")], none());
    press(&mut app, "cMine\n");
    let saved = app.save_playlists();
    let names: Vec<&str> = saved.playlists.iter().map(|p| p.0.as_str()).collect();
    assert_eq!(names, ["Mine", "X", "Y"]);
    let again = App::new(vec![song("1", "s1", "a", "X"), song("2", "s2", "a", "Y")], saved);
    assert_eq!(again.playlist_names, app.playlist_names);
    for name in ["Mine", "X", "Y"] {
        assert_eq!(content(&again, name), content(&app, name));
    }
}

#[test]
fn playlists_are_made() {
    let mut app = three();
    assert_eq!(press(&mut app, "czoo\n"), [Effect::Save]);
    assert_eq!(press(&mut app, "cant\n"), [Effect::Save]);
    assert_eq!(app.playlist_names, ["ant", "zoo"]);
    assert_eq!(app.input, "");
    assert_eq!(press(&mut app, "czoo\n"), []);
    assert_eq!(press(&mut app, "c\n"), []);
    assert_eq!(app.playlist_names, ["ant", "zoo"]);
    assert_eq!(app.playlist_selected, None);
}

#[test]
fn playlists_are_renamed() {
    let mut app = three();
    press(&mut app, "cb\ncd\n");
    app.handle_key(Key::Tab, true);
    app.handle_key(Key::Tab, true);
    assert_eq!(app.focus, Focus::Playlists);
    app.handle_key(Key::Down, true);
    press(&mut app, "aa");
    app.switch_active_list();
    assert_eq!(app.active_playlist_name, "b");
    assert_eq!(press(&mut app, "rz\n"), [Effect::Save]);
    assert_eq!(app.playlist_names, ["d", "z"]);
    assert_eq!(app.active_playlist_name, "z");
    assert_eq!(app.playlist_selected, Some(0));
    assert_eq!(content(&app, "z"), ["a"]);
    assert!(app.playlists.get("b").is_none());
    assert_eq!(press(&mut app, "r\n"), []);
}

#[test]
fn a_name_that_is_taken_replaces_the_playlist() {
    let mut app = App::new(vec![song("1", "s1", "a", "A"), song("2", "s2", "a", "B")], none());
    app.focus = Focus::Playlists;
    assert_eq!(press(&mut app, "rB\n"), [Effect::Save]);
    assert_eq!(app.playlist_names, ["B", "B"]);
    assert_eq!(content(&app, "B"), ["s1"]);
    assert_eq!(app.save_playlists().playlists.len(), 1);
    assert_eq!(press(&mut app, "d"), [Effect::Save]);
    assert_eq!(app.playlist_names, ["B"]);
    assert!(app.playlists.get("B").is_none());
    assert_eq!(press(&mut app, "rC\n"), []);
}

#[test]
fn playlists_are_deleted() {
    let mut app = three();
    press(&mut app, "ca\ncb\ncc\n");
    app.focus = Focus::Playlists;
    press(&mut app, "jjj");
    assert_eq!(app.playlist_selected, Some(2));
    assert_eq!(press(&mut app, "d"), [Effect::Save]);
    assert_eq!(app.playlist_names, ["a", "b"]);
    assert_eq!(app.playlist_selected, Some(1));
    press(&mut app, "kd");
    assert_eq!((app.playlist_names.clone(), app.playlist_selected), (vec!["b".to_string()], Some(0)));
    press(&mut app, "d");
    assert_eq!(app.playlist_selected, None);
    assert_eq!(press(&mut app, "d"), []);
}

#[test]
fn a_playlist_that_is_made_and_deleted_leaves_nothing() {
    let mut app = App::new(vec![song("1", "s1", "a", "A"), song("2", "s2", "a", "C")], none());
    press(&mut app, "cB\n");
    assert_eq!(app.playlist_names, ["A", "B", "C"]);
    app.focus = Focus::Playlists;
    press(&mut app, "jd");
    assert_eq!(app.playlist_names, ["A", "C"]);
    assert!(app.playlists.get("B").is_none());
    assert_eq!((content(&app, "A"), content(&app, "C")), (vec!["s1".to_string()], vec!["s2".to_string()]));
}

#[test]
fn a_name_can_be_given_back() {
    let mut app = App::new(vec![song("1", "s1", "a", "A"), song("2", "s2", "a", "C")], none());
    app.focus = Focus::Playlists;
    app.switch_active_list();
    press(&mut app, "rZ\n");
    assert_eq!(app.playlist_names, ["C", "Z"]);
    press(&mut app, "jrA\n");
    assert_eq!(app.playlist_names, ["A", "C"]);
    assert_eq!(content(&app, "A"), ["s1"]);
    assert_eq!(app.active_playlist_name, "A");
}

#[test]
fn songs_are_added_once() {
    let mut app = three();
    press(&mut app, "cp\n");
    app.playlist_selected = Some(0);
    press(&mut app, "j");
    assert_eq!(press(&mut app, "a"), [Effect::Save]);
    assert_eq!(press(&mut app, "a"), []);
    assert_eq!(content(&app, "p"), ["b"]);
    assert_eq!(app.add_to_playlist("none", plain("a")), []);
}

#[test]
fn songs_are_moved() {
    let mut app = three();
    press(&mut app, "cp\n");
    app.playlist_selected = Some(0);
    press(&mut app, "ajaja");
    assert_eq!(content(&app, "p"), ["a", "b", "c"]);
    app.focus = Focus::PlaylistContent;
    app.content_selected = Some(1);
    assert_eq!(press(&mut app, "["), [Effect::Save]);
    assert_eq!(content(&app, "p"), ["b", "a", "c"]);
    assert_eq!(app.content_selected, Some(0));
    assert_eq!(press(&mut app, "["), []);
    assert_eq!(press(&mut app, "]"), [Effect::Save]);
    assert_eq!(content(&app, "p"), ["a", "b", "c"]);
    press(&mut app, "]");
    assert_eq!(content(&app, "p"), ["a", "c", "b"]);
    assert_eq!(press(&mut app, "]"), []);
    assert_eq!(titles(&app.current_list), ["a", "b", "c"]);
}

#[test]
fn a_move_in_the_active_playlist_follows_the_song() {
    let mut app = three();
    press(&mut app, "cp\n");
    app.playlist_selected = Some(0);
    press(&mut app, "ajaja");
    app.focus = Focus::PlaylistContent;
    app.content_selected = Some(1);
    assert_eq!(press(&mut app, "\n"), [Effect::Load(1)]);
    assert_eq!(app.song_loaded(1, true), [Effect::Publish]);
    press(&mut app, "[");
    assert_eq!(titles(&app.current_list), ["b", "a", "c"]);
    assert_eq!(app.current_index, Some(0));
    assert_eq!(app.playing_song.as_ref().unwrap().metadata.title, "b");
}

#[test]
fn keys_that_would_miss_are_told() {
    let mut app = three();
    press(&mut app, "cp\n");
    app.playlist_selected = Some(0);
    app.focus = Focus::PlaylistContent;
    app.content_selected = Some(3);
    assert!(!app.can_handle(Key::Enter));
    assert!(!app.can_handle(Key::Char('[')));
    assert!(!app.can_handle(Key::Char(']')));
    assert!(app.can_handle(Key::Char('n')));
    app.content_selected = Some(0);
    assert!(app.can_handle(Key::Char('[')));
    app.content_selected = None;
    assert!(app.can_handle(Key::Enter));
}

#[test]
fn next_and_previous_go_round() {
    let mut app = three();
    assert_eq!(app.next(), [Effect::Load(0)]);
    app.song_loaded(0, true);
    assert_eq!(app.previous(), [Effect::Load(2)]);
    assert_eq!(app.current_selected, Some(2));
    app.song_loaded(2, true);
    assert_eq!(app.playing_song.as_ref().unwrap().metadata.title, "c");
    assert_eq!(app.next(), [Effect::Load(0)]);
    assert_eq!(app.current_selected, Some(0));
    assert_eq!(app.song_loaded(0, false), []);
    assert_eq!(app.current_index, Some(2));
    assert_eq!(App::new(vec![], none()).next(), []);
    assert_eq!(App::new(vec![], none()).previous(), []);
    app.current_index = Some(9);
    assert_eq!(app.previous(), []);
    assert_eq!(app.current_selected, Some(8));
    assert_eq!(app.next(), [Effect::Load(1)]);
}

#[test]
fn pause_and_play() {
    let mut app = three();
    assert_eq!(press(&mut app, " "), [Effect::Load(0), Effect::Publish]);
    app.song_loaded(0, true);
    assert!(app.is_playing);
    assert_eq!(press(&mut app, " "), [Effect::Pause, Effect::Publish]);
    assert!(!app.is_playing);
    assert_eq!(press(&mut app, " "), [Effect::Resume, Effect::Publish]);
    assert!(app.is_playing);
    let mut idle = App::new(vec![], none());
    assert_eq!(idle.toggle_playback(true), [Effect::Publish]);
    assert_eq!(idle.toggle_playback(false), [Effect::Resume, Effect::Publish]);
}

#[test]
fn songs_follow_each_other() {
    let mut app = three();
    assert_eq!(app.update(true), []);
    app.song_loaded(1, true);
    assert_eq!(app.update(false), []);
    assert_eq!(app.update(true), [Effect::Load(2)]);
    assert_eq!(press(&mut app, "l"), [Effect::Publish]);
    assert_eq!(app.update(true), [Effect::Load(1)]);
    press(&mut app, "ll");
    assert!(app.loop_mode);
    app.current_index = None;
    assert_eq!(app.update(true), []);
}

#[test]
fn shuffling_keeps_the_songs_and_can_be_undone() {
    let library: Vec<Song> = (0..200).map(|i| plain(&format!("{i:03}"))).collect();
    let mut app = App::new(library, none());
    app.song_loaded(7, true);
    assert_eq!(press(&mut app, "s"), [Effect::Publish]);
    assert_ne!(titles(&app.current_list), titles(&app.library));
    let mut sorted = titles(&app.current_list);
    sorted.sort();
    assert_eq!(sorted, titles(&app.library));
    assert_eq!(app.current_list[app.current_index.unwrap()].metadata.title, "007");
    press(&mut app, "s");
    assert_eq!(titles(&app.current_list), titles(&app.library));
    assert_eq!(app.current_index, Some(7));
}

#[test]
fn a_playlist_becomes_active() {
    let mut app = App::new(vec![plain("a"), plain("b"), song("1", "s1", "a", "X")], none());
    app.song_loaded(1, true);
    app.focus = Focus::Playlists;
    assert_eq!(press(&mut app, "\n"), []);
    assert_eq!(app.active_playlist_name, "X");
    assert_eq!(titles(&app.current_list), ["s1"]);
    assert_eq!(app.current_selected, Some(0));
    assert_eq!(app.playing_song.as_ref().unwrap().metadata.title, "b");
    assert!(app.is_playing);
}

#[test]
fn a_switch_keeps_the_place_unless_the_list_holds_the_song() {
    let mut app = three();
    app.activate("none plays".to_string(), vec![plain("a")]);
    assert_eq!(app.current_index, None);
    app.reorder(vec![plain("a"), plain("b"), plain("c")]);
    app.song_loaded(2, true);
    app.activate("without".to_string(), vec![plain("x"), plain("y"), plain("z"), plain("w")]);
    assert_eq!(app.current_index, Some(2));
    assert_eq!(app.playing_song.as_ref().unwrap().metadata.title, "c");
    assert!(app.is_playing);
    assert_eq!(app.next(), [Effect::Load(3)]);
    app.reorder(vec![plain("y"), plain("x")]);
    assert_eq!(app.current_index, Some(2));
    app.activate("with".to_string(), vec![plain("q"), plain("c"), plain("c")]);
    assert_eq!(app.current_index, Some(1));
    app.stop();
    app.activate("stopped".to_string(), vec![plain("c")]);
    assert_eq!(app.current_index, Some(1));
    assert_eq!(app.current_selected, Some(0));
}

#[test]
fn a_shuffled_playlist_holds_the_same_songs() {
    let library: Vec<Song> = (0..200).map(|i| song(&format!("{i}"), &format!("{i:03}"), "a", "X")).collect();
    let mut app = App::new(library, none());
    press(&mut app, "s");
    app.focus = Focus::Playlists;
    press(&mut app, "\n");
    assert_eq!(app.active_playlist_name, "X");
    assert_ne!(titles(&app.current_list), content(&app, "X"));
    let mut sorted = titles(&app.current_list);
    sorted.sort();
    assert_eq!(sorted, content(&app, "X"));
}

#[test]
fn enter_plays_the_selected_song_of_the_library() {
    let mut app = three();
    assert_eq!(press(&mut app, "jj\n"), [Effect::Load(2)]);
    assert_eq!(app.current_selected, Some(2));
    assert_eq!(app.active_playlist_name, "Library");
    app.library_selected = None;
    assert_eq!(press(&mut app, "\n"), []);
    assert_eq!(app.play_from("n".to_string(), vec![plain("z")], &plain("a").path), []);
    assert_eq!(app.active_playlist_name, "n");
}

#[test]
fn the_search_narrows_the_library() {
    let mut app = App::new(
        vec![
            song("1", "Hello", "Adele", "N/A"),
            song("2", "Yellow", "Coldplay", "N/A"),
            song("3", "Viva", "COLDPLAY", "N/A"),
        ],
        none(),
    );
    assert_eq!(app.filtered_library(), [0, 1, 2]);
    press(&mut app, "/cold");
    assert_eq!(app.search_query, "cold");
    assert_eq!(app.filtered_library(), [1, 2]);
    press(&mut app, "\n");
    assert_eq!(app.input_mode, InputMode::Normal);
    assert_eq!(press(&mut app, "j\n"), [Effect::Load(2)]);
    press(&mut app, "/ELL");
    assert_eq!(app.filtered_library(), [0, 2]);
    app.handle_key(Key::Backspace, true);
    assert_eq!((app.input.as_str(), app.search_query.as_str()), ("EL", "EL"));
    app.handle_key(Key::Esc, true);
    assert_eq!(app.search_query, "");
    assert_eq!(app.input, "EL");
    assert_eq!(app.filtered_library().len(), 3);
}

#[test]
fn text_is_no_command() {
    let mut app = three();
    press(&mut app, "cqn s");
    assert_eq!(app.input, "qn s");
    assert_eq!(app.input_mode, InputMode::NamingPlaylist);
    app.handle_key(Key::Tab, true);
    app.handle_key(Key::Esc, true);
    assert_eq!(app.input_mode, InputMode::Normal);
    assert_eq!(app.focus, Focus::Library);
    assert_eq!(app.input, "qn s");
    app.input = String::new();
    app.input_mode = InputMode::NamingPlaylist;
    app.handle_key(Key::Backspace, true);
    assert_eq!(app.input, "");
}

#[test]
fn selections_go_round() {
    let mut app = three();
    press(&mut app, "k");
    assert_eq!(app.library_selected, Some(2));
    press(&mut app, "j");
    assert_eq!(app.library_selected, Some(0));
    app.handle_key(Key::Up, true);
    app.handle_key(Key::Down, true);
    assert_eq!(app.library_selected, Some(0));
    app.library_selected = None;
    press(&mut app, "k");
    assert_eq!(app.library_selected, Some(0));
    app.focus = Focus::PlaylistContent;
    press(&mut app, "jk");
    assert_eq!(app.content_selected, None);
    app.focus = Focus::Playlists;
    press(&mut app, "jk");
    assert_eq!(app.playlist_selected, None);
    press(&mut app, "cx\n");
    press(&mut app, "j");
    app.focus = Focus::Library;
    press(&mut app, "aja");
    app.focus = Focus::PlaylistContent;
    press(&mut app, "j");
    assert_eq!(app.content_selected, Some(0));
    press(&mut app, "k");
    assert_eq!(app.content_selected, Some(1));
    app.sync_selections(None, Some(1), None);
    assert_eq!((app.playlist_selected, app.library_selected, app.content_selected), (None, Some(1), None));
}

#[test]
fn the_tab_key_goes_round() {
    let mut app = three();
    let mut seen = vec![];
    for _ in 0..3 {
        app.handle_key(Key::Tab, true);
        seen.push(app.focus);
    }
    assert_eq!(seen, [Focus::PlaylistContent, Focus::Playlists, Focus::Library]);
}

#[test]
fn other_keys() {
    let mut app = three();
    assert_eq!(press(&mut app, "q"), [Effect::Quit]);
    assert_eq!(press(&mut app, "+"), [Effect::VolumeUp]);
    assert_eq!(press(&mut app, "="), [Effect::VolumeUp]);
    assert_eq!(press(&mut app, "-"), [Effect::VolumeDown]);
    assert_eq!(press(&mut app, "x"), []);
    assert_eq!(press(&mut app, "r"), []);
    assert_eq!(app.input_mode, InputMode::Normal);
    assert_eq!(press(&mut app, "d[]"), []);
    assert_eq!(app.handle_key(Key::Other, true), []);
    assert_eq!(press(&mut app, "n"), [Effect::Load(0)]);
    assert_eq!(press(&mut app, "p"), [Effect::Load(0)]);
    app.focus = Focus::Playlists;
    press(&mut app, "r");
    assert_eq!(app.input_mode, InputMode::RenamingPlaylist);
}

#[test]
fn commands_of_other_programs() {
    let mut app = three();
    assert_eq!(app.handle_command(ExternalCommand::Next, true), [Effect::Load(0)]);
    app.song_loaded(0, true);
    assert_eq!(app.handle_command(ExternalCommand::Previous, true), [Effect::Load(2)]);
    assert_eq!(app.handle_command(ExternalCommand::PlayPause, false), [Effect::Pause, Effect::Publish]);
    assert_eq!(app.handle_command(ExternalCommand::Stop, false), [Effect::Stop, Effect::Publish]);
    assert!(app.playing_song.is_none());
    assert_eq!(app.current_index, Some(0));
}

#[test]
fn what_other_programs_see() {
    let idle = SharedState::idle();
    assert_eq!((idle.playback(), idle.repeat()), (Playback::Paused, Repeat::Off));
    let nothing = idle.track();
    assert!(nothing.title.is_none() && nothing.artist.is_none() && nothing.album.is_none());
    assert_eq!(nothing.track_id, "/org/mpris/MediaPlayer2/Track/0");
    let mut app = App::new(vec![song("1", "t", "a", "b")], none());
    app.song_loaded(0, true);
    press(&mut app, "ls");
    let shared = app.sync_shared_state().clone();
    assert_eq!((shared.playback(), shared.repeat(), shared.shuffle_mode), (Playback::Playing, Repeat::Track, true));
    let track = shared.track();
    assert_eq!(track.title.as_deref(), Some("t"));
    assert_eq!(track.artist, Some(vec!["a".to_string()]));
    assert_eq!(track.album.as_deref(), Some("b"));
}

#[test]
fn the_clock() {
    assert_eq!(poll_timeout(0), 100_000_000);
    assert_eq!(poll_timeout(40_000_000), 60_000_000);
    assert_eq!(poll_timeout(100_000_000), 0);
    assert_eq!(poll_timeout(u128::MAX), 0);
    assert!(tick_due(100_000_000, false));
    assert!(!tick_due(99_999_999, false));
    assert!(!tick_due(100_000_000, true));
}

#[test]
fn the_screen() {
    let mut app = App::new(vec![song("1", "t", "a", "b"), song("2", "u", "c", "N/A")], none());
    let screen = app.screen();
    assert_eq!(screen.header, "Lightweight Audio Manager Panel, aka lamp");
    assert_eq!(screen.library, ["a - t (b)", "c - u (N/A)"]);
    assert_eq!(screen.playlists.len(), 1);
    assert_eq!((screen.playlists[0].name.as_str(), screen.playlists[0].active), ("b", false));
    assert_eq!(screen.content_title, " Content: b ");
    assert_eq!(screen.content, ["a - t"]);
    assert_eq!(screen.playing, "None");
    assert_eq!(screen.active, "Library");
    assert_eq!((screen.loop_mode.as_str(), screen.shuffle_mode.as_str()), ("OFF", "OFF"));
    assert_eq!(screen.status, "⏸ Paused");
    app.switch_active_list();
    app.song_loaded(0, true);
    press(&mut app, "l/T");
    let screen = app.screen();
    assert_eq!(screen.header, "Search Library: T_");
    assert_eq!(screen.library, ["a - t (b)"]);
    assert!(screen.playlists[0].active);
    assert_eq!(screen.playing, "a - t");
    assert_eq!(screen.loop_mode, "ON");
    assert_eq!(screen.status, "▶ Playing");
    app.input_mode = InputMode::NamingPlaylist;
    assert_eq!(app.header(), "New Playlist: T_");
    app.input_mode = InputMode::RenamingPlaylist;
    assert_eq!(app.header(), "Rename Playlist: T_");
    app.playlist_selected = None;
    let screen = app.screen();
    assert_eq!(screen.content_title, " Playlist Content ");
    assert!(screen.content.is_empty());
}
