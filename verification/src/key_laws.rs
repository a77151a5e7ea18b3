//! What holds of the keys, and of what is shown.

use crate::app::{AppView, Effect, Focus, InputMode};
use crate::keys::Key;
use crate::path::components;
use crate::playback::same_songs;
use crate::playback_laws::{
    is_first_of_path, lacks_path, lemma_play_from_the_song, lemma_same_songs,
    lemma_switch_to_selected, place_follows,
};
use crate::playlist_laws::{in_order, lemma_create_makes_an_empty_playlist};
use crate::playlist_laws::{lemma_rename_keeps_the_songs, others_kept};
use crate::search::lemma_filtered;
use crate::song::SongView;
use vstd::prelude::*;

verus! {

// The panes.

/// The tab key takes the keys from the playlists to the library, from there to the content of the
/// playlist, and from there to the playlists, and changes nothing else.
pub proof fn lemma_tab_order(app: AppView, empty: bool, order: Seq<SongView>)
    requires
        app.input_mode == InputMode::Normal,
    ensures
        ({
            let (next, effects) = app.handle_key(Key::Tab, empty, order);
            &&& app.focus == Focus::Playlists ==> next.focus == Focus::Library
            &&& app.focus == Focus::Library ==> next.focus == Focus::PlaylistContent
            &&& app.focus == Focus::PlaylistContent ==> next.focus == Focus::Playlists
            &&& next == (AppView { focus: next.focus, ..app })
            &&& effects.len() == 0
        }),
{
}

/// A selection has gone down by one in a list of so many rows, from the last to the first, or up by
/// one, from the first to the last. Where none was selected the first is, and in a list without rows
/// nothing changes.
pub open spec fn moved_by_one(
    before: Option<usize>,
    after: Option<usize>,
    rows: nat,
    down: bool,
) -> bool {
    match before {
        Some(i) => {
            &&& rows == 0 ==> after == before
            &&& rows > 0 && down && i + 1 < rows ==> after == Some((i + 1) as usize)
            &&& rows > 0 && down && i + 1 == rows ==> after == Some(0usize)
            &&& rows > 0 && down && i + 1 > rows ==> after == Some(((i + 1) % rows as int) as usize)
            &&& rows > 0 && !down && i > 0 ==> after == Some((i - 1) as usize)
            &&& rows > 0 && !down && i == 0 ==> after == Some((rows - 1) as usize)
        },
        None => if rows > 0 {
            after == Some(0usize)
        } else {
            after is None
        },
    }
}

proof fn lemma_rows_moved(i: usize, rows: nat)
    requires
        0 < rows <= usize::MAX,
    ensures
        i + 1 < rows ==> (i + 1) % rows as int == i + 1,
        i + 1 == rows ==> (i + 1) % rows as int == 0,
{
    if i + 1 < rows {
        vstd::arithmetic::div_mod::lemma_small_mod((i + 1) as nat, rows);
    } else if i + 1 == rows {
        vstd::arithmetic::div_mod::lemma_mod_self_0(rows as int);
    }
}

proof fn lemma_selection(app: AppView, down: bool)
    requires
        app.playlist_selected matches Some(p) ==> p < app.playlist_names.len(),
        app.playlist_names.len() <= usize::MAX,
        app.filtered().len() <= usize::MAX,
        forall|k: Seq<char>| #[trigger]
            app.playlists.contains_key(k) ==> app.playlists[k].len() <= usize::MAX,
    ensures
        ({
            let next = if down {
                app.select_down()
            } else {
                app.select_up()
            };
            let name = app.playlist_names[app.playlist_selected->0 as int];
            let content = if app.playlist_selected is Some && app.playlists.contains_key(name) {
                app.playlists[name].len()
            } else {
                0
            };
            &&& app.focus == Focus::Library ==> moved_by_one(
                app.library_selected,
                next.library_selected,
                app.filtered().len(),
                down,
            ) && next == (AppView { library_selected: next.library_selected, ..app })
            &&& app.focus == Focus::Playlists ==> moved_by_one(
                app.playlist_selected,
                next.playlist_selected,
                app.playlist_names.len(),
                down,
            ) && next == (AppView { playlist_selected: next.playlist_selected, ..app })
            &&& app.focus == Focus::PlaylistContent ==> moved_by_one(
                app.content_selected,
                next.content_selected,
                content,
                down,
            ) && next == (AppView { content_selected: next.content_selected, ..app })
        }),
{
    let rows = app.rows();
    if rows > 0 {
        if let Some(i) = app.selected() {
            if app.focus == Focus::PlaylistContent {
                assert(app.playlists.contains_key(app.selected_name()->0));
            }
            lemma_rows_moved(i, rows);
        }
    }
}

/// Down and up, or `j` and `k`, move the selection of the pane that the keys go to by one row, round
/// its ends: in the library among the songs that the search shows, in the playlists among their
/// names, in the content among the songs of the selected playlist. Nothing else changes.
pub proof fn lemma_keys_move_the_selection(
    app: AppView,
    key: Key,
    down: bool,
    empty: bool,
    order: Seq<SongView>,
)
    requires
        app.input_mode == InputMode::Normal,
        down ==> key == Key::Down || key == Key::Char('j'),
        !down ==> key == Key::Up || key == Key::Char('k'),
        app.playlist_selected matches Some(p) ==> p < app.playlist_names.len(),
        app.playlist_names.len() <= usize::MAX,
        app.filtered().len() <= usize::MAX,
        forall|k: Seq<char>| #[trigger]
            app.playlists.contains_key(k) ==> app.playlists[k].len() <= usize::MAX,
    ensures
        ({
            let (next, effects) = app.handle_key(key, empty, order);
            let name = app.playlist_names[app.playlist_selected->0 as int];
            let content = if app.playlist_selected is Some && app.playlists.contains_key(name) {
                app.playlists[name].len()
            } else {
                0
            };
            &&& effects.len() == 0
            &&& app.focus == Focus::Library ==> moved_by_one(
                app.library_selected,
                next.library_selected,
                app.filtered().len(),
                down,
            ) && next == (AppView { library_selected: next.library_selected, ..app })
            &&& app.focus == Focus::Playlists ==> moved_by_one(
                app.playlist_selected,
                next.playlist_selected,
                app.playlist_names.len(),
                down,
            ) && next == (AppView { playlist_selected: next.playlist_selected, ..app })
            &&& app.focus == Focus::PlaylistContent ==> moved_by_one(
                app.content_selected,
                next.content_selected,
                content,
                down,
            ) && next == (AppView { content_selected: next.content_selected, ..app })
        }),
{
    lemma_selection(app, down);
}

// The enter key.

/// The enter key in the library plays the song that is selected among those that the search shows:
/// that song is loaded, wherever in the order it stands, and selected. The whole library becomes the
/// current list, as it stands or, in shuffle mode, in the order that chance chose. Where no song is
/// selected nothing changes.
pub proof fn lemma_enter_plays_the_library_song(app: AppView, empty: bool, order: Seq<SongView>)
    requires
        app.input_mode == InputMode::Normal,
        app.focus == Focus::Library,
        app.library.len() <= usize::MAX,
        app.shuffle_mode ==> same_songs(order, app.library),
    ensures
        ({
            let (next, effects) = app.handle_key(Key::Enter, empty, order);
            let i = app.library_selected->0;
            let chosen = app.library_selected is Some && i < app.filtered().len();
            &&& !chosen ==> next == app && effects.len() == 0
            &&& chosen ==> {
                &&& next.current_selected is Some
                &&& effects == seq![Effect::Load(next.current_selected->0)]
                &&& is_first_of_path(
                    next.current_list,
                    app.filtered()[i as int].path,
                    next.current_selected->0 as int,
                )
                &&& app.shuffle_mode ==> next.current_list == order
                &&& !app.shuffle_mode ==> next.current_list == app.library
                &&& next.active_playlist_name == "Library"@
                &&& next == (AppView {
                    current_list: next.current_list,
                    active_playlist_name: next.active_playlist_name,
                    current_selected: next.current_selected,
                    ..app
                })
            }
        }),
{
    if let Some(i) = app.library_selected {
        if i < app.filtered().len() {
            let song = app.filtered()[i as int];
            lemma_filtered(app, song);
            assert(app.filtered().contains(song));
            let list = if app.shuffle_mode {
                order
            } else {
                app.library
            };
            lemma_same_songs(order, app.library);
            lemma_same_songs(app.library, order);
            assert(list.contains(song));
            let at = list.index_of(song);
            assert(components(list[at].path) == components(song.path));
            assert(!lacks_path(list, song.path));
            lemma_play_from_the_song(app, "Library"@, list, song.path);
        }
    }
}

/// The enter key in the content of a playlist plays the song that is selected there: that song is
/// loaded, wherever in the order it stands, and selected. The playlist becomes the current list, as
/// it stands or, in shuffle mode, in the order that chance chose, and the active one. Where no song
/// or no playlist is selected nothing changes.
pub proof fn lemma_enter_plays_the_playlist_song(app: AppView, empty: bool, order: Seq<SongView>)
    requires
        app.input_mode == InputMode::Normal,
        app.focus == Focus::PlaylistContent,
        app.playlist_selected matches Some(p) ==> p < app.playlist_names.len(),
        app.key_is_safe(Key::Enter),
        forall|k: Seq<char>| #[trigger]
            app.playlists.contains_key(k) ==> app.playlists[k].len() <= usize::MAX,
        app.shuffle_mode && app.playlist_selected is Some ==> same_songs(
            order,
            app.playlists[app.playlist_names[app.playlist_selected->0 as int]],
        ),
    ensures
        ({
            let (next, effects) = app.handle_key(Key::Enter, empty, order);
            let name = app.playlist_names[app.playlist_selected->0 as int];
            let songs = app.playlists[name];
            let c = app.content_selected->0;
            let chosen = app.playlist_selected is Some && app.content_selected is Some
                && app.playlists.contains_key(name);
            &&& !chosen ==> next == app && effects.len() == 0
            &&& chosen ==> {
                &&& c < songs.len()
                &&& next.current_selected is Some
                &&& effects == seq![Effect::Load(next.current_selected->0)]
                &&& is_first_of_path(
                    next.current_list,
                    songs[c as int].path,
                    next.current_selected->0 as int,
                )
                &&& app.shuffle_mode ==> next.current_list == order
                &&& !app.shuffle_mode ==> next.current_list == songs
                &&& next.active_playlist_name == name
                &&& next == (AppView {
                    current_list: next.current_list,
                    active_playlist_name: next.active_playlist_name,
                    current_selected: next.current_selected,
                    ..app
                })
            }
        }),
{
    if let (Some(p), Some(c)) = (app.playlist_selected, app.content_selected) {
        let name = app.playlist_names[p as int];
        if app.playlists.contains_key(name) {
            let songs = app.playlists[name];
            let song = songs[c as int];
            assert(songs.contains(song));
            let list = if app.shuffle_mode {
                order
            } else {
                songs
            };
            lemma_same_songs(order, songs);
            lemma_same_songs(songs, order);
            assert(list.contains(song));
            let at = list.index_of(song);
            assert(components(list[at].path) == components(song.path));
            assert(!lacks_path(list, song.path));
            lemma_play_from_the_song(app, name, list, song.path);
        }
    }
}

/// The enter key in the playlists makes the selected one the current list and the active one, and
/// loads nothing; where none is selected nothing changes.
pub proof fn lemma_enter_switches_to_the_playlist(app: AppView, empty: bool, order: Seq<SongView>)
    requires
        app.input_mode == InputMode::Normal,
        app.focus == Focus::Playlists,
        app.playlist_selected matches Some(p) ==> p < app.playlist_names.len(),
        order.len() <= usize::MAX,
        forall|k: Seq<char>| #[trigger]
            app.playlists.contains_key(k) ==> app.playlists[k].len() <= usize::MAX,
    ensures
        ({
            let (next, effects) = app.handle_key(Key::Enter, empty, order);
            let name = app.playlist_names[app.playlist_selected->0 as int];
            let chosen = app.playlist_selected is Some && app.playlists.contains_key(name);
            &&& effects.len() == 0
            &&& !chosen ==> next == app
            &&& chosen ==> {
                &&& app.shuffle_mode ==> next.current_list == order
                &&& !app.shuffle_mode ==> next.current_list == app.playlists[name]
                &&& next.active_playlist_name == name
                &&& next.current_selected == Some(0usize)
                &&& place_follows(app, next)
                &&& next == (AppView {
                    current_list: next.current_list,
                    active_playlist_name: next.active_playlist_name,
                    current_selected: next.current_selected,
                    current_index: next.current_index,
                    ..app
                })
            }
        }),
{
    lemma_switch_to_selected(app, order);
}

/// What chance may put in an order: the library or the playlist that the enter key makes the current
/// list, and the current list when shuffling is turned on. No other key leaves an order to chance.
pub proof fn lemma_what_chance_may_order(app: AppView, key: Key)
    requires
        app.playlist_selected matches Some(p) ==> p < app.playlist_names.len(),
    ensures
        ({
            let name = app.playlist_names[app.playlist_selected->0 as int];
            let playlist = app.playlist_selected is Some && app.playlists.contains_key(name);
            let normal = app.input_mode == InputMode::Normal;
            &&& !normal ==> app.ordered_by(key) is None
            &&& normal && key == Key::Enter && app.focus == Focus::Library ==> app.ordered_by(key)
                == if app.library_selected is Some && app.library_selected->0
                < app.filtered().len() {
                Some(app.library)
            } else {
                None
            }
            &&& normal && key == Key::Enter && app.focus == Focus::Playlists ==> app.ordered_by(key)
                == if playlist {
                Some(app.playlists[name])
            } else {
                None
            }
            &&& normal && key == Key::Enter && app.focus == Focus::PlaylistContent
                ==> app.ordered_by(key) == if playlist && app.content_selected is Some {
                Some(app.playlists[name])
            } else {
                None
            }
            &&& normal && key == Key::Char('s') ==> app.ordered_by(key) == if app.shuffle_mode {
                None
            } else {
                Some(app.current_list)
            }
            &&& normal && key != Key::Enter && key != Key::Char('s') ==> app.ordered_by(key) is None
        }),
{
}

/// The only keys that cannot be handled are those that go to a song that is not in the selected
/// playlist: enter beyond its end, a move up beyond its end, and a move down in an empty one.
pub proof fn lemma_which_keys_are_safe(app: AppView, key: Key)
    requires
        app.playlist_selected matches Some(p) ==> p < app.playlist_names.len(),
    ensures
        ({
            let name = app.playlist_names[app.playlist_selected->0 as int];
            let len = app.playlists[name].len();
            let c = app.content_selected->0;
            let at_content = app.input_mode == InputMode::Normal && app.focus
                == Focus::PlaylistContent && app.playlist_selected is Some
                && app.playlists.contains_key(name) && app.content_selected is Some;
            let misses = at_content && (key == Key::Enter && c >= len || key == Key::Char('[') && c
                > 0 && c >= len || key == Key::Char(']') && len == 0);
            app.key_is_safe(key) <==> !misses
        }),
{
}

// The commands.

/// While no text is typed each key does one thing: these are the operations of the keys.
pub proof fn lemma_what_the_keys_do(app: AppView, empty: bool, order: Seq<SongView>)
    requires
        app.input_mode == InputMode::Normal,
    ensures
        app.handle_key(Key::Char(' '), empty, order) == app.toggle_playback(empty),
        app.handle_key(Key::Char('n'), empty, order) == app.next(),
        app.handle_key(Key::Char('p'), empty, order) == app.previous(),
        app.handle_key(Key::Char('l'), empty, order) == app.toggle_loop(),
        app.handle_key(Key::Char('s'), empty, order) == app.toggle_shuffle(order),
        app.handle_key(Key::Char('a'), empty, order) == app.add_selected(),
        app.focus == Focus::Playlists ==> app.handle_key(Key::Char('d'), empty, order)
            == app.delete_selected_playlist(),
        app.focus == Focus::PlaylistContent ==> app.handle_key(Key::Char('['), empty, order)
            == app.move_song_in_playlist(true),
        app.focus == Focus::PlaylistContent ==> app.handle_key(Key::Char(']'), empty, order)
            == app.move_song_in_playlist(false),
        app.handle_key(Key::Char('q'), empty, order) == (app, seq![Effect::Quit]),
        app.handle_key(Key::Char('+'), empty, order) == (app, seq![Effect::VolumeUp]),
        app.handle_key(Key::Char('='), empty, order) == (app, seq![Effect::VolumeUp]),
        app.handle_key(Key::Char('-'), empty, order) == (app, seq![Effect::VolumeDown]),
{
}

/// Any other key does nothing while no text is typed, nor do the keys of the playlists in another
/// pane.
pub proof fn lemma_other_keys_do_nothing(app: AppView, key: Key, empty: bool, order: Seq<SongView>)
    requires
        app.input_mode == InputMode::Normal,
        match key {
            Key::Char(c) => {
                ||| (c == 'r' || c == 'd') && app.focus != Focus::Playlists
                ||| (c == '[' || c == ']') && app.focus != Focus::PlaylistContent
                ||| !(" qjknplsadcr/+=-[]"@.contains(c))
            },
            Key::Esc | Key::Backspace | Key::Other => true,
            _ => false,
        },
    ensures
        app.handle_key(key, empty, order).0 == app,
        app.handle_key(key, empty, order).1.len() == 0,
{
    reveal_strlit(" qjknplsadcr/+=-[]");
    let all = " qjknplsadcr/+=-[]"@;
    assert(all[0] == ' ' && all[1] == 'q' && all[2] == 'j' && all[3] == 'k' && all[4] == 'n'
        && all[5] == 'p' && all[6] == 'l' && all[7] == 's' && all[8] == 'a' && all[9] == 'd'
        && all[10] == 'c' && all[11] == 'r' && all[12] == '/' && all[13] == '+' && all[14] == '='
        && all[15] == '-' && all[16] == '[' && all[17] == ']');
}

// Typing.

/// The slash starts a search anew, `c` a name for a new playlist, and in the playlists `r` one for
/// the selected; text that was left from before stays for a name. Nothing else changes.
pub proof fn lemma_keys_that_start_typing(app: AppView, empty: bool, order: Seq<SongView>)
    requires
        app.input_mode == InputMode::Normal,
    ensures
        ({
            let (next, effects) = app.handle_key(Key::Char('/'), empty, order);
            &&& next.input.len() == 0
            &&& next.search_query.len() == 0
            &&& next == (AppView {
                input_mode: InputMode::Searching,
                input: next.input,
                search_query: next.search_query,
                ..app
            })
            &&& effects.len() == 0
        }),
        app.handle_key(Key::Char('c'), empty, order).0 == (AppView {
            input_mode: InputMode::NamingPlaylist,
            ..app
        }),
        app.handle_key(Key::Char('c'), empty, order).1.len() == 0,
        app.focus == Focus::Playlists ==> app.handle_key(Key::Char('r'), empty, order).0 == (
        AppView { input_mode: InputMode::RenamingPlaylist, ..app }),
        app.handle_key(Key::Char('r'), empty, order).1.len() == 0,
{
}

/// Backspace takes the last character of the text away, so that typing it again gives the text that
/// was; a search follows. Nothing else changes.
pub proof fn lemma_backspace_untypes(app: AppView, empty: bool, order: Seq<SongView>)
    requires
        app.input_mode != InputMode::Normal,
    ensures
        ({
            let (next, effects) = app.handle_key(Key::Backspace, empty, order);
            &&& app.input.len() == 0 ==> next.input.len() == 0
            &&& app.input.len() > 0 ==> next.input.push(app.input.last()) == app.input
            &&& app.input_mode == InputMode::Searching ==> next.search_query == next.input
            &&& app.input_mode != InputMode::Searching ==> next.search_query == app.search_query
            &&& next == (AppView { input: next.input, search_query: next.search_query, ..app })
            &&& effects.len() == 0
        }),
{
    let next = app.handle_key(Key::Backspace, empty, order).0;
    if app.input.len() > 0 {
        assert(next.input.push(app.input.last()) =~= app.input);
    }
}

/// A character that is typed and taken away again leaves all as it was, if the search followed the
/// text.
pub proof fn lemma_type_and_untype(app: AppView, c: char, empty: bool, order: Seq<SongView>)
    requires
        app.input_mode != InputMode::Normal,
        app.input_mode == InputMode::Searching ==> app.search_query == app.input,
    ensures
        app.handle_key(Key::Char(c), empty, order).0.handle_key(Key::Backspace, empty, order).0
            == app,
{
    assert(app.input.push(c).drop_last() =~= app.input);
}

/// Escape ends typing and leaves the text; a search is given up with it, and shows the whole library
/// again. Nothing else changes.
pub proof fn lemma_escape_gives_up(app: AppView, empty: bool, order: Seq<SongView>)
    requires
        app.input_mode != InputMode::Normal,
    ensures
        ({
            let (next, effects) = app.handle_key(Key::Esc, empty, order);
            &&& app.input_mode == InputMode::Searching ==> next.search_query.len() == 0
            &&& app.input_mode != InputMode::Searching ==> next.search_query == app.search_query
            &&& next == (AppView {
                input_mode: InputMode::Normal,
                search_query: next.search_query,
                ..app
            })
            &&& effects.len() == 0
        }),
{
}

/// Enter ends a search and keeps it.
pub proof fn lemma_enter_keeps_the_search(app: AppView, empty: bool, order: Seq<SongView>)
    requires
        app.input_mode == InputMode::Searching,
    ensures
        app.handle_key(Key::Enter, empty, order).0 == (AppView {
            input_mode: InputMode::Normal,
            ..app
        }),
        app.handle_key(Key::Enter, empty, order).1.len() == 0,
{
}

/// Enter after the name of a new playlist makes an empty playlist of just that name, unless the name
/// is empty or taken, and saves it. The text is used up, and typing ends.
pub proof fn lemma_enter_makes_the_playlist(app: AppView, empty: bool, order: Seq<SongView>)
    requires
        app.input_mode == InputMode::NamingPlaylist,
    ensures
        ({
            let (next, effects) = app.handle_key(Key::Enter, empty, order);
            let name = app.input;
            let makes = name.len() > 0 && !app.playlists.contains_key(name);
            &&& next.input.len() == 0
            &&& !makes ==> effects.len() == 0 && next.playlists == app.playlists
                && next.playlist_names == app.playlist_names
            &&& makes ==> {
                &&& effects == seq![Effect::Save]
                &&& next.playlists.contains_key(name)
                &&& next.playlists[name].len() == 0
                &&& others_kept(app.playlists, next.playlists, name)
                &&& next.playlist_names.to_multiset() == app.playlist_names.to_multiset().insert(
                    name,
                )
                &&& in_order(next.playlist_names)
            }
            &&& next == (AppView {
                input_mode: InputMode::Normal,
                input: next.input,
                playlists: next.playlists,
                playlist_names: next.playlist_names,
                ..app
            })
        }),
{
    let taken = AppView { input: seq![], input_mode: InputMode::Normal, ..app };
    lemma_create_makes_an_empty_playlist(taken, app.input);
}

/// Enter after a new name gives just that name to the selected playlist, unless the name is empty,
/// and saves it. The text is used up, and typing ends.
pub proof fn lemma_enter_renames_the_playlist(app: AppView, empty: bool, order: Seq<SongView>)
    requires
        app.input_mode == InputMode::RenamingPlaylist,
        app.playlist_selected matches Some(p) ==> p < app.playlist_names.len(),
    ensures
        ({
            let (next, effects) = app.handle_key(Key::Enter, empty, order);
            let old_name = app.playlist_names[app.playlist_selected->0 as int];
            let name = app.input;
            let renames = name.len() > 0 && app.playlist_selected is Some
                && app.playlists.contains_key(old_name);
            &&& next.input.len() == 0
            &&& !renames ==> effects.len() == 0 && next.playlists == app.playlists
                && next.playlist_names == app.playlist_names && next.active_playlist_name
                == app.active_playlist_name
            &&& renames ==> {
                &&& effects == seq![Effect::Save]
                &&& next.playlists.contains_key(name)
                &&& next.playlists[name] == app.playlists[old_name]
                &&& old_name != name ==> !next.playlists.contains_key(old_name)
                &&& forall|k: Seq<char>|
                    k != old_name && k != name ==> (#[trigger] next.playlists.contains_key(k)
                        <==> app.playlists.contains_key(k)) && (app.playlists.contains_key(k)
                        ==> next.playlists[k] == app.playlists[k])
                &&& next.playlist_names.to_multiset() == app.playlist_names.to_multiset().remove(
                    old_name,
                ).insert(name)
                &&& in_order(next.playlist_names)
                &&& app.active_playlist_name == old_name ==> next.active_playlist_name == name
                &&& app.active_playlist_name != old_name ==> next.active_playlist_name
                    == app.active_playlist_name
            }
            &&& next == (AppView {
                input_mode: InputMode::Normal,
                input: next.input,
                playlists: next.playlists,
                playlist_names: next.playlist_names,
                active_playlist_name: next.active_playlist_name,
                ..app
            })
        }),
{
    let taken = AppView { input: seq![], input_mode: InputMode::Normal, ..app };
    lemma_rename_keeps_the_songs(taken, app.input);
}

/// The other keys do nothing while text is typed, if the search followed the text.
pub proof fn lemma_other_keys_do_not_type(
    app: AppView,
    key: Key,
    empty: bool,
    order: Seq<SongView>,
)
    requires
        app.input_mode != InputMode::Normal,
        app.input_mode == InputMode::Searching ==> app.search_query == app.input,
        key == Key::Tab || key == Key::Up || key == Key::Down || key == Key::Other,
    ensures
        app.handle_key(key, empty, order).0 == app,
        app.handle_key(key, empty, order).1.len() == 0,
{
}

// What is shown.

/// The head line shows the text being typed behind what it is for, and before a mark; while nothing
/// is typed it shows the name of the player.
pub proof fn lemma_header(app: AppView)
    ensures
        app.input_mode == InputMode::NamingPlaylist ==> app.screen().header == "New Playlist: "@
            + app.input + "_"@,
        app.input_mode == InputMode::RenamingPlaylist ==> app.screen().header == "Rename Playlist: "@
            + app.input + "_"@,
        app.input_mode == InputMode::Searching ==> app.screen().header == "Search Library: "@
            + app.input + "_"@,
        app.input_mode == InputMode::Normal ==> app.screen().header
            == "Lightweight Audio Manager Panel, aka lamp"@,
        app.screen().header == app.header(),
{
}

/// The panes show, row by row, what their lists hold: the names of the playlists, the active one
/// marked; of the songs that the search shows the artist, the title and the album; of the songs of
/// the selected playlist the artist and the title, under its name.
pub proof fn lemma_panes_show_their_lists(app: AppView)
    requires
        app.playlist_selected matches Some(p) ==> p < app.playlist_names.len(),
    ensures
        ({
            let screen = app.screen();
            let name = app.playlist_names[app.playlist_selected->0 as int];
            &&& screen.playlists.len() == app.playlist_names.len()
            &&& forall|i: int|
                0 <= i < app.playlist_names.len() ==> (#[trigger] screen.playlists[i]).name
                    == app.playlist_names[i] && (screen.playlists[i].active
                    <==> app.active_playlist_name == app.playlist_names[i])
            &&& screen.library.len() == app.filtered().len()
            &&& forall|i: int|
                0 <= i < app.filtered().len() ==> #[trigger] screen.library[i]
                    == app.filtered()[i].metadata.artist + " - "@ + app.filtered()[i].metadata.title
                    + " ("@ + app.filtered()[i].metadata.album + ")"@
            &&& app.playlist_selected is None ==> screen.content_title == " Playlist Content "@
            &&& app.playlist_selected is Some ==> screen.content_title == " Content: "@ + name
                + " "@
            &&& app.playlist_selected is None || !app.playlists.contains_key(name)
                ==> screen.content.len() == 0
            &&& app.playlist_selected is Some && app.playlists.contains_key(name) ==> {
                &&& screen.content.len() == app.playlists[name].len()
                &&& forall|i: int|
                    0 <= i < app.playlists[name].len() ==> #[trigger] screen.content[i]
                        == app.playlists[name][i].metadata.artist + " - "@
                        + app.playlists[name][i].metadata.title
            }
        }),
{
}

/// The status line shows artist and title of the song that plays, or that there is none, the active
/// name, the two modes, and whether the player plays.
pub proof fn lemma_status_line(app: AppView)
    ensures
        match app.playing_song {
            Some(song) => app.screen().playing == song.metadata.artist + " - "@
                + song.metadata.title,
            None => app.screen().playing == "None"@,
        },
        app.screen().active == app.active_playlist_name,
        app.loop_mode ==> app.screen().loop_mode == "ON"@,
        !app.loop_mode ==> app.screen().loop_mode == "OFF"@,
        app.shuffle_mode ==> app.screen().shuffle_mode == "ON"@,
        !app.shuffle_mode ==> app.screen().shuffle_mode == "OFF"@,
        app.is_playing ==> app.screen().status == "▶ Playing"@,
        !app.is_playing ==> app.screen().status == "⏸ Paused"@,
{
}

} // verus!
