//! What holds of playing.

use crate::app::{AppView, Effect};
use crate::path::components;
use crate::playback::same_songs;
use crate::remote::{ExternalCommand, Playback, Repeat};
use crate::song::{lemma_position_of, SongView};
use vstd::prelude::*;

verus! {

/// Two lists count as the same songs exactly if each song is in the one as often as in the other.
pub proof fn lemma_same_songs(a: Seq<SongView>, b: Seq<SongView>)
    ensures
        same_songs(a, b) <==> forall|song: SongView| #[trigger]
            a.to_multiset().count(song) == b.to_multiset().count(song),
        same_songs(a, b) ==> a.len() == b.len(),
        same_songs(a, b) ==> forall|song: SongView| #[trigger] a.contains(song) ==> b.contains(song),
{
    if forall|song: SongView| #[trigger]
        a.to_multiset().count(song) == b.to_multiset().count(song) {
        assert(a.to_multiset() =~= b.to_multiset());
    }
    vstd::seq_lib::to_multiset_len(a);
    vstd::seq_lib::to_multiset_len(b);
    if same_songs(a, b) {
        assert forall|song: SongView| #[trigger] a.contains(song) implies b.contains(song) by {
            vstd::seq_lib::to_multiset_contains(a, song);
            vstd::seq_lib::to_multiset_contains(b, song);
        }
    }
}

/// The place is that of the first song of the list with the path.
pub open spec fn is_first_of_path(list: Seq<SongView>, path: Seq<u8>, i: int) -> bool {
    &&& 0 <= i < list.len()
    &&& components(list[i].path) == components(path)
    &&& forall|k: int| 0 <= k < i ==> components((#[trigger] list[k]).path) != components(path)
}

/// No song of the list has the path.
pub open spec fn lacks_path(list: Seq<SongView>, path: Seq<u8>) -> bool {
    forall|k: int| 0 <= k < list.len() ==> components((#[trigger] list[k]).path) != components(path)
}

/// The place in the list has gone to the song that plays, where the list holds it, and else has
/// stayed as it was.
pub open spec fn place_follows(before: AppView, after: AppView) -> bool {
    match before.playing_song {
        Some(song) => {
            &&& lacks_path(after.current_list, song.path) ==> after.current_index
                == before.current_index
            &&& !lacks_path(after.current_list, song.path) ==> after.current_index is Some
                && is_first_of_path(after.current_list, song.path, after.current_index->0 as int)
        },
        None => after.current_index == before.current_index,
    }
}

/// Following the song that plays changes at most the place in the current list.
pub proof fn lemma_follow(app: AppView)
    requires
        app.current_list.len() <= usize::MAX,
    ensures
        place_follows(app, app.follow_playing()),
        app.follow_playing() == (AppView {
            current_index: app.follow_playing().current_index,
            ..app
        }),
{
    if let Some(song) = app.playing_song {
        lemma_position_of(app.current_list, song.path);
    }
}

/// A place of the current list that is to be played is loaded, and nothing else is done; a place
/// that is not there is not.
pub proof fn lemma_play_loads_the_place(app: AppView, i: usize)
    ensures
        i < app.current_list.len() ==> app.play_index(i) == seq![Effect::Load(i)],
        i >= app.current_list.len() ==> app.play_index(i).len() == 0,
        app.current_selected == Some(i) && i < app.current_list.len() ==> app.play_selected()
            == seq![Effect::Load(i)],
        app.current_selected == Some(i) && i >= app.current_list.len()
            ==> app.play_selected().len() == 0,
        app.current_selected is None ==> app.play_selected().len() == 0,
{
}

/// A song that was decoded plays: it is shown as playing, at its place, and this is published.
/// Nothing else changes, and one that was not decoded changes nothing.
pub proof fn lemma_loaded_song_plays(app: AppView, i: usize)
    requires
        i < app.current_list.len(),
    ensures
        ({
            let (next, effects) = app.song_loaded(i, true);
            &&& next.playing_song == Some(app.current_list[i as int])
            &&& next.current_index == Some(i)
            &&& next.is_playing
            &&& next == (AppView {
                playing_song: next.playing_song,
                current_index: next.current_index,
                is_playing: next.is_playing,
                ..app
            })
            &&& effects == seq![Effect::Publish]
        }),
        app.song_loaded(i, false).0 == app,
        app.song_loaded(i, false).1.len() == 0,
{
}

/// Next goes to the place after the one that plays, after the last to the first, and without a place
/// to the first: that place is loaded and selected, whatever the modes are, and nothing else
/// changes.
pub proof fn lemma_next_goes_one_on(app: AppView)
    requires
        app.current_list.len() <= usize::MAX,
    ensures
        ({
            let n = app.current_list.len();
            let (next, effects) = app.next();
            &&& n == 0 ==> next == app && effects.len() == 0
            &&& n > 0 && app.current_index is None ==> effects == seq![Effect::Load(0)]
            &&& n > 0 ==> match app.current_index {
                Some(i) => {
                    &&& i + 1 < n ==> effects == seq![Effect::Load((i + 1) as usize)]
                    &&& i + 1 == n ==> effects == seq![Effect::Load(0)]
                    &&& i + 1 > n ==> effects == seq![Effect::Load(((i + 1) % n as int) as usize)]
                },
                None => true,
            }
            &&& n > 0 ==> next.current_selected is Some && effects == seq![
                Effect::Load(next.current_selected->0),
            ]
            &&& next == (AppView { current_selected: next.current_selected, ..app })
        }),
{
    let n = app.current_list.len() as int;
    if n > 0 {
        if let Some(i) = app.current_index {
            vstd::arithmetic::div_mod::lemma_mod_bound(i + 1, n);
            if i + 1 < n {
                vstd::arithmetic::div_mod::lemma_small_mod((i + 1) as nat, n as nat);
            } else if i + 1 == n {
                vstd::arithmetic::div_mod::lemma_mod_self_0(n);
            }
        }
    }
}

/// Previous goes to the place before the one that plays, before the first to the last, and without a
/// place to the first: that place is selected, and loaded where it is in the list, whatever the
/// modes are, and nothing else changes.
pub proof fn lemma_previous_goes_one_back(app: AppView)
    requires
        app.current_list.len() <= usize::MAX,
    ensures
        ({
            let n = app.current_list.len();
            let (next, effects) = app.previous();
            &&& n == 0 ==> next == app && effects.len() == 0
            &&& n > 0 && app.current_index is None ==> next.current_selected == Some(0usize)
            &&& n > 0 ==> match app.current_index {
                Some(i) => {
                    &&& i == 0 ==> next.current_selected == Some((n - 1) as usize)
                    &&& i > 0 ==> next.current_selected == Some((i - 1) as usize)
                },
                None => true,
            }
            &&& n > 0 ==> match next.current_selected {
                Some(j) => {
                    &&& j < n ==> effects == seq![Effect::Load(j)]
                    &&& j >= n ==> effects.len() == 0
                },
                None => false,
            }
            &&& next == (AppView { current_selected: next.current_selected, ..app })
        }),
{
}

/// Pause and play: what plays is paused, what is paused goes on, and where no place was played yet
/// and no sound is left, the selected song is loaded. Each is published, and nothing else changes.
pub proof fn lemma_pause_and_play(app: AppView, empty: bool)
    ensures
        ({
            let (next, effects) = app.toggle_playback(empty);
            let starts = !app.is_playing && empty && app.current_index is None;
            &&& next == (AppView { is_playing: next.is_playing, ..app })
            &&& app.is_playing ==> !next.is_playing && effects == seq![
                Effect::Pause,
                Effect::Publish,
            ]
            &&& !app.is_playing && !starts ==> next.is_playing && effects == seq![
                Effect::Resume,
                Effect::Publish,
            ]
            &&& starts ==> !next.is_playing
            &&& starts ==> match app.current_selected {
                Some(i) => if i < app.current_list.len() {
                    effects == seq![Effect::Load(i), Effect::Publish]
                } else {
                    effects == seq![Effect::Publish]
                },
                None => effects == seq![Effect::Publish],
            }
        }),
{
    let effects = app.toggle_playback(empty).1;
    if !app.is_playing && empty && app.current_index is None {
        match app.current_selected {
            Some(i) => {
                if i < app.current_list.len() {
                    assert(effects =~= seq![Effect::Load(i), Effect::Publish]);
                } else {
                    assert(effects =~= seq![Effect::Publish]);
                }
            },
            None => {
                assert(effects =~= seq![Effect::Publish]);
            },
        }
    }
}

/// Stop ends the sound and forgets the song, but neither the list nor the place in it.
pub proof fn lemma_stop_forgets_the_song(app: AppView)
    ensures
        app.stop().0.playing_song is None,
        !app.stop().0.is_playing,
        app.stop().0 == (AppView { playing_song: None, is_playing: false, ..app }),
        app.stop().1 == seq![Effect::Stop, Effect::Publish],
{
}

/// The loop key turns loop mode over, publishes that, and changes nothing else.
pub proof fn lemma_loop_turns_over(app: AppView)
    ensures
        app.toggle_loop().0.loop_mode != app.loop_mode,
        app.toggle_loop().0 == (AppView { loop_mode: app.toggle_loop().0.loop_mode, ..app }),
        app.toggle_loop().1 == seq![Effect::Publish],
{
}

/// Only when a song that plays has run out does the clock do anything: in loop mode the song of the
/// place is loaded again and nothing changes, else it goes on as with the key for the next song.
pub proof fn lemma_clock_goes_on(app: AppView, empty: bool)
    ensures
        !app.is_playing || !empty ==> app.update(empty).0 == app && app.update(empty).1.len() == 0,
        app.is_playing && empty && !app.loop_mode ==> app.update(empty) == app.next(),
        app.is_playing && empty && app.loop_mode ==> app.update(empty).0 == app,
        app.is_playing && empty && app.loop_mode ==> match app.current_index {
            Some(i) => if i < app.current_list.len() {
                app.update(empty).1 == seq![Effect::Load(i)]
            } else {
                app.update(empty).1.len() == 0
            },
            None => app.update(empty).1.len() == 0,
        },
{
}

/// Turning shuffling on puts the current list in the order that chance chose and follows the song
/// that plays. It is published, and nothing else changes.
pub proof fn lemma_shuffle_on(app: AppView, order: Seq<SongView>)
    requires
        !app.shuffle_mode,
        order.len() <= usize::MAX,
    ensures
        ({
            let (next, effects) = app.toggle_shuffle(order);
            &&& next.shuffle_mode
            &&& next.current_list == order
            &&& place_follows(app, next)
            &&& next == (AppView {
                shuffle_mode: true,
                current_list: next.current_list,
                current_index: next.current_index,
                ..app
            })
            &&& effects == seq![Effect::Publish]
        }),
{
    lemma_follow(AppView { shuffle_mode: true, current_list: order, ..app });
}

/// Turning shuffling off makes the current list the library, where that is active, or else the
/// playlist of the active name as it is now; where there is no such playlist the list stays as it
/// is. Chance has no part in it. The song that plays is followed, it is published, and nothing else
/// changes.
pub proof fn lemma_shuffle_off(app: AppView, unused: Seq<SongView>)
    requires
        app.shuffle_mode,
        app.current_list.len() <= usize::MAX,
        app.library.len() <= usize::MAX,
        app.playlists.contains_key(app.active_playlist_name)
            ==> app.playlists[app.active_playlist_name].len() <= usize::MAX,
    ensures
        ({
            let (next, effects) = app.toggle_shuffle(unused);
            let active = app.active_playlist_name;
            &&& !next.shuffle_mode
            &&& active == "Library"@ ==> next.current_list == app.library
            &&& active != "Library"@ && app.playlists.contains_key(active) ==> next.current_list
                == app.playlists[active]
            &&& active != "Library"@ && !app.playlists.contains_key(active) ==> next.current_list
                == app.current_list
            &&& place_follows(app, next)
            &&& next == (AppView {
                shuffle_mode: false,
                current_list: next.current_list,
                current_index: next.current_index,
                ..app
            })
            &&& effects == seq![Effect::Publish]
        }),
{
    lemma_follow(AppView { shuffle_mode: false, current_list: app.active_songs(), ..app });
}

/// A list that is put in another order is that order; the song that plays is followed, and nothing
/// else changes.
pub proof fn lemma_reorder(app: AppView, order: Seq<SongView>)
    requires
        order.len() <= usize::MAX,
    ensures
        app.reordered(order).current_list == order,
        place_follows(app, app.reordered(order)),
        app.reordered(order) == (AppView {
            current_list: order,
            current_index: app.reordered(order).current_index,
            ..app
        }),
{
    lemma_follow(AppView { current_list: order, ..app });
}

/// A list that becomes the current one under a name is the current list, and its first place is
/// selected. The song that plays is followed, and nothing else changes.
pub proof fn lemma_activate(app: AppView, name: Seq<char>, order: Seq<SongView>)
    requires
        order.len() <= usize::MAX,
    ensures
        ({
            let next = app.activated(name, order);
            &&& next.current_list == order
            &&& next.active_playlist_name == name
            &&& next.current_selected == Some(0usize)
            &&& place_follows(app, next)
            &&& next == (AppView {
                current_list: next.current_list,
                active_playlist_name: next.active_playlist_name,
                current_selected: next.current_selected,
                current_index: next.current_index,
                ..app
            })
        }),
{
    lemma_follow(
        AppView {
            current_list: order,
            active_playlist_name: name,
            current_selected: Some(0usize),
            ..app
        },
    );
}

/// The playlist of the selected name becomes the current list, as it stands or, in shuffle mode, in
/// the order that chance chose; its name becomes the active one. Nothing is loaded: what plays goes
/// on. Where no playlist is selected nothing happens.
pub proof fn lemma_switch_to_selected(app: AppView, order: Seq<SongView>)
    requires
        app.playlist_selected matches Some(p) ==> p < app.playlist_names.len(),
        order.len() <= usize::MAX,
        app.playlist_selected matches Some(p) ==> app.playlists.contains_key(
            app.playlist_names[p as int],
        ) ==> app.playlists[app.playlist_names[p as int]].len() <= usize::MAX,
    ensures
        app.playlist_selected is None ==> app.switch_active_list(order) == app,
        app.playlist_selected matches Some(p) ==> {
            let name = app.playlist_names[p as int];
            let next = app.switch_active_list(order);
            &&& !app.playlists.contains_key(name) ==> next == app
            &&& app.playlists.contains_key(name) ==> {
                &&& app.shuffle_mode ==> next.current_list == order
                &&& !app.shuffle_mode ==> next.current_list == app.playlists[name]
                &&& next.active_playlist_name == name
                &&& next.current_selected == Some(0usize)
                &&& place_follows(app, next)
                &&& next == (AppView {
                    current_list: next.current_list,
                    active_playlist_name: next.active_playlist_name,
                    current_selected: next.current_selected,
                    current_index: next.current_index,
                    ..app
                })
            }
        },
{
    if let Some(p) = app.playlist_selected {
        let name = app.playlist_names[p as int];
        if app.playlists.contains_key(name) {
            lemma_activate(app, name, order);
            lemma_activate(app, name, app.playlists[name]);
        }
    }
}

/// A list played from a song on: the first song of the list with that path is loaded and selected,
/// in whatever mode the player is. The list becomes the current one under its name, and nothing else
/// changes; where no song has the path none is loaded.
pub proof fn lemma_play_from_the_song(
    app: AppView,
    name: Seq<char>,
    order: Seq<SongView>,
    path: Seq<u8>,
)
    requires
        order.len() <= usize::MAX,
    ensures
        ({
            let (next, effects) = app.play_from(name, order, path);
            &&& next.current_list == order
            &&& next.active_playlist_name == name
            &&& next == (AppView {
                current_list: next.current_list,
                active_playlist_name: next.active_playlist_name,
                current_selected: next.current_selected,
                ..app
            })
            &&& lacks_path(order, path) ==> effects.len() == 0 && next.current_selected
                == app.current_selected
            &&& !lacks_path(order, path) ==> {
                &&& next.current_selected is Some
                &&& is_first_of_path(order, path, next.current_selected->0 as int)
                &&& effects == seq![Effect::Load(next.current_selected->0)]
            }
        }),
{
    lemma_position_of(order, path);
}

/// What another program asks for is done as the keys do it; only stopping has no key.
pub proof fn lemma_commands(app: AppView, empty: bool)
    ensures
        app.handle_command(ExternalCommand::PlayPause, empty) == app.toggle_playback(empty),
        app.handle_command(ExternalCommand::Next, empty) == app.next(),
        app.handle_command(ExternalCommand::Previous, empty) == app.previous(),
        app.handle_command(ExternalCommand::Stop, empty) == app.stop(),
{
}

/// Other programs see whether the player plays and in which modes it is, and of the song that plays
/// its title, its one artist and its album; where none plays they see none of these.
pub proof fn lemma_what_others_see(app: AppView)
    ensures
        ({
            let shared = app.shared_state();
            let track = shared.track();
            &&& shared.is_playing == app.is_playing
            &&& shared.loop_mode == app.loop_mode
            &&& shared.shuffle_mode == app.shuffle_mode
            &&& shared.current_song == app.playing_song
            &&& shared.playback() == Playback::Playing <==> app.is_playing
            &&& shared.repeat() == Repeat::Track <==> app.loop_mode
            &&& track.track_id == "/org/mpris/MediaPlayer2/Track/0"@
            &&& match app.playing_song {
                Some(song) => {
                    &&& track.title == Some(song.metadata.title)
                    &&& track.artist == Some(seq![song.metadata.artist])
                    &&& track.album == Some(song.metadata.album)
                },
                None => track.title is None && track.artist is None && track.album is None,
            }
        }),
{
}

} // verus!
