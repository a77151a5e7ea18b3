//! What holds of the player as a whole.

use crate::app::{
    initial, is_album, lemma_same_names, loaded, names_keys, with_album_song, with_albums, AppView,
    Effect, Focus, InputMode,
};
use crate::keys::{place_after, place_before, Key};
use crate::path::same_path;
use crate::playback::same_songs;
use crate::playlists::{lemma_names_remove, moved_place, swapped};
use crate::remote::ExternalCommand;
use crate::song::{has_song, lemma_position_of, same_song, SongView};
use crate::sort::{
    by_name, lemma_sorted_unique, lemma_stable_sort, name_itself, names_sorted, with_key,
};
use vstd::prelude::*;

verus! {

// The keys.

/// The tab key goes round the three panes: after three presses all is as it was.
pub proof fn lemma_tab_goes_round(app: AppView, empty: bool, order: Seq<SongView>)
    requires
        app.input_mode == InputMode::Normal,
    ensures
        ({
            let once = app.handle_key(Key::Tab, empty, order).0;
            let twice = once.handle_key(Key::Tab, empty, order).0;
            &&& once.focus != app.focus
            &&& twice.focus != app.focus
            &&& twice.focus != once.focus
            &&& twice.handle_key(Key::Tab, empty, order).0 == app
        }),
{
}

proof fn lemma_one_on(i: int, n: int)
    requires
        0 <= i < n,
    ensures
        (i + 1) % n == if i + 1 == n {
            0
        } else {
            i + 1
        },
{
    if i + 1 == n {
        vstd::arithmetic::div_mod::lemma_mod_self_0(n);
    } else {
        vstd::arithmetic::div_mod::lemma_small_mod((i + 1) as nat, n as nat);
    }
}

/// Down and up undo each other, at the ends of a list too.
pub proof fn lemma_down_up(app: AppView)
    requires
        app.selected() matches Some(i) && i < app.rows(),
        app.rows() <= usize::MAX,
    ensures
        app.select_down().select_up() == app,
        app.select_up().select_down() == app,
{
    let i = app.selected()->0;
    let n = app.rows();
    lemma_one_on(i as int, n as int);
    let down = app.select_down();
    assert(down.rows() == n);
    assert(place_before(down.selected(), n) == i);
    assert(down.select_up() =~= app);
    let up = app.select_up();
    lemma_one_on(up.selected()->0 as int, n as int);
    assert(up.rows() == n);
    assert(place_after(up.selected(), n) == i);
    assert(up.select_down() =~= app);
}

/// A character that is typed as text is no command: only the text changes, and with it the search
/// where it is text to search for.
pub proof fn lemma_text_is_no_command(app: AppView, c: char, empty: bool, order: Seq<SongView>)
    requires
        app.input_mode != InputMode::Normal,
    ensures
        app.handle_key(Key::Char(c), empty, order) == (
            AppView {
                input: app.input.push(c),
                search_query: if app.input_mode == InputMode::Searching {
                    app.input.push(c)
                } else {
                    app.search_query
                },
                ..app
            },
            Seq::<Effect>::empty(),
        ),
{
}

/// While text to search for is typed, the search is for that text.
pub open spec fn search_follows(app: AppView) -> bool {
    app.input_mode == InputMode::Searching ==> app.search_query == app.input
}

/// No key makes the search differ from the text that is typed for it.
pub proof fn lemma_search_follows(app: AppView, key: Key, empty: bool, order: Seq<SongView>)
    requires
        search_follows(app),
    ensures
        search_follows(app.handle_key(key, empty, order).0),
{
}

// What plays.

/// A key by itself never changes which song is shown as playing: browsing and switching lists leave
/// it alone until another song has been loaded.
pub proof fn lemma_keys_keep_playing_song(app: AppView, key: Key, empty: bool, order: Seq<SongView>)
    ensures
        app.handle_key(key, empty, order).0.playing_song == app.playing_song,
{
}

/// When the current list is put in another order, or another list becomes the current one, the
/// place in it is that of the song that plays, if the list holds that song.
pub proof fn lemma_place_follows_song(app: AppView, name: Seq<char>, order: Seq<SongView>)
    requires
        order.len() <= usize::MAX,
        app.playing_song is Some,
        exists|k: int|
            0 <= k < order.len() && same_path(
                (#[trigger] order[k]).path,
                app.playing_song->0.path,
            ),
    ensures
        app.reordered(order).current_index matches Some(i) && i < order.len() && same_path(
            order[i as int].path,
            app.playing_song->0.path,
        ),
        app.activated(name, order).current_index matches Some(i) && i < order.len() && same_path(
            order[i as int].path,
            app.playing_song->0.path,
        ),
{
    lemma_position_of(order, app.playing_song->0.path);
}

/// A switch to a list that does not hold the song that plays, or to any list while none plays,
/// leaves the place as it is; so does another order of such a list.
pub proof fn lemma_place_kept_without_song(app: AppView, name: Seq<char>, order: Seq<SongView>)
    requires
        order.len() <= usize::MAX,
        app.playing_song matches Some(song) ==> forall|k: int|
            0 <= k < order.len() ==> !same_path((#[trigger] order[k]).path, song.path),
    ensures
        app.activated(name, order).current_index == app.current_index,
        app.reordered(order).current_index == app.current_index,
{
    if let Some(song) = app.playing_song {
        lemma_position_of(order, song.path);
    }
}

/// The song at a place of a list plays, and is selected in it.
pub open spec fn plays_at(app: AppView, list: Seq<SongView>, i: usize) -> bool {
    &&& app.current_list == list
    &&& app.current_index == Some(i)
    &&& app.current_selected == Some(i)
    &&& app.playing_song == Some(list[i as int])
    &&& app.is_playing
}

/// Next and previous undo each other, round the ends of the list too, as long as the songs can be
/// decoded: the song of the place that was left plays again, and is selected.
pub proof fn lemma_next_previous(app: AppView)
    requires
        app.current_index matches Some(i) && i < app.current_list.len(),
        app.current_list.len() <= usize::MAX,
    ensures
        ({
            let i = app.current_index->0;
            let (on, on_effects) = app.next();
            let j = app.next_index();
            let (back, back_effects) = on.song_loaded(j, true).0.previous();
            &&& on_effects == seq![Effect::Load(j)]
            &&& back_effects == seq![Effect::Load(i)]
            &&& plays_at(back.song_loaded(i, true).0, app.current_list, i)
        }),
        ({
            let i = app.current_index->0;
            let (on, on_effects) = app.previous();
            let j = app.previous_index();
            let (back, back_effects) = on.song_loaded(j, true).0.next();
            &&& on_effects == seq![Effect::Load(j)]
            &&& back_effects == seq![Effect::Load(i)]
            &&& plays_at(back.song_loaded(i, true).0, app.current_list, i)
        }),
{
    let i = app.current_index->0;
    let n = app.current_list.len() as int;
    lemma_one_on(i as int, n);
    lemma_one_on(app.previous_index() as int, n);
}

/// In loop mode a song that has ended is played again; else the next one is.
pub proof fn lemma_song_end(app: AppView)
    requires
        app.is_playing,
        app.current_index matches Some(i) && i < app.current_list.len(),
    ensures
        app.loop_mode ==> app.update(true) == (app, seq![Effect::Load(app.current_index->0)]),
        !app.loop_mode ==> app.update(true) == app.next(),
{
}

/// Pressing pause and play again, or loop twice, leaves all as it was.
pub proof fn lemma_toggles(app: AppView, empty: bool)
    ensures
        app.toggle_loop().0.toggle_loop().0 == app,
        app.current_index is Some ==> app.toggle_playback(empty).0.toggle_playback(empty).0 == app,
        !empty ==> app.toggle_playback(empty).0.toggle_playback(empty).0 == app,
{
}

/// Turning shuffling on and off again puts the list that the active name stands for back in its own
/// order, whatever order chance had chosen.
pub proof fn lemma_shuffle_off_restores(app: AppView, order: Seq<SongView>, unused: Seq<SongView>)
    requires
        !app.shuffle_mode,
        app.active_playlist_name == "Library"@ || app.playlists.contains_key(
            app.active_playlist_name,
        ),
    ensures
        app.toggle_shuffle(order).0.current_list == order,
        app.toggle_shuffle(order).0.toggle_shuffle(unused).0.current_list == app.active_songs(),
        !app.toggle_shuffle(order).0.toggle_shuffle(unused).0.shuffle_mode,
{
}

// What is handed to the outside.

/// All that a key, a command, the clock or a song that was loaded can lead to.
pub open spec fn is_step(app: AppView, next: AppView, effects: Seq<Effect>) -> bool {
    ||| exists|key: Key, empty: bool, order: Seq<SongView>|
        (next, effects) == #[trigger] app.handle_key(key, empty, order)
    ||| exists|command: ExternalCommand, empty: bool|
        (next, effects) == #[trigger] app.handle_command(command, empty)
    ||| exists|empty: bool| (next, effects) == #[trigger] app.update(empty)
    ||| exists|index: usize, decoded: bool|
        (next, effects) == #[trigger] app.song_loaded(index, decoded)
}

/// Whatever is shown to other programs is published when it changes.
pub proof fn lemma_changes_are_published(app: AppView, next: AppView, effects: Seq<Effect>)
    requires
        is_step(app, next, effects),
        next.shared_state() != app.shared_state(),
    ensures
        effects.contains(Effect::Publish),
{
    assert(seq![Effect::Publish][0] == Effect::Publish);
    assert(seq![Effect::Pause, Effect::Publish][1] == Effect::Publish);
    assert(seq![Effect::Resume, Effect::Publish][1] == Effect::Publish);
    assert(seq![Effect::Stop, Effect::Publish][1] == Effect::Publish);
}

/// Whenever the playlists change they are written down.
pub proof fn lemma_changes_are_saved(app: AppView, next: AppView, effects: Seq<Effect>)
    requires
        is_step(app, next, effects),
        next.playlists != app.playlists,
    ensures
        effects.contains(Effect::Save),
{
    assert(seq![Effect::Save][0] == Effect::Save);
}

/// A song that is to be loaded is one of the current list.
pub proof fn lemma_loads_are_in_range(app: AppView, next: AppView, effects: Seq<Effect>, i: usize)
    requires
        is_step(app, next, effects),
        effects.contains(Effect::Load(i)),
    ensures
        i < next.current_list.len(),
{
    let k = effects.index_of(Effect::Load(i));
    assert(effects[k] == Effect::Load(i));
}

// The playlists.

proof fn lemma_same_multiset_sorted(a: Seq<Seq<char>>, b: Seq<Seq<char>>)
    requires
        names_sorted(a),
        names_sorted(b),
        a.to_multiset() == b.to_multiset(),
    ensures
        a == b,
{
    let key = name_itself();
    assert forall|k: Seq<char>| #[trigger] with_key(a, key, k) == with_key(b, key, k) by {
        lemma_with_name(a, k);
        lemma_with_name(b, k);
        assert(with_key(a, key, k) =~= with_key(b, key, k));
    }
    lemma_sorted_unique(a, b, key);
}

/// The names equal to `k` are `k`, as often as it is there.
proof fn lemma_with_name(a: Seq<Seq<char>>, k: Seq<char>)
    ensures
        with_key(a, name_itself(), k).len() == a.to_multiset().count(k),
        forall|i: int|
            0 <= i < with_key(a, name_itself(), k).len() ==> #[trigger] with_key(
                a,
                name_itself(),
                k,
            )[i] == k,
    decreases a.len(),
{
    reveal(Seq::filter);
    if a.len() == 0 {
        vstd::seq_lib::to_multiset_contains(a, k);
    } else {
        lemma_with_name(a.drop_last(), k);
        assert(a =~= a.drop_last().push(a.last()));
        vstd::seq_lib::to_multiset_build(a.drop_last(), a.last());
    }
}

/// The names of the playlists have one order: two lists that name each of them once, in order, are
/// the same.
pub proof fn lemma_names_unique(
    a: Seq<Seq<char>>,
    b: Seq<Seq<char>>,
    m: Map<Seq<char>, Seq<SongView>>,
)
    requires
        names_sorted(a),
        names_sorted(b),
        names_keys(a, m),
        names_keys(b, m),
    ensures
        a == b,
{
    assert(a.to_multiset() =~= b.to_multiset()) by {
        assert forall|k: Seq<char>| a.to_multiset().count(k) == b.to_multiset().count(k) by {
            vstd::seq_lib::to_multiset_contains(a, k);
            vstd::seq_lib::to_multiset_contains(b, k);
            a.lemma_multiset_has_no_duplicates();
            b.lemma_multiset_has_no_duplicates();
            assert(a.contains(k) <==> b.contains(k));
        }
    }
    lemma_same_multiset_sorted(a, b);
}

/// A playlist that is made and then deleted leaves the playlists and their names as they were.
pub proof fn lemma_create_delete(app: AppView, name: Seq<char>, i: usize)
    requires
        app.wf(),
        name.len() > 0,
        !app.playlists.contains_key(name),
        i < app.create_playlist(name).0.playlist_names.len(),
        app.create_playlist(name).0.playlist_names[i as int] == name,
    ensures
        ({
            let made = app.create_playlist(name).0;
            let gone = (AppView { playlist_selected: Some(i), ..made }).delete_selected_playlist().0;
            gone.playlists == app.playlists && gone.playlist_names == app.playlist_names
        }),
{
    let made = app.create_playlist(name).0;
    let gone = (AppView { playlist_selected: Some(i), ..made }).delete_selected_playlist().0;
    assert(gone.playlists =~= app.playlists);
    let pushed = app.playlist_names.push(name);
    lemma_stable_sort(pushed, name_itself());
    lemma_names_remove(made.playlist_names, i as int);
    vstd::seq_lib::to_multiset_remove(made.playlist_names, i as int);
    vstd::seq_lib::to_multiset_build(app.playlist_names, name);
    assert(gone.playlist_names.to_multiset() =~= app.playlist_names.to_multiset());
    lemma_same_multiset_sorted(gone.playlist_names, app.playlist_names);
}

/// A playlist that is given a name that was free, and then its own again, has its songs, and the
/// names are as they were; so is the name of the active playlist.
pub proof fn lemma_rename_back(app: AppView, new_name: Seq<char>, j: usize)
    requires
        app.wf(),
        app.selected_songs() is Some,
        app.selected_name()->0.len() > 0,
        new_name.len() > 0,
        !app.playlists.contains_key(new_name),
        app.active_playlist_name != new_name,
        j < app.playlist_names.len(),
        app.rename_selected_playlist(new_name).0.playlist_names[j as int] == new_name,
    ensures
        ({
            let renamed = app.rename_selected_playlist(new_name).0;
            let back = (AppView { playlist_selected: Some(j), ..renamed }).rename_selected_playlist(
                app.selected_name()->0,
            ).0;
            &&& renamed.playlists.contains_key(new_name)
            &&& renamed.playlists[new_name] == app.selected_songs()->0
            &&& back.playlists == app.playlists
            &&& back.playlist_names == app.playlist_names
            &&& back.active_playlist_name == app.active_playlist_name
        }),
{
    let old_name = app.selected_name()->0;
    let i = app.playlist_selected->0 as int;
    let renamed = app.rename_selected_playlist(new_name).0;
    let back = (AppView { playlist_selected: Some(j), ..renamed }).rename_selected_playlist(
        old_name,
    ).0;
    let changed = app.playlist_names.update(i, new_name);
    lemma_stable_sort(changed, name_itself());
    assert(back.playlists =~= app.playlists);
    let again = renamed.playlist_names.update(j as int, old_name);
    lemma_stable_sort(again, name_itself());
    vstd::seq_lib::to_multiset_update(app.playlist_names, i, new_name);
    vstd::seq_lib::to_multiset_update(renamed.playlist_names, j as int, old_name);
    vstd::seq_lib::to_multiset_contains(app.playlist_names, old_name);
    assert(app.playlist_names.contains(old_name));
    assert(again.to_multiset() =~= app.playlist_names.to_multiset());
    lemma_same_multiset_sorted(back.playlist_names, app.playlist_names);
}

/// A song that is added is in the playlist, and adding it again adds nothing.
pub proof fn lemma_add_once(app: AppView, name: Seq<char>, song: SongView)
    requires
        app.playlists.contains_key(name),
    ensures
        has_song(app.add_to_playlist(name, song).0.playlists[name], song),
        app.add_to_playlist(name, song).0.add_to_playlist(name, song) == (
            app.add_to_playlist(name, song).0,
            Seq::<Effect>::empty(),
        ),
{
    let added = app.add_to_playlist(name, song).0;
    if !has_song(app.playlists[name], song) {
        let list = added.playlists[name];
        assert(same_song(list[list.len() - 1], song));
    }
}

/// A song that is moved up and then down, or down and then up, is where it was.
pub proof fn lemma_move_back(app: AppView, up: bool)
    requires
        app.selected_songs() is Some,
        app.content_selected matches Some(c) && c < app.selected_songs()->0.len() && moved_place(
            c,
            app.selected_songs()->0.len(),
            up,
        ) is Some,
        app.selected_songs()->0.len() <= usize::MAX,
    ensures
        ({
            let back = app.move_song_in_playlist(up).0.move_song_in_playlist(!up).0;
            back.playlists == app.playlists && back.content_selected == app.content_selected
        }),
{
    let songs = app.selected_songs()->0;
    let c = app.content_selected->0;
    let to = moved_place(c, songs.len(), up)->0;
    let moved = app.move_song_in_playlist(up).0;
    assert(moved.playlists == app.playlists.insert(
        app.selected_name()->0,
        swapped(songs, c as int, to as int),
    ));
    assert(moved.selected_songs() == Some(swapped(songs, c as int, to as int)));
    assert(moved_place(to, songs.len(), !up) == Some(c));
    let back = moved.move_song_in_playlist(!up).0;
    assert(swapped(swapped(songs, c as int, to as int), to as int, c as int) =~= songs);
    assert(back.playlists =~= app.playlists);
}

/// A move keeps the songs of the playlist: none is lost or added.
pub proof fn lemma_move_keeps_songs(app: AppView, up: bool)
    requires
        app.selected_songs() is Some,
        app.move_is_safe(up),
        app.selected_songs()->0.len() <= usize::MAX,
    ensures
        app.move_song_in_playlist(up).0.selected_songs() matches Some(moved) && same_songs(
            moved,
            app.selected_songs()->0,
        ),
{
    let songs = app.selected_songs()->0;
    if let Some(c) = app.content_selected {
        if let Some(to) = moved_place(c, songs.len(), up) {
            let half = songs.update(c as int, songs[to as int]);
            vstd::seq_lib::to_multiset_update(songs, c as int, songs[to as int]);
            vstd::seq_lib::to_multiset_update(half, to as int, songs[c as int]);
            vstd::seq_lib::to_multiset_contains(songs, songs[c as int]);
            assert(songs.contains(songs[c as int]));
            assert(swapped(songs, c as int, to as int).to_multiset() =~= songs.to_multiset());
        }
    }
}

/// No song is in the list twice.
pub open spec fn distinct(list: Seq<SongView>) -> bool {
    forall|i: int, j: int|
        #![trigger list[i], list[j]]
        0 <= i < list.len() && 0 <= j < list.len() && i != j ==> !same_song(list[i], list[j])
}

/// No song is in a playlist twice.
pub open spec fn all_distinct(m: Map<Seq<char>, Seq<SongView>>) -> bool {
    forall|k: Seq<char>| #[trigger] m.contains_key(k) ==> distinct(m[k])
}

proof fn lemma_distinct_push(list: Seq<SongView>, song: SongView)
    requires
        distinct(list),
        !has_song(list, song),
    ensures
        distinct(list.push(song)),
{
    let more = list.push(song);
    assert forall|i: int, j: int|
        #![trigger more[i], more[j]]
        0 <= i < more.len() && 0 <= j < more.len() && i != j implies !same_song(
        more[i],
        more[j],
    ) by {
        if i < list.len() && j < list.len() {
            assert(!same_song(list[i], list[j]));
        } else if i < list.len() {
            assert(!same_song(list[i], song));
        } else {
            assert(!same_song(list[j], song));
        }
    }
}

proof fn lemma_distinct_swap(list: Seq<SongView>, a: int, b: int)
    requires
        distinct(list),
        0 <= a < list.len(),
        0 <= b < list.len(),
    ensures
        distinct(swapped(list, a, b)),
{
    let s = swapped(list, a, b);
    assert forall|i: int, j: int|
        #![trigger s[i], s[j]]
        0 <= i < s.len() && 0 <= j < s.len() && i != j implies !same_song(s[i], s[j]) by {
        let i1 = if i == a { b } else if i == b { a } else { i };
        let j1 = if j == a { b } else if j == b { a } else { j };
        assert(s[i] == list[i1] && s[j] == list[j1]);
        assert(!same_song(list[i1], list[j1]));
    }
}

/// The state that a key puts the playlists of a state into, as far as the playlists go.
spec fn playlists_after(app: AppView, key: Key) -> AppView {
    let taken = AppView { input: seq![], input_mode: InputMode::Normal, ..app };
    if app.input_mode == InputMode::NamingPlaylist && key == Key::Enter {
        taken.create_playlist(app.input).0
    } else if app.input_mode == InputMode::RenamingPlaylist && key == Key::Enter {
        taken.rename_selected_playlist(app.input).0
    } else if app.input_mode != InputMode::Normal {
        app
    } else if key == Key::Char('a') {
        app.add_selected().0
    } else if key == Key::Char('d') && app.focus == Focus::Playlists {
        app.delete_selected_playlist().0
    } else if key == Key::Char('[') && app.focus == Focus::PlaylistContent {
        app.move_song_in_playlist(true).0
    } else if key == Key::Char(']') && app.focus == Focus::PlaylistContent {
        app.move_song_in_playlist(false).0
    } else {
        app
    }
}

proof fn lemma_playlists_after(app: AppView, key: Key, empty: bool, order: Seq<SongView>)
    ensures
        app.handle_key(key, empty, order).0.playlists == playlists_after(app, key).playlists,
        app.handle_key(key, empty, order).0.playlist_names == playlists_after(
            app,
            key,
        ).playlist_names,
{
}

proof fn lemma_add_keeps_distinct(app: AppView)
    requires
        all_distinct(app.playlists),
    ensures
        all_distinct(app.add_selected().0.playlists),
{
    if let (Some(i), Some(name)) = (app.library_selected, app.selected_name()) {
        let song = app.filtered()[i as int];
        if app.playlists.contains_key(name) && !has_song(app.playlists[name], song) {
            lemma_distinct_push(app.playlists[name], song);
        }
    }
}

proof fn lemma_move_keeps_distinct(app: AppView, up: bool)
    requires
        app.move_is_safe(up),
        all_distinct(app.playlists),
    ensures
        all_distinct(app.move_song_in_playlist(up).0.playlists),
{
    if let (Some(songs), Some(c)) = (app.selected_songs(), app.content_selected) {
        assert(distinct(songs));
        if let Some(to) = moved_place(c, songs.len(), up) {
            lemma_distinct_swap(songs, c as int, to as int);
        }
    }
}

proof fn lemma_names_keep_distinct(app: AppView, name: Seq<char>)
    requires
        all_distinct(app.playlists),
    ensures
        all_distinct(app.create_playlist(name).0.playlists),
        all_distinct(app.rename_selected_playlist(name).0.playlists),
        all_distinct(app.delete_selected_playlist().0.playlists),
{
}

/// No key puts a song into a playlist a second time.
pub proof fn lemma_keys_keep_distinct(app: AppView, key: Key, empty: bool, order: Seq<SongView>)
    requires
        app.wf(),
        app.key_is_safe(key),
        all_distinct(app.playlists),
    ensures
        all_distinct(app.handle_key(key, empty, order).0.playlists),
{
    lemma_playlists_after(app, key, empty, order);
    let taken = AppView { input: seq![], input_mode: InputMode::Normal, ..app };
    lemma_names_keep_distinct(taken, app.input);
    lemma_names_keep_distinct(app, app.input);
    lemma_add_keeps_distinct(app);
    if key == Key::Char('[') {
        if app.input_mode == InputMode::Normal && app.focus == Focus::PlaylistContent {
            lemma_move_keeps_distinct(app, true);
        }
    }
    if key == Key::Char(']') {
        if app.input_mode == InputMode::Normal && app.focus == Focus::PlaylistContent {
            lemma_move_keeps_distinct(app, false);
        }
    }
}

/// The enter key is about to give the selected playlist a name that another playlist has.
pub open spec fn takes_a_name(app: AppView, key: Key) -> bool {
    app.input_mode == InputMode::RenamingPlaylist && key == Key::Enter && app.playlists.contains_key(
        app.input,
    ) && app.selected_name() != Some(app.input)
}

/// Where each playlist is named once it stays so, whatever key is pressed, except where one
/// playlist is given the name of another.
pub proof fn lemma_keys_keep_names(app: AppView, key: Key, empty: bool, order: Seq<SongView>)
    requires
        app.wf(),
        names_keys(app.playlist_names, app.playlists),
        !takes_a_name(app, key),
    ensures
        names_keys(
            app.handle_key(key, empty, order).0.playlist_names,
            app.handle_key(key, empty, order).0.playlists,
        ),
{
    lemma_playlists_after(app, key, empty, order);
    let taken = AppView { input: seq![], input_mode: InputMode::Normal, ..app };
    lemma_create_keeps_names(taken, app.input);
    if app.input_mode == InputMode::RenamingPlaylist && key == Key::Enter {
        lemma_rename_keeps_names(taken, app.input);
    }
    lemma_delete_keeps_names(app);
    lemma_add_keeps_names(app);
    lemma_move_keeps_names(app, true);
    lemma_move_keeps_names(app, false);
}

proof fn lemma_add_keeps_names(app: AppView)
    requires
        names_keys(app.playlist_names, app.playlists),
    ensures
        names_keys(app.add_selected().0.playlist_names, app.add_selected().0.playlists),
{
}

proof fn lemma_move_keeps_names(app: AppView, up: bool)
    requires
        names_keys(app.playlist_names, app.playlists),
    ensures
        names_keys(
            app.move_song_in_playlist(up).0.playlist_names,
            app.move_song_in_playlist(up).0.playlists,
        ),
{
}

proof fn lemma_delete_keeps_names(app: AppView)
    requires
        app.wf(),
        names_keys(app.playlist_names, app.playlists),
    ensures
        names_keys(
            app.delete_selected_playlist().0.playlist_names,
            app.delete_selected_playlist().0.playlists,
        ),
{
    if app.playlist_selected is Some {
        let names = app.playlist_names;
        let i = app.playlist_selected->0 as int;
        let rest = names.remove(i);
        assert(rest.no_duplicates());
        assert forall|k: Seq<char>| #[trigger]
            rest.contains(k) <==> names.contains(k) && k != names[i] by {
            if rest.contains(k) {
                let a = rest.index_of(k);
                let b = if a < i { a } else { a + 1 };
                assert(names[b] == k);
            }
            if names.contains(k) && k != names[i] {
                let b = names.index_of(k);
                let a = if b < i { b } else { b - 1 };
                assert(rest[a] == k);
            }
        }
    }
}

proof fn lemma_rename_keeps_names(app: AppView, new_name: Seq<char>)
    requires
        app.wf(),
        names_keys(app.playlist_names, app.playlists),
        app.playlists.contains_key(new_name) ==> app.selected_name() == Some(new_name),
    ensures
        names_keys(
            app.rename_selected_playlist(new_name).0.playlist_names,
            app.rename_selected_playlist(new_name).0.playlists,
        ),
{
    if app.playlist_selected is Some {
        let names = app.playlist_names;
        let i = app.playlist_selected->0 as int;
        let name = names[i];
        let changed = names.update(i, new_name);
        assert(new_name != name ==> !names.contains(new_name));
        assert forall|a: int, b: int|
            0 <= a < changed.len() && 0 <= b < changed.len() && a != b implies changed[a]
                != changed[b] by {
            assert(names[a] != names[b]);
            assert(names.contains(names[a]) && names.contains(names[b]));
        }
        assert(changed.no_duplicates());
        assert forall|k: Seq<char>| #[trigger]
            changed.contains(k) <==> k == new_name || names.contains(k) && k != name by {
            assert(changed[i] == new_name);
            if changed.contains(k) && k != new_name {
                let a = changed.index_of(k);
                assert(names[a] == k);
            }
            if names.contains(k) && k != name {
                assert(changed[names.index_of(k)] == k);
            }
        }
        lemma_stable_sort(changed, name_itself());
        lemma_same_names(changed, by_name(changed));
    }
}

proof fn lemma_create_keeps_names(app: AppView, name: Seq<char>)
    requires
        names_keys(app.playlist_names, app.playlists),
    ensures
        names_keys(
            app.create_playlist(name).0.playlist_names,
            app.create_playlist(name).0.playlists,
        ),
{
    let names = app.playlist_names;
    if name.len() > 0 && !app.playlists.contains_key(name) {
        let pushed = names.push(name);
        assert(!names.contains(name));
        assert(pushed.no_duplicates());
        assert forall|k: Seq<char>| #[trigger] pushed.contains(k) <==> names.contains(k) || k
            == name by {
            assert(pushed[names.len() as int] == name);
            if names.contains(k) {
                assert(pushed[names.index_of(k)] == k);
            }
            if pushed.contains(k) && k != name {
                assert(names[pushed.index_of(k)] == k);
            }
        }
        lemma_stable_sort(pushed, name_itself());
        lemma_same_names(pushed, by_name(pushed));
    }
}

// The start.

/// A list goes on from another: it begins with it.
pub open spec fn goes_on(list: Seq<SongView>, from: Seq<SongView>) -> bool {
    from.len() <= list.len() && list.take(from.len() as int) == from
}

/// Adding the songs of a library to the playlists of their albums only ever adds: every playlist
/// there was is still there and begins with the songs it had.
pub proof fn lemma_albums_only_add(
    m: Map<Seq<char>, Seq<SongView>>,
    songs: Seq<SongView>,
    k: Seq<char>,
)
    requires
        m.contains_key(k),
    ensures
        with_albums(m, songs).contains_key(k),
        goes_on(with_albums(m, songs)[k], m[k]),
    decreases songs.len(),
{
    if songs.len() == 0 {
        assert(m[k].take(m[k].len() as int) =~= m[k]);
    } else {
        let before = with_albums(m, songs.drop_last());
        lemma_albums_only_add(m, songs.drop_last(), k);
        let song = songs.last();
        if k == song.metadata.album && is_album(k) && !has_song(before[k], song) {
            assert(before[k].push(song).take(m[k].len() as int) =~= before[k].take(
                m[k].len() as int,
            ));
        }
    }
}

/// Every song of the library that has an album is in the playlist of that album.
pub proof fn lemma_albums_hold_songs(m: Map<Seq<char>, Seq<SongView>>, songs: Seq<SongView>, i: int)
    requires
        0 <= i < songs.len(),
        is_album(songs[i].metadata.album),
    ensures
        with_albums(m, songs).contains_key(songs[i].metadata.album),
        has_song(with_albums(m, songs)[songs[i].metadata.album], songs[i]),
    decreases songs.len(),
{
    let rest = songs.drop_last();
    let before = with_albums(m, rest);
    let last = songs.last();
    let album = songs[i].metadata.album;
    let after = with_albums(m, songs);
    if i < rest.len() {
        lemma_albums_hold_songs(m, rest, i);
        assert(rest[i] == songs[i]);
        let p = choose|p: int|
            0 <= p < before[album].len() && same_song(#[trigger] before[album][p], songs[i]);
        assert(after[album][p] == before[album][p]);
    } else {
        let list = after[album];
        let was = if before.contains_key(album) {
            before[album]
        } else {
            seq![]
        };
        if !has_song(was, last) {
            assert(list[list.len() - 1] == last);
            assert(same_song(list[list.len() - 1], last));
        }
    }
}

/// The only playlists that are added are those of albums of the library.
pub proof fn lemma_albums_add_only_albums(
    m: Map<Seq<char>, Seq<SongView>>,
    songs: Seq<SongView>,
    k: Seq<char>,
)
    requires
        with_albums(m, songs).contains_key(k),
        !m.contains_key(k),
    ensures
        is_album(k),
        exists|i: int| 0 <= i < songs.len() && (#[trigger] songs[i]).metadata.album == k,
    decreases songs.len(),
{
    if songs.len() > 0 {
        let rest = songs.drop_last();
        if with_albums(m, rest).contains_key(k) {
            lemma_albums_add_only_albums(m, rest, k);
            let i = choose|i: int| 0 <= i < rest.len() && (#[trigger] rest[i]).metadata.album == k;
            assert(songs[i] == rest[i]);
        } else {
            assert(songs[songs.len() - 1].metadata.album == k);
        }
    }
}

/// Where every song that has an album is in its playlist, adding them changes nothing.
proof fn lemma_albums_settled(m: Map<Seq<char>, Seq<SongView>>, songs: Seq<SongView>)
    requires
        forall|i: int|
            0 <= i < songs.len() && is_album((#[trigger] songs[i]).metadata.album)
                ==> m.contains_key(songs[i].metadata.album) && has_song(
                m[songs[i].metadata.album],
                songs[i],
            ),
    ensures
        with_albums(m, songs) == m,
    decreases songs.len(),
{
    if songs.len() > 0 {
        let rest = songs.drop_last();
        assert forall|i: int|
            0 <= i < rest.len() && is_album((#[trigger] rest[i]).metadata.album) implies m.contains_key(
        rest[i].metadata.album) && has_song(m[rest[i].metadata.album], rest[i]) by {
            assert(rest[i] == songs[i]);
        }
        lemma_albums_settled(m, rest);
        assert(songs[songs.len() - 1] == songs.last());
        assert(with_album_song(m, songs.last()) =~= m);
    }
}

/// Starting again with the playlists that were written down at the last start, and the same
/// library, adds nothing.
pub proof fn lemma_albums_added_once(m: Map<Seq<char>, Seq<SongView>>, songs: Seq<SongView>)
    ensures
        with_albums(with_albums(m, songs), songs) == with_albums(m, songs),
{
    assert forall|i: int|
        0 <= i < songs.len() && is_album((#[trigger] songs[i]).metadata.album) implies with_albums(
    m, songs).contains_key(songs[i].metadata.album) && has_song(
        with_albums(m, songs)[songs[i].metadata.album],
        songs[i],
    ) by {
        lemma_albums_hold_songs(m, songs, i);
    }
    lemma_albums_settled(with_albums(m, songs), songs);
}

/// At the start no song is in a playlist twice, if none was when the playlists were written down.
pub proof fn lemma_start_distinct(
    songs: Seq<SongView>,
    saved: Seq<(Seq<char>, Seq<SongView>)>,
    names: Seq<Seq<char>>,
)
    requires
        all_distinct(loaded(saved)),
    ensures
        all_distinct(initial(songs, saved, names).playlists),
{
    lemma_albums_distinct(loaded(saved), initial(songs, saved, names).library);
}

proof fn lemma_albums_distinct(m: Map<Seq<char>, Seq<SongView>>, songs: Seq<SongView>)
    requires
        all_distinct(m),
    ensures
        all_distinct(with_albums(m, songs)),
    decreases songs.len(),
{
    if songs.len() > 0 {
        lemma_albums_distinct(m, songs.drop_last());
        let before = with_albums(m, songs.drop_last());
        let song = songs.last();
        let album = song.metadata.album;
        let list = if before.contains_key(album) {
            before[album]
        } else {
            seq![]
        };
        assert(distinct(list));
        if !has_song(list, song) {
            lemma_distinct_push(list, song);
        }
        let after = with_albums(m, songs);
        assert forall|k: Seq<char>| #[trigger] after.contains_key(k) implies distinct(after[k]) by {
            if before.contains_key(k) {
                assert(distinct(before[k]));
            }
        }
    }
}

} // verus!
