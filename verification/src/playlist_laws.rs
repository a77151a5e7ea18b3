//! What holds of the playlists: which of them an operation changes, and how.

use crate::app::{initial, loaded, with_albums, AppView, Effect, Focus, InputMode};
use crate::path::components;
use crate::playback_laws::{lemma_reorder, place_follows};
use crate::song::{has_song, lemma_by_title, lemma_has_song, lemma_same_song, same_song, SongView};
use crate::sort::lemma_by_name;
use crate::text::text_le;
use vstd::prelude::*;

verus! {

/// No name stands before a lower one.
pub open spec fn in_order(names: Seq<Seq<char>>) -> bool {
    forall|i: int, j: int|
        #![trigger names[i], names[j]]
        0 <= i <= j < names.len() ==> text_le(names[i], names[j])
}

/// All playlists but that of one name are as they were.
pub open spec fn others_kept(
    before: Map<Seq<char>, Seq<SongView>>,
    after: Map<Seq<char>, Seq<SongView>>,
    name: Seq<char>,
) -> bool {
    forall|k: Seq<char>|
        k != name ==> (#[trigger] after.contains_key(k) <==> before.contains_key(k)) && (
        before.contains_key(k) ==> after[k] == before[k])
}

/// A new playlist is empty and stands under its name, and the name is among the names once more, in
/// order; it is saved. An empty name and one that a playlist has change nothing. Nothing else
/// changes: neither what is selected nor what is played.
pub proof fn lemma_create_makes_an_empty_playlist(app: AppView, name: Seq<char>)
    ensures
        ({
            let (next, effects) = app.create_playlist(name);
            let makes = name.len() > 0 && !app.playlists.contains_key(name);
            &&& !makes ==> next == app && effects.len() == 0
            &&& makes ==> {
                &&& effects == seq![Effect::Save]
                &&& next.playlists.contains_key(name)
                &&& next.playlists[name].len() == 0
                &&& others_kept(app.playlists, next.playlists, name)
                &&& next.playlist_names.to_multiset() == app.playlist_names.to_multiset().insert(
                    name,
                )
                &&& in_order(next.playlist_names)
                &&& next == (AppView {
                    playlists: next.playlists,
                    playlist_names: next.playlist_names,
                    ..app
                })
            }
        }),
{
    lemma_by_name(app.playlist_names.push(name));
    vstd::seq_lib::to_multiset_build(app.playlist_names, name);
}

/// A song goes to the end of the playlist of the name, if there is one and no song of it has the
/// same path, title, artist and album; it is saved. Else nothing changes. No other playlist changes,
/// nor anything else.
pub proof fn lemma_add_puts_the_song_last(app: AppView, name: Seq<char>, song: SongView)
    ensures
        ({
            let (next, effects) = app.add_to_playlist(name, song);
            let there = exists|i: int|
                0 <= i < app.playlists[name].len() && components(
                    (#[trigger] app.playlists[name][i]).path,
                ) == components(song.path) && app.playlists[name][i].metadata == song.metadata;
            let adds = app.playlists.contains_key(name) && !there;
            &&& !adds ==> next == app && effects.len() == 0
            &&& adds ==> {
                &&& effects == seq![Effect::Save]
                &&& next.playlists.contains_key(name)
                &&& next.playlists[name].len() == app.playlists[name].len() + 1
                &&& next.playlists[name].drop_last() == app.playlists[name]
                &&& next.playlists[name].last() == song
                &&& others_kept(app.playlists, next.playlists, name)
                &&& next == (AppView { playlists: next.playlists, ..app })
            }
        }),
{
    lemma_has_song(app.playlists[name], song);
    let next = app.add_to_playlist(name, song).0;
    if app.playlists.contains_key(name) && !has_song(app.playlists[name], song) {
        assert(next.playlists[name].drop_last() =~= app.playlists[name]);
    }
}

/// The selected playlist keeps its songs under a new name and has no longer its old one; in the
/// names the new name stands for the old one, in order. Where the old name was the active one the
/// new name is; it is saved. An empty name changes nothing, nor does anything where no playlist is
/// selected.
pub proof fn lemma_rename_keeps_the_songs(app: AppView, new_name: Seq<char>)
    requires
        app.playlist_selected matches Some(p) ==> p < app.playlist_names.len(),
    ensures
        ({
            let (next, effects) = app.rename_selected_playlist(new_name);
            let p = app.playlist_selected->0;
            let old_name = app.playlist_names[p as int];
            let renames = new_name.len() > 0 && app.playlist_selected is Some
                && app.playlists.contains_key(old_name);
            &&& !renames ==> next == app && effects.len() == 0
            &&& renames ==> {
                &&& effects == seq![Effect::Save]
                &&& next.playlists.contains_key(new_name)
                &&& next.playlists[new_name] == app.playlists[old_name]
                &&& old_name != new_name ==> !next.playlists.contains_key(old_name)
                &&& forall|k: Seq<char>|
                    k != old_name && k != new_name ==> (#[trigger] next.playlists.contains_key(k)
                        <==> app.playlists.contains_key(k)) && (app.playlists.contains_key(k)
                        ==> next.playlists[k] == app.playlists[k])
                &&& next.playlist_names.to_multiset() == app.playlist_names.to_multiset().remove(
                    old_name,
                ).insert(new_name)
                &&& in_order(next.playlist_names)
                &&& app.active_playlist_name == old_name ==> next.active_playlist_name == new_name
                &&& app.active_playlist_name != old_name ==> next.active_playlist_name
                    == app.active_playlist_name
                &&& next == (AppView {
                    playlists: next.playlists,
                    playlist_names: next.playlist_names,
                    active_playlist_name: next.active_playlist_name,
                    ..app
                })
            }
        }),
{
    if let Some(p) = app.playlist_selected {
        let old_name = app.playlist_names[p as int];
        let changed = app.playlist_names.update(p as int, new_name);
        lemma_by_name(changed);
        vstd::seq_lib::to_multiset_update(app.playlist_names, p as int, new_name);
        vstd::seq_lib::to_multiset_contains(app.playlist_names, old_name);
        assert(app.playlist_names.contains(old_name));
        assert(changed.to_multiset() =~= app.playlist_names.to_multiset().remove(old_name).insert(
            new_name,
        ));
    }
}

/// The selected playlist and its place among the names go; all other playlists stay, and their names
/// in the same order. The name that takes its place is selected, or the last, or none where none is
/// left; it is saved. What is played does not change.
pub proof fn lemma_delete_takes_one_away(app: AppView)
    requires
        app.playlist_selected matches Some(p) ==> p < app.playlist_names.len(),
        app.playlist_names.len() <= usize::MAX,
    ensures
        app.playlist_selected is None ==> app.delete_selected_playlist().0 == app
            && app.delete_selected_playlist().1.len() == 0,
        app.playlist_selected matches Some(p) ==> {
            let (next, effects) = app.delete_selected_playlist();
            let n = app.playlist_names.len();
            let name = app.playlist_names[p as int];
            &&& effects == seq![Effect::Save]
            &&& !next.playlists.contains_key(name)
            &&& others_kept(app.playlists, next.playlists, name)
            &&& next.playlist_names.len() == n - 1
            &&& forall|i: int| 0 <= i < p ==> #[trigger] next.playlist_names[i]
                == app.playlist_names[i]
            &&& forall|i: int|
                p <= i < n - 1 ==> #[trigger] next.playlist_names[i] == app.playlist_names[i + 1]
            &&& n == 1 ==> next.playlist_selected is None
            &&& p + 1 < n ==> next.playlist_selected == Some(p)
            &&& p + 1 == n && n > 1 ==> next.playlist_selected == Some((p - 1) as usize)
            &&& next == (AppView {
                playlists: next.playlists,
                playlist_names: next.playlist_names,
                playlist_selected: next.playlist_selected,
                ..app
            })
        },
{
}

/// A song that is moved changes places with its neighbour above or below, and stays selected; it is
/// saved. No other song and no other playlist changes. Where the playlist is the active one it
/// becomes the current list as it then stands, and the song that plays is followed; else what is
/// played does not change. At the end of the list, and where no song is selected, nothing changes.
pub proof fn lemma_move_exchanges_neighbours(app: AppView, up: bool)
    requires
        app.playlist_selected matches Some(p) ==> p < app.playlist_names.len(),
        app.move_is_safe(up),
        forall|k: Seq<char>| #[trigger]
            app.playlists.contains_key(k) ==> app.playlists[k].len() <= usize::MAX,
    ensures
        ({
            let (next, effects) = app.move_song_in_playlist(up);
            let name = app.playlist_names[app.playlist_selected->0 as int];
            let songs = app.playlists[name];
            let moved = next.playlists[name];
            let c = app.content_selected->0;
            let chosen = app.playlist_selected is Some && app.content_selected is Some
                && app.playlists.contains_key(name);
            let moves = chosen && if up {
                c > 0
            } else {
                c + 1 < songs.len()
            };
            let to = if up {
                c - 1
            } else {
                c + 1
            };
            &&& !moves ==> next == app && effects.len() == 0
            &&& moves ==> {
                &&& effects == seq![Effect::Save]
                &&& next.content_selected == Some(to as usize)
                &&& next.playlists.contains_key(name)
                &&& others_kept(app.playlists, next.playlists, name)
                &&& moved.len() == songs.len()
                &&& moved[to] == songs[c as int]
                &&& moved[c as int] == songs[to]
                &&& forall|i: int|
                    0 <= i < songs.len() && i != c && i != to ==> #[trigger] moved[i] == songs[i]
                &&& app.active_playlist_name == name ==> next.current_list == moved
                    && place_follows(app, next)
                &&& app.active_playlist_name != name ==> next.current_list == app.current_list
                    && next.current_index == app.current_index
                &&& next == (AppView {
                    playlists: next.playlists,
                    content_selected: next.content_selected,
                    current_list: next.current_list,
                    current_index: next.current_index,
                    ..app
                })
            }
        }),
{
    let (next, effects) = app.move_song_in_playlist(up);
    if let (Some(songs), Some(c)) = (app.selected_songs(), app.content_selected) {
        let name = app.playlist_names[app.playlist_selected->0 as int];
        assert(app.playlists.contains_key(name));
        let moved = next.playlists[name];
        let still = AppView {
            playlists: next.playlists,
            content_selected: next.content_selected,
            ..app
        };
        if moved.len() <= usize::MAX {
            lemma_reorder(still, moved);
        }
    }
}

/// The song that the add key adds is the one that is selected in the library as it is shown by the
/// search. Afterwards the selected playlist holds it, as its last song where it is new. Nothing else
/// changes, and where no song or no playlist is selected nothing does.
pub proof fn lemma_add_adds_the_song_shown(app: AppView)
    requires
        app.playlist_selected matches Some(p) ==> p < app.playlist_names.len(),
    ensures
        ({
            let (next, effects) = app.add_selected();
            let name = app.playlist_names[app.playlist_selected->0 as int];
            let i = app.library_selected->0;
            let song = app.filtered()[i as int];
            let chosen = app.playlist_selected is Some && app.library_selected is Some && i
                < app.filtered().len() && app.playlists.contains_key(name);
            &&& !chosen ==> next == app && effects.len() == 0
            &&& chosen ==> {
                &&& next.playlists.contains_key(name)
                &&& exists|j: int|
                    0 <= j < next.playlists[name].len() && components(
                        (#[trigger] next.playlists[name][j]).path,
                    ) == components(song.path) && next.playlists[name][j].metadata == song.metadata
                &&& next.playlists[name] == app.playlists[name] || next.playlists[name].drop_last()
                    == app.playlists[name] && next.playlists[name].last() == song
                    && next.playlists[name].len() == app.playlists[name].len() + 1
                &&& others_kept(app.playlists, next.playlists, name)
                &&& next.playlists[name] == app.playlists[name] ==> effects.len() == 0
                &&& next.playlists[name] != app.playlists[name] ==> effects == seq![Effect::Save]
            }
            &&& next == (AppView { playlists: next.playlists, ..app })
        }),
{
    let (next, effects) = app.add_selected();
    if let (Some(p), Some(i)) = (app.playlist_selected, app.library_selected) {
        let name = app.playlist_names[p as int];
        if i < app.filtered().len() && app.playlists.contains_key(name) {
            let song = app.filtered()[i as int];
            lemma_add_puts_the_song_last(app, name, song);
            lemma_has_song(app.playlists[name], song);
            lemma_has_song(next.playlists[name], song);
            if next.playlists[name] != app.playlists[name] {
                let list = next.playlists[name];
                assert(list[list.len() - 1] == song);
            }
        }
    }
}

/// Every song that the add key puts into a playlist is one of the library that the search shows.
pub proof fn lemma_added_songs_are_shown(app: AppView, k: Seq<char>, song: SongView)
    requires
        app.playlist_selected matches Some(p) ==> p < app.playlist_names.len(),
        app.playlists.contains_key(k),
        !app.playlists[k].contains(song),
        app.add_selected().0.playlists.contains_key(k),
        app.add_selected().0.playlists[k].contains(song),
    ensures
        app.playlist_selected matches Some(p) && k == app.playlist_names[p as int],
        app.library_selected matches Some(i) && i < app.filtered().len() && song
            == app.filtered()[i as int],
        app.filtered().contains(song),
{
    lemma_add_adds_the_song_shown(app);
    let next = app.add_selected().0;
    let j = next.playlists[k].index_of(song);
    if next.playlists[k] != app.playlists[k] {
        let list = next.playlists[k];
        if j < list.len() - 1 {
            assert(list.drop_last()[j] == song);
            assert(app.playlists[k].contains(song));
        }
        let i = app.library_selected->0;
        assert(app.filtered()[i as int] == song);
    }
}

// The start.

/// The playlists that are read are those of the names that were written down.
pub proof fn lemma_saved_names_are_read(saved: Seq<(Seq<char>, Seq<SongView>)>, k: Seq<char>)
    ensures
        loaded(saved).contains_key(k) <==> exists|i: int|
            0 <= i < saved.len() && (#[trigger] saved[i]).0 == k,
    decreases saved.len(),
{
    if saved.len() > 0 {
        let rest = saved.drop_last();
        let last = saved.len() - 1;
        lemma_saved_names_are_read(rest, k);
        assert(saved[last] == saved.last());
        if exists|i: int| 0 <= i < rest.len() && (#[trigger] rest[i]).0 == k {
            let i = choose|i: int| 0 <= i < rest.len() && (#[trigger] rest[i]).0 == k;
            assert(saved[i].0 == k);
        }
        if exists|i: int| 0 <= i < saved.len() && (#[trigger] saved[i]).0 == k {
            let i = choose|i: int| 0 <= i < saved.len() && (#[trigger] saved[i]).0 == k;
            if i < last {
                assert(rest[i].0 == k);
            }
        }
    }
}

/// Of the playlists that were written down under one name the last counts.
pub proof fn lemma_last_saved_counts(saved: Seq<(Seq<char>, Seq<SongView>)>, i: int)
    requires
        0 <= i < saved.len(),
        forall|j: int| i < j < saved.len() ==> (#[trigger] saved[j]).0 != saved[i].0,
    ensures
        loaded(saved).contains_key(saved[i].0),
        loaded(saved)[saved[i].0] == saved[i].1,
    decreases saved.len(),
{
    let rest = saved.drop_last();
    let last = saved.len() - 1;
    if i < last {
        assert(saved[last].0 != saved[i].0);
        assert(rest[i] == saved[i]);
        assert forall|j: int| i < j < rest.len() implies (#[trigger] rest[j]).0 != rest[i].0 by {
            assert(saved[j].0 != saved[i].0);
        }
        lemma_last_saved_counts(rest, i);
    }
}

/// The songs under a name; none where there is no such playlist.
pub open spec fn songs_under(
    m: Map<Seq<char>, Seq<SongView>>,
    name: Seq<char>,
) -> Seq<SongView> {
    if m.contains_key(name) {
        m[name]
    } else {
        seq![]
    }
}

/// A list is another list and then the songs at places of the library that go up; these are of the
/// album, and none of them is the same as a song before it in the list.
pub open spec fn filled_from(
    list: Seq<SongView>,
    base: Seq<SongView>,
    songs: Seq<SongView>,
    album: Seq<char>,
    places: Seq<int>,
) -> bool {
    &&& list.len() == base.len() + places.len()
    &&& forall|i: int| 0 <= i < base.len() ==> #[trigger] list[i] == base[i]
    &&& forall|j: int|
        0 <= j < places.len() ==> 0 <= #[trigger] places[j] < songs.len() && list[base.len() + j]
            == songs[places[j]] && songs[places[j]].metadata.album == album && forall|i: int|
            0 <= i < base.len() + j ==> !same_song(#[trigger] list[i], songs[places[j]])
    &&& forall|j: int, k: int|
        #![trigger places[j], places[k]]
        0 <= j < k < places.len() ==> places[j] < places[k]
}

/// At the start the playlist of an album has the songs it had, and then those of the library of that
/// album that it had not, in the order of the library. Every song of the album is in it. `N/A` and
/// `Single` are no albums: their playlists are as they were.
pub proof fn lemma_album_playlists(
    m: Map<Seq<char>, Seq<SongView>>,
    songs: Seq<SongView>,
    album: Seq<char>,
)
    ensures
        ({
            let after = with_albums(m, songs);
            let is_name = album != "N/A"@ && album != "Single"@;
            &&& !is_name ==> (after.contains_key(album) <==> m.contains_key(album)) && (
            m.contains_key(album) ==> after[album] == m[album])
            &&& is_name ==> (after.contains_key(album) <==> m.contains_key(album) || exists|i: int|
                0 <= i < songs.len() && (#[trigger] songs[i]).metadata.album == album)
            &&& is_name && after.contains_key(album) ==> exists|places: Seq<int>|
                filled_from(after[album], songs_under(m, album), songs, album, places)
            &&& is_name ==> forall|i: int|
                0 <= i < songs.len() && (#[trigger] songs[i]).metadata.album == album ==> has_song(
                    after[album],
                    songs[i],
                )
        }),
    decreases songs.len(),
{
    let after = with_albums(m, songs);
    let is_name = album != "N/A"@ && album != "Single"@;
    let base = songs_under(m, album);
    if songs.len() == 0 {
        if after.contains_key(album) {
            assert(filled_from(after[album], base, songs, album, Seq::<int>::empty()));
        }
    } else {
        let rest = songs.drop_last();
        let before = with_albums(m, rest);
        let song = songs.last();
        let last = songs.len() - 1;
        assert(songs[last] == song);
        lemma_album_playlists(m, rest, album);
        assert forall|i: int| 0 <= i < rest.len() implies #[trigger] rest[i] == songs[i] by {}
        if is_name {
            if exists|i: int| 0 <= i < rest.len() && (#[trigger] rest[i]).metadata.album == album {
                let i = choose|i: int|
                    0 <= i < rest.len() && (#[trigger] rest[i]).metadata.album == album;
                assert(songs[i].metadata.album == album);
            }
            if exists|i: int| 0 <= i < songs.len() && (#[trigger] songs[i]).metadata.album == album {
                let i = choose|i: int|
                    0 <= i < songs.len() && (#[trigger] songs[i]).metadata.album == album;
                if i < last {
                    assert(rest[i].metadata.album == album);
                }
            }
            if after.contains_key(album) {
                let was = songs_under(before, album);
                let old_places = if before.contains_key(album) {
                    choose|places: Seq<int>|
                        filled_from(before[album], base, rest, album, places)
                } else {
                    Seq::<int>::empty()
                };
                assert(filled_from(was, base, rest, album, old_places));
                let adds = song.metadata.album == album && !has_song(was, song);
                let places = if adds {
                    old_places.push(last)
                } else {
                    old_places
                };
                let list = after[album];
                assert(adds ==> list == was.push(song));
                assert(!adds ==> list == was);
                assert forall|i: int| 0 <= i < base.len() implies #[trigger] list[i] == base[i] by {
                    assert(was[i] == base[i]);
                }
                assert forall|j: int| 0 <= j < places.len() implies 0 <= #[trigger] places[j]
                    < songs.len() && list[base.len() + j] == songs[places[j]]
                    && songs[places[j]].metadata.album == album && forall|i: int|
                    0 <= i < base.len() + j ==> !same_song(#[trigger] list[i], songs[places[j]]) by {
                    if j < old_places.len() {
                        assert(places[j] == old_places[j]);
                        assert(rest[places[j]] == songs[places[j]]);
                        assert forall|i: int| 0 <= i < base.len() + j implies !same_song(
                            #[trigger] list[i],
                            songs[places[j]],
                        ) by {
                            assert(was[i] == list[i]);
                        }
                    } else {
                        assert forall|i: int| 0 <= i < base.len() + j implies !same_song(
                            #[trigger] list[i],
                            songs[places[j]],
                        ) by {
                            assert(was[i] == list[i]);
                        }
                    }
                }
                assert forall|j: int, k: int|
                    #![trigger places[j], places[k]]
                    0 <= j < k < places.len() implies places[j] < places[k] by {
                    assert(places[j] == old_places[j]);
                    if k < old_places.len() {
                        assert(places[k] == old_places[k]);
                    }
                }
                assert(filled_from(list, base, songs, album, places));
                assert forall|i: int|
                    0 <= i < songs.len() && (#[trigger] songs[i]).metadata.album
                        == album implies has_song(after[album], songs[i]) by {
                    if i < last {
                        assert(rest[i] == songs[i]);
                        assert(has_song(was, songs[i]));
                        let q = choose|q: int|
                            0 <= q < was.len() && same_song(#[trigger] was[q], songs[i]);
                        assert(list[q] == was[q]);
                    } else if adds {
                        lemma_same_song(song, song);
                        assert(list[list.len() - 1] == song);
                    }
                }
            }
        }
    }
}

/// At the start the library holds the songs that were found, none before one of a lower title, and
/// is the current list under the name `Library`. The first row of each list is selected, if there is
/// one. Nothing plays, no mode is on, the keys go to the library, and nothing is typed or searched.
pub proof fn lemma_start(
    songs: Seq<SongView>,
    saved: Seq<(Seq<char>, Seq<SongView>)>,
    names: Seq<Seq<char>>,
)
    ensures
        ({
            let app = initial(songs, saved, names);
            &&& app.library.to_multiset() == songs.to_multiset()
            &&& forall|i: int, j: int|
                #![trigger app.library[i], app.library[j]]
                0 <= i <= j < app.library.len() ==> text_le(
                    app.library[i].metadata.title,
                    app.library[j].metadata.title,
                )
            &&& app.playlists == with_albums(loaded(saved), app.library)
            &&& app.playlist_names == names
            &&& app.current_list == app.library
            &&& app.active_playlist_name == "Library"@
            &&& songs.len() > 0 ==> app.library_selected == Some(0usize) && app.current_selected
                == Some(0usize)
            &&& songs.len() == 0 ==> app.library_selected is None && app.current_selected is None
            &&& names.len() > 0 ==> app.playlist_selected == Some(0usize)
            &&& names.len() == 0 ==> app.playlist_selected is None
            &&& app.content_selected is None
            &&& app.playing_song is None
            &&& app.current_index is None
            &&& !app.is_playing
            &&& !app.loop_mode
            &&& !app.shuffle_mode
            &&& app.focus == Focus::Library
            &&& app.input_mode == InputMode::Normal
            &&& app.input.len() == 0
            &&& app.search_query.len() == 0
        }),
{
    lemma_by_title(songs);
    let library = initial(songs, saved, names).library;
    vstd::seq_lib::to_multiset_len(songs);
    vstd::seq_lib::to_multiset_len(library);
}

} // verus!
