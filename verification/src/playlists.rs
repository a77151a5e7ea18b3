//! Making, naming, filling and ordering playlists.

use crate::app::{
    lemma_playlists_insert, lemma_playlists_remove, lemma_same_names, lemma_text_views_push, loaded,
    App, AppView, Effect, SavedPlaylists,
};
use crate::song::{clone_songs, contains_song, find_path, has_song, position_of, songs_view};
use crate::song::{Song, SongView};
use crate::sort::{by_name, is_sorted, lemma_stable_sort, name_itself, sort_names};
use crate::text::{lemma_text_le_total, text_le, text_views};
use vstd::prelude::*;

verus! {

/// A list with two of its items exchanged.
pub open spec fn swapped<V>(list: Seq<V>, i: int, j: int) -> Seq<V> {
    list.update(i, list[j]).update(j, list[i])
}

/// Where a song at place `c` of a list of `len` goes when it is moved up or down by one; none where
/// it is at that end already.
pub open spec fn moved_place(c: usize, len: nat, up: bool) -> Option<usize> {
    if up {
        if c == 0 {
            None
        } else {
            Some((c - 1) as usize)
        }
    } else {
        if c >= len - 1 {
            None
        } else {
            Some((c + 1) as usize)
        }
    }
}

impl AppView {
    /// A new playlist without songs, unless the name is empty or taken.
    pub open spec fn create_playlist(self, name: Seq<char>) -> (AppView, Seq<Effect>) {
        if name.len() > 0 && !self.playlists.contains_key(name) {
            (
                AppView {
                    playlists: self.playlists.insert(name, seq![]),
                    playlist_names: by_name(self.playlist_names.push(name)),
                    ..self
                },
                seq![Effect::Save],
            )
        } else {
            (self, seq![])
        }
    }

    /// A song added at the end of a playlist, unless there is no such playlist or it holds the song.
    pub open spec fn add_to_playlist(self, name: Seq<char>, song: SongView) -> (AppView, Seq<Effect>) {
        if self.playlists.contains_key(name) && !has_song(self.playlists[name], song) {
            (
                AppView {
                    playlists: self.playlists.insert(name, self.playlists[name].push(song)),
                    ..self
                },
                seq![Effect::Save],
            )
        } else {
            (self, seq![])
        }
    }

    /// The selected playlist under another name; one that had the name is replaced.
    pub open spec fn rename_selected_playlist(self, new_name: Seq<char>) -> (AppView, Seq<Effect>) {
        match (self.selected_name(), self.selected_songs()) {
            (Some(old_name), Some(songs)) if new_name.len() > 0 => (
                AppView {
                    playlists: self.playlists.remove(old_name).insert(new_name, songs),
                    playlist_names: by_name(
                        self.playlist_names.update(self.playlist_selected->0 as int, new_name),
                    ),
                    active_playlist_name: if self.active_playlist_name == old_name {
                        new_name
                    } else {
                        self.active_playlist_name
                    },
                    ..self
                },
                seq![Effect::Save],
            ),
            _ => (self, seq![]),
        }
    }

    /// The selected playlist taken away; the one that takes its place is selected, or the last.
    pub open spec fn delete_selected_playlist(self) -> (AppView, Seq<Effect>) {
        match self.playlist_selected {
            Some(i) => {
                let rest = self.playlist_names.remove(i as int);
                (
                    AppView {
                        playlists: self.playlists.remove(self.playlist_names[i as int]),
                        playlist_names: rest,
                        playlist_selected: if rest.len() == 0 {
                            None
                        } else if i < rest.len() {
                            Some(i)
                        } else {
                            Some((rest.len() - 1) as usize)
                        },
                        ..self
                    },
                    seq![Effect::Save],
                )
            },
            None => (self, seq![]),
        }
    }

    /// The place in the current list kept on the song that plays, where the list holds it.
    pub open spec fn follow_playing(self) -> AppView {
        match self.playing_song {
            Some(song) => match position_of(self.current_list, song.path) {
                Some(i) => AppView { current_index: Some(i), ..self },
                None => self,
            },
            None => self,
        }
    }

    /// The song that is selected in the selected playlist can be moved up or down: it is there,
    /// or it stays where it is.
    pub open spec fn move_is_safe(self, up: bool) -> bool {
        match (self.selected_songs(), self.content_selected) {
            (Some(songs), Some(c)) => if up {
                c == 0 || c < songs.len()
            } else {
                songs.len() > 0
            },
            _ => true,
        }
    }

    /// The song that is selected in the selected playlist exchanged with the one before or after
    /// it. Where that playlist is the active one, it becomes the current list.
    pub open spec fn move_song_in_playlist(self, up: bool) -> (AppView, Seq<Effect>) {
        match (self.selected_songs(), self.content_selected) {
            (Some(songs), Some(c)) => match moved_place(c, songs.len(), up) {
                Some(to) => {
                    let name = self.selected_name()->0;
                    let moved = swapped(songs, c as int, to as int);
                    let next = AppView {
                        playlists: self.playlists.insert(name, moved),
                        content_selected: Some(to),
                        ..self
                    };
                    (
                        if self.active_playlist_name == name {
                            (AppView { current_list: moved, ..next }).follow_playing()
                        } else {
                            next
                        },
                        seq![Effect::Save],
                    )
                },
                None => (self, seq![]),
            },
            _ => (self, seq![]),
        }
    }
}

pub(crate) fn no_effects() -> (res: Vec<Effect>)
    ensures
        res@ == Seq::<Effect>::empty(),
{
    Vec::new()
}

pub(crate) fn one_effect(effect: Effect) -> (res: Vec<Effect>)
    ensures
        res@ == seq![effect],
{
    let mut res: Vec<Effect> = Vec::new();
    res.push(effect);
    assert(res@ =~= seq![effect]);
    res
}

/// The names with one more, in order, are still in order and name what they named.
proof fn lemma_names_push(names: Seq<Seq<char>>, name: Seq<char>)
    ensures
        is_sorted(by_name(names.push(name)), name_itself()),
        by_name(names.push(name)).len() == names.len() + 1,
        forall|k: Seq<char>| names.contains(k) ==> #[trigger] by_name(names.push(name)).contains(k),
        by_name(names.push(name)).contains(name),
{
    let pushed = names.push(name);
    lemma_stable_sort(pushed, name_itself());
    lemma_same_names(pushed, by_name(pushed));
    assert(pushed[names.len() as int] == name);
    assert forall|k: Seq<char>| names.contains(k) implies #[trigger] by_name(pushed).contains(k) by {
        assert(pushed[names.index_of(k)] == k);
        assert(pushed.contains(k));
    }
}

/// The names with one changed, in order, are in order and name what they named but for that one.
proof fn lemma_names_update(names: Seq<Seq<char>>, i: int, name: Seq<char>)
    requires
        0 <= i < names.len(),
    ensures
        is_sorted(by_name(names.update(i, name)), name_itself()),
        by_name(names.update(i, name)).len() == names.len(),
        forall|k: Seq<char>|
            names.contains(k) && k != names[i] ==> #[trigger] by_name(
                names.update(i, name),
            ).contains(k),
        by_name(names.update(i, name)).contains(name),
{
    let changed = names.update(i, name);
    lemma_stable_sort(changed, name_itself());
    lemma_same_names(changed, by_name(changed));
    assert(changed[i] == name);
    assert forall|k: Seq<char>| names.contains(k) && k != names[i] implies #[trigger] by_name(
        changed,
    ).contains(k) by {
        let j = names.index_of(k);
        assert(changed[j] == k);
        assert(changed.contains(k));
    }
}

/// The names without one of them are in order, and name all else that they named.
pub(crate) proof fn lemma_names_remove(names: Seq<Seq<char>>, i: int)
    requires
        0 <= i < names.len(),
        is_sorted(names, name_itself()),
    ensures
        is_sorted(names.remove(i), name_itself()),
        forall|k: Seq<char>|
            names.contains(k) && k != names[i] ==> #[trigger] names.remove(i).contains(k),
{
    let rest = names.remove(i);
    let key = name_itself();
    assert forall|a: int, b: int|
        #![trigger rest[a], rest[b]]
        0 <= a <= b < rest.len() implies text_le(key(rest[a]), key(rest[b])) by {
        let a1 = if a < i { a } else { a + 1 };
        let b1 = if b < i { b } else { b + 1 };
        assert(rest[a] == names[a1] && rest[b] == names[b1]);
        assert(text_le(key(names[a1]), key(names[b1])));
    }
    assert forall|k: Seq<char>| names.contains(k) && k != names[i] implies #[trigger] rest.contains(
        k,
    ) by {
        let j = names.index_of(k);
        if j < i {
            assert(rest[j] == k);
        } else {
            assert(rest[j - 1] == k);
        }
    }
}

impl App {
    /// Adds a song to a playlist, unless there is no such playlist or it holds the song.
    pub fn add_to_playlist(&mut self, name: &str, song: Song) -> (effects: Vec<Effect>)
        requires
            old(self).wf(),
        ensures
            final(self).wf(),
            final(self)@ == old(self)@.add_to_playlist(name@, song@).0,
            effects@ == old(self)@.add_to_playlist(name@, song@).1,
    {
        let ghost before = *self;
        let mut list: Vec<Song> = match self.playlists.get(name) {
            Some(list) => clone_songs(list),
            None => return no_effects(),
        };
        if contains_song(&list, &song) {
            return no_effects();
        }
        let ghost l0 = list@;
        list.push(song);
        proof {
            assert(songs_view(list@) =~= songs_view(l0).push(song@));
            lemma_playlists_insert(self.playlists@, name@, list);
        }
        self.playlists.insert(name.to_string(), list);
        assert(self@ =~= before@.add_to_playlist(name@, song@).0);
        one_effect(Effect::Save)
    }

    /// Makes a playlist without songs, unless the name is empty or taken.
    pub fn create_playlist(&mut self, name: String) -> (effects: Vec<Effect>)
        requires
            old(self).wf(),
        ensures
            final(self).wf(),
            final(self)@ == old(self)@.create_playlist(name@).0,
            effects@ == old(self)@.create_playlist(name@).1,
    {
        let ghost before = *self;
        if name.as_str().is_empty() || self.playlists.contains_key(name.as_str()) {
            return no_effects();
        }
        let songs: Vec<Song> = Vec::new();
        proof {
            assert(songs_view(songs@) =~= seq![]);
            lemma_playlists_insert(self.playlists@, name@, songs);
            lemma_text_views_push(self.playlist_names@, name);
            lemma_names_push(before@.playlist_names, name@);
        }
        self.playlists.insert(name.clone(), songs);
        let mut names: Vec<String> = clone_names(&self.playlist_names);
        proof {
            lemma_text_views_push(names@, name);
        }
        names.push(name);
        self.playlist_names = sort_names(names);
        assert(self@ =~= before@.create_playlist(name@).0);
        one_effect(Effect::Save)
    }

    /// Gives the selected playlist another name, unless that is empty.
    pub fn rename_selected_playlist(&mut self, new_name: String) -> (effects: Vec<Effect>)
        requires
            old(self).wf(),
        ensures
            final(self).wf(),
            final(self)@ == old(self)@.rename_selected_playlist(new_name@).0,
            effects@ == old(self)@.rename_selected_playlist(new_name@).1,
    {
        let ghost before = *self;
        if new_name.as_str().is_empty() {
            return no_effects();
        }
        let idx: usize = match self.playlist_selected {
            Some(i) => i,
            None => return no_effects(),
        };
        assert(text_views(self.playlist_names@)[idx as int] == self.playlist_names@[idx as int]@);
        let old_name: String = self.playlist_names[idx].clone();
        let songs: Vec<Song> = match self.playlists.get(old_name.as_str()) {
            Some(list) => clone_songs(list),
            None => return no_effects(),
        };
        proof {
            lemma_playlists_remove(self.playlists@, old_name@);
            lemma_playlists_insert(self.playlists@.remove(old_name@), new_name@, songs);
            lemma_names_update(before@.playlist_names, idx as int, new_name@);
        }
        self.playlists.remove(old_name.as_str());
        self.playlists.insert(new_name.clone(), songs);
        let mut names: Vec<String> = clone_names(&self.playlist_names);
        let ghost n0 = names@;
        names.set(idx, new_name.clone());
        assert(text_views(names@) =~= text_views(n0).update(idx as int, new_name@));
        self.playlist_names = sort_names(names);
        if self.active_playlist_name == old_name {
            self.active_playlist_name = new_name;
        }
        assert(self@ =~= before@.rename_selected_playlist(new_name@).0);
        one_effect(Effect::Save)
    }

    /// Takes the selected playlist away.
    pub fn delete_selected_playlist(&mut self) -> (effects: Vec<Effect>)
        requires
            old(self).wf(),
        ensures
            final(self).wf(),
            final(self)@ == old(self)@.delete_selected_playlist().0,
            effects@ == old(self)@.delete_selected_playlist().1,
    {
        let ghost before = *self;
        let idx: usize = match self.playlist_selected {
            Some(i) => i,
            None => return no_effects(),
        };
        proof {
            assert(before@.playlist_names[idx as int] == before.playlist_names@[idx as int]@);
            lemma_names_remove(before@.playlist_names, idx as int);
        }
        let name: String = self.playlist_names.remove(idx);
        assert(text_views(self.playlist_names@) =~= before@.playlist_names.remove(idx as int));
        proof {
            lemma_playlists_remove(self.playlists@, name@);
        }
        self.playlists.remove(name.as_str());
        let len: usize = self.playlist_names.len();
        if len == 0 {
            self.playlist_selected = None;
        } else if idx >= len {
            self.playlist_selected = Some(len - 1);
        }
        assert(self@ =~= before@.delete_selected_playlist().0);
        one_effect(Effect::Save)
    }

    /// Keeps the place in the current list on the song that plays, where the list holds it.
    pub fn follow_playing(&mut self)
        requires
            old(self).wf(),
        ensures
            final(self).wf(),
            final(self)@ == old(self)@.follow_playing(),
    {
        if let Some(song) = &self.playing_song {
            if let Some(i) = find_path(&self.current_list, &song.path) {
                let len: usize = self.current_list.len();
                assert(i < len);
                self.current_index = Some(i);
            }
        }
    }

    /// Moves the song that is selected in the selected playlist up or down by one.
    pub fn move_song_in_playlist(&mut self, up: bool) -> (effects: Vec<Effect>)
        requires
            old(self).wf(),
            old(self)@.move_is_safe(up),
        ensures
            final(self).wf(),
            final(self)@ == old(self)@.move_song_in_playlist(up).0,
            effects@ == old(self)@.move_song_in_playlist(up).1,
    {
        let ghost before = *self;
        let p: usize = match self.playlist_selected {
            Some(i) => i,
            None => return no_effects(),
        };
        assert(before@.playlist_names[p as int] == before.playlist_names@[p as int]@);
        let name: String = self.playlist_names[p].clone();
        let mut songs: Vec<Song> = match self.playlists.get(name.as_str()) {
            Some(list) => clone_songs(list),
            None => return no_effects(),
        };
        let c: usize = match self.content_selected {
            Some(i) => i,
            None => return no_effects(),
        };
        let ghost s0 = songs@;
        let ghost v0 = songs_view(s0);
        assert(v0 == before@.selected_songs()->0);
        let to: usize = if up {
            if c == 0 {
                return no_effects();
            }
            c - 1
        } else {
            if c >= songs.len() - 1 {
                return no_effects();
            }
            c + 1
        };
        let song: Song = songs.remove(c);
        songs.insert(to, song);
        let ghost moved = swapped(v0, c as int, to as int);
        proof {
            assert(songs_view(songs@) =~= moved);
            lemma_playlists_insert(self.playlists@, name@, songs);
        }
        if self.active_playlist_name == name {
            self.current_list = clone_songs(&songs);
        }
        self.playlists.insert(name.clone(), songs);
        self.content_selected = Some(to);
        let ghost mid = *self;
        if self.active_playlist_name == name {
            self.follow_playing();
        }
        proof {
            let next = AppView {
                playlists: before@.playlists.insert(name@, moved),
                content_selected: Some(to),
                ..before@
            };
            if before@.active_playlist_name == name@ {
                assert(mid@ =~= (AppView { current_list: moved, ..next }));
            } else {
                assert(mid@ =~= next);
            }
        }
        one_effect(Effect::Save)
    }
}

pub(crate) fn clone_names(names: &Vec<String>) -> (res: Vec<String>)
    ensures
        text_views(res@) == text_views(names@),
{
    let res: Vec<String> = names.clone();
    assert forall|i: int| 0 <= i < names@.len() implies #[trigger] text_views(res@)[i]
        == text_views(names@)[i] by {
        assert(cloned::<String>(names@[i], res@[i]));
    }
    assert(text_views(res@) =~= text_views(names@));
    res
}

/// The names under which playlists are written down.
pub open spec fn saved_names(saved: Seq<(Seq<char>, Seq<SongView>)>) -> Seq<Seq<char>> {
    saved.map_values(|p: (Seq<char>, Seq<SongView>)| p.0)
}

impl App {
    /// The playlists as they are to be written down: each once, in the order of their names.
    pub fn save_playlists(&self) -> (res: SavedPlaylists)
        requires
            self.wf(),
        ensures
            loaded(res@) == self@.playlists,
            is_sorted(saved_names(res@), name_itself()),
            saved_names(res@).no_duplicates(),
    {
        let ghost names = self@.playlist_names;
        let ghost m = self@.playlists;
        let mut res = SavedPlaylists { playlists: Vec::new() };
        let mut i: usize = 0;
        proof {
            assert(res@ =~= seq![]);
            assert(saved_names(res@) =~= seq![]);
        }
        while i < self.playlist_names.len()
            invariant
                i <= self.playlist_names@.len(),
                self.wf(),
                names == self@.playlist_names,
                m == self@.playlists,
                forall|k: Seq<char>| #[trigger]
                    loaded(res@).contains_key(k) <==> m.contains_key(k) && names.take(
                        i as int,
                    ).contains(k),
                forall|k: Seq<char>| #[trigger]
                    loaded(res@).contains_key(k) ==> loaded(res@)[k] == m[k],
                is_sorted(saved_names(res@), name_itself()),
                saved_names(res@).no_duplicates(),
                forall|k: Seq<char>| #[trigger]
                    saved_names(res@).contains(k) ==> names.take(i as int).contains(k),
            decreases self.playlist_names@.len() - i,
        {
            let ghost r0 = res@;
            let name: &String = &self.playlist_names[i];
            proof {
                assert(names[i as int] == name@);
                lemma_take_contains(names, i as int);
            }
            let fresh: bool = i == 0 || self.playlist_names[i - 1] != self.playlist_names[i];
            proof {
                if i > 0 {
                    assert(names[i - 1] == self.playlist_names@[i - 1]@);
                }
                if fresh {
                    assert(!names.take(i as int).contains(name@)) by {
                        if names.take(i as int).contains(name@) {
                            let k = names.take(i as int).index_of(name@);
                            assert(names[k] == name@);
                            let key = name_itself();
                            assert(text_le(key(names[k]), key(names[i - 1])));
                            assert(text_le(key(names[i - 1]), key(names[i as int])));
                            lemma_text_le_total(names[i - 1], names[i as int]);
                        }
                    }
                } else {
                    assert(names.take(i as int)[i - 1] == name@);
                    assert(names.take(i as int).contains(name@));
                }
            }
            if fresh {
                if let Some(list) = self.playlists.get(name.as_str()) {
                    let songs: Vec<Song> = clone_songs(list);
                    let item: (String, Vec<Song>) = (name.clone(), songs);
                    proof {
                        assert(m[name@] == songs_view(songs@));
                        lemma_saved_push(r0, (name@, songs_view(songs@)));
                        let sn = saved_names(r0);
                        let key = name_itself();
                        assert forall|a: int, b: int|
                            #![trigger sn.push(name@)[a], sn.push(name@)[b]]
                            0 <= a <= b < sn.len() + 1 implies text_le(
                            key(sn.push(name@)[a]),
                            key(sn.push(name@)[b]),
                        ) by {
                            if b < sn.len() {
                                assert(text_le(key(sn[a]), key(sn[b])));
                            } else if a == b {
                                lemma_text_le_total(name@, name@);
                            } else {
                                assert(sn.contains(sn[a]));
                                let k = names.take(i as int).index_of(sn[a]);
                                assert(names[k] == sn[a]);
                                assert(text_le(key(names[k]), key(names[i as int])));
                            }
                        }
                        assert(!sn.contains(name@));
                        assert(sn.push(name@).no_duplicates()) by {
                            assert forall|a: int, b: int|
                                0 <= a < sn.len() + 1 && 0 <= b < sn.len() + 1 && a
                                    != b implies sn.push(name@)[a] != sn.push(name@)[b] by {
                                if a < sn.len() {
                                    assert(sn.contains(sn[a]));
                                }
                                if b < sn.len() {
                                    assert(sn.contains(sn[b]));
                                }
                            }
                        }
                        assert forall|k: Seq<char>| #[trigger]
                            sn.push(name@).contains(k) implies sn.contains(k) || k == name@ by {
                            let a = sn.push(name@).index_of(k);
                            if a < sn.len() {
                                assert(sn[a] == k);
                            }
                        }
                    }
                    res.playlists.push(item);
                    assert(res@ =~= r0.push((name@, songs_view(songs@))));
                }
            }
            i += 1;
        }
        proof {
            assert(names.take(names.len() as int) =~= names);
            assert(loaded(res@) =~= m);
        }
        res
    }
}

proof fn lemma_take_contains(names: Seq<Seq<char>>, i: int)
    requires
        0 <= i < names.len(),
    ensures
        forall|k: Seq<char>| #[trigger]
            names.take(i + 1).contains(k) <==> names.take(i).contains(k) || k == names[i],
{
    assert forall|k: Seq<char>| #[trigger]
        names.take(i + 1).contains(k) <==> names.take(i).contains(k) || k == names[i] by {
        assert(names.take(i + 1)[i] == names[i]);
        if names.take(i).contains(k) {
            let j = names.take(i).index_of(k);
            assert(names.take(i + 1)[j] == k);
        }
        if names.take(i + 1).contains(k) {
            let j = names.take(i + 1).index_of(k);
            if j < i {
                assert(names.take(i)[j] == k);
            }
        }
    }
}

proof fn lemma_saved_push(
    saved: Seq<(Seq<char>, Seq<SongView>)>,
    item: (Seq<char>, Seq<SongView>),
)
    ensures
        loaded(saved.push(item)) == loaded(saved).insert(item.0, item.1),
        saved_names(saved.push(item)) == saved_names(saved).push(item.0),
{
    assert(saved.push(item).drop_last() =~= saved);
    assert(saved_names(saved.push(item)) =~= saved_names(saved).push(item.0));
}

} // verus!
