//! What plays, and what plays next.

use crate::app::{App, AppView, Effect};
use crate::path::SongPath;
use crate::playlists::{no_effects, one_effect};
use crate::song::{clone_songs, find_path, position_of, songs_view};
use crate::song::{Song, SongView};
use rand::seq::SliceRandom;
use vstd::prelude::*;

verus! {

/// The same songs, each as often, in any order.
pub open spec fn same_songs(a: Seq<SongView>, b: Seq<SongView>) -> bool {
    a.to_multiset() == b.to_multiset()
}

/// A list as it is played: as it stands, or in the order `order` where songs are shuffled.
pub open spec fn arranged(
    list: Seq<SongView>,
    shuffle_mode: bool,
    order: Seq<SongView>,
) -> Seq<SongView> {
    if shuffle_mode {
        order
    } else {
        list
    }
}

impl AppView {
    /// What it takes to play the song at a place of the current list; nothing where there is none.
    pub open spec fn play_index(self, index: usize) -> Seq<Effect> {
        if index < self.current_list.len() {
            seq![Effect::Load(index)]
        } else {
            seq![]
        }
    }

    /// What it takes to play the song that is selected in the current list.
    pub open spec fn play_selected(self) -> Seq<Effect> {
        match self.current_selected {
            Some(i) => self.play_index(i),
            None => seq![],
        }
    }

    /// The song at a place of the current list plays now, where it could be opened and decoded.
    pub open spec fn song_loaded(self, index: usize, decoded: bool) -> (AppView, Seq<Effect>) {
        if decoded {
            (
                AppView {
                    current_index: Some(index),
                    playing_song: Some(self.current_list[index as int]),
                    is_playing: true,
                    ..self
                },
                seq![Effect::Publish],
            )
        } else {
            (self, seq![])
        }
    }

    /// Pause and play; where nothing was played yet, the selected song is.
    pub open spec fn toggle_playback(self, sink_empty: bool) -> (AppView, Seq<Effect>) {
        if self.is_playing {
            (AppView { is_playing: false, ..self }, seq![Effect::Pause, Effect::Publish])
        } else if sink_empty && self.current_index is None {
            (self, self.play_selected().push(Effect::Publish))
        } else {
            (AppView { is_playing: true, ..self }, seq![Effect::Resume, Effect::Publish])
        }
    }

    /// The place after the one that plays, and after the last the first.
    pub open spec fn next_index(self) -> usize {
        match self.current_index {
            Some(i) => ((i + 1) % self.current_list.len() as int) as usize,
            None => 0,
        }
    }

    /// The place before the one that plays, and before the first the last.
    pub open spec fn previous_index(self) -> usize {
        match self.current_index {
            Some(i) => if i == 0 {
                (self.current_list.len() - 1) as usize
            } else {
                (i - 1) as usize
            },
            None => 0,
        }
    }

    /// On to the next song of the current list.
    pub open spec fn next(self) -> (AppView, Seq<Effect>) {
        if self.current_list.len() == 0 {
            (self, seq![])
        } else {
            (
                AppView { current_selected: Some(self.next_index()), ..self },
                self.play_index(self.next_index()),
            )
        }
    }

    /// Back to the song before in the current list.
    pub open spec fn previous(self) -> (AppView, Seq<Effect>) {
        if self.current_list.len() == 0 {
            (self, seq![])
        } else {
            (
                AppView { current_selected: Some(self.previous_index()), ..self },
                self.play_index(self.previous_index()),
            )
        }
    }

    /// The sound has stopped and what was played is forgotten; the place in the list is kept.
    pub open spec fn stop(self) -> (AppView, Seq<Effect>) {
        (
            AppView { is_playing: false, playing_song: None, ..self },
            seq![Effect::Stop, Effect::Publish],
        )
    }

    pub open spec fn toggle_loop(self) -> (AppView, Seq<Effect>) {
        (AppView { loop_mode: !self.loop_mode, ..self }, seq![Effect::Publish])
    }

    /// A song has ended: it is played again in loop mode, else the next one is.
    pub open spec fn update(self, sink_empty: bool) -> (AppView, Seq<Effect>) {
        if self.is_playing && sink_empty {
            if self.loop_mode {
                (
                    self,
                    match self.current_index {
                        Some(i) => self.play_index(i),
                        None => seq![],
                    },
                )
            } else {
                self.next()
            }
        } else {
            (self, seq![])
        }
    }

    /// The songs that the active name stands for, in their own order; where it stands for none, the
    /// current list as it is.
    pub open spec fn active_songs(self) -> Seq<SongView> {
        if self.active_playlist_name == "Library"@ {
            self.library
        } else if self.playlists.contains_key(self.active_playlist_name) {
            self.playlists[self.active_playlist_name]
        } else {
            self.current_list
        }
    }

    /// The current list put in the order `order`; the song that plays is followed.
    pub open spec fn reordered(self, order: Seq<SongView>) -> AppView {
        (AppView { current_list: order, ..self }).follow_playing()
    }

    /// Shuffling turned on, which puts the current list in the order `order`, or off, which puts it
    /// back in its own.
    pub open spec fn toggle_shuffle(self, order: Seq<SongView>) -> (AppView, Seq<Effect>) {
        let next = AppView { shuffle_mode: !self.shuffle_mode, ..self };
        (
            next.reordered(
                if next.shuffle_mode {
                    order
                } else {
                    self.active_songs()
                },
            ),
            seq![Effect::Publish],
        )
    }

    /// The list of a name becomes the current list, in the order `order`. What plays goes on; the
    /// place changes only if the list holds the song that plays.
    pub open spec fn activated(self, name: Seq<char>, order: Seq<SongView>) -> AppView {
        (AppView {
            current_list: order,
            active_playlist_name: name,
            current_selected: Some(0usize),
            ..self
        }).follow_playing()
    }

    /// The selected playlist becomes the active one; where songs are shuffled, in the order `order`.
    pub open spec fn switch_active_list(self, order: Seq<SongView>) -> AppView {
        match self.selected_songs() {
            Some(songs) => self.activated(
                self.selected_name()->0,
                arranged(songs, self.shuffle_mode, order),
            ),
            None => self,
        }
    }

    /// The list of a name becomes the current list, in the order `order`, and is played from the
    /// song of a path on.
    pub open spec fn play_from(
        self,
        name: Seq<char>,
        order: Seq<SongView>,
        path: Seq<u8>,
    ) -> (AppView, Seq<Effect>) {
        let next = AppView { active_playlist_name: name, current_list: order, ..self };
        match position_of(order, path) {
            Some(i) => (AppView { current_selected: Some(i), ..next }, next.play_index(i)),
            None => (next, seq![]),
        }
    }
}

/// Calls `rand::seq::SliceRandom::shuffle` with the generator that `rand::rng` gives. It puts the
/// songs in some order: none is lost, added or changed. Which order it is, chance decides.
#[verifier::external_body]
fn shuffle(list: &mut Vec<Song>)
    ensures
        final(list)@.to_multiset() == old(list)@.to_multiset(),
{
    list.shuffle(&mut rand::rng());
}

proof fn lemma_view_multiset(a: Seq<Song>, b: Seq<Song>)
    requires
        a.to_multiset() == b.to_multiset(),
    ensures
        same_songs(songs_view(a), songs_view(b)),
    decreases a.len(),
{
    vstd::seq_lib::to_multiset_len(a);
    vstd::seq_lib::to_multiset_len(b);
    if a.len() == 0 {
        assert(songs_view(a) =~= songs_view(b));
    } else {
        let x = a.last();
        let a1 = a.drop_last();
        assert(a =~= a1.push(x));
        vstd::seq_lib::to_multiset_contains(a, x);
        vstd::seq_lib::to_multiset_contains(b, x);
        assert(a[a.len() - 1] == x);
        assert(a.contains(x));
        let j = b.index_of(x);
        let b1 = b.remove(j);
        vstd::seq_lib::to_multiset_remove(b, j);
        vstd::seq_lib::to_multiset_build(a1, x);
        assert(a1.to_multiset() =~= a.to_multiset().remove(x));
        lemma_view_multiset(a1, b1);
        assert(songs_view(a) =~= songs_view(a1).push(x@));
        assert(songs_view(b1) =~= songs_view(b).remove(j));
        vstd::seq_lib::to_multiset_build(songs_view(a1), x@);
        vstd::seq_lib::to_multiset_remove(songs_view(b), j);
        vstd::seq_lib::to_multiset_contains(songs_view(b), x@);
        assert(songs_view(b)[j] == x@);
        assert(songs_view(b).contains(x@));
        assert(songs_view(b).to_multiset() =~= songs_view(b1).to_multiset().insert(x@));
    }
}

/// Two effects, one after the other.
fn two_effects(first: Effect, second: Effect) -> (res: Vec<Effect>)
    ensures
        res@ == seq![first, second],
{
    let mut res: Vec<Effect> = Vec::new();
    res.push(first);
    res.push(second);
    assert(res@ =~= seq![first, second]);
    res
}

impl App {
    /// What it takes to play the song at a place of the current list.
    pub fn play_index(&self, index: usize) -> (effects: Vec<Effect>)
        ensures
            effects@ == self@.play_index(index),
    {
        if index >= self.current_list.len() {
            no_effects()
        } else {
            one_effect(Effect::Load(index))
        }
    }

    /// What it takes to play the song that is selected in the current list.
    pub fn play_selected(&self) -> (effects: Vec<Effect>)
        ensures
            effects@ == self@.play_selected(),
    {
        match self.current_selected {
            Some(i) => self.play_index(i),
            None => no_effects(),
        }
    }

    /// Takes note that the song at a place of the current list plays, or could not be decoded.
    pub fn song_loaded(&mut self, index: usize, decoded: bool) -> (effects: Vec<Effect>)
        requires
            old(self).wf(),
            index < old(self)@.current_list.len(),
        ensures
            final(self).wf(),
            final(self)@ == old(self)@.song_loaded(index, decoded).0,
            effects@ == old(self)@.song_loaded(index, decoded).1,
    {
        let ghost before = *self;
        if !decoded {
            return no_effects();
        }
        let len: usize = self.current_list.len();
        assert(index < len);
        let song: Song = self.current_list[index].clone();
        assert(before@.current_list[index as int] == song@);
        self.current_index = Some(index);
        self.playing_song = Some(song);
        self.is_playing = true;
        assert(self@ =~= before@.song_loaded(index, decoded).0);
        one_effect(Effect::Publish)
    }

    /// Pauses, or plays on. `sink_empty` says whether the sound that was queued has run out.
    pub fn toggle_playback(&mut self, sink_empty: bool) -> (effects: Vec<Effect>)
        requires
            old(self).wf(),
        ensures
            final(self).wf(),
            final(self)@ == old(self)@.toggle_playback(sink_empty).0,
            effects@ == old(self)@.toggle_playback(sink_empty).1,
    {
        let ghost before = *self;
        if self.is_playing {
            self.is_playing = false;
            assert(self@ =~= before@.toggle_playback(sink_empty).0);
            two_effects(Effect::Pause, Effect::Publish)
        } else if sink_empty && self.current_index.is_none() {
            let mut effects: Vec<Effect> = self.play_selected();
            effects.push(Effect::Publish);
            effects
        } else {
            self.is_playing = true;
            assert(self@ =~= before@.toggle_playback(sink_empty).0);
            two_effects(Effect::Resume, Effect::Publish)
        }
    }

    /// Goes on to the next song of the current list.
    pub fn next(&mut self) -> (effects: Vec<Effect>)
        requires
            old(self).wf(),
        ensures
            final(self).wf(),
            final(self)@ == old(self)@.next().0,
            effects@ == old(self)@.next().1,
    {
        let ghost before = *self;
        let len: usize = self.current_list.len();
        if len == 0 {
            return no_effects();
        }
        let index: usize = match self.current_index {
            Some(i) => (i + 1) % len,
            None => 0,
        };
        let effects: Vec<Effect> = self.play_index(index);
        self.current_selected = Some(index);
        assert(self@ =~= before@.next().0);
        effects
    }

    /// Goes back to the song before in the current list.
    pub fn previous(&mut self) -> (effects: Vec<Effect>)
        requires
            old(self).wf(),
        ensures
            final(self).wf(),
            final(self)@ == old(self)@.previous().0,
            effects@ == old(self)@.previous().1,
    {
        let ghost before = *self;
        let len: usize = self.current_list.len();
        if len == 0 {
            return no_effects();
        }
        let index: usize = match self.current_index {
            Some(i) => if i == 0 {
                len - 1
            } else {
                i - 1
            },
            None => 0,
        };
        let effects: Vec<Effect> = self.play_index(index);
        self.current_selected = Some(index);
        assert(self@ =~= before@.previous().0);
        effects
    }

    /// Forgets what was played.
    pub fn stop(&mut self) -> (effects: Vec<Effect>)
        requires
            old(self).wf(),
        ensures
            final(self).wf(),
            final(self)@ == old(self)@.stop().0,
            effects@ == old(self)@.stop().1,
    {
        let ghost before = *self;
        self.is_playing = false;
        self.playing_song = None;
        assert(self@ =~= before@.stop().0);
        two_effects(Effect::Stop, Effect::Publish)
    }

    /// Turns loop mode on or off.
    pub fn toggle_loop(&mut self) -> (effects: Vec<Effect>)
        requires
            old(self).wf(),
        ensures
            final(self).wf(),
            final(self)@ == old(self)@.toggle_loop().0,
            effects@ == old(self)@.toggle_loop().1,
    {
        let ghost before = *self;
        self.loop_mode = !self.loop_mode;
        assert(self@ =~= before@.toggle_loop().0);
        one_effect(Effect::Publish)
    }

    /// Sees, from time to time, to what is to be played when a song has ended.
    pub fn update(&mut self, sink_empty: bool) -> (effects: Vec<Effect>)
        requires
            old(self).wf(),
        ensures
            final(self).wf(),
            final(self)@ == old(self)@.update(sink_empty).0,
            effects@ == old(self)@.update(sink_empty).1,
    {
        if self.is_playing && sink_empty {
            if self.loop_mode {
                match self.current_index {
                    Some(i) => self.play_index(i),
                    None => no_effects(),
                }
            } else {
                self.next()
            }
        } else {
            no_effects()
        }
    }

    /// Puts the current list in an order that was chosen.
    pub fn reorder(&mut self, order: Vec<Song>)
        requires
            old(self).wf(),
        ensures
            final(self).wf(),
            final(self)@ == old(self)@.reordered(songs_view(order@)),
    {
        let ghost before = *self;
        self.current_list = order;
        assert(self@ =~= (AppView { current_list: songs_view(order@), ..before@ }));
        self.follow_playing();
    }

    /// Turns shuffling on, which puts the current list in an order that chance decides, or off,
    /// which puts it back in its own.
    pub fn toggle_shuffle(&mut self) -> (effects: Vec<Effect>)
        requires
            old(self).wf(),
        ensures
            final(self).wf(),
            final(self)@ == old(self)@.toggle_shuffle(final(self)@.current_list).0,
            effects@ == old(self)@.toggle_shuffle(final(self)@.current_list).1,
            !old(self).shuffle_mode ==> same_songs(
                final(self)@.current_list,
                old(self)@.current_list,
            ),
    {
        let ghost before = *self;
        self.shuffle_mode = !self.shuffle_mode;
        assert(self@ =~= (AppView { shuffle_mode: !before.shuffle_mode, ..before@ }));
        let library: String = "Library".to_string();
        let order: Vec<Song> = if self.shuffle_mode {
            let mut list: Vec<Song> = clone_songs(&self.current_list);
            let ghost l0 = list@;
            shuffle(&mut list);
            proof {
                lemma_view_multiset(list@, l0);
            }
            list
        } else if self.active_playlist_name == library {
            clone_songs(&self.library)
        } else {
            match self.playlists.get(self.active_playlist_name.as_str()) {
                Some(list) => clone_songs(list),
                None => clone_songs(&self.current_list),
            }
        };
        self.reorder(order);
        one_effect(Effect::Publish)
    }

    /// A list as it is to be played: as it stands, or shuffled.
    pub(crate) fn arrange(&self, list: &Vec<Song>) -> (order: Vec<Song>)
        ensures
            !self.shuffle_mode ==> songs_view(order@) == songs_view(list@),
            same_songs(songs_view(order@), songs_view(list@)),
    {
        let mut order: Vec<Song> = clone_songs(list);
        if self.shuffle_mode {
            let ghost l0 = order@;
            shuffle(&mut order);
            proof {
                lemma_view_multiset(order@, l0);
            }
        }
        order
    }

    /// Makes the list of a name the current list, in an order that was chosen.
    pub fn activate(&mut self, name: String, order: Vec<Song>)
        requires
            old(self).wf(),
        ensures
            final(self).wf(),
            final(self)@ == old(self)@.activated(name@, songs_view(order@)),
    {
        let ghost before = *self;
        self.current_list = order;
        self.active_playlist_name = name;
        self.current_selected = Some(0);
        assert(self@ =~= (AppView {
            current_list: songs_view(order@),
            active_playlist_name: name@,
            current_selected: Some(0usize),
            ..before@
        }));
        self.follow_playing();
    }

    /// Makes the selected playlist the active one.
    pub fn switch_active_list(&mut self)
        requires
            old(self).wf(),
        ensures
            final(self).wf(),
            final(self)@ == old(self)@.switch_active_list(final(self)@.current_list),
            old(self)@.selected_songs() matches Some(songs) ==> same_songs(
                final(self)@.current_list,
                songs,
            ),
    {
        let ghost before = *self;
        let p: usize = match self.playlist_selected {
            Some(i) => i,
            None => return,
        };
        assert(before@.playlist_names[p as int] == before.playlist_names@[p as int]@);
        let name: String = self.playlist_names[p].clone();
        let order: Vec<Song> = match self.playlists.get(name.as_str()) {
            Some(list) => self.arrange(list),
            None => return,
        };
        self.activate(name, order);
    }

    /// Makes the list of a name the current list, in an order that was chosen, and plays it from
    /// the song of a path on.
    pub fn play_from(&mut self, name: String, order: Vec<Song>, path: &SongPath) -> (effects: Vec<
        Effect,
    >)
        requires
            old(self).wf(),
        ensures
            final(self).wf(),
            final(self)@ == old(self)@.play_from(name@, songs_view(order@), path@).0,
            effects@ == old(self)@.play_from(name@, songs_view(order@), path@).1,
    {
        let ghost before = *self;
        let index: Option<usize> = find_path(&order, path);
        self.active_playlist_name = name;
        self.current_list = order;
        let ghost next = AppView {
            active_playlist_name: name@,
            current_list: songs_view(order@),
            ..before@
        };
        assert(self@ =~= next);
        match index {
            Some(i) => {
                let effects: Vec<Effect> = self.play_index(i);
                self.current_selected = Some(i);
                assert(self@ =~= (AppView { current_selected: Some(i), ..next }));
                effects
            },
            None => no_effects(),
        }
    }
}

} // verus!
