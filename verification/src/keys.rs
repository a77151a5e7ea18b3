//! What the keys do.

use crate::app::{App, AppView, Effect, Focus, InputMode};
use crate::playback::{arranged, same_songs};
use crate::playlists::{no_effects, one_effect};
use crate::search::songs_at;
use crate::song::{songs_view, Song, SongView};
use vstd::prelude::*;

verus! {

/// A key that was pressed.
#[derive(Clone, Copy, Debug, PartialEq, Eq, Structural)]
pub enum Key {
    Char(char),
    Enter,
    Esc,
    Backspace,
    Tab,
    Up,
    Down,
    Other,
}

/// The place after a selection, and after the last the first; the first where none is selected.
pub open spec fn place_after(selected: Option<usize>, len: nat) -> usize {
    match selected {
        Some(i) => ((i + 1) % len as int) as usize,
        None => 0,
    }
}

/// The place before a selection, and before the first the last; the first where none is selected.
pub open spec fn place_before(selected: Option<usize>, len: nat) -> usize {
    match selected {
        Some(i) => if i == 0 {
            (len - 1) as usize
        } else {
            (i - 1) as usize
        },
        None => 0,
    }
}

/// The pane after a pane.
pub open spec fn focus_after(focus: Focus) -> Focus {
    match focus {
        Focus::Playlists => Focus::Library,
        Focus::Library => Focus::PlaylistContent,
        Focus::PlaylistContent => Focus::Playlists,
    }
}

impl AppView {
    /// How many rows the pane that the keys go to has; none where it shows no list.
    pub open spec fn rows(self) -> nat {
        match self.focus {
            Focus::Library => self.filtered().len(),
            Focus::Playlists => self.playlist_names.len(),
            Focus::PlaylistContent => match self.selected_songs() {
                Some(songs) => songs.len(),
                None => 0,
            },
        }
    }

    /// What is selected in the pane that the keys go to.
    pub open spec fn selected(self) -> Option<usize> {
        match self.focus {
            Focus::Library => self.library_selected,
            Focus::Playlists => self.playlist_selected,
            Focus::PlaylistContent => self.content_selected,
        }
    }

    /// Another row selected in the pane that the keys go to.
    pub open spec fn with_selected(self, place: usize) -> AppView {
        match self.focus {
            Focus::Library => AppView { library_selected: Some(place), ..self },
            Focus::Playlists => AppView { playlist_selected: Some(place), ..self },
            Focus::PlaylistContent => AppView { content_selected: Some(place), ..self },
        }
    }

    pub open spec fn select_down(self) -> AppView {
        if self.rows() > 0 {
            self.with_selected(place_after(self.selected(), self.rows()))
        } else {
            self
        }
    }

    pub open spec fn select_up(self) -> AppView {
        if self.rows() > 0 {
            self.with_selected(place_before(self.selected(), self.rows()))
        } else {
            self
        }
    }

    /// The list that the enter key makes the current one.
    pub open spec fn entered_list(self) -> Option<Seq<SongView>> {
        match self.focus {
            Focus::Playlists => self.selected_songs(),
            Focus::Library => match self.library_selected {
                Some(i) => if i < self.filtered().len() {
                    Some(self.library)
                } else {
                    None
                },
                None => None,
            },
            Focus::PlaylistContent => match self.content_selected {
                Some(_) => self.selected_songs(),
                None => None,
            },
        }
    }

    /// The enter key: in the playlists the selected one becomes active; in the library and in a
    /// playlist the selected song is played, and with it the list that it was selected in. Where
    /// songs are shuffled the list is put in the order `order`.
    pub open spec fn press_enter(self, order: Seq<SongView>) -> (AppView, Seq<Effect>) {
        match self.entered_list() {
            Some(list) => {
                let played = arranged(list, self.shuffle_mode, order);
                match self.focus {
                    Focus::Playlists => (self.switch_active_list(order), seq![]),
                    Focus::Library => self.play_from(
                        "Library"@,
                        played,
                        self.filtered()[self.library_selected->0 as int].path,
                    ),
                    Focus::PlaylistContent => self.play_from(
                        self.selected_name()->0,
                        played,
                        list[self.content_selected->0 as int].path,
                    ),
                }
            },
            None => (self, seq![]),
        }
    }

    /// The song that is selected in the library added to the playlist that is selected.
    pub open spec fn add_selected(self) -> (AppView, Seq<Effect>) {
        match (self.library_selected, self.selected_name()) {
            (Some(i), Some(name)) => if i < self.filtered().len() {
                self.add_to_playlist(name, self.filtered()[i as int])
            } else {
                (self, seq![])
            },
            _ => (self, seq![]),
        }
    }

    /// A key while text is typed, before the search follows the text.
    pub open spec fn edited(self, key: Key) -> (AppView, Seq<Effect>) {
        match key {
            Key::Enter => {
                let done = AppView { input_mode: InputMode::Normal, ..self };
                let taken = AppView { input: seq![], ..done };
                match self.input_mode {
                    InputMode::NamingPlaylist => taken.create_playlist(self.input),
                    InputMode::RenamingPlaylist => taken.rename_selected_playlist(self.input),
                    _ => (done, seq![]),
                }
            },
            Key::Char(c) => (AppView { input: self.input.push(c), ..self }, seq![]),
            Key::Backspace => (
                AppView {
                    input: if self.input.len() > 0 {
                        self.input.drop_last()
                    } else {
                        self.input
                    },
                    ..self
                },
                seq![],
            ),
            Key::Esc => (
                AppView {
                    search_query: if self.input_mode == InputMode::Searching {
                        seq![]
                    } else {
                        self.search_query
                    },
                    input_mode: InputMode::Normal,
                    ..self
                },
                seq![],
            ),
            _ => (self, seq![]),
        }
    }

    /// A key while text is typed. As long as it is text to search for, the search follows it.
    pub open spec fn type_key(self, key: Key) -> (AppView, Seq<Effect>) {
        let (next, effects) = self.edited(key);
        if next.input_mode == InputMode::Searching {
            (AppView { search_query: next.input, ..next }, effects)
        } else {
            (next, effects)
        }
    }

    /// A key while no text is typed.
    pub open spec fn command_key(
        self,
        key: Key,
        sink_empty: bool,
        order: Seq<SongView>,
    ) -> (AppView, Seq<Effect>) {
        match key {
            Key::Tab => (AppView { focus: focus_after(self.focus), ..self }, seq![]),
            Key::Down => (self.select_down(), seq![]),
            Key::Up => (self.select_up(), seq![]),
            Key::Enter => self.press_enter(order),
            Key::Char(c) => if c == 'q' {
                (self, seq![Effect::Quit])
            } else if c == 'j' {
                (self.select_down(), seq![])
            } else if c == 'k' {
                (self.select_up(), seq![])
            } else if c == ' ' {
                self.toggle_playback(sink_empty)
            } else if c == 'n' {
                self.next()
            } else if c == 'p' {
                self.previous()
            } else if c == 'l' {
                self.toggle_loop()
            } else if c == 's' {
                self.toggle_shuffle(order)
            } else if c == '=' || c == '+' {
                (self, seq![Effect::VolumeUp])
            } else if c == '-' {
                (self, seq![Effect::VolumeDown])
            } else if c == '/' {
                (
                    AppView {
                        input_mode: InputMode::Searching,
                        input: seq![],
                        search_query: seq![],
                        ..self
                    },
                    seq![],
                )
            } else if c == 'c' {
                (AppView { input_mode: InputMode::NamingPlaylist, ..self }, seq![])
            } else if c == 'r' && self.focus == Focus::Playlists {
                (AppView { input_mode: InputMode::RenamingPlaylist, ..self }, seq![])
            } else if c == 'a' {
                self.add_selected()
            } else if c == 'd' && self.focus == Focus::Playlists {
                self.delete_selected_playlist()
            } else if c == '[' && self.focus == Focus::PlaylistContent {
                self.move_song_in_playlist(true)
            } else if c == ']' && self.focus == Focus::PlaylistContent {
                self.move_song_in_playlist(false)
            } else {
                (self, seq![])
            },
            _ => (self, seq![]),
        }
    }

    /// A key. `sink_empty` says whether the sound that was queued has run out; `order` is the order
    /// that chance put a list in, where the key makes that happen.
    pub open spec fn handle_key(
        self,
        key: Key,
        sink_empty: bool,
        order: Seq<SongView>,
    ) -> (AppView, Seq<Effect>) {
        if self.input_mode != InputMode::Normal {
            self.type_key(key)
        } else {
            self.command_key(key, sink_empty, order)
        }
    }

    /// The songs that a key puts in an order: those of the list that becomes the current one, or
    /// of the current one when shuffling is turned on.
    pub open spec fn ordered_by(self, key: Key) -> Option<Seq<SongView>> {
        if self.input_mode != InputMode::Normal {
            None
        } else if key == Key::Enter {
            self.entered_list()
        } else if key == Key::Char('s') && !self.shuffle_mode {
            Some(self.current_list)
        } else {
            None
        }
    }

    /// The key goes by which songs of the library match the search.
    pub open spec fn reads_library(self, key: Key) -> bool {
        self.input_mode == InputMode::Normal && match key {
            Key::Down | Key::Up => self.focus == Focus::Library,
            Key::Enter => self.focus == Focus::Library && self.library_selected is Some,
            Key::Char(c) => if c == 'j' || c == 'k' {
                self.focus == Focus::Library
            } else {
                c == 'a' && self.library_selected is Some
            },
            _ => false,
        }
    }

    /// The song that is selected in the selected playlist is there.
    pub open spec fn content_in_range(self) -> bool {
        match (self.selected_songs(), self.content_selected) {
            (Some(songs), Some(c)) => c < songs.len(),
            _ => true,
        }
    }

    /// The key does not go to a song of the selected playlist that is not there.
    pub open spec fn key_is_safe(self, key: Key) -> bool {
        self.input_mode == InputMode::Normal && self.focus == Focus::PlaylistContent ==> {
            &&& key == Key::Enter ==> self.content_in_range()
            &&& key == Key::Char('[') ==> self.move_is_safe(true)
            &&& key == Key::Char(']') ==> self.move_is_safe(false)
        }
    }
}

fn place_after_exec(selected: Option<usize>, len: usize) -> (res: usize)
    requires
        len > 0,
        selected matches Some(i) ==> i < usize::MAX,
    ensures
        res == place_after(selected, len as nat),
        res < len,
{
    match selected {
        Some(i) => (i + 1) % len,
        None => 0,
    }
}

fn place_before_exec(selected: Option<usize>, len: usize) -> (res: usize)
    requires
        len > 0,
    ensures
        res == place_before(selected, len as nat),
        selected matches Some(i) ==> res < len || res < i,
        selected is None ==> res < len,
{
    match selected {
        Some(i) => if i == 0 {
            len - 1
        } else {
            i - 1
        },
        None => 0,
    }
}

impl App {
    /// How many songs the selected playlist has, where there is such a playlist.
    fn content_len(&self) -> (res: Option<usize>)
        requires
            self.wf(),
        ensures
            match res {
                Some(n) => self@.selected_songs() matches Some(songs) && songs.len() == n,
                None => self@.selected_songs() is None,
            },
    {
        match self.playlist_selected {
            Some(p) => {
                assert(self@.playlist_names[p as int] == self.playlist_names@[p as int]@);
                match self.playlists.get(self.playlist_names[p].as_str()) {
                    Some(list) => {
                        assert(songs_view(list@).len() == list@.len());
                        Some(list.len())
                    },
                    None => None,
                }
            },
            None => None,
        }
    }

    fn rows(&self) -> (res: usize)
        requires
            self.wf(),
        ensures
            res == self@.rows(),
            self.focus == Focus::Library ==> self@.shows_all_unsearched(),
    {
        match self.focus {
            Focus::Library => {
                let places: Vec<usize> = self.filtered_library();
                assert(songs_at(self@.library, places@).len() == places@.len());
                places.len()
            },
            Focus::Playlists => self.playlist_names.len(),
            Focus::PlaylistContent => match self.content_len() {
                Some(n) => n,
                None => 0,
            },
        }
    }

    /// Moves the selection of the pane that the keys go to down by one row.
    pub fn select_down(&mut self)
        requires
            old(self).wf(),
        ensures
            final(self).wf(),
            final(self)@ == old(self)@.select_down(),
            old(self).focus == Focus::Library ==> old(self)@.shows_all_unsearched(),
    {
        let ghost before = *self;
        let rows: usize = self.rows();
        if rows > 0 {
            match self.focus {
                Focus::Library => {
                    self.library_selected = Some(place_after_exec(self.library_selected, rows));
                },
                Focus::Playlists => {
                    self.playlist_selected = Some(place_after_exec(self.playlist_selected, rows));
                },
                Focus::PlaylistContent => {
                    self.content_selected = Some(place_after_exec(self.content_selected, rows));
                },
            }
        }
        assert(self@ =~= before@.select_down());
    }

    /// Moves the selection of the pane that the keys go to up by one row.
    pub fn select_up(&mut self)
        requires
            old(self).wf(),
        ensures
            final(self).wf(),
            final(self)@ == old(self)@.select_up(),
            old(self).focus == Focus::Library ==> old(self)@.shows_all_unsearched(),
    {
        let ghost before = *self;
        let rows: usize = self.rows();
        if rows > 0 {
            match self.focus {
                Focus::Library => {
                    self.library_selected = Some(place_before_exec(self.library_selected, rows));
                },
                Focus::Playlists => {
                    self.playlist_selected = Some(place_before_exec(self.playlist_selected, rows));
                },
                Focus::PlaylistContent => {
                    self.content_selected = Some(place_before_exec(self.content_selected, rows));
                },
            }
        }
        assert(self@ =~= before@.select_up());
    }

    /// The song that is selected among those of the library that match the search.
    fn selected_library_song(&self) -> (res: Option<Song>)
        ensures
            match res {
                Some(song) => self@.library_selected matches Some(i) && i < self@.filtered().len()
                    && self@.filtered()[i as int] == song@,
                None => self@.library_selected matches Some(i) ==> i >= self@.filtered().len(),
            },
            self.library_selected is Some ==> self@.shows_all_unsearched(),
    {
        let i: usize = match self.library_selected {
            Some(i) => i,
            None => return None,
        };
        let places: Vec<usize> = self.filtered_library();
        assert(songs_at(self@.library, places@).len() == places@.len());
        if i < places.len() {
            let at: usize = places[i];
            assert(songs_at(self@.library, places@)[i as int] == self@.library[at as int]);
            assert(self@.library[at as int] == self.library@[at as int]@);
            Some(self.library[at].clone())
        } else {
            None
        }
    }

    /// The enter key.
    pub fn press_enter(&mut self) -> (effects: Vec<Effect>)
        requires
            old(self).wf(),
            old(self).focus == Focus::PlaylistContent ==> old(self)@.content_in_range(),
        ensures
            final(self).wf(),
            final(self)@ == old(self)@.press_enter(final(self)@.current_list).0,
            effects@ == old(self)@.press_enter(final(self)@.current_list).1,
            old(self)@.entered_list() matches Some(list) ==> same_songs(
                final(self)@.current_list,
                list,
            ),
            old(self).focus == Focus::Library && old(self).library_selected is Some ==> old(
                self,
            )@.shows_all_unsearched(),
    {
        let ghost before = *self;
        match self.focus {
            Focus::Playlists => {
                self.switch_active_list();
                no_effects()
            },
            Focus::Library => {
                match self.selected_library_song() {
                    Some(song) => {
                        let order: Vec<Song> = self.arrange(&self.library);
                        self.play_from("Library".to_string(), order, &song.path)
                    },
                    None => no_effects(),
                }
            },
            Focus::PlaylistContent => {
                let p: usize = match self.playlist_selected {
                    Some(p) => p,
                    None => return no_effects(),
                };
                let c: usize = match self.content_selected {
                    Some(c) => c,
                    None => return no_effects(),
                };
                assert(before@.playlist_names[p as int] == before.playlist_names@[p as int]@);
                let name: String = self.playlist_names[p].clone();
                match self.playlists.get(name.as_str()) {
                    Some(list) => {
                        assert(songs_view(list@).len() == list@.len());
                        assert(songs_view(list@)[c as int] == list@[c as int]@);
                        let song: Song = list[c].clone();
                        let order: Vec<Song> = self.arrange(list);
                        self.play_from(name, order, &song.path)
                    },
                    None => no_effects(),
                }
            },
        }
    }

    /// Adds the song that is selected in the library to the playlist that is selected.
    pub fn add_selected(&mut self) -> (effects: Vec<Effect>)
        requires
            old(self).wf(),
        ensures
            final(self).wf(),
            final(self)@ == old(self)@.add_selected().0,
            effects@ == old(self)@.add_selected().1,
            old(self).library_selected is Some ==> old(self)@.shows_all_unsearched(),
    {
        let ghost before = *self;
        match self.selected_library_song() {
            Some(song) => {
                let p: usize = match self.playlist_selected {
                    Some(p) => p,
                    None => return no_effects(),
                };
                assert(before@.playlist_names[p as int] == before.playlist_names@[p as int]@);
                let name: String = self.playlist_names[p].clone();
                self.add_to_playlist(name.as_str(), song)
            },
            None => no_effects(),
        }
    }

    /// A key while text is typed.
    pub fn type_key(&mut self, key: Key) -> (effects: Vec<Effect>)
        requires
            old(self).wf(),
        ensures
            final(self).wf(),
            final(self)@ == old(self)@.type_key(key).0,
            effects@ == old(self)@.type_key(key).1,
    {
        let ghost before = *self;
        let mut effects: Vec<Effect> = no_effects();
        match key {
            Key::Enter => {
                let mode: InputMode = self.input_mode;
                self.input_mode = InputMode::Normal;
                if mode == InputMode::NamingPlaylist {
                    let name: String = self.input.clone();
                    self.input = String::new();
                    assert(self@ =~= (AppView {
                        input: seq![],
                        input_mode: InputMode::Normal,
                        ..before@
                    }));
                    effects = self.create_playlist(name);
                } else if mode == InputMode::RenamingPlaylist {
                    let name: String = self.input.clone();
                    self.input = String::new();
                    assert(self@ =~= (AppView {
                        input: seq![],
                        input_mode: InputMode::Normal,
                        ..before@
                    }));
                    effects = self.rename_selected_playlist(name);
                } else {
                    assert(self@ =~= (AppView { input_mode: InputMode::Normal, ..before@ }));
                }
            },
            Key::Char(c) => {
                self.input.push(c);
            },
            Key::Backspace => {
                let _ = self.input.pop();
            },
            Key::Esc => {
                if self.input_mode == InputMode::Searching {
                    self.search_query = String::new();
                }
                self.input_mode = InputMode::Normal;
            },
            _ => {},
        }
        assert(self@ =~= before@.edited(key).0);
        if self.input_mode == InputMode::Searching {
            self.search_query = self.input.clone();
        }
        assert(self@ =~= before@.type_key(key).0);
        effects
    }

    /// A key while no text is typed.
    pub fn command_key(&mut self, key: Key, sink_empty: bool) -> (effects: Vec<Effect>)
        requires
            old(self).wf(),
            old(self).input_mode == InputMode::Normal,
            old(self)@.key_is_safe(key),
        ensures
            final(self).wf(),
            final(self)@ == old(self)@.command_key(key, sink_empty, final(self)@.current_list).0,
            effects@ == old(self)@.command_key(key, sink_empty, final(self)@.current_list).1,
            old(self)@.ordered_by(key) matches Some(list) ==> same_songs(
                final(self)@.current_list,
                list,
            ),
            old(self)@.reads_library(key) ==> old(self)@.shows_all_unsearched(),
    {
        let ghost before = *self;
        match key {
            Key::Tab => {
                self.focus = match self.focus {
                    Focus::Playlists => Focus::Library,
                    Focus::Library => Focus::PlaylistContent,
                    Focus::PlaylistContent => Focus::Playlists,
                };
                assert(self@ =~= (AppView { focus: focus_after(before.focus), ..before@ }));
                no_effects()
            },
            Key::Down => {
                self.select_down();
                no_effects()
            },
            Key::Up => {
                self.select_up();
                no_effects()
            },
            Key::Enter => self.press_enter(),
            Key::Char(c) => {
                if c == 'q' {
                    one_effect(Effect::Quit)
                } else if c == 'j' {
                    self.select_down();
                    no_effects()
                } else if c == 'k' {
                    self.select_up();
                    no_effects()
                } else if c == ' ' {
                    self.toggle_playback(sink_empty)
                } else if c == 'n' {
                    self.next()
                } else if c == 'p' {
                    self.previous()
                } else if c == 'l' {
                    self.toggle_loop()
                } else if c == 's' {
                    self.toggle_shuffle()
                } else if c == '=' || c == '+' {
                    one_effect(Effect::VolumeUp)
                } else if c == '-' {
                    one_effect(Effect::VolumeDown)
                } else if c == '/' {
                    self.input_mode = InputMode::Searching;
                    self.input = String::new();
                    self.search_query = String::new();
                    assert(self@ =~= (AppView {
                        input_mode: InputMode::Searching,
                        input: seq![],
                        search_query: seq![],
                        ..before@
                    }));
                    no_effects()
                } else if c == 'c' {
                    self.input_mode = InputMode::NamingPlaylist;
                    assert(self@ =~= (AppView {
                        input_mode: InputMode::NamingPlaylist,
                        ..before@
                    }));
                    no_effects()
                } else if c == 'r' && self.focus == Focus::Playlists {
                    self.input_mode = InputMode::RenamingPlaylist;
                    assert(self@ =~= (AppView {
                        input_mode: InputMode::RenamingPlaylist,
                        ..before@
                    }));
                    no_effects()
                } else if c == 'a' {
                    self.add_selected()
                } else if c == 'd' && self.focus == Focus::Playlists {
                    self.delete_selected_playlist()
                } else if c == '[' && self.focus == Focus::PlaylistContent {
                    self.move_song_in_playlist(true)
                } else if c == ']' && self.focus == Focus::PlaylistContent {
                    self.move_song_in_playlist(false)
                } else {
                    no_effects()
                }
            },
            _ => no_effects(),
        }
    }

    /// A key. `sink_empty` says whether the sound that was queued has run out.
    pub fn handle_key(&mut self, key: Key, sink_empty: bool) -> (effects: Vec<Effect>)
        requires
            old(self).wf(),
            old(self)@.key_is_safe(key),
        ensures
            final(self).wf(),
            final(self)@ == old(self)@.handle_key(key, sink_empty, final(self)@.current_list).0,
            effects@ == old(self)@.handle_key(key, sink_empty, final(self)@.current_list).1,
            old(self)@.ordered_by(key) matches Some(list) ==> same_songs(
                final(self)@.current_list,
                list,
            ),
            old(self)@.reads_library(key) ==> old(self)@.shows_all_unsearched(),
    {
        if self.input_mode != InputMode::Normal {
            self.type_key(key)
        } else {
            self.command_key(key, sink_empty)
        }
    }

    /// Whether a key can be handled: it does not go to a song of the selected playlist that is not
    /// there.
    pub fn can_handle(&self, key: Key) -> (res: bool)
        requires
            self.wf(),
        ensures
            res == self@.key_is_safe(key),
    {
        if self.input_mode != InputMode::Normal || self.focus != Focus::PlaylistContent {
            return true;
        }
        let len: usize = match self.content_len() {
            Some(n) => n,
            None => return true,
        };
        let c: usize = match self.content_selected {
            Some(c) => c,
            None => return true,
        };
        match key {
            Key::Enter => c < len,
            Key::Char(ch) => if ch == '[' {
                c == 0 || c < len
            } else if ch == ']' {
                len > 0
            } else {
                true
            },
            _ => true,
        }
    }

    /// Takes over what the screen made of the selections when it drew the lists.
    pub fn sync_selections(
        &mut self,
        playlist: Option<usize>,
        library: Option<usize>,
        content: Option<usize>,
    )
        requires
            old(self).wf(),
            playlist matches Some(i) ==> i < old(self)@.playlist_names.len(),
            library matches Some(i) ==> i < usize::MAX,
            content matches Some(i) ==> i < usize::MAX,
        ensures
            final(self).wf(),
            final(self)@ == (AppView {
                playlist_selected: playlist,
                library_selected: library,
                content_selected: content,
                ..old(self)@
            }),
    {
        let ghost before = *self;
        self.playlist_selected = playlist;
        self.library_selected = library;
        self.content_selected = content;
        assert(self@ =~= (AppView {
            playlist_selected: playlist,
            library_selected: library,
            content_selected: content,
            ..before@
        }));
    }
}

} // verus!
