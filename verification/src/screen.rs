//! What the screen shows.

use crate::app::{App, AppView, InputMode};
use crate::search::songs_at;
use crate::song::{songs_view, Song, SongView};
use crate::text::text_views;
use vstd::prelude::*;

verus! {

/// A row of the playlists: a name, and whether it is that of the active playlist.
#[derive(Debug)]
pub struct PlaylistRow {
    pub name: String,
    pub active: bool,
}

#[verifier::ext_equal]
pub struct RowView {
    pub name: Seq<char>,
    pub active: bool,
}

impl View for PlaylistRow {
    type V = RowView;

    open spec fn view(&self) -> RowView {
        RowView { name: self.name@, active: self.active }
    }
}

/// The texts of the screen.
#[derive(Debug)]
pub struct Screen {
    pub header: String,
    pub playlists: Vec<PlaylistRow>,
    pub library: Vec<String>,
    pub content_title: String,
    pub content: Vec<String>,
    pub playing: String,
    pub active: String,
    pub loop_mode: String,
    pub shuffle_mode: String,
    pub status: String,
}

#[verifier::ext_equal]
pub struct ScreenView {
    pub header: Seq<char>,
    pub playlists: Seq<RowView>,
    pub library: Seq<Seq<char>>,
    pub content_title: Seq<char>,
    pub content: Seq<Seq<char>>,
    pub playing: Seq<char>,
    pub active: Seq<char>,
    pub loop_mode: Seq<char>,
    pub shuffle_mode: Seq<char>,
    pub status: Seq<char>,
}

impl View for Screen {
    type V = ScreenView;

    open spec fn view(&self) -> ScreenView {
        ScreenView {
            header: self.header@,
            playlists: self.playlists@.map_values(|r: PlaylistRow| r@),
            library: text_views(self.library@),
            content_title: self.content_title@,
            content: text_views(self.content@),
            playing: self.playing@,
            active: self.active@,
            loop_mode: self.loop_mode@,
            shuffle_mode: self.shuffle_mode@,
            status: self.status@,
        }
    }
}

/// Artist and title.
pub open spec fn song_label(song: SongView) -> Seq<char> {
    song.metadata.artist + " - "@ + song.metadata.title
}

/// Artist, title and album.
pub open spec fn library_label(song: SongView) -> Seq<char> {
    song_label(song) + " ("@ + song.metadata.album + ")"@
}

pub open spec fn on_off(on: bool) -> Seq<char> {
    if on {
        "ON"@
    } else {
        "OFF"@
    }
}

impl AppView {
    /// The head line: the text being typed and what it is for, or the name of the player.
    pub open spec fn header(self) -> Seq<char> {
        match self.input_mode {
            InputMode::NamingPlaylist => "New Playlist: "@ + self.input + "_"@,
            InputMode::RenamingPlaylist => "Rename Playlist: "@ + self.input + "_"@,
            InputMode::Searching => "Search Library: "@ + self.input + "_"@,
            InputMode::Normal => "Lightweight Audio Manager Panel, aka lamp"@,
        }
    }

    pub open spec fn screen(self) -> ScreenView {
        let active = self.active_playlist_name;
        ScreenView {
            header: self.header(),
            playlists: self.playlist_names.map_values(
                |n: Seq<char>| RowView { name: n, active: active == n },
            ),
            library: self.filtered().map_values(|s: SongView| library_label(s)),
            content_title: match self.selected_name() {
                Some(name) => " Content: "@ + name + " "@,
                None => " Playlist Content "@,
            },
            content: match self.selected_songs() {
                Some(songs) => songs.map_values(|s: SongView| song_label(s)),
                None => seq![],
            },
            playing: match self.playing_song {
                Some(song) => song_label(song),
                None => "None"@,
            },
            active,
            loop_mode: on_off(self.loop_mode),
            shuffle_mode: on_off(self.shuffle_mode),
            status: if self.is_playing {
                "▶ Playing"@
            } else {
                "⏸ Paused"@
            },
        }
    }
}

fn join3(a: &str, b: &str, c: &str) -> (res: String)
    ensures
        res@ == a@ + b@ + c@,
{
    let mut res: String = a.to_string();
    res.append(b);
    res.append(c);
    res
}

fn song_label_exec(song: &Song) -> (res: String)
    ensures
        res@ == song_label(song@),
{
    join3(song.metadata.artist.as_str(), " - ", song.metadata.title.as_str())
}

fn library_label_exec(song: &Song) -> (res: String)
    ensures
        res@ == library_label(song@),
{
    let mut res: String = song_label_exec(song);
    res.append(" (");
    res.append(song.metadata.album.as_str());
    res.append(")");
    res
}

fn on_off_exec(on: bool) -> (res: String)
    ensures
        res@ == on_off(on),
{
    if on {
        "ON".to_string()
    } else {
        "OFF".to_string()
    }
}

impl App {
    /// The head line.
    pub fn header(&self) -> (res: String)
        ensures
            res@ == self@.header(),
    {
        let text: &str = self.input.as_str();
        match self.input_mode {
            InputMode::NamingPlaylist => join3("New Playlist: ", text, "_"),
            InputMode::RenamingPlaylist => join3("Rename Playlist: ", text, "_"),
            InputMode::Searching => join3("Search Library: ", text, "_"),
            InputMode::Normal => "Lightweight Audio Manager Panel, aka lamp".to_string(),
        }
    }

    fn playlist_rows(&self) -> (res: Vec<PlaylistRow>)
        ensures
            res@.map_values(|r: PlaylistRow| r@) == self@.screen().playlists,
    {
        let mut res: Vec<PlaylistRow> = Vec::new();
        let mut i: usize = 0;
        while i < self.playlist_names.len()
            invariant
                i <= self.playlist_names@.len(),
                res@.len() == i,
                forall|k: int|
                    0 <= k < i ==> (#[trigger] res@[k])@ == (RowView {
                        name: self.playlist_names@[k]@,
                        active: self.active_playlist_name@ == self.playlist_names@[k]@,
                    }),
            decreases self.playlist_names@.len() - i,
        {
            let name: String = self.playlist_names[i].clone();
            let active: bool = self.active_playlist_name == name;
            res.push(PlaylistRow { name, active });
            i += 1;
        }
        assert(res@.map_values(|r: PlaylistRow| r@) =~= self@.screen().playlists);
        res
    }

    fn library_rows(&self) -> (res: Vec<String>)
        ensures
            text_views(res@) == self@.screen().library,
            self@.shows_all_unsearched(),
    {
        let places: Vec<usize> = self.filtered_library();
        let mut res: Vec<String> = Vec::new();
        let mut i: usize = 0;
        while i < places.len()
            invariant
                i <= places@.len(),
                forall|k: int| 0 <= k < places@.len() ==> #[trigger] places@[k] < self@.library.len(),
                res@.len() == i,
                forall|k: int|
                    0 <= k < i ==> (#[trigger] res@[k])@ == library_label(
                        self@.library[places@[k] as int],
                    ),
            decreases places@.len() - i,
        {
            let at: usize = places[i];
            assert(self@.library[at as int] == self.library@[at as int]@);
            res.push(library_label_exec(&self.library[at]));
            i += 1;
        }
        proof {
            let shown = songs_at(self@.library, places@);
            assert(text_views(res@) =~= shown.map_values(|s: SongView| library_label(s)));
        }
        res
    }

    fn content_rows(&self) -> (res: Vec<String>)
        requires
            self.wf(),
        ensures
            text_views(res@) == self@.screen().content,
    {
        let mut res: Vec<String> = Vec::new();
        assert(text_views(res@) =~= seq![]);
        let p: usize = match self.playlist_selected {
            Some(p) => p,
            None => return res,
        };
        assert(self@.playlist_names[p as int] == self.playlist_names@[p as int]@);
        match self.playlists.get(self.playlist_names[p].as_str()) {
            Some(list) => {
                let mut i: usize = 0;
                while i < list.len()
                    invariant
                        i <= list@.len(),
                        res@.len() == i,
                        forall|k: int|
                            0 <= k < i ==> (#[trigger] res@[k])@ == song_label(list@[k]@),
                    decreases list@.len() - i,
                {
                    res.push(song_label_exec(&list[i]));
                    i += 1;
                }
                assert(text_views(res@) =~= songs_view(list@).map_values(
                    |s: SongView| song_label(s),
                ));
                res
            },
            None => res,
        }
    }

    /// The texts of the screen.
    pub fn screen(&self) -> (res: Screen)
        requires
            self.wf(),
        ensures
            res@ == self@.screen(),
            self@.shows_all_unsearched(),
    {
        let content_title: String = match self.playlist_selected {
            Some(p) => {
                assert(self@.playlist_names[p as int] == self.playlist_names@[p as int]@);
                join3(" Content: ", self.playlist_names[p].as_str(), " ")
            },
            None => " Playlist Content ".to_string(),
        };
        let playing: String = match &self.playing_song {
            Some(song) => song_label_exec(song),
            None => "None".to_string(),
        };
        let status: String = if self.is_playing {
            "▶ Playing".to_string()
        } else {
            "⏸ Paused".to_string()
        };
        let res = Screen {
            header: self.header(),
            playlists: self.playlist_rows(),
            library: self.library_rows(),
            content_title,
            content: self.content_rows(),
            playing,
            active: self.active_playlist_name.clone(),
            loop_mode: on_off_exec(self.loop_mode),
            shuffle_mode: on_off_exec(self.shuffle_mode),
            status,
        };
        assert(res@ =~= self@.screen());
        res
    }
}

} // verus!
