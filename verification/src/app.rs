//! The state of the player.

use crate::song::{by_title, clone_songs, contains_song, has_song, sort_by_title, songs_view};
use crate::song::{Song, SongView};
use crate::sort::{by_name, lemma_stable_sort, name_itself, names_sorted, sort_names};
use crate::text::text_views;
use vstd::hash_map::StringHashMap;
use vstd::prelude::*;

verus! {

/// The pane that the keys go to.
#[derive(Clone, Copy, Debug, PartialEq, Eq, Structural)]
pub enum Focus {
    Playlists,
    Library,
    PlaylistContent,
}

/// What typed text is for.
#[derive(Clone, Copy, Debug, PartialEq, Eq, Structural)]
pub enum InputMode {
    Normal,
    NamingPlaylist,
    RenamingPlaylist,
    Searching,
}

/// What is to be done outside of the state, in the order of a list of these.
#[derive(Clone, Copy, Debug, PartialEq, Eq, Structural)]
pub enum Effect {
    /// Leave the program.
    Quit,
    /// Write the playlists down.
    Save,
    /// Pause the sound.
    Pause,
    /// Let the sound go on.
    Resume,
    /// Stop the sound and drop what is queued.
    Stop,
    /// Open and decode the song at that place of the current list; say with `song_loaded` how it
    /// went, once a song that could be decoded plays.
    Load(usize),
    /// Publish the shared state.
    Publish,
    /// Raise the volume.
    VolumeUp,
    /// Lower the volume.
    VolumeDown,
}

/// The state of the player.
pub struct App {
    pub library: Vec<Song>,
    pub library_selected: Option<usize>,
    pub playlists: StringHashMap<Vec<Song>>,
    pub playlist_names: Vec<String>,
    pub playlist_selected: Option<usize>,
    pub current_list: Vec<Song>,
    pub current_selected: Option<usize>,
    pub active_playlist_name: String,
    pub current_index: Option<usize>,
    pub playing_song: Option<Song>,
    pub is_playing: bool,
    pub loop_mode: bool,
    pub shuffle_mode: bool,
    pub focus: Focus,
    pub input_mode: InputMode,
    pub input: String,
    pub search_query: String,
    pub content_selected: Option<usize>,
}

/// The state of the player, as values.
#[verifier::ext_equal]
pub struct AppView {
    /// All songs, in the order of their titles.
    pub library: Seq<SongView>,
    /// The place selected in the library, among the songs that match the search.
    pub library_selected: Option<usize>,
    /// The songs of each playlist.
    pub playlists: Map<Seq<char>, Seq<SongView>>,
    /// The names of the playlists, as they are shown.
    pub playlist_names: Seq<Seq<char>>,
    /// The place selected among the names.
    pub playlist_selected: Option<usize>,
    /// The songs that are played one after the other.
    pub current_list: Seq<SongView>,
    /// The place selected in the current list.
    pub current_selected: Option<usize>,
    /// The name of the playlist that the current list came from.
    pub active_playlist_name: Seq<char>,
    /// The place from which the current list goes on: that of the song that plays, where the list
    /// holds it, else the place that it was given last.
    pub current_index: Option<usize>,
    /// The song that plays, which need not be of the current list.
    pub playing_song: Option<SongView>,
    pub is_playing: bool,
    pub loop_mode: bool,
    pub shuffle_mode: bool,
    pub focus: Focus,
    pub input_mode: InputMode,
    /// The text being typed.
    pub input: Seq<char>,
    /// The text that the library is searched for.
    pub search_query: Seq<char>,
    /// The place selected in the playlist that is selected.
    pub content_selected: Option<usize>,
}

pub open spec fn playlists_view(m: Map<Seq<char>, Vec<Song>>) -> Map<Seq<char>, Seq<SongView>> {
    m.map_values(|v: Vec<Song>| songs_view(v@))
}

pub open spec fn song_view(song: Option<Song>) -> Option<SongView> {
    match song {
        Some(s) => Some(s@),
        None => None,
    }
}

impl View for App {
    type V = AppView;

    open spec fn view(&self) -> AppView {
        AppView {
            library: songs_view(self.library@),
            library_selected: self.library_selected,
            playlists: playlists_view(self.playlists@),
            playlist_names: text_views(self.playlist_names@),
            playlist_selected: self.playlist_selected,
            current_list: songs_view(self.current_list@),
            current_selected: self.current_selected,
            active_playlist_name: self.active_playlist_name@,
            current_index: self.current_index,
            playing_song: song_view(self.playing_song),
            is_playing: self.is_playing,
            loop_mode: self.loop_mode,
            shuffle_mode: self.shuffle_mode,
            focus: self.focus,
            input_mode: self.input_mode,
            input: self.input@,
            search_query: self.search_query@,
            content_selected: self.content_selected,
        }
    }
}

/// A selection that can be moved on by one.
pub open spec fn can_advance(selected: Option<usize>) -> bool {
    selected matches Some(i) ==> i < usize::MAX
}

impl AppView {
    /// What holds in every state: the names are in order, no playlist lacks its name, the selected
    /// name is there, and every selection can be moved on.
    pub open spec fn wf(self) -> bool {
        &&& names_sorted(self.playlist_names)
        &&& forall|k: Seq<char>| #[trigger]
            self.playlists.contains_key(k) ==> self.playlist_names.contains(k)
        &&& self.playlist_selected matches Some(i) ==> i < self.playlist_names.len()
        &&& can_advance(self.library_selected)
        &&& can_advance(self.content_selected)
        &&& can_advance(self.current_index)
    }

    /// The name of the playlist that is selected.
    pub open spec fn selected_name(self) -> Option<Seq<char>> {
        match self.playlist_selected {
            Some(i) => Some(self.playlist_names[i as int]),
            None => None,
        }
    }

    /// The songs of the playlist that is selected, where there is such a playlist.
    pub open spec fn selected_songs(self) -> Option<Seq<SongView>> {
        match self.selected_name() {
            Some(name) => if self.playlists.contains_key(name) {
                Some(self.playlists[name])
            } else {
                None
            },
            None => None,
        }
    }
}

impl App {
    /// See `AppView::wf`.
    pub open spec fn wf(&self) -> bool {
        self@.wf()
    }
}

/// Playlists as they are written down: each name with its songs.
pub struct SavedPlaylists {
    pub playlists: Vec<(String, Vec<Song>)>,
}

impl View for SavedPlaylists {
    type V = Seq<(Seq<char>, Seq<SongView>)>;

    open spec fn view(&self) -> Seq<(Seq<char>, Seq<SongView>)> {
        self.playlists@.map_values(|p: (String, Vec<Song>)| (p.0@, songs_view(p.1@)))
    }
}

/// The playlists that were written down; of two with one name the later counts.
pub open spec fn loaded(saved: Seq<(Seq<char>, Seq<SongView>)>) -> Map<Seq<char>, Seq<SongView>>
    decreases saved.len(),
{
    if saved.len() == 0 {
        Map::empty()
    } else {
        loaded(saved.drop_last()).insert(saved.last().0, saved.last().1)
    }
}

/// An album that gets a playlist of its own.
pub open spec fn is_album(name: Seq<char>) -> bool {
    name != "N/A"@ && name != "Single"@
}

/// The playlists with a song added to that of its album, which is made where there is none. A song
/// that is there already is not added again.
pub open spec fn with_album_song(
    m: Map<Seq<char>, Seq<SongView>>,
    song: SongView,
) -> Map<Seq<char>, Seq<SongView>> {
    let album = song.metadata.album;
    if is_album(album) {
        let list = if m.contains_key(album) {
            m[album]
        } else {
            seq![]
        };
        m.insert(
            album,
            if has_song(list, song) {
                list
            } else {
                list.push(song)
            },
        )
    } else {
        m
    }
}

/// The playlists with every song of a list added to that of its album, in the order of the list.
pub open spec fn with_albums(
    m: Map<Seq<char>, Seq<SongView>>,
    songs: Seq<SongView>,
) -> Map<Seq<char>, Seq<SongView>>
    decreases songs.len(),
{
    if songs.len() == 0 {
        m
    } else {
        with_album_song(with_albums(m, songs.drop_last()), songs.last())
    }
}

/// The names of the playlists, each once.
pub open spec fn names_keys(names: Seq<Seq<char>>, m: Map<Seq<char>, Seq<SongView>>) -> bool {
    &&& names.no_duplicates()
    &&& forall|k: Seq<char>| #[trigger] names.contains(k) <==> m.contains_key(k)
}

/// The first place of a list that is not empty.
pub open spec fn first_place(len: nat) -> Option<usize> {
    if len > 0 {
        Some(0usize)
    } else {
        None
    }
}

/// The state at the start, with the names of the playlists in the order `names`.
pub open spec fn initial(
    songs: Seq<SongView>,
    saved: Seq<(Seq<char>, Seq<SongView>)>,
    names: Seq<Seq<char>>,
) -> AppView {
    let library = by_title(songs);
    AppView {
        library,
        library_selected: first_place(library.len()),
        playlists: with_albums(loaded(saved), library),
        playlist_names: names,
        playlist_selected: first_place(names.len()),
        current_list: library,
        current_selected: first_place(library.len()),
        active_playlist_name: "Library"@,
        current_index: None,
        playing_song: None,
        is_playing: false,
        loop_mode: false,
        shuffle_mode: false,
        focus: Focus::Library,
        input_mode: InputMode::Normal,
        input: seq![],
        search_query: seq![],
        content_selected: None,
    }
}

pub(crate) proof fn lemma_playlists_insert(
    m: Map<Seq<char>, Vec<Song>>,
    name: Seq<char>,
    songs: Vec<Song>,
)
    ensures
        playlists_view(m.insert(name, songs)) == playlists_view(m).insert(name, songs_view(songs@)),
{
    assert(playlists_view(m.insert(name, songs)) =~= playlists_view(m).insert(
        name,
        songs_view(songs@),
    ));
}

pub(crate) proof fn lemma_playlists_remove(m: Map<Seq<char>, Vec<Song>>, name: Seq<char>)
    ensures
        playlists_view(m.remove(name)) == playlists_view(m).remove(name),
{
    assert(playlists_view(m.remove(name)) =~= playlists_view(m).remove(name));
}

pub(crate) proof fn lemma_text_views_push(names: Seq<String>, name: String)
    ensures
        text_views(names.push(name)) == text_views(names).push(name@),
{
    assert(text_views(names.push(name)) =~= text_views(names).push(name@));
}

/// Puts songs under a name, and the name among the names where it is new.
fn put_playlist(
    playlists: &mut StringHashMap<Vec<Song>>,
    names: &mut Vec<String>,
    name: String,
    songs: Vec<Song>,
)
    requires
        names_keys(text_views(old(names)@), playlists_view(old(playlists)@)),
    ensures
        playlists_view(final(playlists)@) == playlists_view(old(playlists)@).insert(
            name@,
            songs_view(songs@),
        ),
        names_keys(text_views(final(names)@), playlists_view(final(playlists)@)),
{
    let ghost m0 = playlists@;
    let ghost n0 = text_views(names@);
    if !playlists.contains_key(name.as_str()) {
        proof {
            lemma_text_views_push(names@, name);
            let n1 = n0.push(name@);
            assert(!n0.contains(name@));
            assert forall|k: Seq<char>| #[trigger] n1.contains(k) <==> n0.contains(k) || k == name@ by {
                if n0.contains(k) {
                    let i = n0.index_of(k);
                    assert(n1[i] == k);
                }
                assert(n1[n0.len() as int] == name@);
            }
        }
        names.push(name.clone());
    }
    proof {
        lemma_playlists_insert(m0, name@, songs);
    }
    playlists.insert(name, songs);
}

impl App {
    /// The state at the start: the songs that were found, and the playlists that were written down.
    pub fn new(songs: Vec<Song>, saved: SavedPlaylists) -> (res: App)
        ensures
            res.wf(),
            res@ == initial(songs_view(songs@), saved@, res@.playlist_names),
            names_sorted(res@.playlist_names),
            names_keys(res@.playlist_names, res@.playlists),
    {
        let library: Vec<Song> = sort_by_title(songs);
        let ghost lib = songs_view(library@);
        let mut playlists: StringHashMap<Vec<Song>> = StringHashMap::new();
        let mut names: Vec<String> = Vec::new();
        let entries: Vec<(String, Vec<Song>)> = saved.playlists;
        let mut i: usize = 0;
        proof {
            assert(saved@.take(0) =~= seq![]);
            assert(playlists_view(playlists@) =~= Map::empty());
            assert(text_views(names@) =~= seq![]);
        }
        while i < entries.len()
            invariant
                i <= entries@.len(),
                entries@ == saved.playlists@,
                playlists_view(playlists@) == loaded(saved@.take(i as int)),
                names_keys(text_views(names@), playlists_view(playlists@)),
            decreases entries@.len() - i,
        {
            proof {
                assert(saved@.take(i + 1).drop_last() =~= saved@.take(i as int));
            }
            let list: Vec<Song> = clone_songs(&entries[i].1);
            put_playlist(&mut playlists, &mut names, entries[i].0.clone(), list);
            i += 1;
        }
        assert(saved@.take(saved@.len() as int) =~= saved@);
        let mut j: usize = 0;
        assert(lib.take(0) =~= seq![]);
        while j < library.len()
            invariant
                j <= library@.len(),
                lib == songs_view(library@),
                playlists_view(playlists@) == with_albums(loaded(saved@), lib.take(j as int)),
                names_keys(text_views(names@), playlists_view(playlists@)),
            decreases library@.len() - j,
        {
            let song: &Song = &library[j];
            let ghost m = playlists_view(playlists@);
            proof {
                assert(lib.take(j + 1).drop_last() =~= lib.take(j as int));
                assert(lib.take(j + 1).last() == song@);
            }
            let album: String = song.metadata.album.clone();
            let not_known: String = "N/A".to_string();
            let single: String = "Single".to_string();
            if album != not_known && album != single {
                let mut list: Vec<Song> = match playlists.get(album.as_str()) {
                    Some(list) => clone_songs(list),
                    None => Vec::new(),
                };
                let ghost l0 = list@;
                assert(!m.contains_key(album@) ==> songs_view(l0) =~= seq![]);
                if !contains_song(&list, song) {
                    list.push(song.clone());
                    assert(songs_view(list@) =~= songs_view(l0).push(song@));
                }
                put_playlist(&mut playlists, &mut names, album, list);
            }
            j += 1;
        }
        assert(lib.take(lib.len() as int) =~= lib);
        let ghost unsorted = text_views(names@);
        let playlist_names: Vec<String> = sort_names(names);
        proof {
            lemma_stable_sort(unsorted, name_itself());
            lemma_same_names(unsorted, by_name(unsorted));
        }
        let current_list: Vec<Song> = clone_songs(&library);
        let library_selected: Option<usize> = if library.len() > 0 {
            Some(0)
        } else {
            None
        };
        let playlist_selected: Option<usize> = if playlist_names.len() > 0 {
            Some(0)
        } else {
            None
        };
        let current_selected: Option<usize> = if current_list.len() > 0 {
            Some(0)
        } else {
            None
        };
        let res = App {
            library,
            library_selected,
            playlists,
            playlist_names,
            playlist_selected,
            current_list,
            current_selected,
            active_playlist_name: "Library".to_string(),
            current_index: None,
            playing_song: None,
            is_playing: false,
            loop_mode: false,
            shuffle_mode: false,
            focus: Focus::Library,
            input_mode: InputMode::Normal,
            input: String::new(),
            search_query: String::new(),
            content_selected: None,
        };
        assert(res@ =~= initial(songs_view(songs@), saved@, res@.playlist_names));
        res
    }
}

/// Lists with the same items in another order hold the same names, each as often.
pub(crate) proof fn lemma_same_names(a: Seq<Seq<char>>, b: Seq<Seq<char>>)
    requires
        a.to_multiset() == b.to_multiset(),
    ensures
        a.len() == b.len(),
        forall|k: Seq<char>|
            #![trigger a.contains(k)]
            #![trigger b.contains(k)]
            a.contains(k) <==> b.contains(k),
        a.no_duplicates() ==> b.no_duplicates(),
{
    vstd::seq_lib::to_multiset_len(a);
    vstd::seq_lib::to_multiset_len(b);
    assert forall|k: Seq<char>|
        #![trigger a.contains(k)]
        #![trigger b.contains(k)]
        a.contains(k) <==> b.contains(k) by {
        vstd::seq_lib::to_multiset_contains(a, k);
        vstd::seq_lib::to_multiset_contains(b, k);
    }
    if a.no_duplicates() {
        a.lemma_multiset_has_no_duplicates();
        b.lemma_multiset_has_no_duplicates_conv();
    }
}

} // verus!
