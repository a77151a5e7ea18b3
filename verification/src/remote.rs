//! What other programs see of the player, and what they can ask of it.

use crate::app::{song_view, App, AppView, Effect};
use crate::song::{Song, SongView};
use crate::text::text_views;
use vstd::prelude::*;

verus! {

/// What another program asks for.
#[derive(Clone, Copy, Debug, PartialEq, Eq, Structural)]
pub enum ExternalCommand {
    PlayPause,
    Next,
    Previous,
    Stop,
}

/// What is shown to other programs.
#[derive(Debug)]
pub struct SharedState {
    pub is_playing: bool,
    pub current_song: Option<Song>,
    pub loop_mode: bool,
    pub shuffle_mode: bool,
}

#[verifier::ext_equal]
pub struct SharedView {
    pub is_playing: bool,
    pub current_song: Option<SongView>,
    pub loop_mode: bool,
    pub shuffle_mode: bool,
}

impl View for SharedState {
    type V = SharedView;

    open spec fn view(&self) -> SharedView {
        SharedView {
            is_playing: self.is_playing,
            current_song: song_view(self.current_song),
            loop_mode: self.loop_mode,
            shuffle_mode: self.shuffle_mode,
        }
    }
}

fn clone_song(song: &Option<Song>) -> (res: Option<Song>)
    ensures
        song_view(res) == song_view(*song),
{
    match song {
        Some(s) => Some(s.clone()),
        None => None,
    }
}

impl Clone for SharedState {
    fn clone(&self) -> (res: Self)
        ensures
            res@ == self@,
    {
        SharedState {
            is_playing: self.is_playing,
            current_song: clone_song(&self.current_song),
            loop_mode: self.loop_mode,
            shuffle_mode: self.shuffle_mode,
        }
    }
}

impl AppView {
    pub open spec fn shared_state(self) -> SharedView {
        SharedView {
            is_playing: self.is_playing,
            current_song: self.playing_song,
            loop_mode: self.loop_mode,
            shuffle_mode: self.shuffle_mode,
        }
    }

    pub open spec fn handle_command(
        self,
        command: ExternalCommand,
        sink_empty: bool,
    ) -> (AppView, Seq<Effect>) {
        match command {
            ExternalCommand::PlayPause => self.toggle_playback(sink_empty),
            ExternalCommand::Next => self.next(),
            ExternalCommand::Previous => self.previous(),
            ExternalCommand::Stop => self.stop(),
        }
    }
}

impl SharedState {
    /// What is shown before the player has started.
    pub fn idle() -> (res: SharedState)
        ensures
            res@ == (SharedView {
                is_playing: false,
                current_song: None,
                loop_mode: false,
                shuffle_mode: false,
            }),
    {
        SharedState { is_playing: false, current_song: None, loop_mode: false, shuffle_mode: false }
    }
}

impl App {
    /// What is to be shown to other programs.
    pub fn sync_shared_state(&self) -> (res: SharedState)
        ensures
            res@ == self@.shared_state(),
    {
        SharedState {
            is_playing: self.is_playing,
            current_song: clone_song(&self.playing_song),
            loop_mode: self.loop_mode,
            shuffle_mode: self.shuffle_mode,
        }
    }

    /// Does what another program asks for.
    pub fn handle_command(&mut self, command: ExternalCommand, sink_empty: bool) -> (effects: Vec<
        Effect,
    >)
        requires
            old(self).wf(),
        ensures
            final(self).wf(),
            final(self)@ == old(self)@.handle_command(command, sink_empty).0,
            effects@ == old(self)@.handle_command(command, sink_empty).1,
    {
        match command {
            ExternalCommand::PlayPause => self.toggle_playback(sink_empty),
            ExternalCommand::Next => self.next(),
            ExternalCommand::Previous => self.previous(),
            ExternalCommand::Stop => self.stop(),
        }
    }
}

#[derive(Clone, Copy, Debug, PartialEq, Eq, Structural)]
pub enum Playback {
    Playing,
    Paused,
}

#[derive(Clone, Copy, Debug, PartialEq, Eq, Structural)]
pub enum Repeat {
    Track,
    Off,
}

/// What is known of the track that plays. The track's identifier is always the same.
#[derive(Debug)]
pub struct TrackMetadata {
    pub title: Option<String>,
    pub artist: Option<Vec<String>>,
    pub album: Option<String>,
    pub track_id: String,
}

#[verifier::ext_equal]
pub struct TrackView {
    pub title: Option<Seq<char>>,
    pub artist: Option<Seq<Seq<char>>>,
    pub album: Option<Seq<char>>,
    pub track_id: Seq<char>,
}

impl View for TrackMetadata {
    type V = TrackView;

    open spec fn view(&self) -> TrackView {
        TrackView {
            title: match self.title {
                Some(s) => Some(s@),
                None => None,
            },
            artist: match self.artist {
                Some(v) => Some(text_views(v@)),
                None => None,
            },
            album: match self.album {
                Some(s) => Some(s@),
                None => None,
            },
            track_id: self.track_id@,
        }
    }
}

impl SharedView {
    pub open spec fn playback(self) -> Playback {
        if self.is_playing {
            Playback::Playing
        } else {
            Playback::Paused
        }
    }

    pub open spec fn repeat(self) -> Repeat {
        if self.loop_mode {
            Repeat::Track
        } else {
            Repeat::Off
        }
    }

    pub open spec fn track(self) -> TrackView {
        let track_id = "/org/mpris/MediaPlayer2/Track/0"@;
        match self.current_song {
            Some(song) => TrackView {
                title: Some(song.metadata.title),
                artist: Some(seq![song.metadata.artist]),
                album: Some(song.metadata.album),
                track_id,
            },
            None => TrackView { title: None, artist: None, album: None, track_id },
        }
    }
}

impl SharedState {
    pub fn playback(&self) -> (res: Playback)
        ensures
            res == self@.playback(),
    {
        if self.is_playing {
            Playback::Playing
        } else {
            Playback::Paused
        }
    }

    pub fn repeat(&self) -> (res: Repeat)
        ensures
            res == self@.repeat(),
    {
        if self.loop_mode {
            Repeat::Track
        } else {
            Repeat::Off
        }
    }

    /// What is known of the track that plays.
    pub fn track(&self) -> (res: TrackMetadata)
        ensures
            res@ == self@.track(),
    {
        let track_id: String = "/org/mpris/MediaPlayer2/Track/0".to_string();
        match &self.current_song {
            Some(song) => {
                let mut artist: Vec<String> = Vec::new();
                artist.push(song.metadata.artist.clone());
                assert(text_views(artist@) =~= seq![song@.metadata.artist]);
                TrackMetadata {
                    title: Some(song.metadata.title.clone()),
                    artist: Some(artist),
                    album: Some(song.metadata.album.clone()),
                    track_id,
                }
            },
            None => TrackMetadata { title: None, artist: None, album: None, track_id },
        }
    }
}

} // verus!
