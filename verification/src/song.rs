//! Songs and lists of songs.

use crate::path::{components, same_path, SongPath};
use crate::sort::{
    key_of, lemma_stable_sort, lemma_stable_sort_map, sort_by_key, stable_sort, with_key,
    Keyed,
};
use crate::text::text_le;
use vstd::prelude::*;
use vstd::std_specs::cmp::PartialEqSpec;

verus! {

/// What is known of a song besides its file.
#[derive(Debug)]
pub struct SongMetadata {
    pub title: String,
    pub artist: String,
    pub album: String,
}

#[verifier::ext_equal]
pub struct MetadataView {
    pub title: Seq<char>,
    pub artist: Seq<char>,
    pub album: Seq<char>,
}

impl View for SongMetadata {
    type V = MetadataView;

    open spec fn view(&self) -> MetadataView {
        MetadataView { title: self.title@, artist: self.artist@, album: self.album@ }
    }
}

impl Clone for SongMetadata {
    fn clone(&self) -> (res: Self)
        ensures
            res@ == self@,
    {
        SongMetadata {
            title: self.title.clone(),
            artist: self.artist.clone(),
            album: self.album.clone(),
        }
    }
}

impl PartialEq for SongMetadata {
    fn eq(&self, other: &Self) -> (res: bool) {
        self.title == other.title && self.artist == other.artist && self.album == other.album
    }
}

impl vstd::std_specs::cmp::PartialEqSpecImpl for SongMetadata {
    open spec fn obeys_eq_spec() -> bool {
        true
    }

    open spec fn eq_spec(&self, other: &Self) -> bool {
        self@ == other@
    }
}

/// A song: its file and what is known of it.
#[derive(Debug)]
pub struct Song {
    pub path: SongPath,
    pub metadata: SongMetadata,
}

#[verifier::ext_equal]
pub struct SongView {
    pub path: Seq<u8>,
    pub metadata: MetadataView,
}

impl View for Song {
    type V = SongView;

    open spec fn view(&self) -> SongView {
        SongView { path: self.path@, metadata: self.metadata@ }
    }
}

impl Clone for Song {
    fn clone(&self) -> (res: Self)
        ensures
            res@ == self@,
    {
        Song { path: self.path.clone(), metadata: self.metadata.clone() }
    }
}

/// Two songs are the same when their paths are, however spelled, and all that is known of them.
pub open spec fn same_song(a: SongView, b: SongView) -> bool {
    same_path(a.path, b.path) && a.metadata == b.metadata
}

impl PartialEq for Song {
    fn eq(&self, other: &Self) -> (res: bool) {
        self.path.same(&other.path) && self.metadata == other.metadata
    }
}

impl vstd::std_specs::cmp::PartialEqSpecImpl for Song {
    open spec fn obeys_eq_spec() -> bool {
        true
    }

    open spec fn eq_spec(&self, other: &Self) -> bool {
        same_song(self@, other@)
    }
}

impl Keyed for Song {
    open spec fn key(&self) -> Seq<char> {
        self@.metadata.title
    }

    fn key_str(&self) -> (res: &str) {
        self.metadata.title.as_str()
    }
}

pub open spec fn songs_view(list: Seq<Song>) -> Seq<SongView> {
    list.map_values(|s: Song| s@)
}

pub open spec fn title_of() -> spec_fn(SongView) -> Seq<char> {
    |s: SongView| s.metadata.title
}

/// Songs in the order of their titles; those of one title keep their order.
pub open spec fn by_title(list: Seq<SongView>) -> Seq<SongView> {
    stable_sort(list, title_of())
}

/// Sorts songs by their titles; those of one title keep their order.
pub fn sort_by_title(list: Vec<Song>) -> (res: Vec<Song>)
    ensures
        songs_view(res@) == by_title(songs_view(list@)),
{
    let ghost all = list@;
    let res: Vec<Song> = sort_by_key(list);
    proof {
        lemma_stable_sort_map(all, |s: Song| s@, key_of::<Song>(), title_of());
    }
    res
}

/// The order by title holds the songs that there are, and puts no title before a lower one.
pub proof fn lemma_by_title(list: Seq<SongView>)
    ensures
        by_title(list).to_multiset() == list.to_multiset(),
        forall|i: int, j: int|
            #![trigger by_title(list)[i], by_title(list)[j]]
            0 <= i <= j < list.len() ==> text_le(
                by_title(list)[i].metadata.title,
                by_title(list)[j].metadata.title,
            ),
{
    lemma_stable_sort(list, title_of());
    let sorted = by_title(list);
    let key = title_of();
    assert forall|i: int, j: int|
        #![trigger sorted[i], sorted[j]]
        0 <= i <= j < list.len() implies text_le(
        sorted[i].metadata.title,
        sorted[j].metadata.title,
    ) by {
        assert(text_le(key(sorted[i]), key(sorted[j])));
    }
}

/// Copies a list of songs.
pub fn clone_songs(list: &Vec<Song>) -> (res: Vec<Song>)
    ensures
        songs_view(res@) == songs_view(list@),
{
    let res: Vec<Song> = list.clone();
    assert forall|i: int| 0 <= i < list@.len() implies #[trigger] songs_view(res@)[i] == songs_view(
        list@,
    )[i] by {
        assert(cloned::<Song>(list@[i], res@[i]));
    }
    assert(songs_view(res@) =~= songs_view(list@));
    res
}

/// Whether the list holds a song that is the same as `song`.
pub open spec fn has_song(list: Seq<SongView>, song: SongView) -> bool {
    exists|i: int| 0 <= i < list.len() && same_song(#[trigger] list[i], song)
}

/// Whether the list holds a song that is the same as `song`.
pub fn contains_song(list: &Vec<Song>, song: &Song) -> (res: bool)
    ensures
        res == has_song(songs_view(list@), song@),
{
    let mut i: usize = 0;
    while i < list.len()
        invariant
            i <= list@.len(),
            forall|k: int| 0 <= k < i ==> !same_song(#[trigger] songs_view(list@)[k], song@),
        decreases list@.len() - i,
    {
        assert(songs_view(list@)[i as int] == list@[i as int]@);
        if list[i] == *song {
            return true;
        }
        i += 1;
    }
    false
}

/// The first place of the list that holds a song of that path.
pub open spec fn position_of(list: Seq<SongView>, path: Seq<u8>) -> Option<usize>
    decreases list.len(),
{
    if list.len() == 0 {
        None
    } else if position_of(list.drop_last(), path) is Some {
        position_of(list.drop_last(), path)
    } else if same_path(list.last().path, path) {
        Some((list.len() - 1) as usize)
    } else {
        None
    }
}

/// Where a position is given it is that of the first song of the path, and where none is given no
/// song has the path.
pub proof fn lemma_position_of(list: Seq<SongView>, path: Seq<u8>)
    requires
        list.len() <= usize::MAX,
    ensures
        match position_of(list, path) {
            Some(i) => i < list.len() && same_path(list[i as int].path, path) && forall|k: int|
                0 <= k < i ==> !same_path((#[trigger] list[k]).path, path),
            None => forall|k: int|
                0 <= k < list.len() ==> !same_path((#[trigger] list[k]).path, path),
        },
    decreases list.len(),
{
    if list.len() > 0 {
        let rest = list.drop_last();
        lemma_position_of(rest, path);
        assert forall|k: int| 0 <= k < rest.len() implies #[trigger] list[k] == rest[k] by {}
        if position_of(rest, path) is None {
            assert forall|k: int| 0 <= k < list.len() - 1 implies !same_path(
                (#[trigger] list[k]).path,
                path,
            ) by {
                assert(!same_path(rest[k].path, path));
            }
        }
    }
}

/// The first place of the list that holds a song of that path.
pub fn find_path(list: &Vec<Song>, path: &SongPath) -> (res: Option<usize>)
    ensures
        res == position_of(songs_view(list@), path@),
        res matches Some(i) ==> i < list@.len(),
{
    let ghost all = songs_view(list@);
    let mut i: usize = 0;
    proof {
        assert(all.take(0) =~= seq![]);
    }
    while i < list.len()
        invariant
            i <= list@.len(),
            all == songs_view(list@),
            position_of(all.take(i as int), path@) is None,
        decreases list@.len() - i,
    {
        assert(all.take(i + 1).drop_last() =~= all.take(i as int));
        assert(all.take(i + 1).last() == list@[i as int]@);
        if list[i].path.same(path) {
            proof {
                lemma_position_prefix(all, path@, i + 1);
            }
            return Some(i);
        }
        i += 1;
    }
    assert(all.take(all.len() as int) =~= all);
    None
}

proof fn lemma_position_prefix(list: Seq<SongView>, path: Seq<u8>, n: int)
    requires
        0 <= n <= list.len(),
        position_of(list.take(n), path) is Some,
    ensures
        position_of(list, path) == position_of(list.take(n), path),
    decreases list.len() - n,
{
    if n == list.len() {
        assert(list.take(n) =~= list);
    } else {
        assert(list.take(n + 1).drop_last() =~= list.take(n));
        lemma_position_prefix(list, path, n + 1);
    }
}

/// Two songs are the same exactly if the components of their paths, their titles, their artists and
/// their albums are.
pub proof fn lemma_same_song(a: SongView, b: SongView)
    ensures
        same_song(a, b) <==> components(a.path) == components(b.path) && a.metadata.title
            == b.metadata.title && a.metadata.artist == b.metadata.artist && a.metadata.album
            == b.metadata.album,
{
}

/// A list holds a song exactly if one of its songs has the components of its path, its title, its
/// artist and its album.
pub proof fn lemma_has_song(list: Seq<SongView>, song: SongView)
    ensures
        has_song(list, song) <==> exists|i: int|
            0 <= i < list.len() && components((#[trigger] list[i]).path) == components(song.path)
                && list[i].metadata == song.metadata,
{
    if has_song(list, song) {
        let i = choose|i: int| 0 <= i < list.len() && same_song(#[trigger] list[i], song);
        assert(components(list[i].path) == components(song.path));
    }
    if exists|i: int|
        0 <= i < list.len() && components((#[trigger] list[i]).path) == components(song.path)
            && list[i].metadata == song.metadata {
        let i = choose|i: int|
            0 <= i < list.len() && components((#[trigger] list[i]).path) == components(song.path)
                && list[i].metadata == song.metadata;
        assert(same_song(list[i], song));
    }
}

/// Songs of one title stand in the order by title as they stood in the list.
pub proof fn lemma_by_title_keeps_order(list: Seq<SongView>, title: Seq<char>)
    ensures
        by_title(list).filter(|s: SongView| s.metadata.title == title) == list.filter(
            |s: SongView| s.metadata.title == title,
        ),
{
    lemma_stable_sort(list, title_of());
    let key = title_of();
    assert(with_key(by_title(list), key, title) == with_key(list, key, title));
    lemma_with_title(list, title);
    lemma_with_title(by_title(list), title);
}

proof fn lemma_with_title(list: Seq<SongView>, title: Seq<char>)
    ensures
        with_key(list, title_of(), title) == list.filter(
            |s: SongView| s.metadata.title == title,
        ),
    decreases list.len(),
{
    reveal(Seq::filter);
    if list.len() > 0 {
        lemma_with_title(list.drop_last(), title);
    }
}

/// What is known of two songs is equal exactly if titles, artists and albums are; the songs are equal
/// exactly if that and the components of their paths are.
pub proof fn lemma_equality(a: Song, b: Song)
    ensures
        a.metadata.eq_spec(&b.metadata) <==> a.metadata.title@ == b.metadata.title@
            && a.metadata.artist@ == b.metadata.artist@ && a.metadata.album@ == b.metadata.album@,
        a.eq_spec(&b) <==> a.metadata.eq_spec(&b.metadata) && components(a.path@) == components(
            b.path@,
        ),
{
}

} // verus!
