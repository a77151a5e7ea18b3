//! Searching the library.

use crate::app::{App, AppView};
use crate::song::{songs_view, Song, SongView};
use crate::text::{contains, has_substring, lowercase, lowercase_of};
use vstd::prelude::*;

verus! {

/// A song matches when its title or its artist contains the query, in lower case all of them.
pub open spec fn matches_lower(title: Seq<char>, artist: Seq<char>, query: Seq<char>) -> bool {
    has_substring(title, query) || has_substring(artist, query)
}

/// A song matches a query when its title or its artist contains it, whatever the case of the
/// letters.
pub open spec fn matches_query(song: SongView, query: Seq<char>) -> bool {
    matches_lower(
        lowercase_of(song.metadata.title),
        lowercase_of(song.metadata.artist),
        lowercase_of(query),
    )
}

/// Whether a title or an artist contains a query, all three in lower case.
pub fn title_or_artist_contains(title: &str, artist: &str, query: &str) -> (res: bool)
    ensures
        res == matches_lower(title@, artist@, query@),
        query@.len() == 0 ==> res,
{
    contains(title, query) || contains(artist, query)
}

fn song_matches(song: &Song, lower_query: &str) -> (res: bool)
    ensures
        res == matches_lower(
            lowercase_of(song@.metadata.title),
            lowercase_of(song@.metadata.artist),
            lower_query@,
        ),
        lower_query@.len() == 0 ==> res,
{
    let title: String = lowercase(song.metadata.title.as_str());
    let artist: String = lowercase(song.metadata.artist.as_str());
    title_or_artist_contains(title.as_str(), artist.as_str(), lower_query)
}

/// The songs that stand at the places of a list.
pub open spec fn songs_at(list: Seq<SongView>, places: Seq<usize>) -> Seq<SongView> {
    places.map_values(|i: usize| list[i as int])
}

impl AppView {
    /// The songs of the library that match the search.
    pub open spec fn filtered(self) -> Seq<SongView> {
        let query = self.search_query;
        self.library.filter(|s: SongView| matches_query(s, query))
    }

    /// Where nothing is searched for, the whole library is shown.
    pub open spec fn shows_all_unsearched(self) -> bool {
        self.search_query.len() == 0 ==> self.filtered() == self.library
    }
}

impl App {
    /// The places in the library of the songs that match the search; all of them where no search is
    /// made.
    pub fn filtered_library(&self) -> (res: Vec<usize>)
        ensures
            forall|k: int| 0 <= k < res@.len() ==> #[trigger] res@[k] < self@.library.len(),
            songs_at(self@.library, res@) == self@.filtered(),
            self@.shows_all_unsearched(),
    {
        let mut res: Vec<usize> = Vec::new();
        let ghost lib = songs_view(self.library@);
        let ghost query = self@.search_query;
        let ghost pred = |s: SongView| matches_query(s, query);
        let lower: String = lowercase(self.search_query.as_str());
        let mut i: usize = 0;
        proof {
            reveal(Seq::filter);
            assert(lib.take(0).filter(pred) =~= seq![]);
            assert(songs_at(lib, res@) =~= seq![]);
            assert(lib.take(0) =~= seq![]);
        }
        while i < self.library.len()
            invariant
                i <= self.library@.len(),
                lib == songs_view(self.library@),
                query == self@.search_query,
                pred == (|s: SongView| matches_query(s, query)),
                lower@ == lowercase_of(query),
                query.len() == 0 ==> lower@.len() == 0,
                forall|k: int| 0 <= k < res@.len() ==> #[trigger] res@[k] < lib.len(),
                songs_at(lib, res@) == lib.take(i as int).filter(pred),
                query.len() == 0 ==> lib.take(i as int).filter(pred) == lib.take(i as int),
            decreases self.library@.len() - i,
        {
            proof {
                reveal(Seq::filter);
                assert(lib.take(i + 1).drop_last() =~= lib.take(i as int));
                assert(lib.take(i + 1) =~= lib.take(i as int).push(lib[i as int]));
                assert(lib[i as int] == self.library@[i as int]@);
            }
            if song_matches(&self.library[i], lower.as_str()) {
                let ghost r0 = res@;
                res.push(i);
                assert(songs_at(lib, res@) =~= songs_at(lib, r0).push(lib[i as int]));
            }
            i += 1;
        }
        assert(lib.take(lib.len() as int) =~= lib);
        res
    }
}

/// The songs that a search shows are songs of the library that match it, and every song of the
/// library that matches is shown.
pub proof fn lemma_filtered(app: AppView, song: SongView)
    ensures
        app.filtered().contains(song) <==> app.library.contains(song) && matches_query(
            song,
            app.search_query,
        ),
{
    let query = app.search_query;
    lemma_filter_member(app.library, |s: SongView| matches_query(s, query), song);
}

proof fn lemma_filter_member(list: Seq<SongView>, pred: spec_fn(SongView) -> bool, song: SongView)
    ensures
        list.filter(pred).contains(song) <==> list.contains(song) && pred(song),
    decreases list.len(),
{
    reveal(Seq::filter);
    if list.len() > 0 {
        let rest = list.drop_last();
        let kept = rest.filter(pred);
        lemma_filter_member(rest, pred, song);
        assert(list[list.len() - 1] == list.last());
        if rest.contains(song) {
            assert(list[rest.index_of(song)] == song);
        }
        if list.contains(song) && song != list.last() {
            assert(rest[list.index_of(song)] == song);
        }
        assert(kept.push(list.last())[kept.len() as int] == list.last());
        if kept.contains(song) {
            assert(kept.push(list.last())[kept.index_of(song)] == song);
        }
        if kept.push(list.last()).contains(song) && song != list.last() {
            assert(kept[kept.push(list.last()).index_of(song)] == song);
        }
    }
}

/// A search shows the songs at places of the library that go up: at each the title or the artist has
/// the query in it, all in lower case, and every place at which that holds is among them.
pub open spec fn shown_at(
    shown: Seq<SongView>,
    list: Seq<SongView>,
    query: Seq<char>,
    places: Seq<int>,
) -> bool {
    &&& places.len() == shown.len()
    &&& forall|k: int|
        #![trigger places[k]]
        #![trigger shown[k]]
        0 <= k < places.len() ==> 0 <= places[k] < list.len() && shown[k] == list[places[k]] && (
        has_substring(lowercase_of(shown[k].metadata.title), lowercase_of(query)) || has_substring(
            lowercase_of(shown[k].metadata.artist),
            lowercase_of(query),
        ))
    &&& forall|j: int, k: int|
        #![trigger places[j], places[k]]
        0 <= j < k < places.len() ==> places[j] < places[k]
    &&& forall|i: int|
        0 <= i < list.len() && (has_substring(
            lowercase_of((#[trigger] list[i]).metadata.title),
            lowercase_of(query),
        ) || has_substring(lowercase_of(list[i].metadata.artist), lowercase_of(query)))
            ==> places.contains(i)
}

/// The search shows all songs of the library that have the query in their title or in their artist,
/// whatever the case of the letters, no others, and these in the order of the library.
pub proof fn lemma_search_shows_matches_in_order(app: AppView)
    ensures
        exists|places: Seq<int>| shown_at(app.filtered(), app.library, app.search_query, places),
    decreases app.library.len(),
{
    reveal(Seq::filter);
    let list = app.library;
    let query = app.search_query;
    let pred = |s: SongView| matches_query(s, query);
    let shown = app.filtered();
    if list.len() == 0 {
        assert(shown_at(shown, list, query, Seq::<int>::empty()));
    } else {
        let rest = list.drop_last();
        let last = list.len() - 1;
        let before = AppView { library: rest, ..app };
        lemma_search_shows_matches_in_order(before);
        let old_places = choose|places: Seq<int>| shown_at(before.filtered(), rest, query, places);
        let places = if pred(list.last()) {
            old_places.push(last)
        } else {
            old_places
        };
        assert(list[last] == list.last());
        assert forall|i: int|
            0 <= i < list.len() && (has_substring(
                lowercase_of((#[trigger] list[i]).metadata.title),
                lowercase_of(query),
            ) || has_substring(
                lowercase_of(list[i].metadata.artist),
                lowercase_of(query),
            )) implies places.contains(i) by {
            if i < last {
                assert(rest[i] == list[i]);
                assert(old_places.contains(i));
                assert(places[old_places.index_of(i)] == i);
            } else {
                assert(places[old_places.len() as int] == i);
            }
        }
        assert forall|k: int|
            #![trigger places[k]]
            #![trigger shown[k]]
            0 <= k < places.len() implies 0 <= places[k] < list.len() && shown[k] == list[places[k]]
            && (has_substring(lowercase_of(shown[k].metadata.title), lowercase_of(query))
            || has_substring(lowercase_of(shown[k].metadata.artist), lowercase_of(query))) by {
            if k < old_places.len() {
                assert(places[k] == old_places[k]);
                assert(before.filtered()[k] == rest[old_places[k]]);
            }
        }
        assert forall|j: int, k: int|
            #![trigger places[j], places[k]]
            0 <= j < k < places.len() implies places[j] < places[k] by {
            assert(places[j] == old_places[j]);
            if k < old_places.len() {
                assert(places[k] == old_places[k]);
            }
        }
        assert(shown_at(shown, list, query, places));
    }
}

} // verus!
