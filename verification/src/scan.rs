//! Collecting the library from the files of a directory.

use crate::digest::{calculate_hash, hash_of};
use crate::path::{extension, is_mp3, SongPath};
use crate::song::{songs_view, Song, SongView};
use crate::tags::{extract_metadata, metadata_of, reads_names, tag_of};
use vstd::hash_set::StringHashSet;
use vstd::prelude::*;

verus! {

/// The songs found so far below a directory, and the fingerprints of their files.
pub struct Scan {
    pub root: SongPath,
    pub songs: Vec<Song>,
    pub seen: StringHashSet,
}

#[verifier::ext_equal]
pub struct ScanView {
    pub root: Seq<u8>,
    pub songs: Seq<SongView>,
    pub seen: Set<Seq<char>>,
}

impl View for Scan {
    type V = ScanView;

    open spec fn view(&self) -> ScanView {
        ScanView { root: self.root@, songs: songs_view(self.songs@), seen: self.seen@ }
    }
}

/// A file that was come upon: its path, and its contents where they could be read.
pub struct FileView {
    pub path: Seq<u8>,
    pub contents: Option<Seq<u8>>,
}

/// A file that holds a song: by its name it is one, and it could be read.
pub open spec fn is_song_file(file: FileView) -> bool {
    is_mp3(file.path) && file.contents is Some
}

/// The song that a file below `root` holds.
pub open spec fn song_of(root: Seq<u8>, path: Seq<u8>, contents: Seq<u8>) -> SongView {
    SongView { path, metadata: metadata_of(tag_of(contents), path, root) }
}

impl ScanView {
    /// Nothing found yet.
    pub open spec fn start(root: Seq<u8>) -> ScanView {
        ScanView { root, songs: seq![], seen: Set::empty() }
    }

    /// A song file whose contents are new adds its song; any other file changes nothing.
    pub open spec fn with_file(self, file: FileView) -> ScanView {
        if is_song_file(file) && !self.seen.contains(hash_of(file.contents->0)) {
            ScanView {
                songs: self.songs.push(song_of(self.root, file.path, file.contents->0)),
                seen: self.seen.insert(hash_of(file.contents->0)),
                ..self
            }
        } else {
            self
        }
    }

    /// What is found in the files of a list, one after the other.
    pub open spec fn of_files(root: Seq<u8>, files: Seq<FileView>) -> ScanView
        decreases files.len(),
    {
        if files.len() == 0 {
            ScanView::start(root)
        } else {
            ScanView::of_files(root, files.drop_last()).with_file(files.last())
        }
    }
}

pub open spec fn contents_view(contents: Option<&[u8]>) -> Option<Seq<u8>> {
    match contents {
        Some(c) => Some(c@),
        None => None,
    }
}

impl Scan {
    /// A scan that has found nothing yet.
    pub fn new(root: SongPath) -> (res: Scan)
        ensures
            res@ == ScanView::start(root@),
    {
        let res = Scan { root, songs: Vec::new(), seen: StringHashSet::new() };
        assert(songs_view(res.songs@) =~= seq![]);
        res
    }

    /// Takes in a file that was come upon; `contents` is none where it could not be read.
    pub fn add_file(&mut self, path: &SongPath, contents: Option<&[u8]>)
        ensures
            final(self)@ == old(self)@.with_file(
                (FileView { path: path@, contents: contents_view(contents) }),
            ),
            final(self)@ != old(self)@ ==> reads_names(path@, old(self)@.root),
    {
        if path.is_mp3() {
            if let Some(bytes) = contents {
                let hash: String = calculate_hash(bytes);
                if !self.seen.contains(hash.as_str()) {
                    self.seen.insert(hash);
                    let metadata = extract_metadata(bytes, path, &self.root);
                    let ghost before = self.songs@;
                    let song = Song { path: path.clone(), metadata };
                    self.songs.push(song);
                    assert(songs_view(self.songs@) =~= songs_view(before).push(song@));
                }
            }
        }
    }
}

/// A file whose contents were come upon before adds nothing, wherever it lies.
pub proof fn lemma_copies_add_nothing(scan: ScanView, file: FileView, copy: FileView)
    requires
        is_song_file(file),
        copy.contents == file.contents,
    ensures
        scan.with_file(file).with_file(copy) == scan.with_file(file),
{
}

/// One of the files is a song file of that fingerprint.
pub open spec fn has_hash(files: Seq<FileView>, h: Seq<char>) -> bool {
    exists|i: int|
        0 <= i < files.len() && is_song_file(#[trigger] files[i]) && hash_of(files[i].contents->0)
            == h
}

/// The fingerprint of the file at a place of a list.
pub open spec fn hash_at(files: Seq<FileView>, i: int) -> Seq<char> {
    hash_of(files[i].contents->0)
}

/// The place is that of a song file, and no song file before it has its fingerprint.
pub open spec fn is_first(files: Seq<FileView>, i: int) -> bool {
    &&& 0 <= i < files.len()
    &&& is_song_file(files[i])
    &&& forall|k: int|
        0 <= k < i && is_song_file(#[trigger] files[k]) ==> hash_at(files, k) != hash_at(files, i)
}

/// The songs of a scan are those of the files at `places`, which go up. Each of these files is the
/// first of its fingerprint, so that no two have one fingerprint, and the fingerprints seen are
/// theirs.
pub open spec fn found_at(scan: ScanView, files: Seq<FileView>, places: Seq<int>) -> bool {
    &&& places.len() == scan.songs.len()
    &&& forall|j: int|
        #![trigger places[j]]
        #![trigger scan.songs[j]]
        0 <= j < places.len() ==> is_first(files, places[j]) && scan.songs[j] == song_of(
            scan.root,
            files[places[j]].path,
            files[places[j]].contents->0,
        )
    &&& forall|j: int, k: int|
        #![trigger places[j], places[k]]
        0 <= j < k < places.len() ==> places[j] < places[k] && hash_at(files, places[j]) != hash_at(
            files,
            places[k],
        )
    &&& forall|h: Seq<char>| #[trigger]
        scan.seen.contains(h) <==> exists|j: int|
            0 <= j < places.len() && hash_at(files, #[trigger] places[j]) == h
}

/// The fingerprints seen are those of the song files, and there is exactly one song for each of
/// them: that of the first file that has it, in the order of the files.
pub proof fn lemma_one_song_per_contents(root: Seq<u8>, files: Seq<FileView>)
    ensures
        forall|h: Seq<char>| #[trigger]
            ScanView::of_files(root, files).seen.contains(h) <==> has_hash(files, h),
        ScanView::of_files(root, files).seen.finite(),
        ScanView::of_files(root, files).songs.len() == ScanView::of_files(root, files).seen.len(),
        ScanView::of_files(root, files).root == root,
        exists|places: Seq<int>| found_at(ScanView::of_files(root, files), files, places),
    decreases files.len(),
{
    let scan = ScanView::of_files(root, files);
    if files.len() == 0 {
        assert(found_at(scan, files, Seq::<int>::empty()));
    } else {
        let rest = files.drop_last();
        let before = ScanView::of_files(root, rest);
        lemma_one_song_per_contents(root, rest);
        let last = files.len() - 1;
        assert(files[last] == files.last());
        assert forall|h: Seq<char>| #[trigger] scan.seen.contains(h) <==> has_hash(files, h) by {
            if has_hash(rest, h) {
                let i = choose|i: int|
                    0 <= i < rest.len() && is_song_file(#[trigger] rest[i]) && hash_of(
                        rest[i].contents->0,
                    ) == h;
                assert(files[i] == rest[i]);
            }
            if has_hash(files, h) {
                let i = choose|i: int|
                    0 <= i < files.len() && is_song_file(#[trigger] files[i]) && hash_of(
                        files[i].contents->0,
                    ) == h;
                if i < rest.len() {
                    assert(rest[i] == files[i]);
                }
            }
            assert(before.seen.contains(h) <==> has_hash(rest, h));
        }
        let old_places = choose|places: Seq<int>| found_at(before, rest, places);
        lemma_found_in_more(before, files, old_places);
        if is_song_file(files.last()) && !before.seen.contains(hash_at(files, last)) {
            assert forall|k: int|
                0 <= k < last && is_song_file(#[trigger] files[k]) implies hash_at(files, k)
                != hash_at(files, last) by {
                assert(rest[k] == files[k]);
                assert(has_hash(rest, hash_at(files, k)));
            }
            assert forall|j: int|
                0 <= j < old_places.len() implies #[trigger] old_places[j] < files.len() - 1 by {
                assert(is_first(rest, old_places[j]));
            }
            lemma_found_one_more(before, files, old_places);
            assert(found_at(scan, files, old_places.push(last)));
        } else {
            assert(found_at(scan, files, old_places));
        }
    }
}

/// A file at the end of the list leaves the files before it where they were.
proof fn lemma_found_in_more(scan: ScanView, files: Seq<FileView>, places: Seq<int>)
    requires
        files.len() > 0,
        found_at(scan, files.drop_last(), places),
    ensures
        found_at(scan, files, places),
{
    let rest = files.drop_last();
    assert forall|i: int| is_first(rest, i) implies #[trigger] is_first(files, i) && hash_at(
        files,
        i,
    ) == hash_at(rest, i) by {
        assert forall|k: int| 0 <= k < i && is_song_file(#[trigger] files[k]) implies hash_at(
            files,
            k,
        ) != hash_at(files, i) by {
            assert(rest[k] == files[k]);
        }
    }
    assert forall|j: int| 0 <= j < places.len() implies is_first(files, #[trigger] places[j])
        && hash_at(files, places[j]) == hash_at(rest, places[j]) by {
        assert(is_first(rest, places[j]));
    }
    assert forall|h: Seq<char>| #[trigger] scan.seen.contains(h) <==> exists|j: int|
        0 <= j < places.len() && hash_at(files, #[trigger] places[j]) == h by {
        if scan.seen.contains(h) {
            let j = choose|j: int|
                0 <= j < places.len() && hash_at(rest, #[trigger] places[j]) == h;
            assert(hash_at(files, places[j]) == h);
        }
        if exists|j: int| 0 <= j < places.len() && hash_at(files, #[trigger] places[j]) == h {
            let j = choose|j: int|
                0 <= j < places.len() && hash_at(files, #[trigger] places[j]) == h;
            assert(hash_at(rest, places[j]) == h);
        }
    }
}

/// A song file of a fingerprint not seen is found at the end of the list.
proof fn lemma_found_one_more(scan: ScanView, files: Seq<FileView>, places: Seq<int>)
    requires
        files.len() > 0,
        found_at(scan, files, places),
        forall|j: int| 0 <= j < places.len() ==> #[trigger] places[j] < files.len() - 1,
        is_song_file(files.last()),
        !scan.seen.contains(hash_of(files.last().contents->0)),
        is_first(files, files.len() - 1),
    ensures
        found_at(scan.with_file(files.last()), files, places.push(files.len() - 1)),
{
    let next = scan.with_file(files.last());
    let last = files.len() - 1;
    let more = places.push(last);
    assert forall|j: int|
        0 <= j < places.len() implies hash_at(files, #[trigger] places[j]) != hash_at(
        files,
        last,
    ) by {
        assert(scan.seen.contains(hash_at(files, places[j])));
    }
    assert forall|h: Seq<char>| #[trigger] next.seen.contains(h) <==> exists|j: int|
        0 <= j < more.len() && hash_at(files, #[trigger] more[j]) == h by {
        if scan.seen.contains(h) {
            let j = choose|j: int|
                0 <= j < places.len() && hash_at(files, #[trigger] places[j]) == h;
            assert(more[j] == places[j]);
        }
        assert(more[places.len() as int] == last);
        if exists|j: int| 0 <= j < more.len() && hash_at(files, #[trigger] more[j]) == h {
            let j = choose|j: int| 0 <= j < more.len() && hash_at(files, #[trigger] more[j]) == h;
            if j < places.len() {
                assert(hash_at(files, places[j]) == h);
            }
        }
    }
}

/// A file adds a song exactly if its name ends in the extension `mp3`, it could be read, and the
/// fingerprint of its contents is new. The song has the path of the file, and is known by the tag in
/// the contents and by where the file lies below the root of the scan.
pub proof fn lemma_file_adds_its_song(scan: ScanView, file: FileView)
    ensures
        ({
            let next = scan.with_file(file);
            let adds = extension(file.path) == Some(seq![109u8, 112u8, 51u8])
                && file.contents is Some && !scan.seen.contains(hash_of(file.contents->0));
            &&& next.root == scan.root
            &&& !adds ==> next == scan
            &&& adds ==> next.songs.len() == scan.songs.len() + 1
            &&& adds ==> next.songs.drop_last() == scan.songs
            &&& adds ==> next.songs.last().path == file.path
            &&& adds ==> next.songs.last().metadata == metadata_of(
                tag_of(file.contents->0),
                file.path,
                scan.root,
            )
            &&& adds ==> forall|h: Seq<char>| #[trigger]
                next.seen.contains(h) <==> scan.seen.contains(h) || h == hash_of(file.contents->0)
        }),
{
    let next = scan.with_file(file);
    if is_song_file(file) && !scan.seen.contains(hash_of(file.contents->0)) {
        assert(next.songs.drop_last() =~= scan.songs);
    }
}

/// A scan starts with no songs and nothing seen.
pub proof fn lemma_scan_starts_empty(root: Seq<u8>)
    ensures
        ScanView::start(root).root == root,
        ScanView::start(root).songs.len() == 0,
        forall|h: Seq<char>| !#[trigger] ScanView::start(root).seen.contains(h),
{
}

/// A file that was read is taken in with all of its contents.
pub proof fn lemma_contents_are_whole(contents: Option<&[u8]>)
    ensures
        contents matches Some(bytes) ==> contents_view(contents) == Some(bytes@),
        contents is None ==> contents_view(contents) is None,
{
}

} // verus!
