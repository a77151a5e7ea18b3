use id3::TagLike;
use lamp::digest::{calculate_hash, hex};
use lamp::path::SongPath;
use lamp::scan::Scan;
use lamp::tags::{extract_metadata, fill_metadata, metadata_from, TagFields};
use std::path::Path;

fn path(text: &str) -> SongPath {
    SongPath { bytes: text.as_bytes().to_vec() }
}

fn text(bytes: Vec<u8>) -> String {
    String::from_utf8(bytes).unwrap()
}

fn tagged(artist: &str, album: &str, title: &str) -> Vec<u8> {
    let mut tag = id3::Tag::new();
    tag.set_artist(artist);
    tag.set_album(album);
    tag.set_title(title);
    let mut bytes: Vec<u8> = Vec::new();
    tag.write_to(&mut bytes, id3::Version::Id3v24).unwrap();
    bytes.extend_from_slice(b"sound");
    bytes
}

const PATHS: [&str; 34] = [
    "", "/", ".", "..", "./", "//", "/.", "./.", "a", "a/", "a//b", "a/./b", "./a", "././a", "/a",
    "/./a", "a/..", "a/../b", "../a", ".a", ".a.mp3", "a.mp3", "a.b.mp3", "a.", "a..", "..a",
    "a/b.mp3/", "a/b/.", "Music/Artist/Album/Song.mp3", "/m/x.MP3", "...", "a/...", "a./b", ".mp3",
];

#[test]
fn components_are_those_of_the_system() {
    for p in PATHS {
        let want: Vec<String> =
            Path::new(p).components().map(|c| c.as_os_str().to_str().unwrap().to_string()).collect();
        let got: Vec<String> = path(p).components().into_iter().map(text).collect();
        assert_eq!(got, want, "{p:?}");
    }
}

#[test]
fn paths_are_equal_when_their_components_are() {
    for a in PATHS {
        for b in PATHS {
            assert_eq!(path(a).same(&path(b)), Path::new(a) == Path::new(b), "{a:?} {b:?}");
        }
    }
}

#[test]
fn names_stems_and_extensions() {
    for p in PATHS {
        let want = Path::new(p);
        let of = |s: Option<&str>| s.map(|x| x.to_string());
        assert_eq!(path(p).file_name().map(text), of(want.file_name().and_then(|s| s.to_str())));
        assert_eq!(path(p).file_stem().map(text), of(want.file_stem().and_then(|s| s.to_str())));
        assert_eq!(path(p).extension().map(text), of(want.extension().and_then(|s| s.to_str())));
    }
}

#[test]
fn what_lies_below_a_root() {
    for p in PATHS {
        for r in PATHS {
            let want: Option<Vec<String>> = Path::new(p).strip_prefix(r).ok().map(|rest| {
                rest.components().map(|c| c.as_os_str().to_str().unwrap().to_string()).collect()
            });
            let got: Option<Vec<String>> =
                path(p).below(&path(r)).map(|parts| parts.into_iter().map(text).collect());
            assert_eq!(got, want, "{p:?} below {r:?}");
        }
    }
}

#[test]
fn only_lower_case_mp3_is_a_song() {
    assert!(path("a/b.mp3").is_mp3());
    assert!(path("a/b.c.mp3").is_mp3());
    assert!(!path("a/b.MP3").is_mp3());
    assert!(!path("a/.mp3").is_mp3());
    assert!(!path("a/mp3").is_mp3());
    assert!(!path("a/b.mp3.txt").is_mp3());
}

#[test]
fn hexadecimal_digits() {
    assert_eq!(hex(&[]), "");
    assert_eq!(hex(&[0x00, 0x0f, 0x9a, 0xff]), "000f9aff");
}

#[test]
fn fingerprints_are_sha256() {
    assert_eq!(
        calculate_hash(b""),
        "e3b0c44298fc1c149afbf4c8996fb92427ae41e4649b934ca495991b7852b855"
    );
    assert_eq!(
        calculate_hash(b"abc"),
        "ba7816bf8f01cfea414140de5dae2223b00361a396177a9cb410ff61f20015ad"
    );
}

#[test]
fn the_tag_wins() {
    let bytes = tagged("Björk", "Debut", "Venus as a Boy");
    let m = extract_metadata(&bytes, &path("m/X/Y/z.mp3"), &path("m"));
    assert_eq!(m.title, "Venus as a Boy");
    assert_eq!(m.artist, "Björk");
    assert_eq!(m.album, "Debut");
}

#[test]
fn directories_fill_in() {
    let m = extract_metadata(b"no tag", &path("m/Artist/Album/Song.mp3"), &path("m"));
    assert_eq!((m.title.as_str(), m.artist.as_str(), m.album.as_str()), ("Song", "Artist", "Album"));
    let deep = extract_metadata(b"no tag", &path("m/q/Artist/Album/Song.mp3"), &path("m/"));
    assert_eq!((deep.artist.as_str(), deep.album.as_str()), ("Artist", "Album"));
    let single = extract_metadata(b"no tag", &path("m/Artist/Song.mp3"), &path("m"));
    assert_eq!((single.artist.as_str(), single.album.as_str()), ("Artist", "Single"));
    let top = extract_metadata(b"no tag", &path("m/Song.mp3"), &path("m"));
    assert_eq!((top.artist.as_str(), top.album.as_str()), ("N/A", "N/A"));
    let other = extract_metadata(b"no tag", &path("m/a/b/Song.mp3"), &path("n"));
    assert_eq!((other.title.as_str(), other.artist.as_str(), other.album.as_str()), ("Song", "N/A", "N/A"));
}

#[test]
fn fields_that_a_tag_lacks_are_filled_one_by_one() {
    let tag = TagFields { artist: None, album: Some("B".to_string()), title: None };
    let m = metadata_from(Some(tag), &path("m/Artist/Album/Song.mp3"), &path("m"));
    assert_eq!((m.title.as_str(), m.artist.as_str(), m.album.as_str()), ("Song", "Artist", "B"));
    let dirs = Some(vec!["A".to_string(), "s.mp3".to_string()]);
    let filled = fill_metadata(None, &dirs, "s".to_string());
    assert_eq!(
        (filled.title.as_str(), filled.artist.as_str(), filled.album.as_str()),
        ("s", "A", "Single")
    );
}

#[test]
fn names_that_are_not_utf8_are_replaced() {
    let file = SongPath { bytes: b"m/\xff/b/caf\xc3\xa9.mp3".to_vec() };
    let m = extract_metadata(b"", &file, &path("m"));
    assert_eq!((m.title.as_str(), m.artist.as_str(), m.album.as_str()), ("café", "\u{fffd}", "b"));
}

#[test]
fn copies_are_taken_once() {
    let mut scan = Scan::new(path("m"));
    scan.add_file(&path("m/A/B/one.mp3"), Some(b"one"));
    scan.add_file(&path("m/A/B/copy.mp3"), Some(b"one"));
    scan.add_file(&path("m/A/B/cover.jpg"), Some(b"picture"));
    scan.add_file(&path("m/A/B/locked.mp3"), None);
    scan.add_file(&path("m/A/B/two.mp3"), Some(b"two"));
    let titles: Vec<&str> = scan.songs.iter().map(|s| s.metadata.title.as_str()).collect();
    assert_eq!(titles, ["one", "two"]);
    assert_eq!(scan.seen.len(), 2);
}

#[test]
fn the_first_file_of_each_contents_counts() {
    let mut scan = Scan::new(path("m"));
    let files = [("m/a.mp3", "1"), ("m/b.mp3", "2"), ("m/c.mp3", "1"), ("m/d.mp3", "3"), ("m/e.mp3", "2")];
    for (name, contents) in files {
        scan.add_file(&path(name), Some(contents.as_bytes()));
    }
    let titles: Vec<&str> = scan.songs.iter().map(|s| s.metadata.title.as_str()).collect();
    assert_eq!(titles, ["a", "b", "d"]);
    for contents in ["1", "2", "3"] {
        assert!(scan.seen.contains(&calculate_hash(contents.as_bytes())));
    }
}
