//! What is known of a song: from its tag, or else from where its file lies.

use crate::path::{below, byte_views, file_stem, SongPath};
use crate::song::{MetadataView, SongMetadata};
use crate::text::{lossy_text, lossy_text_of, text_views};
use id3::TagLike;
use vstd::prelude::*;
use vstd::utf8::{decode_utf8, valid_utf8};

verus! {

/// The fields of an ID3 tag that a song is known by.
#[derive(Debug)]
pub struct TagFields {
    pub artist: Option<String>,
    pub album: Option<String>,
    pub title: Option<String>,
}

#[verifier::ext_equal]
pub struct TagView {
    pub artist: Option<Seq<char>>,
    pub album: Option<Seq<char>>,
    pub title: Option<Seq<char>>,
}

pub open spec fn text_view(text: Option<String>) -> Option<Seq<char>> {
    match text {
        Some(s) => Some(s@),
        None => None,
    }
}

impl View for TagFields {
    type V = TagView;

    open spec fn view(&self) -> TagView {
        TagView {
            artist: text_view(self.artist),
            album: text_view(self.album),
            title: text_view(self.title),
        }
    }
}

pub open spec fn tag_view(tag: Option<TagFields>) -> Option<TagView> {
    match tag {
        Some(t) => Some(t@),
        None => None,
    }
}

/// The fields of the ID3 tag that a file's contents hold, where they hold one that can be read.
pub uninterp spec fn tag_of(contents: Seq<u8>) -> Option<TagView>;

/// Calls `id3::Tag::read_from2` on a file's contents, and takes from the tag what its methods
/// `artist`, `album` and `title` give; an error gives none. The result is a function of the
/// contents alone. How a tag is laid out is not stated.
#[verifier::external_body]
fn read_tag(contents: &[u8]) -> (res: Option<TagFields>)
    ensures
        tag_view(res) == tag_of(contents@),
{
    match id3::Tag::read_from2(std::io::Cursor::new(contents)) {
        Ok(tag) => Some(TagFields {
            artist: tag.artist().map(|s| s.to_string()),
            album: tag.album().map(|s| s.to_string()),
            title: tag.title().map(|s| s.to_string()),
        }),
        Err(_) => None,
    }
}

/// The first of two values that is there.
pub open spec fn or_else(
    first: Option<Seq<char>>,
    second: Option<Seq<char>>,
) -> Option<Seq<char>> {
    match first {
        Some(s) => Some(s),
        None => second,
    }
}

pub open spec fn or_text(first: Option<Seq<char>>, second: Seq<char>) -> Seq<char> {
    match first {
        Some(s) => s,
        None => second,
    }
}

/// The artist that the directories above a file name: the one above the album's, or the only one.
pub open spec fn artist_dir(below: Option<Seq<Seq<char>>>) -> Option<Seq<char>> {
    match below {
        Some(parts) => if parts.len() >= 3 {
            Some(parts[parts.len() - 3])
        } else if parts.len() == 2 {
            Some(parts[0])
        } else {
            None
        },
        None => None,
    }
}

/// The album that the directories above a file name; a file that lies in an artist's own directory
/// is a single.
pub open spec fn album_dir(below: Option<Seq<Seq<char>>>) -> Option<Seq<char>> {
    match below {
        Some(parts) => if parts.len() >= 3 {
            Some(parts[parts.len() - 2])
        } else if parts.len() == 2 {
            Some("Single"@)
        } else {
            None
        },
        None => None,
    }
}

/// Each field is what the tag says, or else what the directories say, or else `N/A`; a title that
/// the tag lacks is the stem of the file's name.
pub open spec fn filled(
    tag: Option<TagView>,
    below: Option<Seq<Seq<char>>>,
    stem: Seq<char>,
) -> MetadataView {
    let (artist, album, title) = match tag {
        Some(t) => (t.artist, t.album, t.title),
        None => (None, None, None),
    };
    MetadataView {
        title: or_text(title, stem),
        artist: or_text(or_else(artist, artist_dir(below)), "N/A"@),
        album: or_text(or_else(album, album_dir(below)), "N/A"@),
    }
}

pub open spec fn texts_view(list: Option<Vec<String>>) -> Option<Seq<Seq<char>>> {
    match list {
        Some(v) => Some(text_views(v@)),
        None => None,
    }
}

fn or_text_exec(first: Option<String>, second: String) -> (res: String)
    ensures
        res@ == or_text(text_view(first), second@),
{
    match first {
        Some(s) => s,
        None => second,
    }
}

/// What is known of a song whose tag says `tag`, whose file lies under the directories `below`
/// (the last of these being the file itself) and whose file's name has the stem `stem`.
pub fn fill_metadata(
    tag: Option<TagFields>,
    below: &Option<Vec<String>>,
    stem: String,
) -> (res: SongMetadata)
    ensures
        res@ == filled(tag_view(tag), texts_view(*below), stem@),
{
    let (artist, album, title) = match tag {
        Some(t) => (t.artist, t.album, t.title),
        None => (None, None, None),
    };
    let mut artist_fallback: String = "N/A".to_string();
    let mut album_fallback: String = "N/A".to_string();
    if let Some(parts) = below {
        let depth: usize = parts.len();
        assert(text_views(parts@).len() == depth);
        if depth >= 3 {
            assert(text_views(parts@)[depth - 3] == parts@[depth - 3]@);
            assert(text_views(parts@)[depth - 2] == parts@[depth - 2]@);
            artist_fallback = parts[depth - 3].clone();
            album_fallback = parts[depth - 2].clone();
        } else if depth == 2 {
            assert(text_views(parts@)[0] == parts@[0]@);
            artist_fallback = parts[0].clone();
            album_fallback = "Single".to_string();
        }
    }
    SongMetadata {
        title: or_text_exec(title, stem),
        artist: or_text_exec(artist, artist_fallback),
        album: or_text_exec(album, album_fallback),
    }
}

pub open spec fn lossy_texts(parts: Option<Seq<Seq<u8>>>) -> Option<Seq<Seq<char>>> {
    match parts {
        Some(p) => Some(p.map_values(|b: Seq<u8>| lossy_text_of(b))),
        None => None,
    }
}

pub open spec fn stem_text(path: Seq<u8>) -> Seq<char> {
    match file_stem(path) {
        Some(stem) => lossy_text_of(stem),
        None => seq![],
    }
}

/// Bytes that are UTF-8 are read as it stands.
pub open spec fn reads_utf8(bytes: Seq<u8>) -> bool {
    valid_utf8(bytes) ==> lossy_text_of(bytes) == decode_utf8(bytes)
}

/// The names that a path gives to a song below `root` are read as they stand where they are UTF-8:
/// those of the directories, and the stem of the file's name.
pub open spec fn reads_names(path: Seq<u8>, root: Seq<u8>) -> bool {
    &&& below(path, root) matches Some(parts) ==> forall|k: int|
        0 <= k < parts.len() ==> reads_utf8(#[trigger] parts[k])
    &&& file_stem(path) matches Some(stem) ==> reads_utf8(stem)
}

/// What is known of the song that a file below `root` holds, by its tag and its path.
pub open spec fn metadata_of(tag: Option<TagView>, path: Seq<u8>, root: Seq<u8>) -> MetadataView {
    filled(tag, lossy_texts(below(path, root)), stem_text(path))
}

/// What is known of the song that a file below `root` holds, by its tag and its path.
pub fn metadata_from(tag: Option<TagFields>, path: &SongPath, root: &SongPath) -> (res: SongMetadata)
    ensures
        res@ == metadata_of(tag_view(tag), path@, root@),
        reads_names(path@, root@),
{
    let stem: String = match path.file_stem() {
        Some(bytes) => lossy_text(bytes.as_slice()),
        None => String::new(),
    };
    let dirs: Option<Vec<String>> = match path.below(root) {
        Some(parts) => {
            let mut names: Vec<String> = Vec::new();
            let mut i: usize = 0;
            while i < parts.len()
                invariant
                    i <= parts@.len(),
                    names@.len() == i,
                    forall|k: int| 0 <= k < i ==> (#[trigger] names@[k])@ == lossy_text_of(parts@[k]@),
                    forall|k: int| 0 <= k < i ==> reads_utf8(#[trigger] byte_views(parts@)[k]),
                decreases parts@.len() - i,
            {
                names.push(lossy_text(parts[i].as_slice()));
                i += 1;
            }
            assert(texts_view(Some(names))->0 =~= lossy_texts(Some(byte_views(parts@)))->0);
            Some(names)
        },
        None => None,
    };
    fill_metadata(tag, &dirs, stem)
}

/// What is known of the song that a file of these contents holds.
pub fn extract_metadata(contents: &[u8], path: &SongPath, root: &SongPath) -> (res: SongMetadata)
    ensures
        res@ == metadata_of(tag_of(contents@), path@, root@),
        reads_names(path@, root@),
{
    metadata_from(read_tag(contents), path, root)
}

/// What a tag says is never overridden by where the file lies.
pub proof fn lemma_tag_wins(tag: TagView, path: Seq<u8>, root: Seq<u8>)
    ensures
        tag.title is Some ==> metadata_of(Some(tag), path, root).title == tag.title->0,
        tag.artist is Some ==> metadata_of(Some(tag), path, root).artist == tag.artist->0,
        tag.album is Some ==> metadata_of(Some(tag), path, root).album == tag.album->0,
{
}

/// Without a tag, a file `Artist/Album/Song` below the root is known by its directories; a file in
/// an artist's own directory is a single; of any other file artist and album are not known.
pub proof fn lemma_directories_fill(path: Seq<u8>, root: Seq<u8>)
    ensures
        metadata_of(None, path, root).title == stem_text(path),
        match below(path, root) {
            Some(parts) => if parts.len() >= 3 {
                &&& metadata_of(None, path, root).artist == lossy_text_of(parts[parts.len() - 3])
                &&& metadata_of(None, path, root).album == lossy_text_of(parts[parts.len() - 2])
            } else if parts.len() == 2 {
                &&& metadata_of(None, path, root).artist == lossy_text_of(parts[0])
                &&& metadata_of(None, path, root).album == "Single"@
            } else {
                &&& metadata_of(None, path, root).artist == "N/A"@
                &&& metadata_of(None, path, root).album == "N/A"@
            },
            None => {
                &&& metadata_of(None, path, root).artist == "N/A"@
                &&& metadata_of(None, path, root).album == "N/A"@
            },
        },
{
}

/// A field that a tag lacks is filled as if there were no tag, whatever the other fields of the tag
/// are; one that it has is taken from it.
pub proof fn lemma_each_field_is_filled(tag: TagView, path: Seq<u8>, root: Seq<u8>)
    ensures
        metadata_of(Some(tag), path, root).title == match tag.title {
            Some(title) => title,
            None => metadata_of(None, path, root).title,
        },
        metadata_of(Some(tag), path, root).artist == match tag.artist {
            Some(artist) => artist,
            None => metadata_of(None, path, root).artist,
        },
        metadata_of(Some(tag), path, root).album == match tag.album {
            Some(album) => album,
            None => metadata_of(None, path, root).album,
        },
{
}

/// Where nothing names the artist or the album, with a tag or without, the directories do: of a file
/// at least two directories deep the two that it lies in, of a file one directory deep that one,
/// and such a file is a single. Of a file that lies elsewhere they are not known. A title that
/// nothing names is the stem of the file's name.
pub proof fn lemma_missing_fields(tag: Option<TagView>, path: Seq<u8>, root: Seq<u8>)
    ensures
        tag is None || tag->0.title is None ==> metadata_of(tag, path, root).title == match file_stem(
            path,
        ) {
            Some(stem) => lossy_text_of(stem),
            None => seq![],
        },
        tag is None || tag->0.artist is None ==> match below(path, root) {
            Some(parts) => {
                &&& parts.len() >= 3 ==> metadata_of(tag, path, root).artist == lossy_text_of(
                    parts[parts.len() - 3],
                )
                &&& parts.len() == 2 ==> metadata_of(tag, path, root).artist == lossy_text_of(
                    parts[0],
                )
                &&& parts.len() < 2 ==> metadata_of(tag, path, root).artist == "N/A"@
            },
            None => metadata_of(tag, path, root).artist == "N/A"@,
        },
        tag is None || tag->0.album is None ==> match below(path, root) {
            Some(parts) => {
                &&& parts.len() >= 3 ==> metadata_of(tag, path, root).album == lossy_text_of(
                    parts[parts.len() - 2],
                )
                &&& parts.len() == 2 ==> metadata_of(tag, path, root).album == "Single"@
                &&& parts.len() < 2 ==> metadata_of(tag, path, root).album == "N/A"@
            },
            None => metadata_of(tag, path, root).album == "N/A"@,
        },
{
}

/// The same of names that have been read: each field goes by itself, first by the tag and only
/// where that lacks it by the directories.
pub proof fn lemma_filled(tag: Option<TagView>, below: Option<Seq<Seq<char>>>, stem: Seq<char>)
    ensures
        match tag {
            Some(t) => {
                &&& t.title matches Some(title) ==> filled(tag, below, stem).title == title
                &&& t.artist matches Some(artist) ==> filled(tag, below, stem).artist == artist
                &&& t.album matches Some(album) ==> filled(tag, below, stem).album == album
            },
            None => true,
        },
        tag is None || tag->0.title is None ==> filled(tag, below, stem).title == stem,
        tag is None || tag->0.artist is None ==> match below {
            Some(parts) => {
                &&& parts.len() >= 3 ==> filled(tag, below, stem).artist == parts[parts.len() - 3]
                &&& parts.len() == 2 ==> filled(tag, below, stem).artist == parts[0]
                &&& parts.len() < 2 ==> filled(tag, below, stem).artist == "N/A"@
            },
            None => filled(tag, below, stem).artist == "N/A"@,
        },
        tag is None || tag->0.album is None ==> match below {
            Some(parts) => {
                &&& parts.len() >= 3 ==> filled(tag, below, stem).album == parts[parts.len() - 2]
                &&& parts.len() == 2 ==> filled(tag, below, stem).album == "Single"@
                &&& parts.len() < 2 ==> filled(tag, below, stem).album == "N/A"@
            },
            None => filled(tag, below, stem).album == "N/A"@,
        },
{
}

} // verus!
