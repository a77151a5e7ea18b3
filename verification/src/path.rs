//! Paths of files, as the bytes that a Unix system names them by.

use vstd::prelude::*;

verus! {

pub const SLASH: u8 = 47;

pub const DOT: u8 = 46;

/// The path of a file, byte by byte.
#[derive(Debug)]
pub struct SongPath {
    pub bytes: Vec<u8>,
}

impl View for SongPath {
    type V = Seq<u8>;

    open spec fn view(&self) -> Seq<u8> {
        self.bytes@
    }
}

impl Clone for SongPath {
    fn clone(&self) -> (res: Self)
        ensures
            res@ == self@,
    {
        let bytes: Vec<u8> = self.bytes.clone();
        assert(bytes@ =~= self.bytes@);
        SongPath { bytes }
    }
}

/// What stands between the slashes of `raw`.
pub open spec fn segments(raw: Seq<u8>) -> Seq<Seq<u8>>
    decreases raw.len(),
{
    if raw.len() == 0 {
        seq![seq![]]
    } else {
        let front = segments(raw.drop_last());
        if raw.last() == SLASH {
            front.push(seq![])
        } else {
            front.drop_last().push(front.last().push(raw.last()))
        }
    }
}

/// A segment that names a step of a path: doubled slashes and `.` name none.
pub open spec fn is_step(segment: Seq<u8>) -> bool {
    segment.len() > 0 && segment != seq![DOT]
}

pub open spec fn steps(raw: Seq<u8>) -> Seq<Seq<u8>> {
    segments(raw).filter(|s: Seq<u8>| is_step(s))
}

/// The components of a path: `/` where it is absolute, `.` where it starts with that, and its
/// steps. Two spellings of a path are equal when their components are.
pub open spec fn components(raw: Seq<u8>) -> Seq<Seq<u8>> {
    if raw.len() > 0 && raw[0] == SLASH {
        seq![seq![SLASH]] + steps(raw)
    } else if segments(raw)[0] == seq![DOT] {
        seq![seq![DOT]] + steps(raw)
    } else {
        steps(raw)
    }
}

/// Two paths are the same when their components are.
pub open spec fn same_path(a: Seq<u8>, b: Seq<u8>) -> bool {
    components(a) == components(b)
}

/// The last component of a path, where it names a file.
pub open spec fn file_name(raw: Seq<u8>) -> Option<Seq<u8>> {
    let parts = components(raw);
    if parts.len() == 0 || parts.last() == seq![SLASH] || parts.last() == seq![DOT] || parts.last()
        == seq![DOT, DOT] {
        None
    } else {
        Some(parts.last())
    }
}

/// The position of the last dot of `name`, or -1.
pub open spec fn last_dot(name: Seq<u8>) -> int
    decreases name.len(),
{
    if name.len() == 0 {
        -1
    } else if name.last() == DOT {
        name.len() - 1
    } else {
        last_dot(name.drop_last())
    }
}

/// What stands after the last dot of a file's name, unless that dot is its first character.
pub open spec fn extension(raw: Seq<u8>) -> Option<Seq<u8>> {
    match file_name(raw) {
        Some(name) => if last_dot(name) > 0 {
            Some(name.skip(last_dot(name) + 1))
        } else {
            None
        },
        None => None,
    }
}

/// A file's name without its extension.
pub open spec fn file_stem(raw: Seq<u8>) -> Option<Seq<u8>> {
    match file_name(raw) {
        Some(name) => if last_dot(name) > 0 {
            Some(name.take(last_dot(name)))
        } else {
            Some(name)
        },
        None => None,
    }
}

/// The components of `raw` below `root`, where `raw` lies below it.
pub open spec fn below(raw: Seq<u8>, root: Seq<u8>) -> Option<Seq<Seq<u8>>> {
    let parts = components(raw);
    let prefix = components(root);
    if prefix.len() <= parts.len() && parts.take(prefix.len() as int) == prefix {
        Some(parts.skip(prefix.len() as int))
    } else {
        None
    }
}

/// The contents of each byte string of a list.
pub open spec fn byte_views(list: Seq<Vec<u8>>) -> Seq<Seq<u8>> {
    list.map_values(|b: Vec<u8>| b@)
}

proof fn lemma_segments_nonempty(raw: Seq<u8>)
    ensures
        segments(raw).len() > 0,
    decreases raw.len(),
{
    if raw.len() > 0 {
        lemma_segments_nonempty(raw.drop_last());
    }
}

/// Whether two byte strings are equal.
pub fn bytes_eq(a: &[u8], b: &[u8]) -> (res: bool)
    ensures
        res == (a@ == b@),
{
    if a.len() != b.len() {
        return false;
    }
    let mut i: usize = 0;
    while i < a.len()
        invariant
            i <= a@.len() == b@.len(),
            forall|k: int| 0 <= k < i ==> a@[k] == b@[k],
        decreases a@.len() - i,
    {
        if a[i] != b[i] {
            return false;
        }
        i += 1;
    }
    assert(a@ =~= b@);
    true
}

fn split_segments(raw: &Vec<u8>) -> (res: Vec<Vec<u8>>)
    ensures
        byte_views(res@) == segments(raw@),
{
    let mut res: Vec<Vec<u8>> = Vec::new();
    let mut current: Vec<u8> = Vec::new();
    let mut i: usize = 0;
    assert(raw@.take(0) =~= seq![]);
    assert(byte_views(res@).push(current@) =~= segments(raw@.take(0)));
    while i < raw.len()
        invariant
            i <= raw@.len(),
            byte_views(res@).push(current@) == segments(raw@.take(i as int)),
        decreases raw@.len() - i,
    {
        let ghost front = segments(raw@.take(i as int));
        assert(raw@.take(i + 1).drop_last() =~= raw@.take(i as int));
        assert(front.last() == current@);
        assert(front.drop_last() =~= byte_views(res@));
        if raw[i] == SLASH {
            let ghost before = res@;
            let ghost done = current@;
            res.push(current);
            assert(byte_views(res@) =~= byte_views(before).push(done));
            current = Vec::new();
            assert(current@ =~= seq![]);
        } else {
            current.push(raw[i]);
        }
        i += 1;
    }
    assert(raw@.take(raw@.len() as int) =~= raw@);
    let ghost before = res@;
    let ghost done = current@;
    res.push(current);
    assert(byte_views(res@) =~= byte_views(before).push(done));
    res
}

fn is_step_exec(segment: &Vec<u8>) -> (res: bool)
    ensures
        res == is_step(segment@),
{
    if segment.len() == 0 {
        false
    } else if segment.len() == 1 && segment[0] == DOT {
        assert(segment@ =~= seq![DOT]);
        false
    } else {
        assert(segment@ != seq![DOT]) by {
            assert(seq![DOT].len() == 1 && seq![DOT][0] == DOT);
        }
        true
    }
}

impl SongPath {
    /// The components of the path.
    pub fn components(&self) -> (res: Vec<Vec<u8>>)
        ensures
            byte_views(res@) == components(self@),
    {
        let parts: Vec<Vec<u8>> = split_segments(&self.bytes);
        let mut res: Vec<Vec<u8>> = Vec::new();
        let ghost pred = |s: Seq<u8>| is_step(s);
        let ghost raw = self@;
        let ghost head: Seq<Seq<u8>> = components(raw).take(components(raw).len() - steps(raw).len());
        proof {
            lemma_segments_nonempty(raw);
            assert(byte_views(parts@)[0] == parts@[0]@);
        }
        if self.bytes.len() > 0 && self.bytes[0] == SLASH {
            let mut first: Vec<u8> = Vec::new();
            first.push(SLASH);
            assert(first@ =~= seq![SLASH]);
            res.push(first);
            assert(byte_views(res@) =~= seq![seq![SLASH]]);
        } else if parts[0].len() == 1 && parts[0][0] == DOT {
            assert(parts@[0]@ =~= seq![DOT]);
            let mut first: Vec<u8> = Vec::new();
            first.push(DOT);
            assert(first@ =~= seq![DOT]);
            res.push(first);
            assert(byte_views(res@) =~= seq![seq![DOT]]);
        } else {
            assert(parts@[0]@ != seq![DOT]) by {
                assert(seq![DOT].len() == 1 && seq![DOT][0] == DOT);
            }
            assert(byte_views(res@) =~= seq![]);
        }
        assert(components(raw) =~= byte_views(res@) + steps(raw));
        assert(head =~= byte_views(res@));
        assert(segments(raw).take(0).filter(pred) =~= seq![]) by {
            reveal(Seq::filter);
        }
        let mut i: usize = 0;
        while i < parts.len()
            invariant
                i <= parts@.len(),
                byte_views(parts@) == segments(raw),
                pred == (|s: Seq<u8>| is_step(s)),
                byte_views(res@) == head + segments(raw).take(i as int).filter(pred),
            decreases parts@.len() - i,
        {
            let ghost before = res@;
            proof {
                reveal(Seq::filter);
                assert(segments(raw).take(i + 1).drop_last() =~= segments(raw).take(i as int));
                assert(segments(raw)[i as int] == parts@[i as int]@);
            }
            if is_step_exec(&parts[i]) {
                let part: Vec<u8> = parts[i].clone();
                assert(part@ =~= parts@[i as int]@);
                res.push(part);
                assert(byte_views(res@) =~= byte_views(before).push(part@));
            }
            i += 1;
        }
        assert(segments(raw).take(segments(raw).len() as int) =~= segments(raw));
        res
    }

    /// Whether two paths are the same.
    pub fn same(&self, other: &SongPath) -> (res: bool)
        ensures
            res == same_path(self@, other@),
    {
        let a: Vec<Vec<u8>> = self.components();
        let b: Vec<Vec<u8>> = other.components();
        proof {
            assert(a@.len() == byte_views(a@).len());
            assert(b@.len() == byte_views(b@).len());
        }
        a.len() == b.len() && starts_with(&a, &b)
    }

    /// The last component of the path, where it names a file.
    pub fn file_name(&self) -> (res: Option<Vec<u8>>)
        ensures
            match res {
                Some(name) => file_name(self@) == Some(name@),
                None => file_name(self@) is None,
            },
    {
        let mut parts: Vec<Vec<u8>> = self.components();
        let ghost views = byte_views(parts@);
        proof {
            assert(views.len() == parts@.len());
            assert(parts@.len() > 0 ==> views.last() == parts@.last()@);
            assert(seq![SLASH].len() == 1 && seq![SLASH][0] == SLASH);
            assert(seq![DOT].len() == 1 && seq![DOT][0] == DOT);
            assert(seq![DOT, DOT].len() == 2 && seq![DOT, DOT][0] == DOT && seq![DOT, DOT][1] == DOT);
        }
        match parts.pop() {
            None => None,
            Some(last) => {
                if last.len() == 1 && (last[0] == SLASH || last[0] == DOT) {
                    assert(last@ =~= seq![SLASH] || last@ =~= seq![DOT]);
                    None
                } else if last.len() == 2 && last[0] == DOT && last[1] == DOT {
                    assert(last@ =~= seq![DOT, DOT]);
                    None
                } else {
                    Some(last)
                }
            },
        }
    }

    /// What stands after the last dot of the file's name, unless that dot is its first character.
    pub fn extension(&self) -> (res: Option<Vec<u8>>)
        ensures
            match res {
                Some(ext) => extension(self@) == Some(ext@),
                None => extension(self@) is None,
            },
    {
        match self.file_name() {
            Some(name) => {
                match find_last_dot(&name) {
                    Some(i) => {
                        let len: usize = name.len();
                        let ext: Vec<u8> = copy_range(&name, i + 1, len);
                        assert(ext@ =~= name@.skip(i + 1));
                        Some(ext)
                    },
                    None => None,
                }
            },
            None => None,
        }
    }

    /// The file's name without its extension.
    pub fn file_stem(&self) -> (res: Option<Vec<u8>>)
        ensures
            match res {
                Some(stem) => file_stem(self@) == Some(stem@),
                None => file_stem(self@) is None,
            },
    {
        match self.file_name() {
            Some(name) => {
                match find_last_dot(&name) {
                    Some(i) => {
                        let stem: Vec<u8> = copy_range(&name, 0, i);
                        assert(stem@ =~= name@.take(i as int));
                        Some(stem)
                    },
                    None => Some(name),
                }
            },
            None => None,
        }
    }

    /// The components below `root`, where the path lies below it.
    pub fn below(&self, root: &SongPath) -> (res: Option<Vec<Vec<u8>>>)
        ensures
            match res {
                Some(rest) => below(self@, root@) == Some(byte_views(rest@)),
                None => below(self@, root@) is None,
            },
    {
        let mut parts: Vec<Vec<u8>> = self.components();
        let prefix: Vec<Vec<u8>> = root.components();
        proof {
            assert(parts@.len() == byte_views(parts@).len());
            assert(prefix@.len() == byte_views(prefix@).len());
        }
        if prefix.len() > parts.len() || !starts_with(&parts, &prefix) {
            return None;
        }
        let ghost whole = parts@;
        let rest: Vec<Vec<u8>> = parts.split_off(prefix.len());
        assert(byte_views(rest@) =~= byte_views(whole).skip(prefix@.len() as int));
        Some(rest)
    }
}

fn starts_with(parts: &Vec<Vec<u8>>, prefix: &Vec<Vec<u8>>) -> (res: bool)
    requires
        prefix@.len() <= parts@.len(),
    ensures
        res == (byte_views(parts@).take(prefix@.len() as int) == byte_views(prefix@)),
        prefix@.len() == parts@.len() ==> res == (byte_views(parts@) == byte_views(prefix@)),
{
    let ghost head = byte_views(parts@).take(prefix@.len() as int);
    let mut i: usize = 0;
    assert(prefix@.len() == parts@.len() ==> head =~= byte_views(parts@));
    while i < prefix.len()
        invariant
            i <= prefix@.len() <= parts@.len(),
            head == byte_views(parts@).take(prefix@.len() as int),
            forall|k: int| 0 <= k < i ==> parts@[k]@ == prefix@[k]@,
        decreases prefix@.len() - i,
    {
        if !bytes_eq(parts[i].as_slice(), prefix[i].as_slice()) {
            assert(head[i as int] != byte_views(prefix@)[i as int]);
            return false;
        }
        i += 1;
    }
    assert(head =~= byte_views(prefix@));
    true
}

/// The position of the last dot, where it is not the first character.
fn find_last_dot(name: &Vec<u8>) -> (res: Option<usize>)
    ensures
        match res {
            Some(i) => 0 < i < name@.len() && i == last_dot(name@),
            None => last_dot(name@) <= 0,
        },
{
    let mut i: usize = name.len();
    assert(name@.take(i as int) =~= name@);
    while i > 1
        invariant
            i <= name@.len(),
            last_dot(name@) == last_dot(name@.take(i as int)),
        decreases i,
    {
        assert(name@.take(i as int).drop_last() =~= name@.take(i - 1));
        i -= 1;
        if name[i] == DOT {
            return Some(i);
        }
    }
    assert(last_dot(name@.take(i as int)) <= 0) by {
        reveal_with_fuel(last_dot, 3);
    }
    None
}

fn copy_range(name: &Vec<u8>, from: usize, to: usize) -> (res: Vec<u8>)
    requires
        from <= to <= name@.len(),
    ensures
        res@ == name@.subrange(from as int, to as int),
{
    let mut res: Vec<u8> = Vec::new();
    let mut i: usize = from;
    while i < to
        invariant
            from <= i <= to <= name@.len(),
            res@ == name@.subrange(from as int, i as int),
        decreases to - i,
    {
        res.push(name[i]);
        i += 1;
        assert(name@.subrange(from as int, i as int) =~= name@.subrange(from as int, i - 1).push(
            name@[i - 1],
        ));
    }
    res
}

/// `mp3`.
pub open spec fn mp3_extension() -> Seq<u8> {
    seq![109u8, 112u8, 51u8]
}

/// A file is taken for a song when its extension is `mp3`, in lower case.
pub open spec fn is_mp3(raw: Seq<u8>) -> bool {
    extension(raw) == Some(mp3_extension())
}

impl SongPath {
    /// Whether the file is taken for a song.
    pub fn is_mp3(&self) -> (res: bool)
        ensures
            res == is_mp3(self@),
    {
        match self.extension() {
            Some(ext) => {
                let want: Vec<u8> = vec![109u8, 112u8, 51u8];
                assert(want@ =~= mp3_extension());
                bytes_eq(ext.as_slice(), want.as_slice())
            },
            None => false,
        }
    }
}

proof fn lemma_segments_join(raw: Seq<u8>, name: Seq<u8>)
    requires
        !name.contains(SLASH),
    ensures
        segments(raw.push(SLASH) + name) == segments(raw).push(name),
    decreases name.len(),
{
    let whole = raw.push(SLASH) + name;
    if name.len() == 0 {
        assert(whole =~= raw.push(SLASH));
        assert(whole.drop_last() =~= raw);
        assert(name =~= seq![]);
    } else {
        let front = name.drop_last();
        assert(!front.contains(SLASH)) by {
            if front.contains(SLASH) {
                assert(name[front.index_of(SLASH)] == SLASH);
            }
        }
        lemma_segments_join(raw, front);
        assert(whole.drop_last() =~= raw.push(SLASH) + front);
        assert(whole.last() == name.last());
        assert(name[name.len() - 1] == name.last());
        assert(segments(raw).push(front).drop_last() =~= segments(raw));
        assert(front.push(name.last()) =~= name);
    }
}

proof fn lemma_segments_single(name: Seq<u8>)
    requires
        !name.contains(SLASH),
    ensures
        segments(name) == seq![name],
    decreases name.len(),
{
    if name.len() == 0 {
        assert(name =~= seq![]);
    } else {
        let front = name.drop_last();
        assert(!front.contains(SLASH)) by {
            if front.contains(SLASH) {
                assert(name[front.index_of(SLASH)] == SLASH);
            }
        }
        lemma_segments_single(front);
        assert(name[name.len() - 1] == name.last());
        assert(front.push(name.last()) =~= name);
        assert(seq![front].drop_last().push(name) =~= seq![name]);
    }
}

proof fn lemma_steps_push(list: Seq<Seq<u8>>, name: Seq<u8>)
    ensures
        list.push(name).filter(|s: Seq<u8>| is_step(s)) == if is_step(name) {
            list.filter(|s: Seq<u8>| is_step(s)).push(name)
        } else {
            list.filter(|s: Seq<u8>| is_step(s))
        },
{
    reveal(Seq::filter);
    assert(list.push(name).drop_last() =~= list);
}

/// A name put behind a path and a slash is one more component. An empty name, as after a slash too
/// many, and a single dot are none.
pub proof fn lemma_join_adds_a_component(raw: Seq<u8>, name: Seq<u8>)
    requires
        raw.len() > 0,
        !name.contains(SLASH),
    ensures
        name.len() == 0 || name == seq![DOT] ==> components(raw.push(SLASH) + name) == components(
            raw,
        ),
        name.len() > 0 && name != seq![DOT] ==> components(raw.push(SLASH) + name) == components(
            raw,
        ).push(name),
{
    let whole = raw.push(SLASH) + name;
    lemma_segments_join(raw, name);
    lemma_segments_nonempty(raw);
    lemma_steps_push(segments(raw), name);
    assert(whole[0] == raw[0]);
    assert(segments(whole)[0] == segments(raw)[0]);
    if name.len() > 0 && name != seq![DOT] {
        assert(components(whole) =~= components(raw).push(name));
    }
}

/// A path without a slash is one component, or none where it is empty. A slash before it is a
/// component of its own.
pub proof fn lemma_a_name_is_a_component(name: Seq<u8>)
    requires
        !name.contains(SLASH),
    ensures
        name.len() == 0 ==> components(name) == Seq::<Seq<u8>>::empty(),
        name.len() > 0 ==> components(name) == seq![name],
        name.len() == 0 || name == seq![DOT] ==> components(seq![SLASH] + name) == seq![
            seq![SLASH],
        ],
        name.len() > 0 && name != seq![DOT] ==> components(seq![SLASH] + name) == seq![
            seq![SLASH],
            name,
        ],
{
    let none = Seq::<Seq<u8>>::empty();
    let pred = |s: Seq<u8>| is_step(s);
    lemma_segments_single(name);
    assert(none.filter(pred) =~= none) by {
        reveal(Seq::filter);
    }
    lemma_steps_push(none, name);
    assert(none.push(name) =~= seq![name]);
    if name.len() > 0 {
        assert(name[0] != SLASH) by {
            assert(name.contains(name[0]));
        }
        if name == seq![DOT] {
            assert(seq![seq![DOT]] + none =~= seq![name]);
        }
        assert(components(name) =~= seq![name]);
    } else {
        assert(seq![DOT].len() == 1);
        assert(components(name) =~= none);
    }
    let empty = Seq::<u8>::empty();
    let whole = seq![SLASH] + name;
    assert(whole =~= empty.push(SLASH) + name);
    lemma_segments_join(empty, name);
    assert(segments(empty) =~= none.push(empty));
    lemma_steps_push(none, empty);
    lemma_steps_push(none.push(empty), name);
    assert(whole[0] == SLASH);
    if name.len() == 0 || name == seq![DOT] {
        assert(components(whole) =~= seq![seq![SLASH]]);
    } else {
        assert(components(whole) =~= seq![seq![SLASH], name]);
    }
}

/// The file of a path is named by what stands behind its last slash. Slashes and dots too many at
/// the end do not count, and `..` names no file.
pub proof fn lemma_last_name_is_the_file(raw: Seq<u8>, name: Seq<u8>)
    requires
        raw.len() > 0,
        !name.contains(SLASH),
    ensures
        name.len() == 0 || name == seq![DOT] ==> file_name(raw.push(SLASH) + name) == file_name(raw),
        name == seq![DOT, DOT] ==> file_name(raw.push(SLASH) + name) is None,
        name.len() > 0 && name != seq![DOT] && name != seq![DOT, DOT] ==> file_name(
            raw.push(SLASH) + name,
        ) == Some(name),
{
    lemma_join_adds_a_component(raw, name);
    assert(seq![SLASH][0] == SLASH);
    if name == seq![SLASH] {
        assert(name[0] == SLASH);
        assert(name.contains(SLASH));
    }
    assert(seq![DOT, DOT].len() == 2);
    assert(seq![DOT].len() == 1);
    assert(components(raw).push(name).last() == name);
}

/// A path without a slash names itself, unless it is empty, `.` or `..`; behind a slash it does so
/// too.
pub proof fn lemma_a_name_is_the_file(name: Seq<u8>)
    requires
        !name.contains(SLASH),
    ensures
        name.len() == 0 || name == seq![DOT] || name == seq![DOT, DOT] ==> file_name(name) is None
            && file_name(seq![SLASH] + name) is None,
        name.len() > 0 && name != seq![DOT] && name != seq![DOT, DOT] ==> file_name(name) == Some(
            name,
        ) && file_name(seq![SLASH] + name) == Some(name),
{
    lemma_a_name_is_a_component(name);
    assert(seq![SLASH][0] == SLASH);
    if name == seq![SLASH] {
        assert(name[0] == SLASH);
        assert(name.contains(SLASH));
    }
    assert(seq![DOT, DOT].len() == 2);
    assert(seq![DOT].len() == 1);
}

proof fn lemma_last_dot_split(stem: Seq<u8>, ext: Seq<u8>)
    requires
        !ext.contains(DOT),
    ensures
        last_dot(stem.push(DOT) + ext) == stem.len(),
    decreases ext.len(),
{
    let name = stem.push(DOT) + ext;
    if ext.len() == 0 {
        assert(name =~= stem.push(DOT));
    } else {
        let front = ext.drop_last();
        assert(!front.contains(DOT)) by {
            if front.contains(DOT) {
                assert(ext[front.index_of(DOT)] == DOT);
            }
        }
        lemma_last_dot_split(stem, front);
        assert(ext[ext.len() - 1] == ext.last());
        assert(name.last() == ext.last());
        assert(name.drop_last() =~= stem.push(DOT) + front);
    }
}

proof fn lemma_no_dot(name: Seq<u8>)
    requires
        !name.contains(DOT),
    ensures
        last_dot(name) == -1,
    decreases name.len(),
{
    if name.len() > 0 {
        let front = name.drop_last();
        assert(!front.contains(DOT)) by {
            if front.contains(DOT) {
                assert(name[front.index_of(DOT)] == DOT);
            }
        }
        assert(name[name.len() - 1] == name.last());
        lemma_no_dot(front);
    }
}

/// The last dot of a file's name parts its stem and its extension, if something stands before it.
pub proof fn lemma_last_dot_parts(raw: Seq<u8>, stem: Seq<u8>, ext: Seq<u8>)
    requires
        file_name(raw) == Some(stem.push(DOT) + ext),
        !ext.contains(DOT),
    ensures
        stem.len() > 0 ==> extension(raw) == Some(ext) && file_stem(raw) == Some(stem),
        stem.len() == 0 ==> extension(raw) is None && file_stem(raw) == file_name(raw),
{
    let name = stem.push(DOT) + ext;
    lemma_last_dot_split(stem, ext);
    assert(name.skip((stem.len() + 1) as int) =~= ext);
    assert(name.take(stem.len() as int) =~= stem);
}

/// A file's name without a dot has no extension and is its own stem; where no file is named there is
/// neither.
pub proof fn lemma_no_dot_no_extension(raw: Seq<u8>)
    ensures
        file_name(raw) matches Some(name) ==> !name.contains(DOT) ==> extension(raw) is None
            && file_stem(raw) == Some(name),
        file_name(raw) is None ==> extension(raw) is None && file_stem(raw) is None,
{
    if let Some(name) = file_name(raw) {
        if !name.contains(DOT) {
            lemma_no_dot(name);
        }
    }
}

/// A file is taken for a song exactly if its name ends in `.mp3`, in lower case, and something
/// stands before that.
pub proof fn lemma_is_mp3(raw: Seq<u8>)
    ensures
        is_mp3(raw) <==> file_name(raw) is Some && file_name(raw)->0.len() > 4 && file_name(
            raw,
        )->0.skip(file_name(raw)->0.len() - 4) == seq![46u8, 109u8, 112u8, 51u8],
{
    let tail = seq![46u8, 109u8, 112u8, 51u8];
    if let Some(name) = file_name(raw) {
        if is_mp3(raw) {
            lemma_last_dot_is_dot(name);
            let ext = name.skip(last_dot(name) + 1);
            assert(ext == mp3_extension());
            assert(ext.len() == 3);
            let end = name.skip(name.len() - 4);
            assert(end[0] == DOT);
            assert(end[1] == ext[0] && end[2] == ext[1] && end[3] == ext[2]);
            assert(end =~= tail);
        }
        if name.len() > 4 && name.skip(name.len() - 4) == tail {
            let stem = name.take(name.len() - 4);
            let end = name.skip(name.len() - 4);
            assert(end[0] == tail[0] && end[1] == tail[1] && end[2] == tail[2] && end[3]
                == tail[3]);
            assert(name =~= stem.push(DOT) + mp3_extension());
            assert(!mp3_extension().contains(DOT));
            lemma_last_dot_parts(raw, stem, mp3_extension());
        }
    }
}

proof fn lemma_last_dot_is_dot(name: Seq<u8>)
    ensures
        -1 <= last_dot(name) < name.len(),
        last_dot(name) >= 0 ==> name[last_dot(name)] == DOT,
    decreases name.len(),
{
    if name.len() > 0 {
        lemma_last_dot_is_dot(name.drop_last());
    }
}

/// A path lies below a root exactly if its components are those of the root and then those below it.
pub proof fn lemma_below(raw: Seq<u8>, root: Seq<u8>, rest: Seq<Seq<u8>>)
    ensures
        below(raw, root) == Some(rest) <==> components(raw) == components(root) + rest,
{
    let parts = components(raw);
    let prefix = components(root);
    if parts == prefix + rest {
        assert(parts.take(prefix.len() as int) =~= prefix);
        assert(parts.skip(prefix.len() as int) =~= rest);
    }
    if below(raw, root) == Some(rest) {
        assert(parts =~= parts.take(prefix.len() as int) + parts.skip(prefix.len() as int));
    }
}

/// Two paths are the same exactly if each has the components of the other; a slash or a dot too many
/// at the end makes no other path.
pub proof fn lemma_same_path(a: Seq<u8>, b: Seq<u8>)
    ensures
        same_path(a, b) <==> components(a) == components(b),
        a.len() > 0 ==> same_path(a.push(SLASH), a),
        a.len() > 0 ==> same_path(a.push(SLASH).push(DOT), a),
{
    if a.len() > 0 {
        lemma_join_adds_a_component(a, seq![]);
        assert(a.push(SLASH) + seq![] =~= a.push(SLASH));
        lemma_join_adds_a_component(a, seq![DOT]);
        assert(a.push(SLASH) + seq![DOT] =~= a.push(SLASH).push(DOT));
    }
}

} // verus!
