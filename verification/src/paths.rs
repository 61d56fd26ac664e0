//! Paths as bytes, with `/` between their components.
use vstd::prelude::*;
use vstd::utf8::{
    char_u32_cast, decode_first_scalar, decode_utf8, decode_utf8_encode_utf8, encode_utf8,
    encode_utf8_first_scalar, encode_utf8_valid_utf8, is_ascii_chars, is_ascii_chars_encode_utf8,
    is_leading_byte_width_1, valid_utf8, valid_utf8_concat,
};

verus! {

/// The byte between the components of a path.
pub const SLASH: u8 = 47;

/// The byte before the extension of a file name.
pub const DOT: u8 = 46;

/// A path of the file system. Its bytes need not be text.
#[derive(Debug, PartialEq, Eq)]
pub struct FilePath {
    pub bytes: Vec<u8>,
}

impl View for FilePath {
    type V = Seq<u8>;

    open spec fn view(&self) -> Seq<u8> {
        self.bytes@
    }
}

impl DeepView for FilePath {
    type V = Seq<u8>;

    open spec fn deep_view(&self) -> Seq<u8> {
        self@
    }
}

impl Clone for FilePath {
    fn clone(&self) -> (r: Self)
        ensures
            r@ == self@,
    {
        FilePath { bytes: piece(&self.bytes, 0, self.bytes.len()) }
    }
}

/// What `String::from_utf8_lossy` gives for bytes that are no UTF-8.
pub uninterp spec fn lossy(bytes: Seq<u8>) -> Seq<char>;

/// The text by which a path is shown: its own where it is UTF-8, else the nearest.
pub open spec fn shown(bytes: Seq<u8>) -> Seq<char> {
    if valid_utf8(bytes) {
        decode_utf8(bytes)
    } else {
        lossy(bytes)
    }
}

/// `String::from_utf8_lossy`: the text of bytes that are UTF-8. For other bytes it is a function of
/// the bytes alone, with a replacement character for what cannot be read.
#[verifier::external_body]
fn from_utf8_lossy(bytes: &Vec<u8>) -> (r: String)
    ensures
        r@ == (if valid_utf8(bytes@) {
            decode_utf8(bytes@)
        } else {
            lossy(bytes@)
        }),
{
    String::from_utf8_lossy(bytes.as_slice()).into_owned()
}

impl FilePath {
    /// The path that a text names.
    pub fn new(text: &str) -> (r: Self)
        ensures
            r@ == encode_utf8(text@),
    {
        let mut bytes: Vec<u8> = Vec::new();
        bytes.extend_from_slice(text.as_bytes());
        assert(bytes@ =~= encode_utf8(text@));
        FilePath { bytes }
    }

    /// The text by which the path is shown.
    pub fn to_text(&self) -> (r: String)
        ensures
            r@ == shown(self@),
    {
        from_utf8_lossy(&self.bytes)
    }
}

fn piece(v: &Vec<u8>, from: usize, to: usize) -> (r: Vec<u8>)
    requires
        from <= to <= v.len(),
    ensures
        r@ == v@.subrange(from as int, to as int),
{
    let mut r: Vec<u8> = Vec::new();
    let mut i: usize = from;
    while i < to
        invariant
            from <= i <= to <= v.len(),
            r@ == v@.subrange(from as int, i as int),
        decreases to - i,
    {
        r.push(v[i]);
        i = i + 1;
        assert(r@ =~= v@.subrange(from as int, i as int));
    }
    r
}

/// `base` extended by `name`; an absolute `name` takes its place.
pub open spec fn joined_path(base: Seq<u8>, name: Seq<u8>) -> Seq<u8> {
    if name.len() > 0 && name[0] == SLASH {
        name
    } else if base.len() == 0 || base.last() == SLASH {
        base + name
    } else {
        base.push(SLASH) + name
    }
}

/// `base` extended by the path that `name` is the text of.
pub open spec fn joined_text(base: Seq<u8>, name: Seq<char>) -> Seq<u8> {
    joined_path(base, encode_utf8(name))
}

/// `base` extended by `name`; an absolute `name` takes its place.
pub fn join(base: &FilePath, name: &str) -> (r: FilePath)
    ensures
        r@ == joined_text(base@, name@),
{
    let n = name.as_bytes();
    if n.len() > 0 && n[0] == SLASH {
        return FilePath::new(name);
    }
    let mut bytes = base.clone().bytes;
    if bytes.len() > 0 && bytes[bytes.len() - 1] != SLASH {
        bytes.push(SLASH);
    }
    let ghost head = bytes@;
    bytes.extend_from_slice(n);
    assert(bytes@ =~= head + encode_utf8(name@));
    FilePath { bytes }
}

/// The path without what stands behind its last component: slashes, and dots between slashes.
pub open spec fn stripped(path: Seq<u8>) -> Seq<u8>
    decreases path.len(),
{
    let n = path.len();
    if n >= 2 && path[n - 1] == SLASH {
        stripped(path.drop_last())
    } else if n >= 2 && path[n - 1] == DOT && path[n - 2] == SLASH {
        stripped(path.drop_last())
    } else {
        path
    }
}

/// What stands behind the last slash.
pub open spec fn last_segment(path: Seq<u8>) -> Seq<u8>
    decreases path.len(),
{
    if path.len() == 0 || path.last() == SLASH {
        Seq::empty()
    } else {
        last_segment(path.drop_last()).push(path.last())
    }
}

/// The last component of a path, unless that is the root, `.` or `..`.
pub open spec fn file_name_of(path: Seq<u8>) -> Option<Seq<u8>> {
    let name = last_segment(stripped(path));
    if name.len() == 0 || name == seq![DOT] || name == seq![DOT, DOT] {
        None
    } else {
        Some(name)
    }
}

/// The path without its last component; the root and the empty path have none.
pub open spec fn parent_of(path: Seq<u8>) -> Option<Seq<u8>> {
    let whole = stripped(path);
    if whole.len() == 0 || whole == seq![SLASH] {
        None
    } else {
        Some(stripped(whole.take(whole.len() - last_segment(whole).len())))
    }
}

/// The position of the last dot in `name`, or -1.
pub open spec fn last_dot(name: Seq<u8>) -> int
    decreases name.len(),
{
    if name.len() == 0 {
        -1
    } else if name.last() == DOT {
        name.len() - 1
    } else {
        last_dot(name.drop_last())
    }
}

/// A file name without its extension; a name whose only dot leads it has none.
pub open spec fn stem_of(name: Seq<u8>) -> Seq<u8> {
    if last_dot(name) > 0 {
        name.take(last_dot(name))
    } else {
        name
    }
}

/// The path with its last component put as `name`.
pub open spec fn renamed(path: Seq<u8>, name: Seq<char>) -> Seq<u8> {
    if file_name_of(path) is Some {
        joined_text(parent_of(path).unwrap(), name)
    } else {
        joined_text(path, name)
    }
}

fn strip(v: &Vec<u8>, to: usize) -> (r: usize)
    requires
        to <= v.len(),
    ensures
        r <= to,
        v@.take(r as int) == stripped(v@.take(to as int)),
{
    let ghost wanted = stripped(v@.take(to as int));
    let mut n: usize = to;
    while n >= 2 && (v[n - 1] == SLASH || (v[n - 1] == DOT && v[n - 2] == SLASH))
        invariant
            n <= to <= v.len(),
            stripped(v@.take(n as int)) == wanted,
        decreases n,
    {
        assert(v@.take(n as int).drop_last() =~= v@.take(n - 1));
        n = n - 1;
    }
    n
}

fn segment_start(v: &Vec<u8>, to: usize) -> (r: usize)
    requires
        to <= v.len(),
    ensures
        r <= to,
        v@.subrange(r as int, to as int) == last_segment(v@.take(to as int)),
{
    let ghost whole = v@.take(to as int);
    let mut n: usize = to;
    assert(whole.take(to as int) =~= whole);
    assert(whole.subrange(to as int, to as int) =~= Seq::<u8>::empty());
    assert(last_segment(whole) =~= last_segment(whole) + Seq::<u8>::empty());
    while n > 0 && v[n - 1] != SLASH
        invariant
            n <= to <= v.len(),
            whole == v@.take(to as int),
            last_segment(whole) == last_segment(whole.take(n as int)) + whole.subrange(
                n as int,
                to as int,
            ),
        decreases n,
    {
        assert(whole.take(n as int).drop_last() =~= whole.take(n - 1));
        assert(whole.take(n as int).last() == v@[n - 1]);
        assert(last_segment(whole.take(n - 1)).push(v@[n - 1]) + whole.subrange(n as int, to as int)
            =~= last_segment(whole.take(n - 1)) + whole.subrange(n - 1, to as int));
        n = n - 1;
    }
    assert(last_segment(whole.take(n as int)) =~= Seq::<u8>::empty());
    assert(v@.subrange(n as int, to as int) =~= Seq::<u8>::empty() + whole.subrange(
        n as int,
        to as int,
    ));
    n
}

/// The last component of a path, unless that is the root, `.` or `..`.
pub fn file_name(path: &FilePath) -> (r: Option<FilePath>)
    ensures
        r.deep_view() == file_name_of(path@),
{
    let v = &path.bytes;
    assert(v@.take(v@.len() as int) =~= v@);
    let to = strip(v, v.len());
    let from = segment_start(v, to);
    let name = piece(v, from, to);
    if name.len() == 0 {
        return None;
    }
    if name.len() == 1 && name[0] == DOT {
        assert(name@ =~= seq![DOT]);
        return None;
    }
    if name.len() == 2 && name[0] == DOT && name[1] == DOT {
        assert(name@ =~= seq![DOT, DOT]);
        return None;
    }
    assert(seq![DOT].len() == 1 && seq![DOT][0] == DOT);
    assert(seq![DOT, DOT].len() == 2 && seq![DOT, DOT][0] == DOT && seq![DOT, DOT][1] == DOT);
    Some(FilePath { bytes: name })
}

/// The path without its last component; the root and the empty path have none.
pub fn parent(path: &FilePath) -> (r: Option<FilePath>)
    ensures
        r.deep_view() == parent_of(path@),
{
    let v = &path.bytes;
    assert(v@.take(v@.len() as int) =~= v@);
    let to = strip(v, v.len());
    let ghost whole = stripped(path@);
    assert(whole == v@.take(to as int));
    if to == 0 {
        return None;
    }
    if to == 1 && v[0] == SLASH {
        assert(whole =~= seq![SLASH]);
        return None;
    }
    assert(seq![SLASH].len() == 1 && seq![SLASH][0] == SLASH);
    assert(whole.len() == to && whole[0] == v@[0]);
    let from = segment_start(v, to);
    assert(whole.take(whole.len() - last_segment(whole).len()) =~= v@.take(from as int));
    let end = strip(v, from);
    assert(v@.subrange(0, end as int) =~= v@.take(end as int));
    Some(FilePath { bytes: piece(v, 0, end) })
}

/// A file name without its extension; a name whose only dot leads it has none.
pub fn file_stem(name: &FilePath) -> (r: FilePath)
    ensures
        r@ == stem_of(name@),
{
    let v = &name.bytes;
    let mut n: usize = v.len();
    assert(v@.take(n as int) =~= v@);
    while n > 0 && v[n - 1] != DOT
        invariant
            n <= v.len(),
            last_dot(v@) == last_dot(v@.take(n as int)),
        decreases n,
    {
        assert(v@.take(n as int).drop_last() =~= v@.take(n - 1));
        n = n - 1;
    }
    if n > 1 {
        assert(last_dot(v@) == n - 1);
        assert(v@.subrange(0, n - 1) =~= v@.take(n - 1));
        FilePath { bytes: piece(v, 0, n - 1) }
    } else {
        name.clone()
    }
}

/// The path with its last component put as `name`.
pub fn with_file_name(path: &FilePath, name: &str) -> (r: FilePath)
    ensures
        r@ == renamed(path@, name@),
{
    match file_name(path) {
        Some(_) => {
            proof {
                let whole = stripped(path@);
                assert(seq![SLASH].last() == SLASH);
                assert(whole == seq![SLASH] ==> last_segment(whole) =~= Seq::<u8>::empty());
            }
            match parent(path) {
                Some(dir) => join(&dir, name),
                None => {
                    assert(false);
                    join(path, name)
                },
            }
        },
        None => join(path, name),
    }
}

/// Extending a path by two different relative names gives two different paths.
pub proof fn lemma_joined_path_injective(base: Seq<u8>, a: Seq<u8>, b: Seq<u8>)
    requires
        a != b,
        a.len() > 0 ==> a[0] != SLASH,
        b.len() > 0 ==> b[0] != SLASH,
    ensures
        joined_path(base, a) != joined_path(base, b),
{
    let head = if base.len() == 0 || base.last() == SLASH {
        base
    } else {
        base.push(SLASH)
    };
    assert(joined_path(base, a) == head + a);
    assert(joined_path(base, b) == head + b);
    if head + a == head + b {
        assert((head + a).skip(head.len() as int) =~= a);
        assert((head + b).skip(head.len() as int) =~= b);
    }
}

/// A text that does not begin with a slash names a relative path.
pub proof fn lemma_first_byte(text: Seq<char>)
    requires
        text.len() > 0,
        text[0] != '/',
    ensures
        encode_utf8(text).len() > 0,
        encode_utf8(text)[0] != SLASH,
{
    encode_utf8_first_scalar(text);
    let bytes = encode_utf8(text);
    if bytes[0] == SLASH {
        let first = bytes[0];
        assert(is_leading_byte_width_1(first));
        assert(first & 0x7f == 47) by (bit_vector)
            requires
                first == 47,
        ;
        assert(decode_first_scalar(bytes) == 47);
        char_u32_cast(text[0], 47);
        char_u32_cast('/', 47);
    }
}

/// The text by which a path is shown names that path exactly where the path is UTF-8.
pub proof fn lemma_shown_is_read_back(path: Seq<u8>)
    ensures
        encode_utf8(shown(path)) == path <==> valid_utf8(path),
{
    encode_utf8_valid_utf8(shown(path));
    if valid_utf8(path) {
        decode_utf8_encode_utf8(path);
    }
}

/// A path that is UTF-8 stays so when a text extends it.
pub proof fn lemma_joined_text_is_utf8(base: Seq<u8>, name: Seq<char>)
    requires
        valid_utf8(base),
    ensures
        valid_utf8(joined_text(base, name)),
{
    let bytes = encode_utf8(name);
    let slash = seq!['/'];
    encode_utf8_valid_utf8(name);
    encode_utf8_valid_utf8(slash);
    assert(is_ascii_chars(slash));
    is_ascii_chars_encode_utf8(slash);
    assert(encode_utf8(slash) =~= seq![SLASH]) by {
        assert(slash[0] as u8 == SLASH);
    }
    assert(base.push(SLASH) =~= base + seq![SLASH]);
    valid_utf8_concat(base, seq![SLASH]);
    valid_utf8_concat(base.push(SLASH), bytes);
    valid_utf8_concat(base, bytes);
}

/// Extending a path by a relative name keeps the path in front and the name behind, with one slash
/// between them; an absolute name stands alone.
pub proof fn lemma_joined_path(base: Seq<u8>, name: Seq<u8>)
    requires
        base.len() > 0,
        base.last() != SLASH,
    ensures
        name.len() > 0 && name[0] == 47 ==> joined_path(base, name) == name
            && joined_path(base.push(47), name) == name,
        name.len() > 0 && name[0] != 47 ==> {
            &&& joined_path(base, name) == base + seq![47u8] + name
            &&& joined_path(base.push(47), name) == joined_path(base, name)
            &&& joined_path(Seq::empty(), name) == name
        },
{
    assert(base.push(47) =~= base + seq![47u8]);
    assert(Seq::<u8>::empty() + name =~= name);
}

proof fn lemma_last_segment(head: Seq<u8>, name: Seq<u8>)
    requires
        head.len() > 0 ==> head.last() == SLASH,
        !name.contains(SLASH),
    ensures
        last_segment(head + name) == name,
    decreases name.len(),
{
    let path = head + name;
    if name.len() == 0 {
        assert(path =~= head);
        assert(last_segment(path) =~= name);
    } else {
        let rest = name.drop_last();
        assert(name.contains(name.last()));
        assert forall|b: u8| rest.contains(b) implies name.contains(b) by {
            let i = choose|i: int| 0 <= i < rest.len() && rest[i] == b;
            assert(name[i] == b);
        }
        lemma_last_segment(head, rest);
        assert(path.drop_last() =~= head + rest);
        assert(last_segment(path) =~= name);
    }
}

/// What a directory is extended by is the file name of the path, and the directory its parent; with
/// another file name the path is the directory extended by that. A slash or a dot at the end of the
/// directory is not taken into the parent.
pub proof fn lemma_parts_of_a_path(dir: Seq<u8>, name: Seq<u8>, other: Seq<char>)
    requires
        name.len() > 0,
        !name.contains(47),
        name != seq![46u8],
    ensures
        name != seq![46u8, 46u8] ==> file_name_of(joined_path(dir, name)) == Some(name),
        name == seq![46u8, 46u8] ==> file_name_of(joined_path(dir, name)) is None,
        dir.len() < 2 || (dir.last() != 47 && !(dir.last() == 46 && dir[dir.len() - 2] == 47)) ==> {
            &&& parent_of(joined_path(dir, name)) == Some(dir)
            &&& name != seq![46u8, 46u8] ==> renamed(joined_path(dir, name), other) == joined_text(
                dir,
                other,
            )
        },
        dir.len() > 0 ==> parent_of(joined_path(dir.push(47), name)) == parent_of(
            joined_path(dir, name),
        ),
{
    assert(name.contains(name[0]) && name.contains(name.last()));
    lemma_parent_of_joined(dir, name);
    lemma_parent_of_joined(dir.push(SLASH), name);
    if dir.len() > 0 {
        assert(dir.push(SLASH).drop_last() =~= dir);
    }
}

proof fn lemma_parent_of_joined(dir: Seq<u8>, name: Seq<u8>)
    requires
        name.len() > 0,
        !name.contains(SLASH),
        name != seq![DOT],
    ensures
        last_segment(stripped(joined_path(dir, name))) == name,
        parent_of(joined_path(dir, name)) == Some(stripped(dir)),
{
    assert(name.contains(name[0]) && name.contains(name.last()));
    let head = if dir.len() == 0 || dir.last() == SLASH {
        dir
    } else {
        dir.push(SLASH)
    };
    let path = head + name;
    let n = path.len();
    assert(joined_path(dir, name) == path);
    assert(path.last() == name.last());
    if name.len() == 1 {
        assert(name =~= seq![name[0]]);
    } else {
        assert(path[n - 2] == name[name.len() - 2]);
        assert(name.contains(name[name.len() - 2]));
    }
    assert(stripped(path) == path);
    lemma_last_segment(head, name);
    assert(seq![SLASH].last() == SLASH);
    assert(path.take(path.len() - name.len()) =~= head);
    assert(dir.push(SLASH).drop_last() =~= dir);
}

/// The root and the empty path have neither a file name nor a parent, and slashes behind a path change
/// neither.
pub proof fn lemma_ends_of_paths(path: Seq<u8>)
    ensures
        file_name_of(Seq::empty()) is None,
        parent_of(Seq::empty()) is None,
        file_name_of(seq![47u8]) is None,
        parent_of(seq![47u8]) is None,
        path.len() > 0 ==> file_name_of(path.push(47)) == file_name_of(path) && parent_of(
            path.push(47),
        ) == parent_of(path),
{
    assert(seq![47u8].last() == SLASH);
    assert(path.push(47).drop_last() =~= path);
}

/// An extension is what stands behind the last dot; a name without a dot, or with none but a leading
/// one, is its own stem.
pub proof fn lemma_stem(stem: Seq<u8>, extension: Seq<u8>)
    requires
        !extension.contains(46),
    ensures
        stem.len() > 0 ==> stem_of(stem + seq![46u8] + extension) == stem,
        stem_of(seq![46u8] + extension) == seq![46u8] + extension,
        stem_of(extension) == extension,
{
    lemma_last_dot(stem + seq![46u8], extension);
    lemma_last_dot(seq![46u8], extension);
    lemma_last_dot(Seq::empty(), extension);
    assert(Seq::<u8>::empty() + extension =~= extension);
    assert((stem + seq![46u8] + extension).take(stem.len() as int) =~= stem);
}

proof fn lemma_last_dot(head: Seq<u8>, extension: Seq<u8>)
    requires
        head.len() > 0 ==> head.last() == DOT,
        !extension.contains(DOT),
    ensures
        last_dot(head + extension) == head.len() - 1,
    decreases extension.len(),
{
    let name = head + extension;
    if extension.len() == 0 {
        assert(name =~= head);
    } else {
        let rest = extension.drop_last();
        assert(extension.contains(extension.last()));
        assert forall|b: u8| rest.contains(b) implies extension.contains(b) by {
            let i = choose|i: int| 0 <= i < rest.len() && rest[i] == b;
            assert(extension[i] == b);
        }
        lemma_last_dot(head, rest);
        assert(name.drop_last() =~= head + rest);
    }
}

} // verus!
