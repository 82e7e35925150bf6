//! Where files are: on disk, under another root, or in memory.

use vstd::prelude::*;
use vstd::utf8::{decode_utf8, encode_utf8, valid_utf8};

use crate::name_map::NameMap;
use crate::paths::{join_path, joined};
use crate::split::{join, join_list, split_char, split_on};
use crate::text::{cat2, chars_of, lemma_texts_push, same_run, same_text, string_from, texts};

verus! {

/// The home directory of the test user.
pub const UNIX_USER_HOME: &'static str = "/home/testuser";

/// The home directory of the test user on Windows.
pub const WINDOWS_USER_HOME: &'static str = "C:\\Users\\testuser";

/// A text without the copies of `base` with which it begins.
pub open spec fn without_prefixes(base: Seq<char>, path: Seq<char>) -> Seq<char>
    decreases path.len(),
{
    if base.len() > 0 && path.len() >= base.len() && path.take(base.len() as int) == base {
        without_prefixes(base, path.skip(base.len() as int))
    } else {
        path
    }
}

/// A text without the slashes with which it begins.
pub open spec fn without_slashes(path: Seq<char>) -> Seq<char>
    decreases path.len(),
{
    if path.len() > 0 && path[0] == '/' {
        without_slashes(path.skip(1))
    } else {
        path
    }
}

/// A path placed under `base`, also where it is absolute; where it is under `base` already it stays
/// there.
pub open spec fn appended(base: Seq<char>, path: Seq<char>) -> Seq<char> {
    joined(base, without_slashes(without_prefixes(base, path)))
}

/// A path placed under `base`.
pub fn append(base: &str, path: &str) -> (res: String)
    requires
        base@.len() > 0,
    ensures
        res@ == appended(base@, path@),
{
    let b = chars_of(base);
    let p = chars_of(path);
    let mut i: usize = 0;
    assert(path@.skip(0) =~= path@);
    while i <= p.len() && same_prefix(&p, i, &b)
        invariant
            b@ == base@,
            p@ == path@,
            b@.len() > 0,
            i <= p@.len(),
            without_prefixes(base@, path@) == without_prefixes(base@, path@.skip(i as int)),
        decreases p@.len() - i,
    {
        let n: usize = b.len();
        assert(path@.skip(i as int).take(n as int) =~= path@.subrange(i as int, i + n));
        assert(path@.skip(i as int).skip(n as int) =~= path@.skip(i + n));
        i += n;
    }
    let ghost rest = path@.skip(i as int);
    assert(without_prefixes(base@, path@) == rest) by {
        if rest.len() >= base@.len() {
            assert(rest.take(base@.len() as int) =~= path@.subrange(i as int, i + base@.len()));
        }
    }
    while i < p.len() && p[i] == '/'
        invariant
            p@ == path@,
            i <= p@.len(),
            without_slashes(rest) == without_slashes(path@.skip(i as int)),
        decreases p@.len() - i,
    {
        assert(path@.skip(i as int).skip(1) =~= path@.skip(i as int + 1));
        i += 1;
    }
    let tail = string_from(&p, i, p.len());
    assert(tail@ =~= path@.skip(i as int));
    join_path(base, tail.as_str())
}

fn same_prefix(p: &Vec<char>, i: usize, b: &Vec<char>) -> (res: bool)
    requires
        i <= p@.len(),
    ensures
        res == (i + b@.len() <= p@.len() && p@.subrange(i as int, i + b@.len()) == b@),
{
    if p.len() - i < b.len() {
        return false;
    }
    same_run(p, i, b)
}

/// Which parts of a path count: not empty ones, and `.` only at the start.
pub open spec fn counts(parts: Seq<Seq<char>>, i: int) -> bool {
    parts[i].len() > 0 && !(i > 0 && parts[i] == "."@)
}

/// The first `n` parts of a path, of those that count.
pub open spec fn counted_parts(parts: Seq<Seq<char>>, n: int) -> Seq<Seq<char>>
    decreases n,
{
    if n <= 0 {
        seq![]
    } else if counts(parts, n - 1) {
        counted_parts(parts, n - 1).push(parts[n - 1])
    } else {
        counted_parts(parts, n - 1)
    }
}

/// The one way of writing a path: paths that name the same place part by part are written alike.
pub open spec fn normal_path(path: Seq<char>) -> Seq<char> {
    let parts = split_char(path, '/');
    (if path.len() > 0 && path[0] == '/' {
        "/"@
    } else {
        ""@
    }) + join(counted_parts(parts, parts.len() as int), "/"@)
}

/// The one way of writing a path.
pub fn normalized(path: &str) -> (res: String)
    ensures
        res@ == normal_path(path@),
{
    let parts = split_on(path, '/');
    let ghost ps = split_char(path@, '/');
    let mut kept: Vec<String> = Vec::new();
    let mut i: usize = 0;
    assert(texts(kept@) =~= counted_parts(ps, 0));
    while i < parts.len()
        invariant
            i <= parts@.len(),
            ps == texts(parts@),
            texts(kept@) == counted_parts(ps, i as int),
        decreases parts@.len() - i,
    {
        assert(ps[i as int] == parts@[i as int]@);
        proof {
            crate::complete::lemma_bytes_nonempty(ps[i as int]);
        }
        if crate::number::bytes_in(parts[i].as_str()) > 0 && !(i > 0 && same_text(parts[i].as_str(), ".")) {
            let one = String::from_str(parts[i].as_str());
            let ghost before = kept@;
            kept.push(one);
            proof {
                lemma_texts_push(before, one);
            }
        }
        i += 1;
    }
    let body = join_list(&kept, "/");
    let chars = chars_of(path);
    if chars.len() > 0 && chars[0] == '/' {
        cat2("/", body.as_str())
    } else {
        cat2("", body.as_str())
    }
}

/// Where files are.
#[derive(Debug)]
pub enum Fs {
    /// On disk.
    Real,
    /// On disk, under this directory as if it were the root.
    Chroot(String),
    /// In memory, by normal path.
    Fake(NameMap<Vec<u8>>),
}

/// Why a file in memory could not be used.
#[derive(Debug, Clone, Copy, PartialEq, Eq, Structural)]
pub enum FsError {
    /// There is no such file.
    NotFound,
    /// The file holds no text.
    InvalidData,
    /// Nothing of the kind can be done in memory.
    Unimplemented,
}

/// Where a file is to be found.
#[derive(Debug, PartialEq, Eq)]
pub enum Place {
    /// On disk, under this path.
    Disk(String),
    /// In memory.
    Memory,
}

/// What files in memory hold, by normal path.
pub type Files = Map<Seq<char>, Vec<u8>>;

/// The text of bytes, if they hold one. The call is `String::from_utf8`; what is claimed is what
/// its documentation says: it succeeds exactly on valid UTF-8, and gives the text that the bytes
/// encode.
#[verifier::external_body]
fn text_of(bytes: Vec<u8>) -> (res: Option<String>)
    ensures
        res is Some <==> valid_utf8(bytes@),
        res matches Some(s) ==> s@ == decode_utf8(bytes@),
{
    match String::from_utf8(bytes) {
        Ok(s) => Some(s),
        Err(_) => None,
    }
}

fn copy_bytes(v: &Vec<u8>) -> (res: Vec<u8>)
    ensures
        res@ == v@,
{
    let mut out: Vec<u8> = Vec::new();
    let mut i: usize = 0;
    while i < v.len()
        invariant
            i <= v@.len(),
            out@ == v@.take(i as int),
        decreases v@.len() - i,
    {
        out.push(v[i]);
        i += 1;
        assert(out@ =~= v@.take(i as int));
    }
    assert(v@.take(i as int) =~= v@);
    out
}

/// The path under which a path is found on disk.
pub open spec fn disk_path(fs: Fs, path: Seq<char>) -> Seq<char> {
    match fs {
        Fs::Chroot(root) => appended(root@, path),
        _ => path,
    }
}

/// What reading a file in memory as text comes to.
pub open spec fn file_text(files: Files, path: Seq<char>) -> Result<Seq<char>, FsError> {
    if !files.contains_key(normal_path(path)) {
        Err(FsError::NotFound)
    } else if !valid_utf8(files[normal_path(path)]@) {
        Err(FsError::InvalidData)
    } else {
        Ok(decode_utf8(files[normal_path(path)]@))
    }
}

/// Whether `now` are the files `was` after one was written.
pub open spec fn is_written(was: Files, now: Files, path: Seq<char>, contents: Seq<u8>) -> bool {
    let at = normal_path(path);
    &&& now.contains_key(at)
    &&& now[at]@ == contents
    &&& forall|p: Seq<char>|
        p != at ==> (#[trigger] now.contains_key(p) == was.contains_key(p)) && (was.contains_key(p)
            ==> now[p] == was[p])
}

impl Fs {
    /// The root under which files are, if it is not that of the machine, is not empty.
    pub open spec fn well_formed(self) -> bool {
        self matches Fs::Chroot(root) ==> root@.len() > 0
    }

    /// Whether files are in memory.
    pub open spec fn in_memory(self) -> bool {
        self is Fake
    }

    /// The files in memory.
    pub open spec fn files(self) -> Files {
        match self {
            Fs::Fake(m) => m@,
            _ => Map::empty(),
        }
    }

    /// Whether files are under another root.
    pub fn is_chroot(&self) -> (res: bool)
        ensures
            res == (self is Chroot),
    {
        match self {
            Fs::Chroot(_) => true,
            _ => false,
        }
    }

    /// Files in memory with these paths and contents; the last of one path counts.
    pub fn from_slice(vars: &Vec<(&str, &str)>) -> (res: Self)
        ensures
            res.in_memory(),
            forall|p: Seq<char>| #[trigger]
                res.files().contains_key(p) <==> exists|i: int|
                    0 <= i < vars@.len() && normal_path((#[trigger] vars@[i]).0@) == p,
            forall|i: int|
                0 <= i < vars@.len() && (forall|j: int|
                    i < j < vars@.len() ==> normal_path((#[trigger] vars@[j]).0@) != normal_path(
                        vars@[i].0@,
                    )) ==> res.files()[normal_path((#[trigger] vars@[i]).0@)]@ == encode_utf8(vars@[i].1@),
    {
        let mut map: NameMap<Vec<u8>> = NameMap::new();
        let mut i: usize = 0;
        while i < vars.len()
            invariant
                i <= vars@.len(),
                forall|p: Seq<char>| #[trigger]
                    map@.contains_key(p) <==> exists|q: int|
                        0 <= q < i && normal_path((#[trigger] vars@[q]).0@) == p,
                forall|q: int|
                    0 <= q < i && (forall|j: int|
                        q < j < i ==> normal_path((#[trigger] vars@[j]).0@) != normal_path(vars@[q].0@))
                        ==> map@[normal_path((#[trigger] vars@[q]).0@)]@ == encode_utf8(vars@[q].1@),
            decreases vars@.len() - i,
        {
            let key = normalized(vars[i].0);
            let bytes = copy_slice(vars[i].1);
            let ghost before = map@;
            let ghost k = key@;
            let ghost b = bytes;
            map.insert(key, bytes);
            proof {
                assert forall|p: Seq<char>| #[trigger] map@.contains_key(p) <==> exists|q: int|
                    0 <= q < i + 1 && normal_path((#[trigger] vars@[q]).0@) == p by {
                    if before.contains_key(p) {
                        let q = choose|q: int| 0 <= q < i && normal_path((#[trigger] vars@[q]).0@) == p;
                        assert(0 <= q < i + 1 && normal_path(vars@[q].0@) == p);
                    }
                    if p == k {
                        assert(0 <= i < i + 1 && normal_path(vars@[i as int].0@) == p);
                    }
                }
                assert forall|q: int|
                    0 <= q < i + 1 && (forall|j: int|
                        q < j < i + 1 ==> normal_path((#[trigger] vars@[j]).0@) != normal_path(vars@[q].0@))
                    implies map@[normal_path((#[trigger] vars@[q]).0@)]@ == encode_utf8(vars@[q].1@) by {
                    if q < i {
                        assert(normal_path(vars@[i as int].0@) != normal_path(vars@[q].0@));
                    }
                }
            }
            i += 1;
        }
        Fs::Fake(map)
    }

    /// Where a path is to be found.
    pub fn place(&self, path: &str) -> (res: Place)
        requires
            self.well_formed(),
        ensures
            match self {
                Fs::Fake(_) => res is Memory,
                _ => res matches Place::Disk(p) && p@ == disk_path(*self, path@),
            },
    {
        match self {
            Fs::Real => Place::Disk(String::from_str(path)),
            Fs::Chroot(root) => Place::Disk(append(root.as_str(), path)),
            Fs::Fake(_) => Place::Memory,
        }
    }

    /// The absolute path of a file under another root; any other path as it is.
    pub fn chroot_path_str(&self, path: &str) -> (res: String)
        requires
            self.well_formed(),
        ensures
            res@ == disk_path(*self, path@),
    {
        match self {
            Fs::Chroot(root) => append(root.as_str(), path),
            _ => String::from_str(path),
        }
    }

    /// The bytes of a file in memory.
    pub fn read(&self, path: &str) -> (res: Result<Vec<u8>, FsError>)
        requires
            self.in_memory(),
        ensures
            match res {
                Ok(b) => self.files().contains_key(normal_path(path@)) && b@ == self.files()[normal_path(
                    path@,
                )]@,
                Err(e) => !self.files().contains_key(normal_path(path@)) && e == FsError::NotFound,
            },
    {
        let key = normalized(path);
        match self {
            Fs::Fake(map) => match map.get(key.as_str()) {
                Some(b) => Ok(copy_bytes(b)),
                None => Err(FsError::NotFound),
            },
            _ => Err(FsError::NotFound),
        }
    }

    /// The text of a file in memory.
    pub fn read_to_string(&self, path: &str) -> (res: Result<String, FsError>)
        requires
            self.in_memory(),
        ensures
            match res {
                Ok(s) => file_text(self.files(), path@) == Ok::<Seq<char>, FsError>(s@),
                Err(e) => file_text(self.files(), path@) == Err::<Seq<char>, FsError>(e),
            },
    {
        match self.read(path) {
            Err(e) => Err(e),
            Ok(b) => match text_of(b) {
                Some(s) => Ok(s),
                None => Err(FsError::InvalidData),
            },
        }
    }

    /// Writes a file in memory.
    pub fn write(&mut self, path: &str, contents: &Vec<u8>)
        requires
            old(self).in_memory(),
        ensures
            final(self).in_memory(),
            is_written(old(self).files(), final(self).files(), path@, contents@),
    {
        let key = normalized(path);
        let bytes = copy_bytes(contents);
        match self {
            Fs::Fake(map) => {
                map.insert(key, bytes);
            },
            _ => {},
        }
    }

    /// What making a file or a directory, or opening one, comes to in memory.
    pub fn memory_error(&self) -> (res: FsError)
        requires
            self.in_memory(),
        ensures
            res == FsError::Unimplemented,
    {
        FsError::Unimplemented
    }
}

fn copy_slice(s: &str) -> (res: Vec<u8>)
    ensures
        res@ == encode_utf8(s@),
{
    let b = s.as_bytes();
    let mut out: Vec<u8> = Vec::new();
    let mut i: usize = 0;
    while i < b.len()
        invariant
            i <= b@.len(),
            out@ == b@.take(i as int),
        decreases b@.len() - i,
    {
        out.push(b[i]);
        i += 1;
        assert(out@ =~= b@.take(i as int));
    }
    assert(b@.take(i as int) =~= b@);
    out
}

/// The path under which a file is found under another root begins with that root, however the
/// path of the file is written.
pub proof fn law_begins_with_root(base: Seq<char>, path: Seq<char>)
    requires
        base.len() > 0,
    ensures
        appended(base, path).len() >= base.len(),
        appended(base, path).take(base.len() as int) == base,
{
    let tail = without_slashes(without_prefixes(base, path));
    lemma_no_slash(without_prefixes(base, path));
    assert((base + tail).take(base.len() as int) =~= base);
    assert((base + "/"@ + tail).take(base.len() as int) =~= base);
}

proof fn lemma_no_slash(path: Seq<char>)
    ensures
        without_slashes(path).len() > 0 ==> without_slashes(path)[0] != '/',
    decreases path.len(),
{
    if path.len() > 0 && path[0] == '/' {
        lemma_no_slash(path.skip(1));
    }
}

/// A text that was written is read back as it was, under each way of writing its path, and the
/// other files are what they were.
pub proof fn law_text_survives(
    was: Files,
    now: Files,
    path: Seq<char>,
    text: Seq<char>,
    other: Seq<char>,
)
    requires
        is_written(was, now, path, encode_utf8(text)),
    ensures
        file_text(now, other) == if normal_path(other) == normal_path(path) {
            Ok::<Seq<char>, FsError>(text)
        } else {
            file_text(was, other)
        },
{
    broadcast use {vstd::utf8::encode_utf8_valid_utf8, vstd::utf8::encode_utf8_decode_utf8};

    if normal_path(other) != normal_path(path) {
        assert(now.contains_key(normal_path(other)) == was.contains_key(normal_path(other)));
    }
}

} // verus!
