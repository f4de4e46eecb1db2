//! The layout of a store directory, and the path tokens that may stand in it.
//!
//! Every blob id, namespace and readable path that becomes part of a path passes the
//! checks here first, so no stored value can name a file outside the store.

use vstd::prelude::*;
use vstd::string::*;

use crate::digest::{hex_text, ObjectHash};
use crate::text::{chars_of, text_of};

verus! {

/// Why a value cannot stand in a path.
#[derive(Debug, Clone, Copy, PartialEq, Eq, Structural)]
pub enum PathTokenError {
    /// The value, or a segment of it, is empty.
    Empty,
    /// The value, or a segment of it, is `.` or `..`.
    Relative,
    /// The value holds a path separator, a drive separator or a NUL.
    Forbidden,
    /// An id is too short to be partitioned by its first four characters.
    TooShort,
}

impl PathTokenError {
    /// The text [`PathTokenError::message`] gives.
    pub open spec fn message_text(self) -> Seq<char> {
        match self {
            PathTokenError::Empty => "path token is empty"@,
            PathTokenError::Relative => "path token is a relative directory"@,
            PathTokenError::Forbidden => "path token holds a separator or a NUL"@,
            PathTokenError::TooShort => "path token is too short to partition"@,
        }
    }

    /// The reason in words.
    pub fn message(&self) -> (text: String)
        ensures
            text@ == self.message_text(),
    {
        match self {
            PathTokenError::Empty => "path token is empty".to_owned(),
            PathTokenError::Relative => "path token is a relative directory".to_owned(),
            PathTokenError::Forbidden => "path token holds a separator or a NUL".to_owned(),
            PathTokenError::TooShort => "path token is too short to partition".to_owned(),
        }
    }
}

/// The characters that no path token may hold.
pub open spec fn is_forbidden_char(c: char) -> bool {
    c == '/' || c == '\\' || c == ':' || c == '\0'
}

/// What keeps a text from being a path token, or `None` where nothing does.
pub open spec fn token_fault(s: Seq<char>) -> Option<PathTokenError> {
    if s.len() == 0 {
        Some(PathTokenError::Empty)
    } else if s == seq!['.'] || s == seq!['.', '.'] {
        Some(PathTokenError::Relative)
    } else if exists|i: int| 0 <= i < s.len() && is_forbidden_char(#[trigger] s[i]) {
        Some(PathTokenError::Forbidden)
    } else {
        None
    }
}

/// The segments of a text between separators: one more than it has separators.
pub open spec fn segments(s: Seq<char>, separator: char) -> Seq<Seq<char>>
    decreases s.len(),
{
    if s.len() == 0 {
        seq![Seq::<char>::empty()]
    } else {
        let before = segments(s.drop_last(), separator);
        if s.last() == separator {
            before.push(Seq::<char>::empty())
        } else {
            before.drop_last().push(before.last().push(s.last()))
        }
    }
}

/// The fault of the first faulty segment, or `None` where every segment is a token.
pub open spec fn first_fault(parts: Seq<Seq<char>>) -> Option<PathTokenError>
    decreases parts.len(),
{
    if parts.len() == 0 {
        None
    } else {
        match first_fault(parts.drop_last()) {
            Some(fault) => Some(fault),
            None => token_fault(parts.last()),
        }
    }
}

/// What keeps a text from being a readable cloud path: the fault of its first
/// `/`-separated segment that is no path token.
pub open spec fn cloud_path_fault(s: Seq<char>) -> Option<PathTokenError> {
    first_fault(segments(s, '/'))
}

/// The characters of each text.
pub open spec fn texts(v: Seq<String>) -> Seq<Seq<char>> {
    v.map_values(|t: String| t@)
}

fn chars_fault(chars: &[char]) -> (fault: Option<PathTokenError>)
    ensures
        fault == token_fault(chars@),
{
    if chars.len() == 0 {
        return Some(PathTokenError::Empty);
    }
    if chars.len() == 1 && chars[0] == '.' {
        assert(chars@ =~= seq!['.']);
        return Some(PathTokenError::Relative);
    }
    if chars.len() == 2 && chars[0] == '.' && chars[1] == '.' {
        assert(chars@ =~= seq!['.', '.']);
        return Some(PathTokenError::Relative);
    }
    assert(chars@ != seq!['.'] && chars@ != seq!['.', '.']) by {
        if chars@ == seq!['.'] || chars@ == seq!['.', '.'] {
            assert(chars@[0] == '.');
        }
    }
    let mut i: usize = 0;
    while i < chars.len()
        invariant
            i <= chars.len(),
            chars.len() > 0,
            chars@ != seq!['.'] && chars@ != seq!['.', '.'],
            forall|j: int| 0 <= j < i ==> !is_forbidden_char(#[trigger] chars@[j]),
        decreases chars.len() - i,
    {
        let c: char = chars[i];
        if c == '/' || c == '\\' || c == ':' || c == '\0' {
            assert(is_forbidden_char(chars@[i as int]));
            return Some(PathTokenError::Forbidden);
        }
        i = i + 1;
    }
    None
}

/// Checks that a text may stand as one segment of a path.
pub fn validate_path_token(token: &str) -> (checked: Result<(), PathTokenError>)
    ensures
        checked == (match token_fault(token@) {
            Some(fault) => Err::<(), PathTokenError>(fault),
            None => Ok(()),
        }),
{
    match chars_fault(chars_of(token).as_slice()) {
        Some(fault) => Err(fault),
        None => Ok(()),
    }
}


/// Splits a text at every separator.
pub fn split_text(text: &str, separator: char) -> (parts: Vec<String>)
    ensures
        texts(parts@) == segments(text@, separator),
{
    let chars: Vec<char> = chars_of(text);
    let mut parts: Vec<String> = Vec::new();
    let mut current: String = String::new();
    let mut i: usize = 0;
    assert(chars@.take(0) =~= Seq::<char>::empty());
    assert(texts(parts@).push(current@) =~= segments(chars@.take(0), separator));
    while i < chars.len()
        invariant
            i <= chars.len(),
            texts(parts@).push(current@) == segments(chars@.take(i as int), separator),
        decreases chars.len() - i,
    {
        let c: char = chars[i];
        let ghost before = segments(chars@.take(i as int), separator);
        assert(chars@.take(i + 1).drop_last() =~= chars@.take(i as int));
        assert(chars@.take(i + 1).last() == c);
        let ghost old_texts = texts(parts@);
        assert(before.drop_last() =~= old_texts);
        assert(before.last() == current@);
        if c == separator {
            let ghost done = current@;
            parts.push(current);
            current = String::new();
            assert(texts(parts@) =~= old_texts.push(done));
            assert(texts(parts@).push(current@) =~= before.push(Seq::<char>::empty()));
        } else {
            current.push(c);
        }
        i = i + 1;
    }
    assert(chars@.take(chars@.len() as int) =~= text@);
    let ghost old_texts = texts(parts@);
    let ghost last = current@;
    parts.push(current);
    assert(texts(parts@) =~= old_texts.push(last));
    parts
}

/// The fault of the first of `parts` from `start` on that is no path token.
pub fn first_part_fault(parts: &Vec<String>, start: usize) -> (fault: Option<PathTokenError>)
    requires
        start <= parts.len(),
    ensures
        fault == first_fault(texts(parts@).skip(start as int)),
{
    let ghost tail = texts(parts@).skip(start as int);
    let mut i: usize = start;
    assert(tail.take(0) =~= Seq::<Seq<char>>::empty());
    while i < parts.len()
        invariant
            start <= i <= parts.len(),
            tail == texts(parts@).skip(start as int),
            first_fault(tail.take(i - start)) is None,
        decreases parts.len() - i,
    {
        let ghost k = i - start;
        assert(tail.take(k + 1).drop_last() =~= tail.take(k));
        assert(tail.take(k + 1).last() == parts@[i as int]@);
        match chars_fault(chars_of(parts[i].as_str()).as_slice()) {
            Some(fault) => {
                proof {
                    lemma_fault_stays(tail, k + 1);
                }
                return Some(fault);
            },
            None => {},
        }
        i = i + 1;
    }
    assert(tail.take(tail.len() as int) =~= tail);
    None
}

proof fn lemma_fault_stays(parts: Seq<Seq<char>>, n: int)
    requires
        0 <= n <= parts.len(),
        first_fault(parts.take(n)) is Some,
    ensures
        first_fault(parts) == first_fault(parts.take(n)),
    decreases parts.len() - n,
{
    if n < parts.len() {
        assert(parts.take(n + 1).drop_last() =~= parts.take(n));
        lemma_fault_stays(parts, n + 1);
    } else {
        assert(parts.take(n) =~= parts);
    }
}

/// Checks that a text is a readable cloud path: relative, with every segment a token.
pub fn validate_cloud_path(path: &str) -> (checked: Result<(), PathTokenError>)
    ensures
        checked == (match cloud_path_fault(path@) {
            Some(fault) => Err::<(), PathTokenError>(fault),
            None => Ok(()),
        }),
{
    let parts: Vec<String> = split_text(path, '/');
    assert(texts(parts@).skip(0) =~= texts(parts@));
    match first_part_fault(&parts, 0) {
        Some(fault) => Err(fault),
        None => Ok(()),
    }
}

/// What keeps an id from being partitioned.
pub open spec fn shard_fault(id: Seq<char>) -> Option<PathTokenError> {
    match token_fault(id) {
        Some(fault) => Some(fault),
        None => if id.len() < 4 {
            Some(PathTokenError::TooShort)
        } else {
            None
        },
    }
}

/// Where an id stands in a partitioned folder: below its first two characters, then
/// its next two.
pub open spec fn shard_text(id: Seq<char>) -> Seq<char> {
    id.subrange(0, 2) + "/"@ + id.subrange(2, 4) + "/"@ + id
}

fn shard(id: &str) -> (path: String)
    requires
        id@.len() >= 4,
    ensures
        path@ == shard_text(id@),
{
    let chars: Vec<char> = chars_of(id);
    let first: String = text_of(vstd::slice::slice_subrange(chars.as_slice(), 0, 2));
    let second: String = text_of(vstd::slice::slice_subrange(chars.as_slice(), 2, 4));
    first.concat("/").concat(second.as_str()).concat("/").concat(id)
}

/// A store directory: the root below which every file of the store lives.
#[derive(Debug)]
pub struct StoreDir {
    root: String,
}

impl Clone for StoreDir {
    fn clone(&self) -> (copy: StoreDir)
        ensures
            copy == *self,
    {
        StoreDir { root: self.root.clone() }
    }
}

impl View for StoreDir {
    type V = Seq<char>;

    closed spec fn view(&self) -> Seq<char> {
        self.root@
    }
}

/// The folder that holds every evictable cache copy.
pub open spec fn cache_dir_text(root: Seq<char>) -> Seq<char> {
    root + "/storage/cache"@
}

/// The folder that holds one namespace's evictable cache copies.
pub open spec fn cache_namespace_text(root: Seq<char>, namespace: Seq<char>) -> Seq<char> {
    root + "/storage/cache/"@ + namespace
}

/// The path of an evictable cache copy.
pub open spec fn cache_path_text(root: Seq<char>, namespace: Seq<char>, hash: Seq<u8>) -> Seq<char> {
    root + "/storage/cache/"@ + namespace + "/"@ + shard_text(hex_text(hash))
}

/// The path of a kept cache copy.
pub open spec fn pinned_path_text(root: Seq<char>, namespace: Seq<char>, hash: Seq<u8>) -> Seq<char> {
    root + "/storage/pinned/"@ + namespace + "/"@ + shard_text(hex_text(hash))
}

/// The path of a host-provided blob's only copy while it is local.
pub open spec fn local_path_text(root: Seq<char>, namespace: Seq<char>, id: Seq<char>) -> Seq<char> {
    root + "/storage/local/"@ + namespace + "/"@ + id
}

/// The path of a sealed blob that waits for its upload.
pub open spec fn spool_path_text(root: Seq<char>, hash: Seq<u8>) -> Seq<char> {
    root + "/storage/outbound/"@ + hex_text(hash)
}

impl StoreDir {
    /// The store directory at `root`.
    pub fn new(root: String) -> (dir: StoreDir)
        ensures
            dir@ == root@,
    {
        StoreDir { root }
    }

    /// Partitions an id: `a1b2-blob` becomes `a1/b2/a1b2-blob`.
    pub fn id_shard(id: &str) -> (path: Result<String, PathTokenError>)
        ensures
            match shard_fault(id@) {
                Some(fault) => path == Err::<String, PathTokenError>(fault),
                None => path matches Ok(text) && text@ == shard_text(id@),
            },
    {
        let chars: Vec<char> = chars_of(id);
        match chars_fault(chars.as_slice()) {
            Some(fault) => return Err(fault),
            None => {},
        }
        if chars.len() < 4 {
            return Err(PathTokenError::TooShort);
        }
        Ok(shard(id))
    }

    /// The folder that holds every evictable cache copy.
    pub fn cache_dir(&self) -> (path: String)
        ensures
            path@ == cache_dir_text(self@),
    {
        self.root.clone().concat("/storage/cache")
    }

    /// The folder that holds the evictable cache copies of `namespace`.
    pub fn cache_namespace_dir(&self, namespace: &str) -> (path: Result<String, PathTokenError>)
        ensures
            match token_fault(namespace@) {
                Some(fault) => path == Err::<String, PathTokenError>(fault),
                None => path matches Ok(text) && text@ == cache_namespace_text(self@, namespace@),
            },
    {
        match validate_path_token(namespace) {
            Err(fault) => Err(fault),
            Ok(()) => Ok(self.root.clone().concat("/storage/cache/").concat(namespace)),
        }
    }

    /// The evictable copy of the blob that `hash` locates.
    pub fn cache_blob_path(&self, namespace: &str, hash: ObjectHash) -> (path: Result<
        String,
        PathTokenError,
    >)
        ensures
            match token_fault(namespace@) {
                Some(fault) => path == Err::<String, PathTokenError>(fault),
                None => path matches Ok(text) && text@ == cache_path_text(self@, namespace@, hash@),
            },
    {
        match validate_path_token(namespace) {
            Err(fault) => Err(fault),
            Ok(()) => {
                let name: String = hash.to_text();
                Ok(
                    self.root.clone().concat("/storage/cache/").concat(namespace).concat("/").concat(
                        shard(name.as_str()).as_str(),
                    ),
                )
            },
        }
    }

    /// The kept copy of the blob that `hash` locates.
    pub fn pinned_blob_path(&self, namespace: &str, hash: ObjectHash) -> (path: Result<
        String,
        PathTokenError,
    >)
        ensures
            match token_fault(namespace@) {
                Some(fault) => path == Err::<String, PathTokenError>(fault),
                None => path matches Ok(text) && text@ == pinned_path_text(self@, namespace@, hash@),
            },
    {
        match validate_path_token(namespace) {
            Err(fault) => Err(fault),
            Ok(()) => {
                let name: String = hash.to_text();
                Ok(
                    self.root.clone().concat("/storage/pinned/").concat(namespace).concat("/").concat(
                        shard(name.as_str()).as_str(),
                    ),
                )
            },
        }
    }

    /// The local store's copy of the host-provided blob `id`.
    pub fn local_blob_path(&self, namespace: &str, id: &str) -> (path: Result<
        String,
        PathTokenError,
    >)
        ensures
            match first_fault(seq![namespace@, id@]) {
                Some(fault) => path == Err::<String, PathTokenError>(fault),
                None => path matches Ok(text) && text@ == local_path_text(self@, namespace@, id@),
            },
    {
        proof {
            reveal_with_fuel(first_fault, 3);
            assert(seq![namespace@, id@].drop_last() =~= seq![namespace@]);
            assert(seq![namespace@].drop_last() =~= Seq::<Seq<char>>::empty());
        }
        match validate_path_token(namespace) {
            Err(fault) => return Err(fault),
            Ok(()) => {},
        }
        match validate_path_token(id) {
            Err(fault) => return Err(fault),
            Ok(()) => {},
        }
        Ok(self.root.clone().concat("/storage/local/").concat(namespace).concat("/").concat(id))
    }

    /// Where the sealed bytes of the blob that `hash` locates wait for their upload.
    pub fn outbound_blob_spool_path(&self, hash: ObjectHash) -> (path: String)
        ensures
            path@ == spool_path_text(self@, hash@),
    {
        self.root.clone().concat("/storage/outbound/").concat(hash.to_text().as_str())
    }
}

/// Whether a path leads below a folder.
pub open spec fn is_under(folder: Seq<char>, path: Seq<char>) -> bool {
    folder.len() < path.len() && path.take(folder.len() as int) == folder
        && path[folder.len() as int] == '/'
}

/// Each namespace has its own part of the cache: an evictable copy is below the folder of
/// its own namespace and of no other, so that evicting one never touches another.
pub proof fn law_namespaces_are_apart(
    root: Seq<char>,
    namespace: Seq<char>,
    hash: Seq<u8>,
    other: Seq<char>,
)
    requires
        token_fault(namespace) is None,
        token_fault(other) is None,
    ensures
        is_under(cache_namespace_text(root, other), cache_path_text(root, namespace, hash))
            <==> namespace == other,
{
    reveal_strlit("/");
    let path = cache_path_text(root, namespace, hash);
    let folder = cache_namespace_text(root, other);
    let start = (root + "/storage/cache/"@).len() as int;
    let rest = "/"@ + shard_text(hex_text(hash));
    assert(path =~= root + "/storage/cache/"@ + namespace + rest);
    assert forall|i: int| 0 <= i < namespace.len() implies path[start + i] == #[trigger] namespace[i] by {}
    assert(path[start + namespace.len()] == '/');
    if namespace == other {
        assert(path.take(folder.len() as int) =~= folder);
    }
    if is_under(folder, path) {
        assert forall|i: int| 0 <= i < other.len() implies path[start + i] == #[trigger] other[i] by {
            assert(folder[start + i] == other[i]);
            assert(path.take(folder.len() as int)[start + i] == path[start + i]);
        }
        assert forall|i: int| 0 <= i < namespace.len() implies #[trigger] namespace[i] != '/' by {}
        assert forall|i: int| 0 <= i < other.len() implies #[trigger] other[i] != '/' by {}
        if namespace.len() < other.len() {
            assert(other[namespace.len() as int] == '/');
        }
        if other.len() < namespace.len() {
            assert(namespace[other.len() as int] == '/');
        }
        assert(namespace =~= other);
    }
}

/// Kept copies and local blobs are out of the cache folder's reach: neither eviction nor
/// clearing the cache can meet one.
pub proof fn law_kept_files_are_not_in_the_cache(
    root: Seq<char>,
    namespace: Seq<char>,
    hash: Seq<u8>,
    id: Seq<char>,
)
    ensures
        !is_under(cache_dir_text(root), pinned_path_text(root, namespace, hash)),
        !is_under(cache_dir_text(root), local_path_text(root, namespace, id)),
        !is_under(cache_dir_text(root), spool_path_text(root, hash)),
{
    reveal_strlit("/storage/cache");
    reveal_strlit("/storage/pinned/");
    reveal_strlit("/storage/local/");
    reveal_strlit("/storage/outbound/");
    let folder = cache_dir_text(root);
    let at = root.len() as int + 9;
    assert(folder[at] == 'c');
    let pinned = pinned_path_text(root, namespace, hash);
    let local = local_path_text(root, namespace, id);
    let spool = spool_path_text(root, hash);
    assert(pinned[at] == 'p');
    assert(local[at] == 'l');
    assert(spool[at] == 'o');
    if is_under(folder, pinned) {
        assert(pinned.take(folder.len() as int)[at] == pinned[at]);
    }
    if is_under(folder, local) {
        assert(local.take(folder.len() as int)[at] == local[at]);
    }
    if is_under(folder, spool) {
        assert(spool.take(folder.len() as int)[at] == spool[at]);
    }
}

} // verus!
