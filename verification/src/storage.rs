//! The in-memory file store that backs one FTP session.

use std::time::SystemTime;
use vstd::prelude::*;
use vstd::slice::{slice_subrange, slice_to_vec};

use crate::keyed::{
    keyed_map, keys_distinct, lemma_keyed_at, lemma_keyed_push, lemma_keyed_remove,
    lemma_keyed_update, lemma_keys_listed, lists_keys_exactly, string_views,
};

verus! {

/// `p` with every leading `/` removed.
pub open spec fn strip_leading_slashes(p: Seq<char>) -> Seq<char>
    decreases p.len(),
{
    if p.len() > 0 && p[0] == '/' {
        strip_leading_slashes(p.drop_first())
    } else {
        p
    }
}

/// The storage holds no directories: a path names a file by what is left of it
/// once its leading slashes are gone.
pub open spec fn file_key(path: Seq<char>) -> Seq<char> {
    strip_leading_slashes(path)
}

proof fn lemma_strip_skip(p: Seq<char>, i: int)
    requires
        0 <= i <= p.len(),
        forall|j: int| 0 <= j < i ==> p[j] == '/',
    ensures
        strip_leading_slashes(p) == strip_leading_slashes(p.skip(i)),
    decreases i,
{
    if i > 0 {
        assert(p.skip(1) =~= p.drop_first());
        lemma_strip_skip(p.drop_first(), i - 1);
        assert(p.drop_first().skip(i - 1) =~= p.skip(i));
    } else {
        assert(p.skip(0) =~= p);
    }
}

/// What went wrong with a storage request.
#[derive(Clone, Copy, Debug, PartialEq, Eq, Structural)]
pub enum FsErrorKind {
    /// The named file does not exist, or the path can never name one.
    PermanentFileNotAvailable,
    /// The path names a directory that does not exist.
    PermanentDirectoryNotAvailable,
    /// The request needs directories, which this storage does not have.
    CommandNotImplemented,
    /// Something failed locally while the request was served.
    LocalError,
}

/// A refused storage request: its kind and a message for the client.
#[derive(Debug)]
pub struct FsError {
    pub kind: FsErrorKind,
    pub message: String,
}

/// `std::time::SystemTime`, carried through as an opaque value.
#[verifier::external_type_specification]
#[verifier::external_body]
pub struct ExSystemTime(SystemTime);

/// Reads the system clock through `std::time::SystemTime::now`. Nothing is
/// claimed of the reading: it depends on the machine and the moment.
#[verifier::external_body]
fn current_time() -> SystemTime {
    SystemTime::now()
}

/// What the storage reports of a path.
#[derive(Clone, Copy, Debug)]
pub struct MemMetadata {
    pub size: u64,
    pub is_dir: bool,
    pub modified: SystemTime,
}

impl MemMetadata {
    /// The size in bytes.
    pub fn len(&self) -> (r: u64)
        ensures
            r == self.size,
    {
        self.size
    }

    /// Whether the path is the (only) directory.
    pub fn is_dir(&self) -> (r: bool)
        ensures
            r == self.is_dir,
    {
        self.is_dir
    }

    /// Whether the path is a file.
    pub fn is_file(&self) -> (r: bool)
        ensures
            r == !self.is_dir,
    {
        !self.is_dir
    }

    /// The storage holds no symbolic links.
    pub fn is_symlink(&self) -> (r: bool)
        ensures
            !r,
    {
        false
    }

    /// The time at which this metadata was taken.
    pub fn modified(&self) -> (r: Result<SystemTime, FsError>)
        ensures
            r == Ok::<SystemTime, FsError>(self.modified),
    {
        Ok(self.modified)
    }

    /// Every file belongs to group 0.
    pub fn gid(&self) -> (r: u32)
        ensures
            r == 0,
    {
        0
    }

    /// Every file belongs to user 0.
    pub fn uid(&self) -> (r: u32)
        ensures
            r == 0,
    {
        0
    }
}

/// One line of a directory listing.
#[derive(Debug)]
pub struct FileEntry {
    pub path: String,
    pub metadata: MemMetadata,
}

/// The names of `entries`.
pub open spec fn entry_paths(entries: Seq<FileEntry>) -> Seq<Seq<char>> {
    entries.map_values(|e: FileEntry| e.path@)
}

/// `entries` lists every file of `files` once, with its size, as a file.
pub open spec fn lists_exactly(files: Map<Seq<char>, Seq<u8>>, entries: Seq<FileEntry>) -> bool {
    &&& lists_keys_exactly(files, entry_paths(entries))
    &&& forall|i: int|
        0 <= i < entries.len() ==> {
            &&& #[trigger] entries[i].metadata.size == files[entries[i].path@].len()
            &&& !entries[i].metadata.is_dir
        }
}

/// The metadata request: the root is an empty directory, a stored file reports
/// its size, and any other path is refused.
pub open spec fn spec_metadata(files: Map<Seq<char>, Seq<u8>>, path: Seq<char>) -> Result<
    (nat, bool),
    FsErrorKind,
> {
    let k = file_key(path);
    if k.len() == 0 {
        Ok((0, true))
    } else if files.contains_key(k) {
        Ok((files[k].len(), false))
    } else {
        Err(FsErrorKind::PermanentFileNotAvailable)
    }
}

/// The listing request: only the root can be listed.
pub open spec fn spec_list_allowed(path: Seq<char>) -> bool {
    file_key(path).len() == 0
}

/// The download request: the stored content from `start` on (nothing when
/// `start` lies past its end).
pub open spec fn spec_get(files: Map<Seq<char>, Seq<u8>>, path: Seq<char>, start: u64) -> Result<
    Seq<u8>,
    FsErrorKind,
> {
    let k = file_key(path);
    if files.contains_key(k) {
        let d = files[k];
        let from = if start < d.len() {
            start as int
        } else {
            d.len() as int
        };
        Ok(d.subrange(from, d.len() as int))
    } else {
        Err(FsErrorKind::PermanentFileNotAvailable)
    }
}

/// The upload request: the path must name a file; then the content that was
/// read, or the read's failure, decides.
pub open spec fn spec_put(
    files: Map<Seq<char>, Seq<u8>>,
    path: Seq<char>,
    content: Result<Seq<u8>, Seq<char>>,
) -> Result<Map<Seq<char>, Seq<u8>>, FsErrorKind> {
    let k = file_key(path);
    if k.len() == 0 {
        Err(FsErrorKind::PermanentFileNotAvailable)
    } else {
        match content {
            Ok(d) => Ok(files.insert(k, d)),
            Err(_) => Err(FsErrorKind::LocalError),
        }
    }
}

/// The delete request.
pub open spec fn spec_del(files: Map<Seq<char>, Seq<u8>>, path: Seq<char>) -> Result<
    Map<Seq<char>, Seq<u8>>,
    FsErrorKind,
> {
    let k = file_key(path);
    if files.contains_key(k) {
        Ok(files.remove(k))
    } else {
        Err(FsErrorKind::PermanentFileNotAvailable)
    }
}

/// The rename request: the content leaves the old name for the new one.
pub open spec fn spec_rename(files: Map<Seq<char>, Seq<u8>>, from: Seq<char>, to: Seq<char>) -> Result<
    Map<Seq<char>, Seq<u8>>,
    FsErrorKind,
> {
    let f = file_key(from);
    if files.contains_key(f) {
        Ok(files.remove(f).insert(file_key(to), files[f]))
    } else {
        Err(FsErrorKind::PermanentFileNotAvailable)
    }
}

/// The change-directory request: only the root exists.
pub open spec fn spec_cwd(path: Seq<char>) -> Result<(), FsErrorKind> {
    if file_key(path).len() == 0 {
        Ok(())
    } else {
        Err(FsErrorKind::PermanentDirectoryNotAvailable)
    }
}

/// One stored file.
#[derive(Debug)]
struct FileRecord {
    name: String,
    data: Vec<u8>,
}

/// The (name, content) pairs that `records` holds.
spec fn record_pairs(records: Seq<FileRecord>) -> Seq<(Seq<char>, Seq<u8>)> {
    records.map_values(|r: FileRecord| (r.name@, r.data@))
}

/// The files of one FTP session, in one flat namespace, kept in memory.
#[derive(Debug)]
pub struct MemStorage {
    files: Vec<FileRecord>,
}

impl View for MemStorage {
    type V = Map<Seq<char>, Seq<u8>>;

    closed spec fn view(&self) -> Map<Seq<char>, Seq<u8>> {
        keyed_map(record_pairs(self.files@))
    }
}

/// Stores `data` under `name` in `files`, replacing what was stored there.
fn insert_record(files: &mut Vec<FileRecord>, name: String, data: Vec<u8>)
    requires
        keys_distinct(record_pairs(old(files)@)),
    ensures
        keys_distinct(record_pairs(final(files)@)),
        keyed_map(record_pairs(final(files)@)) == keyed_map(record_pairs(old(files)@)).insert(
            name@,
            data@,
        ),
{
    let r = FileRecord { name, data };
    match find_record(files, &r.name) {
        Some(i) => {
            proof {
                lemma_keyed_update(record_pairs(files@), i as int, (r.name@, r.data@));
                assert(record_pairs(files@.update(i as int, r)) =~= record_pairs(files@).update(
                    i as int,
                    (r.name@, r.data@),
                ));
            }
            files.set(i, r);
        },
        None => {
            proof {
                lemma_keyed_push(record_pairs(files@), (r.name@, r.data@));
                assert(record_pairs(files@.push(r)) =~= record_pairs(files@).push(
                    (r.name@, r.data@),
                ));
            }
            files.push(r);
        },
    }
}

/// Removes the record at `i` from `files` and hands it back.
fn take_record(files: &mut Vec<FileRecord>, i: usize) -> (r: FileRecord)
    requires
        keys_distinct(record_pairs(old(files)@)),
        i < old(files).len(),
    ensures
        keys_distinct(record_pairs(final(files)@)),
        r == old(files)@[i as int],
        keyed_map(record_pairs(old(files)@)).contains_key(r.name@),
        keyed_map(record_pairs(old(files)@))[r.name@] == r.data@,
        keyed_map(record_pairs(final(files)@)) == keyed_map(record_pairs(old(files)@)).remove(
            r.name@,
        ),
{
    proof {
        lemma_keyed_remove(record_pairs(files@), i as int);
        lemma_keyed_at(record_pairs(files@), i as int);
        assert(record_pairs(files@.remove(i as int)) =~= record_pairs(files@).remove(i as int));
    }
    files.remove(i)
}

/// The index of the record named `key` in `files`, if there is one.
fn find_record(files: &Vec<FileRecord>, key: &String) -> (r: Option<usize>)
    requires
        keys_distinct(record_pairs(files@)),
    ensures
        match r {
            Some(i) => i < files.len() && files@[i as int].name@ == key@,
            None => !keyed_map(record_pairs(files@)).contains_key(key@),
        },
{
    let mut i: usize = 0;
    while i < files.len()
        invariant
            i <= files.len(),
            forall|j: int| 0 <= j < i ==> files@[j].name@ != key@,
        decreases files.len() - i,
    {
        if files[i].name == *key {
            return Some(i);
        }
        i = i + 1;
    }
    None
}

impl MemStorage {
    /// The storage's invariant: no name is stored twice.
    #[verifier::type_invariant]
    spec fn inv(self) -> bool {
        keys_distinct(record_pairs(self.files@))
    }

    /// An empty storage.
    pub fn new() -> (s: MemStorage)
        ensures
            s@ == Map::<Seq<char>, Seq<u8>>::empty(),
    {
        let s = MemStorage { files: Vec::new() };
        assert(s@ =~= Map::<Seq<char>, Seq<u8>>::empty());
        s
    }

    /// Takes the records out, leaving none behind, to be changed and put back.
    fn take_files(&mut self) -> (files: Vec<FileRecord>)
        ensures
            files@ == old(self).files@,
            keys_distinct(record_pairs(files@)),
    {
        proof {
            use_type_invariant(&*self);
        }
        let mut files: Vec<FileRecord> = Vec::new();
        proof {
            assert(keys_distinct(record_pairs(files@)));
        }
        std::mem::swap(&mut files, &mut self.files);
        files
    }

    /// The names of the stored files, each once, in no particular order.
    pub fn file_names(&self) -> (names: Vec<String>)
        ensures
            lists_keys_exactly(self@, string_views(names@)),
    {
        proof {
            use_type_invariant(self);
        }
        let mut names: Vec<String> = Vec::new();
        let mut i: usize = 0;
        while i < self.files.len()
            invariant
                keys_distinct(record_pairs(self.files@)),
                i <= self.files.len(),
                names.len() == i,
                forall|j: int| 0 <= j < i ==> names@[j]@ == self.files@[j].name@,
            decreases self.files.len() - i,
        {
            names.push(self.files[i].name.clone());
            i = i + 1;
        }
        proof {
            lemma_keys_listed(record_pairs(self.files@), string_views(names@));
        }
        names
    }

    /// Describes what `path` names: the root directory or a stored file.
    pub fn metadata(&self, path: &str) -> (r: Result<MemMetadata, FsError>)
        ensures
            match r {
                Ok(m) => spec_metadata(self@, path@) == Ok::<(nat, bool), FsErrorKind>(
                    (m.size as nat, m.is_dir),
                ),
                Err(e) => spec_metadata(self@, path@) == Err::<(nat, bool), FsErrorKind>(e.kind)
                    && e.message@ == "File not found"@,
            },
    {
        proof {
            use_type_invariant(self);
        }
        let key = Self::normalize(path);
        if key.unicode_len() == 0 {
            return Ok(MemMetadata { size: 0, is_dir: true, modified: current_time() });
        }
        match find_record(&self.files, &key) {
            Some(i) => {
                proof {
                    lemma_keyed_at(record_pairs(self.files@), i as int);
                }
                Ok(
                    MemMetadata {
                        size: self.files[i].data.len() as u64,
                        is_dir: false,
                        modified: current_time(),
                    },
                )
            },
            None => Err(
                FsError {
                    kind: FsErrorKind::PermanentFileNotAvailable,
                    message: String::from_str("File not found"),
                },
            ),
        }
    }

    /// Lists the root directory: every stored file, each once, with its size.
    pub fn list(&self, path: &str) -> (r: Result<Vec<FileEntry>, FsError>)
        ensures
            match r {
                Ok(es) => spec_list_allowed(path@) && lists_exactly(self@, es@),
                Err(e) => {
                    &&& !spec_list_allowed(path@)
                    &&& e.kind == FsErrorKind::PermanentDirectoryNotAvailable
                    &&& e.message@ == "Not a directory"@
                },
            },
    {
        proof {
            use_type_invariant(self);
        }
        let key = Self::normalize(path);
        if key.unicode_len() != 0 {
            return Err(
                FsError {
                    kind: FsErrorKind::PermanentDirectoryNotAvailable,
                    message: String::from_str("Not a directory"),
                },
            );
        }
        let mut es: Vec<FileEntry> = Vec::new();
        let mut i: usize = 0;
        while i < self.files.len()
            invariant
                keys_distinct(record_pairs(self.files@)),
                i <= self.files.len(),
                es.len() == i,
                forall|j: int|
                    0 <= j < i ==> {
                        &&& es@[j].path@ == self.files@[j].name@
                        &&& es@[j].metadata.size == self.files@[j].data.len()
                        &&& !es@[j].metadata.is_dir
                    },
            decreases self.files.len() - i,
        {
            let entry = FileEntry {
                path: self.files[i].name.clone(),
                metadata: MemMetadata {
                    size: self.files[i].data.len() as u64,
                    is_dir: false,
                    modified: current_time(),
                },
            };
            es.push(entry);
            i = i + 1;
        }
        proof {
            lemma_keys_listed(record_pairs(self.files@), entry_paths(es@));
            assert forall|j: int| 0 <= j < es.len() implies {
                &&& #[trigger] es@[j].metadata.size == self@[es@[j].path@].len()
                &&& !es@[j].metadata.is_dir
            } by {
                assert(entry_paths(es@)[j] == es@[j].path@);
            }
        }
        Ok(es)
    }

    /// Downloads a stored file from byte `start_pos` on.
    pub fn get(&self, path: &str, start_pos: u64) -> (r: Result<Vec<u8>, FsError>)
        ensures
            match r {
                Ok(d) => spec_get(self@, path@, start_pos) == Ok::<Seq<u8>, FsErrorKind>(d@),
                Err(e) => spec_get(self@, path@, start_pos) == Err::<Seq<u8>, FsErrorKind>(e.kind)
                    && e.message@ == "File not found"@,
            },
    {
        proof {
            use_type_invariant(self);
        }
        let key = Self::normalize(path);
        match find_record(&self.files, &key) {
            Some(i) => {
                proof {
                    lemma_keyed_at(record_pairs(self.files@), i as int);
                }
                let data = &self.files[i].data;
                let len = data.len();
                let from: usize = if start_pos < len as u64 {
                    start_pos as usize
                } else {
                    len
                };
                let part = slice_subrange(data.as_slice(), from, len);
                Ok(slice_to_vec(part))
            },
            None => Err(
                FsError {
                    kind: FsErrorKind::PermanentFileNotAvailable,
                    message: String::from_str("File not found"),
                },
            ),
        }
    }

    /// The first half of an upload: the key that `path` names, checked before
    /// any content is read.
    pub fn put_target(path: &str) -> (r: Result<String, FsError>)
        ensures
            match r {
                Ok(k) => k@ == file_key(path@) && k@.len() > 0,
                Err(e) => {
                    &&& file_key(path@).len() == 0
                    &&& e.kind == FsErrorKind::PermanentFileNotAvailable
                    &&& e.message@ == "Invalid path"@
                },
            },
    {
        let key = Self::normalize(path);
        if key.unicode_len() == 0 {
            Err(
                FsError {
                    kind: FsErrorKind::PermanentFileNotAvailable,
                    message: String::from_str("Invalid path"),
                },
            )
        } else {
            Ok(key)
        }
    }

    /// The second half of an upload: stores what was read under `key`, or
    /// reports the read's failure, and answers the number of bytes stored.
    pub fn store_upload(&mut self, key: String, content: Result<Vec<u8>, String>) -> (r: Result<
        u64,
        FsError,
    >)
        ensures
            match content {
                Ok(d) => r == Ok::<u64, FsError>(d.len() as u64) && final(self)@ == old(self)@.insert(
                    key@,
                    d@,
                ),
                Err(msg) => r matches Err(e) && e.kind == FsErrorKind::LocalError && e.message@
                    == msg@ && final(self)@ == old(self)@,
            },
    {
        match content {
            Ok(data) => {
                let size = data.len() as u64;
                let mut files = self.take_files();
                insert_record(&mut files, key, data);
                self.files = files;
                Ok(size)
            },
            Err(msg) => Err(FsError { kind: FsErrorKind::LocalError, message: msg }),
        }
    }

    /// Uploads `content` to `path`; `content` is what reading the client's data
    /// gave, or the read's failure.
    pub fn put(&mut self, path: &str, content: Result<Vec<u8>, String>) -> (r: Result<u64, FsError>)
        ensures
            match r {
                Ok(n) => content matches Ok(d) && n == d.len() && spec_put(
                    old(self)@,
                    path@,
                    Ok(d@),
                ) == Ok::<Map<Seq<char>, Seq<u8>>, FsErrorKind>(final(self)@),
                Err(e) => final(self)@ == old(self)@ && spec_put(
                    old(self)@,
                    path@,
                    match content {
                        Ok(d) => Ok(d@),
                        Err(m) => Err(m@),
                    },
                ) == Err::<Map<Seq<char>, Seq<u8>>, FsErrorKind>(e.kind) && (e.message@ == if e.kind
                    == FsErrorKind::LocalError {
                    content->Err_0@
                } else {
                    "Invalid path"@
                }),
            },
    {
        match Self::put_target(path) {
            Ok(key) => self.store_upload(key, content),
            Err(e) => Err(e),
        }
    }

    /// Deletes a stored file.
    pub fn del(&mut self, path: &str) -> (r: Result<(), FsError>)
        ensures
            match r {
                Ok(_) => spec_del(old(self)@, path@) == Ok::<Map<Seq<char>, Seq<u8>>, FsErrorKind>(
                    final(self)@,
                ),
                Err(e) => final(self)@ == old(self)@ && spec_del(old(self)@, path@) == Err::<
                    Map<Seq<char>, Seq<u8>>,
                    FsErrorKind,
                >(e.kind) && e.message@ == "File not found"@,
            },
    {
        proof {
            use_type_invariant(&*self);
        }
        let key = Self::normalize(path);
        match find_record(&self.files, &key) {
            Some(i) => {
                let mut files = self.take_files();
                let _ = take_record(&mut files, i);
                self.files = files;
                Ok(())
            },
            None => Err(
                FsError {
                    kind: FsErrorKind::PermanentFileNotAvailable,
                    message: String::from_str("File not found"),
                },
            ),
        }
    }

    /// Directories cannot be made.
    pub fn mkd(&self, path: &str) -> (r: Result<(), FsError>)
        ensures
            r matches Err(e) && e.kind == FsErrorKind::CommandNotImplemented && e.message@
                == "Directories not supported"@,
    {
        Err(
            FsError {
                kind: FsErrorKind::CommandNotImplemented,
                message: String::from_str("Directories not supported"),
            },
        )
    }

    /// Moves a stored file's content from `from` to `to`.
    pub fn rename(&mut self, from: &str, to: &str) -> (r: Result<(), FsError>)
        ensures
            match r {
                Ok(_) => spec_rename(old(self)@, from@, to@) == Ok::<
                    Map<Seq<char>, Seq<u8>>,
                    FsErrorKind,
                >(final(self)@),
                Err(e) => final(self)@ == old(self)@ && spec_rename(old(self)@, from@, to@) == Err::<
                    Map<Seq<char>, Seq<u8>>,
                    FsErrorKind,
                >(e.kind) && e.message@ == "File not found"@,
            },
    {
        proof {
            use_type_invariant(&*self);
        }
        let from_key = Self::normalize(from);
        let to_key = Self::normalize(to);
        match find_record(&self.files, &from_key) {
            Some(i) => {
                let mut files = self.take_files();
                let rec = take_record(&mut files, i);
                insert_record(&mut files, to_key, rec.data);
                self.files = files;
                Ok(())
            },
            None => Err(
                FsError {
                    kind: FsErrorKind::PermanentFileNotAvailable,
                    message: String::from_str("File not found"),
                },
            ),
        }
    }

    /// Directories cannot be removed.
    pub fn rmd(&self, path: &str) -> (r: Result<(), FsError>)
        ensures
            r matches Err(e) && e.kind == FsErrorKind::CommandNotImplemented && e.message@
                == "Directories not supported"@,
    {
        Err(
            FsError {
                kind: FsErrorKind::CommandNotImplemented,
                message: String::from_str("Directories not supported"),
            },
        )
    }

    /// Changes into a directory: only the root is there.
    pub fn cwd(&self, path: &str) -> (r: Result<(), FsError>)
        ensures
            match r {
                Ok(_) => spec_cwd(path@) == Ok::<(), FsErrorKind>(()),
                Err(e) => spec_cwd(path@) == Err::<(), FsErrorKind>(e.kind) && e.message@
                    == "Only root directory supported"@,
            },
    {
        let key = Self::normalize(path);
        if key.unicode_len() == 0 {
            Ok(())
        } else {
            Err(
                FsError {
                    kind: FsErrorKind::PermanentDirectoryNotAvailable,
                    message: String::from_str("Only root directory supported"),
                },
            )
        }
    }

    /// The key under which `path` is stored: `path` without its leading slashes.
    pub fn normalize(path: &str) -> (key: String)
        ensures
            key@ == file_key(path@),
    {
        let n = path.unicode_len();
        let mut i: usize = 0;
        while i < n && path.get_char(i) == '/'
            invariant
                n == path@.len(),
                i <= n,
                forall|j: int| 0 <= j < i ==> path@[j] == '/',
            decreases n - i,
        {
            i = i + 1;
        }
        proof {
            lemma_strip_skip(path@, i as int);
            assert(path@.skip(i as int) =~= path@.subrange(i as int, n as int));
        }
        let rest = path.substring_char(i, n);
        String::from_str(rest)
    }
}

/// A path names the same file with or without a leading slash.
pub proof fn law_leading_slash_is_ignored(path: Seq<char>)
    ensures
        file_key(seq!['/'] + path) == file_key(path),
        file_key(file_key(path)) == file_key(path),
    decreases path.len(),
{
    assert((seq!['/'] + path).drop_first() =~= path);
    if path.len() > 0 && path[0] == '/' {
        law_leading_slash_is_ignored(path.drop_first());
    }
}

/// What an upload stores is what a download from the start gives back, and
/// its size is what the metadata reports.
pub proof fn law_get_returns_what_put_stored(
    files: Map<Seq<char>, Seq<u8>>,
    path: Seq<char>,
    data: Seq<u8>,
)
    requires
        spec_put(files, path, Ok(data)) is Ok,
    ensures
        spec_get(spec_put(files, path, Ok(data))->Ok_0, path, 0) == Ok::<Seq<u8>, FsErrorKind>(data),
        spec_metadata(spec_put(files, path, Ok(data))->Ok_0, path) == Ok::<(nat, bool), FsErrorKind>(
            (data.len(), false),
        ),
{
    assert(data.subrange(0, data.len() as int) =~= data);
}

/// A download from byte `start` on gives the stored content from there on, and
/// nothing once `start` lies past its end.
pub proof fn law_get_honours_start_pos(
    files: Map<Seq<char>, Seq<u8>>,
    path: Seq<char>,
    data: Seq<u8>,
    start: u64,
)
    requires
        spec_put(files, path, Ok(data)) is Ok,
    ensures
        start <= data.len() ==> spec_get(spec_put(files, path, Ok(data))->Ok_0, path, start)
            == Ok::<Seq<u8>, FsErrorKind>(data.skip(start as int)),
        start >= data.len() ==> spec_get(spec_put(files, path, Ok(data))->Ok_0, path, start)
            == Ok::<Seq<u8>, FsErrorKind>(Seq::<u8>::empty()),
{
    assert(data.subrange(data.len() as int, data.len() as int) =~= Seq::<u8>::empty());
    if start <= data.len() {
        assert(data.subrange(start as int, data.len() as int) =~= data.skip(start as int));
    }
}

/// An upload touches no other file.
pub proof fn law_put_keeps_other_files(
    files: Map<Seq<char>, Seq<u8>>,
    path: Seq<char>,
    content: Result<Seq<u8>, Seq<char>>,
    other: Seq<char>,
)
    requires
        spec_put(files, path, content) is Ok,
        file_key(other) != file_key(path),
    ensures
        spec_get(spec_put(files, path, content)->Ok_0, other, 0) == spec_get(files, other, 0),
{
}

/// A deleted file can no longer be read or described, and no other file is touched.
pub proof fn law_deleted_file_is_gone(files: Map<Seq<char>, Seq<u8>>, path: Seq<char>, other: Seq<char>)
    requires
        spec_del(files, path) is Ok,
    ensures
        spec_get(spec_del(files, path)->Ok_0, path, 0) == Err::<Seq<u8>, FsErrorKind>(
            FsErrorKind::PermanentFileNotAvailable,
        ),
        file_key(path).len() > 0 ==> spec_metadata(spec_del(files, path)->Ok_0, path) == Err::<
            (nat, bool),
            FsErrorKind,
        >(FsErrorKind::PermanentFileNotAvailable),
        file_key(other) != file_key(path) ==> spec_get(spec_del(files, path)->Ok_0, other, 0)
            == spec_get(files, other, 0),
{
}

/// A rename moves the content to the new name, and the old name (when it
/// differs) no longer names a file.
pub proof fn law_rename_moves_content(files: Map<Seq<char>, Seq<u8>>, from: Seq<char>, to: Seq<char>)
    requires
        spec_rename(files, from, to) is Ok,
    ensures
        spec_get(spec_rename(files, from, to)->Ok_0, to, 0) == spec_get(files, from, 0),
        file_key(from) != file_key(to) ==> spec_get(spec_rename(files, from, to)->Ok_0, from, 0)
            == Err::<Seq<u8>, FsErrorKind>(FsErrorKind::PermanentFileNotAvailable),
        forall|other: Seq<char>|
            file_key(other) != file_key(from) && file_key(other) != file_key(to) ==> spec_get(
                spec_rename(files, from, to)->Ok_0,
                other,
                0,
            ) == #[trigger] spec_get(files, other, 0),
{
}

/// A path's key is the path with its leading slashes removed, and nothing
/// else: the path is a run of slashes followed by the key, and the key does
/// not begin with a slash.
pub proof fn law_key_is_path_without_leading_slashes(path: Seq<char>)
    ensures
        file_key(path).len() <= path.len(),
        path =~= Seq::new((path.len() - file_key(path).len()) as nat, |j: int| '/') + file_key(path),
        file_key(path).len() > 0 ==> file_key(path)[0] != '/',
    decreases path.len(),
{
    if path.len() > 0 && path[0] == '/' {
        law_key_is_path_without_leading_slashes(path.drop_first());
        let k = file_key(path.drop_first());
        let n = (path.drop_first().len() - k.len()) as nat;
        assert(path.drop_first() =~= Seq::new(n, |j: int| '/') + k);
        assert(path =~= Seq::new(n + 1, |j: int| '/') + k) by {
            assert forall|j: int| 0 <= j < path.len() implies path[j] == (Seq::new(
                n + 1,
                |j: int| '/',
            ) + k)[j] by {
                if j > 0 {
                    assert(path[j] == path.drop_first()[j - 1]);
                }
            }
        }
    } else {
        assert(Seq::new(0, |j: int| '/') + path =~= path);
    }
}

/// A path that does not begin with a slash is its own key, so distinct such
/// paths name distinct files.
pub proof fn law_distinct_paths_name_distinct_files(p: Seq<char>, q: Seq<char>)
    requires
        p.len() == 0 || p[0] != '/',
        q.len() == 0 || q[0] != '/',
        p != q,
    ensures
        file_key(p) == p,
        file_key(q) == q,
        file_key(p) != file_key(q),
{
}

/// A download succeeds exactly when the path names a stored file, and gives
/// the last bytes of that file: all of it from `start` on, none past its end.
pub proof fn law_get_reads_the_stored_file(files: Map<Seq<char>, Seq<u8>>, path: Seq<char>, start: u64)
    ensures
        spec_get(files, path, start) is Ok <==> files.contains_key(file_key(path)),
        spec_get(files, path, start) matches Ok(d) ==> {
            let stored = files[file_key(path)];
            &&& d.len() == if start < stored.len() {
                stored.len() - start
            } else {
                0
            }
            &&& forall|j: int| 0 <= j < d.len() ==> #[trigger] d[j] == stored[stored.len() - d.len() + j]
        },
        spec_get(files, path, start) matches Err(kind) ==> kind == FsErrorKind::PermanentFileNotAvailable,
{
}

/// An upload succeeds exactly when the path names a file and the content could
/// be read; it then stores that content under the path's key and leaves every
/// other file as it was. A nameless path is refused before the content counts.
pub proof fn law_put_stores_under_the_key(
    files: Map<Seq<char>, Seq<u8>>,
    path: Seq<char>,
    content: Result<Seq<u8>, Seq<char>>,
)
    ensures
        spec_put(files, path, content) is Ok <==> file_key(path).len() > 0 && content is Ok,
        spec_put(files, path, content) matches Ok(after) ==> {
            &&& after.contains_key(file_key(path))
            &&& after[file_key(path)] == content->Ok_0
            &&& forall|k: Seq<char>|
                k != file_key(path) ==> (#[trigger] after.contains_key(k) == files.contains_key(k)
                    && (files.contains_key(k) ==> after[k] == files[k]))
        },
        spec_put(files, path, content) matches Err(kind) ==> kind == if file_key(path).len() == 0 {
            FsErrorKind::PermanentFileNotAvailable
        } else {
            FsErrorKind::LocalError
        },
{
}

/// A delete succeeds exactly when the path names a stored file; it removes that
/// file and leaves every other file as it was.
pub proof fn law_delete_needs_a_stored_file(files: Map<Seq<char>, Seq<u8>>, path: Seq<char>)
    ensures
        spec_del(files, path) is Ok <==> files.contains_key(file_key(path)),
        spec_del(files, path) matches Ok(after) ==> {
            &&& !after.contains_key(file_key(path))
            &&& forall|k: Seq<char>|
                k != file_key(path) ==> (#[trigger] after.contains_key(k) == files.contains_key(k)
                    && (files.contains_key(k) ==> after[k] == files[k]))
        },
        spec_del(files, path) matches Err(kind) ==> kind == FsErrorKind::PermanentFileNotAvailable,
{
}

/// A rename succeeds exactly when the old name is stored; the new name then
/// holds the old name's content, the old name (when it differs) is gone, and
/// every other file is as it was.
pub proof fn law_rename_needs_a_stored_source(
    files: Map<Seq<char>, Seq<u8>>,
    from: Seq<char>,
    to: Seq<char>,
)
    ensures
        spec_rename(files, from, to) is Ok <==> files.contains_key(file_key(from)),
        spec_rename(files, from, to) matches Ok(after) ==> {
            &&& after.contains_key(file_key(to))
            &&& after[file_key(to)] == files[file_key(from)]
            &&& file_key(from) != file_key(to) ==> !after.contains_key(file_key(from))
            &&& forall|k: Seq<char>|
                k != file_key(from) && k != file_key(to) ==> (#[trigger] after.contains_key(k)
                    == files.contains_key(k) && (files.contains_key(k) ==> after[k] == files[k]))
        },
        spec_rename(files, from, to) matches Err(kind) ==> kind == FsErrorKind::PermanentFileNotAvailable,
{
}

/// The root is a directory of size 0; any other path is described exactly when
/// it names a stored file, as a file of that file's size.
pub proof fn law_metadata_describes_the_path(files: Map<Seq<char>, Seq<u8>>, path: Seq<char>)
    ensures
        file_key(path).len() == 0 ==> spec_metadata(files, path) == Ok::<(nat, bool), FsErrorKind>(
            (0, true),
        ),
        file_key(path).len() > 0 ==> (spec_metadata(files, path) is Ok <==> files.contains_key(
            file_key(path),
        )),
        file_key(path).len() > 0 && files.contains_key(file_key(path)) ==> spec_metadata(files, path)
            == Ok::<(nat, bool), FsErrorKind>((files[file_key(path)].len(), false)),
        spec_metadata(files, path) matches Err(kind) ==> kind == FsErrorKind::PermanentFileNotAvailable,
{
}

/// Only the root can be listed or changed into.
pub proof fn law_only_the_root_is_a_directory(path: Seq<char>)
    ensures
        spec_list_allowed(path) <==> file_key(path).len() == 0,
        spec_cwd(path) is Ok <==> file_key(path).len() == 0,
        spec_cwd(path) matches Err(kind) ==> kind == FsErrorKind::PermanentDirectoryNotAvailable,
{
}

} // verus!
