//! What the file system over the drive decides: which path a request means,
//! whether a file may be opened, and what a read of an open file needs.

use vstd::prelude::*;
use crate::cache::{Cache, MAX_TTL_SECS};
use crate::drive::model::{listing, Entry, QuarkFile};
use crate::freshness::{expired, is_url_expired, url_query_pairs};
use crate::path::{names, render, render_prefix, segments, split_path};

verus! {

/// Why a request on the file system is turned down.
#[derive(Debug, Clone, Copy, PartialEq, Eq, Structural)]
pub enum FsError {
    NotImplemented,
    NotFound,
    Exists,
    Forbidden,
    GeneralFailure,
}

/// The file system over the drive: its directory cache, the directory of the
/// drive that it shows as its root, and its switches.
pub struct QuarkDriveFileSystem {
    pub dir_cache: Cache,
    pub root: Vec<String>,
    pub no_trash: bool,
    pub read_only: bool,
    pub upload_buffer_size: usize,
    pub skip_upload_same_size: bool,
    pub prefer_http_download: bool,
}

/// The path on the drive that a request path means under the root `root`:
/// itself where it lies under the root already, else the root and the
/// request path behind it.
pub open spec fn normalized(root: Seq<Seq<char>>, path: Seq<char>) -> Seq<char> {
    if root.is_prefix_of(segments(path)) {
        render(segments(path))
    } else {
        render(root + segments(path))
    }
}

/// Whether `front` is the start of `whole`, name by name.
pub fn starts_with(whole: &Vec<String>, front: &Vec<String>) -> (yes: bool)
    ensures
        yes == names(front@).is_prefix_of(names(whole@)),
{
    if front.len() > whole.len() {
        return false;
    }
    let mut i: usize = 0;
    while i < front.len()
        invariant
            i <= front.len() <= whole.len(),
            forall|j: int| 0 <= j < i ==> front@[j]@ == whole@[j]@,
        decreases front.len() - i,
    {
        if !(front[i] == whole[i]) {
            assert(names(front@)[i as int] != names(whole@)[i as int]);
            return false;
        }
        i += 1;
    }
    assert(names(front@) =~= names(whole@).subrange(0, front@.len() as int));
    true
}

impl QuarkDriveFileSystem {
    /// A file system that shows the directory `root` of the drive, with an
    /// empty cache of up to `cache_size` listings that each last `cache_ttl`
    /// seconds, and every switch off.
    pub fn new(root: &str, cache_size: u64, cache_ttl: u64) -> (fs: Self)
        requires
            cache_ttl <= MAX_TTL_SECS,
        ensures
            names(fs.root@) == segments(root@),
            fs.dir_cache.stored() == crate::cache::no_listings(),
            !fs.no_trash,
            !fs.read_only,
            fs.upload_buffer_size == 16 * 1024 * 1024,
            !fs.skip_upload_same_size,
            !fs.prefer_http_download,
    {
        QuarkDriveFileSystem {
            dir_cache: Cache::new(cache_size, cache_ttl),
            root: split_path(root),
            no_trash: false,
            read_only: false,
            upload_buffer_size: 16 * 1024 * 1024,
            skip_upload_same_size: false,
            prefer_http_download: false,
        }
    }

    /// Sets whether writes are turned down; the rest stays as it is.
    pub fn set_read_only(&mut self, read_only: bool) -> (fs: &mut Self)
        ensures
            *fs == (QuarkDriveFileSystem { read_only, ..*old(self) }),
            *final(self) == *final(fs),
    {
        self.read_only = read_only;
        self
    }

    /// Sets whether deleting skips the trash; the rest stays as it is.
    pub fn set_no_trash(&mut self, no_trash: bool) -> (fs: &mut Self)
        ensures
            *fs == (QuarkDriveFileSystem { no_trash, ..*old(self) }),
            *final(self) == *final(fs),
    {
        self.no_trash = no_trash;
        self
    }

    /// Sets the size of the upload buffer; the rest stays as it is.
    pub fn set_upload_buffer_size(&mut self, upload_buffer_size: usize) -> (fs: &mut Self)
        ensures
            *fs == (QuarkDriveFileSystem { upload_buffer_size, ..*old(self) }),
            *final(self) == *final(fs),
    {
        self.upload_buffer_size = upload_buffer_size;
        self
    }

    /// Sets whether a file of the same size is not uploaded again; the rest
    /// stays as it is.
    pub fn set_skip_upload_same_size(&mut self, skip_upload_same_size: bool) -> (fs: &mut Self)
        ensures
            *fs == (QuarkDriveFileSystem { skip_upload_same_size, ..*old(self) }),
            *final(self) == *final(fs),
    {
        self.skip_upload_same_size = skip_upload_same_size;
        self
    }

    /// Sets whether downloads go over plain HTTP; the rest stays as it is.
    pub fn set_prefer_http_download(&mut self, prefer_http_download: bool) -> (fs: &mut Self)
        ensures
            *fs == (QuarkDriveFileSystem { prefer_http_download, ..*old(self) }),
            *final(self) == *final(fs),
    {
        self.prefer_http_download = prefer_http_download;
        self
    }

    /// The path on the drive that a request path means.
    pub fn normalize_dav_path(&self, dav_path: &str) -> (path: String)
        ensures
            path@ == normalized(names(self.root@), dav_path@),
    {
        let mut segs = split_path(dav_path);
        if starts_with(&segs, &self.root) {
            let n = segs.len();
            assert(names(segs@).take(n as int) =~= names(segs@));
            return render_prefix(&segs, n);
        }
        let mut full: Vec<String> = Vec::new();
        let mut i: usize = 0;
        while i < self.root.len()
            invariant
                i <= self.root.len(),
                names(full@) == names(self.root@).take(i as int),
            decreases self.root.len() - i,
        {
            let seg = self.root[i].clone();
            let ghost before = names(full@);
            full.push(seg);
            assert(names(full@) =~= before.push(seg@));
            assert(names(full@) =~= names(self.root@).take(i + 1));
            i += 1;
        }
        assert(names(self.root@).take(i as int) =~= names(self.root@));
        let ghost tail = names(segs@);
        let ghost head = names(full@);
        full.append(&mut segs);
        assert(names(full@) =~= head + tail);
        let n = full.len();
        assert(names(full@).take(n as int) =~= names(full@));
        render_prefix(&full, n)
    }
}

/// Where the node with a path is looked for.
pub enum Lookup {
    /// The path is the root, which no listing holds.
    Root,
    /// The node is the child `name` of the directory `parent`.
    Child { parent: String, name: String },
}

pub ghost enum LookupView {
    Root,
    Child { parent: Seq<char>, name: Seq<char> },
}

impl View for Lookup {
    type V = LookupView;

    open spec fn view(&self) -> LookupView {
        match self {
            Lookup::Root => LookupView::Root,
            Lookup::Child { parent, name } => LookupView::Child { parent: parent@, name: name@ },
        }
    }
}

/// Where the node with this path is looked for: under its last segment, in
/// the directory that the segments before it spell.
pub open spec fn lookup_of(path: Seq<char>) -> LookupView {
    if segments(path).len() == 0 {
        LookupView::Root
    } else {
        LookupView::Child {
            parent: render(segments(path).drop_last()),
            name: segments(path).last(),
        }
    }
}

/// The first child of that name, if there is one.
pub open spec fn first_named(list: Seq<Entry>, name: Seq<char>) -> Option<Entry>
    decreases list.len(),
{
    if list.len() == 0 {
        None
    } else if list[0].file_name == name {
        Some(list[0])
    } else {
        first_named(list.drop_first(), name)
    }
}

/// Where the node with this path is looked for.
pub fn lookup_for(path: &str) -> (lookup: Lookup)
    ensures
        lookup@ == lookup_of(path@),
{
    let mut segs = split_path(path);
    let ghost all = names(segs@);
    match segs.pop() {
        None => Lookup::Root,
        Some(name) => {
            let n = segs.len();
            assert(names(segs@) =~= all.drop_last());
            assert(names(segs@).take(n as int) =~= names(segs@));
            assert(name@ == all.last());
            let parent = render_prefix(&segs, n);
            Lookup::Child { parent, name }
        },
    }
}

/// The first child of that name in a listing.
pub fn find_in_listing(files: &Vec<QuarkFile>, name: &String) -> (found: Option<QuarkFile>)
    ensures
        match found {
            Some(file) => first_named(listing(files@), name@) == Some(file@),
            None => first_named(listing(files@), name@) is None,
        },
{
    let mut i: usize = 0;
    assert(listing(files@).skip(0) =~= listing(files@));
    while i < files.len()
        invariant
            i <= files.len(),
            first_named(listing(files@), name@) == first_named(
                listing(files@).skip(i as int),
                name@,
            ),
        decreases files.len() - i,
    {
        proof {
            let rest = listing(files@).skip(i as int);
            assert(rest.drop_first() =~= listing(files@).skip(i + 1));
            assert(rest[0] == files@[i as int]@);
        }
        if files[i].file_name == *name {
            return Some(files[i].duplicate());
        }
        i += 1;
    }
    None
}

/// How a failed request shows on the file system.
pub open spec fn failure_of(e: crate::populate::FetchError) -> FsError {
    match e {
        crate::populate::FetchError::Transient => FsError::GeneralFailure,
        crate::populate::FetchError::Forbidden => FsError::Forbidden,
        crate::populate::FetchError::Permanent => FsError::NotFound,
    }
}

/// How a failed request shows on the file system.
pub fn fs_failure(e: crate::populate::FetchError) -> (shown: FsError)
    ensures
        shown == failure_of(e),
{
    match e {
        crate::populate::FetchError::Transient => FsError::GeneralFailure,
        crate::populate::FetchError::Forbidden => FsError::Forbidden,
        crate::populate::FetchError::Permanent => FsError::NotFound,
    }
}

/// What a resolution is worth to a reader of the directory. A directory
/// without children reads as one that is not there, and so does one that the
/// service would not list; a want of rights is told as such.
pub open spec fn readable(outcome: crate::populate::OutcomeView) -> Result<Seq<Entry>, FsError> {
    match outcome {
        crate::populate::OutcomeView::Found(children) => if children.len() == 0 {
            Err(FsError::NotFound)
        } else {
            Ok(children)
        },
        crate::populate::OutcomeView::NotFound => Err(FsError::NotFound),
        crate::populate::OutcomeView::Failed(e) => Err(failure_of(e)),
    }
}

/// The children that a reader of the directory gets.
pub fn read_dir(outcome: crate::populate::Outcome) -> (children: Result<Vec<QuarkFile>, FsError>)
    ensures
        match children {
            Ok(list) => readable(outcome@) == Ok::<Seq<Entry>, FsError>(listing(list@)),
            Err(e) => readable(outcome@) == Err::<Seq<Entry>, FsError>(e),
        },
{
    match outcome {
        crate::populate::Outcome::Found(list) => {
            if list.len() == 0 {
                Err(FsError::NotFound)
            } else {
                Ok(list)
            }
        },
        crate::populate::Outcome::NotFound => Err(FsError::NotFound),
        crate::populate::Outcome::Failed(e) => Err(fs_failure(e)),
    }
}

/// How a file is to be opened.
#[derive(Debug, Clone, Copy)]
pub struct OpenMode {
    pub write: bool,
    pub append: bool,
    pub create_new: bool,
}

/// The directory to look the file up in, if the mode can be served at all:
/// appending cannot, and the root is no file.
pub open spec fn open_parent(mode: OpenMode, path: Seq<char>) -> Result<Seq<char>, FsError> {
    if mode.append {
        Err(FsError::NotImplemented)
    } else if segments(path).len() == 0 {
        Err(FsError::NotFound)
    } else {
        Ok(render(segments(path).drop_last()))
    }
}

/// Whether the file may be opened, given what the lookups of its directory
/// and of itself gave.
pub open spec fn open_verdict(mode: OpenMode, read_only: bool, parent: bool, file: bool) -> Result<
    (),
    FsError,
> {
    if !parent || !file {
        Err(FsError::NotFound)
    } else if mode.write && mode.create_new {
        Err(FsError::Exists)
    } else if mode.write && read_only {
        Err(FsError::Forbidden)
    } else {
        Ok(())
    }
}

/// The place of the first `:` in a text; the length of the text where it has none.
pub open spec fn colon_at(s: Seq<char>) -> int
    decreases s.len(),
{
    if s.len() == 0 || s[0] == ':' {
        0
    } else {
        1 + colon_at(s.drop_first())
    }
}

/// The text is `sha1`, in small or capital letters.
pub open spec fn is_sha1(algo: Seq<char>) -> bool {
    &&& algo.len() == 4
    &&& algo[0] == 's' || algo[0] == 'S'
    &&& algo[1] == 'h' || algo[1] == 'H'
    &&& algo[2] == 'a' || algo[2] == 'A'
    &&& algo[3] == '1'
}

/// The SHA-1 hash that a checksum of the form `algorithm:hash` carries:
/// what stands behind the first `:`, where `sha1` stands before it.
pub open spec fn sha1_in(checksum: Seq<char>) -> Option<Seq<char>> {
    let colon = colon_at(checksum);
    if colon < checksum.len() && is_sha1(checksum.take(colon)) {
        Some(checksum.skip(colon + 1))
    } else {
        None
    }
}

/// The SHA-1 hash that a checksum of the form `algorithm:hash` carries.
pub fn sha1_of(checksum: &str) -> (hash: Option<String>)
    ensures
        match hash {
            Some(text) => sha1_in(checksum@) == Some(text@),
            None => sha1_in(checksum@) is None,
        },
{
    let n = checksum.unicode_len();
    let mut colon: usize = 0;
    assert(checksum@.skip(0) =~= checksum@);
    while colon < n && checksum.get_char(colon) != ':'
        invariant
            colon <= n,
            n == checksum@.len(),
            colon_at(checksum@) == colon + colon_at(checksum@.skip(colon as int)),
        decreases n - colon,
    {
        proof {
            let rest = checksum@.skip(colon as int);
            assert(rest[0] == checksum@[colon as int]);
            assert(rest.drop_first() =~= checksum@.skip(colon + 1));
        }
        colon += 1;
    }
    proof {
        let rest = checksum@.skip(colon as int);
        if colon < n {
            assert(rest[0] == checksum@[colon as int]);
        }
        assert(colon_at(rest) == 0);
    }
    if colon >= n || colon != 4 {
        return None;
    }
    let s = checksum.get_char(0);
    let h = checksum.get_char(1);
    let a = checksum.get_char(2);
    let one = checksum.get_char(3);
    if (s == 's' || s == 'S') && (h == 'h' || h == 'H') && (a == 'a' || a == 'A') && one == '1' {
        Some(String::from_str(checksum.substring_char(colon + 1, n)))
    } else {
        None
    }
}

/// Where a seek goes.
#[derive(Debug, Clone, Copy)]
pub enum SeekTarget {
    Start(u64),
    End(i64),
    Current(i64),
}

/// The position that a seek asks for.
pub open spec fn seek_position(size: u64, current: u64, target: SeekTarget) -> int {
    match target {
        SeekTarget::Start(pos) => pos as int,
        SeekTarget::End(offset) => size + offset,
        SeekTarget::Current(offset) => current + offset,
    }
}

/// What the next read of an open file needs.
pub enum ReadStep {
    /// The file has no content on the drive.
    NotFound,
    /// A new download link has to be asked for first.
    Refresh,
    /// The bytes can be fetched with the link that the handle holds.
    Download { url: String, offset: u64, count: usize },
}

pub ghost enum ReadPlan {
    NotFound,
    Refresh,
    Download { url: Seq<char>, offset: u64, count: usize },
}

impl View for ReadStep {
    type V = ReadPlan;

    open spec fn view(&self) -> ReadPlan {
        match self {
            ReadStep::NotFound => ReadPlan::NotFound,
            ReadStep::Refresh => ReadPlan::Refresh,
            ReadStep::Download { url, offset, count } => ReadPlan::Download {
                url: url@,
                offset: *offset,
                count: *count,
            },
        }
    }
}

/// The download with a link, or `NotFound` for an empty one.
pub open spec fn download_with(url: Seq<char>, offset: u64, count: usize) -> ReadPlan {
    if url.len() == 0 {
        ReadPlan::NotFound
    } else {
        ReadPlan::Download { url, offset, count }
    }
}

/// What a read needs at time `now`: a new link where the file has none or
/// has one that expires within the minute, else the download with the link
/// it has. A file without an id has no content.
pub open spec fn read_plan(file: Entry, offset: u64, count: usize, now: u64) -> ReadPlan {
    if file.fid.len() == 0 {
        ReadPlan::NotFound
    } else {
        match file.download_url {
            None => ReadPlan::Refresh,
            Some(url) => if expired(url_query_pairs(url), now) {
                ReadPlan::Refresh
            } else {
                download_with(url, offset, count)
            },
        }
    }
}

/// An open file: the handle's own copy of the node, and how far it was read.
pub struct QuarkDavFile {
    pub file: QuarkFile,
    pub parent_file_id: String,
    pub parent_dir: String,
    pub current_pos: u64,
    pub http_download: bool,
}

impl QuarkDavFile {
    /// A handle on `file` at position 0.
    pub fn new(file: QuarkFile, parent_file_id: String, parent_dir: String) -> (handle: Self)
        ensures
            handle.file == file,
            handle.parent_file_id == parent_file_id,
            handle.parent_dir == parent_dir,
            handle.current_pos == 0,
            !handle.http_download,
    {
        QuarkDavFile { file, parent_file_id, parent_dir, current_pos: 0, http_download: false }
    }

    /// Whether the drive has content for the file. A link to redirect to can
    /// be asked for just then.
    pub fn has_content(&self) -> (known: bool)
        ensures
            known == (self.file@.fid.len() > 0),
    {
        !self.file.fid.as_str().is_empty()
    }

    /// Moves the position; `None`, and no move, where the target lies before
    /// the start or cannot be counted.
    pub fn seek(&mut self, target: SeekTarget) -> (pos: Option<u64>)
        ensures
            match pos {
                Some(p) => p == seek_position(old(self).file.size, old(self).current_pos, target)
                    && *final(self) == (QuarkDavFile { current_pos: p, ..*old(self) }),
                None => !(0 <= seek_position(old(self).file.size, old(self).current_pos, target)
                    <= u64::MAX) && *final(self) == *old(self),
            },
    {
        let wanted: i128 = match target {
            SeekTarget::Start(pos) => pos as i128,
            SeekTarget::End(offset) => self.file.size as i128 + offset as i128,
            SeekTarget::Current(offset) => self.current_pos as i128 + offset as i128,
        };
        if wanted < 0 || wanted > u64::MAX as i128 {
            None
        } else {
            self.current_pos = wanted as u64;
            Some(wanted as u64)
        }
    }

    /// What a read of `count` bytes needs at time `now`, in seconds since the
    /// Unix epoch. Changes nothing.
    pub fn read_bytes(&self, count: usize, now: u64) -> (step: ReadStep)
        ensures
            step@ == read_plan(self.file@, self.current_pos, count, now),
    {
        if self.file.fid.as_str().is_empty() {
            return ReadStep::NotFound;
        }
        match &self.file.download_url {
            None => ReadStep::Refresh,
            Some(url) => {
                if is_url_expired(url.as_str(), now) {
                    ReadStep::Refresh
                } else if url.as_str().is_empty() {
                    ReadStep::NotFound
                } else {
                    ReadStep::Download { url: url.clone(), offset: self.current_pos, count }
                }
            },
        }
    }

    /// Takes a new download link into the handle's copy of the node, and
    /// gives the download with it.
    pub fn set_download_url(&mut self, url: String, count: usize) -> (step: ReadStep)
        ensures
            final(self).file@ == (Entry { download_url: Some(url@), ..old(self).file@ }),
            final(self).parent_file_id == old(self).parent_file_id,
            final(self).parent_dir == old(self).parent_dir,
            final(self).current_pos == old(self).current_pos,
            final(self).http_download == old(self).http_download,
            step@ == download_with(url@, old(self).current_pos, count),
    {
        let step = if url.as_str().is_empty() {
            ReadStep::NotFound
        } else {
            ReadStep::Download { url: url.clone(), offset: self.current_pos, count }
        };
        self.file.download_url = Some(url);
        step
    }

    /// Counts the bytes that a download brought; the position stops at the
    /// largest that can be counted.
    pub fn advance(&mut self, read: usize)
        ensures
            final(self).current_pos == if old(self).current_pos + read <= u64::MAX {
                (old(self).current_pos + read) as u64
            } else {
                u64::MAX
            },
            *final(self) == (QuarkDavFile { current_pos: final(self).current_pos, ..*old(self) }),
    {
        let read = read as u64;
        if self.current_pos > u64::MAX - read {
            self.current_pos = u64::MAX;
        } else {
            self.current_pos = self.current_pos + read;
        }
    }
}

impl QuarkDriveFileSystem {
    /// The directory to look a file up in before it is opened.
    pub fn open_path(mode: OpenMode, path: &str) -> (parent: Result<String, FsError>)
        ensures
            match parent {
                Ok(dir) => open_parent(mode, path@) == Ok::<Seq<char>, FsError>(dir@),
                Err(e) => open_parent(mode, path@) == Err::<Seq<char>, FsError>(e),
            },
    {
        if mode.append {
            return Err(FsError::NotImplemented);
        }
        match lookup_for(path) {
            Lookup::Root => Err(FsError::NotFound),
            Lookup::Child { parent, name } => Ok(parent),
        }
    }

    /// Opens the file, given what the lookups of its directory and of itself
    /// gave: a handle at position 0 that downloads as this file system prefers.
    pub fn open(
        &self,
        mode: OpenMode,
        parent_dir: String,
        parent_file: Option<QuarkFile>,
        file: Option<QuarkFile>,
    ) -> (opened: Result<QuarkDavFile, FsError>)
        ensures
            match opened {
                Ok(handle) => {
                    &&& open_verdict(mode, self.read_only, parent_file is Some, file is Some) is Ok
                    &&& Some(handle.file) == file
                    &&& parent_file matches Some(p) && handle.parent_file_id == p.fid
                    &&& handle.parent_dir == parent_dir
                    &&& handle.current_pos == 0
                    &&& handle.http_download == self.prefer_http_download
                },
                Err(e) => open_verdict(mode, self.read_only, parent_file is Some, file is Some)
                    == Err::<(), FsError>(e),
            },
    {
        let parent = match parent_file {
            Some(p) => p,
            None => {
                return Err(FsError::NotFound);
            },
        };
        let found = match file {
            Some(f) => f,
            None => {
                return Err(FsError::NotFound);
            },
        };
        if mode.write && mode.create_new {
            return Err(FsError::Exists);
        }
        if mode.write && self.read_only {
            return Err(FsError::Forbidden);
        }
        let mut handle = QuarkDavFile::new(found, parent.fid, parent_dir);
        handle.http_download = self.prefer_http_download;
        Ok(handle)
    }
}

} // verus!
