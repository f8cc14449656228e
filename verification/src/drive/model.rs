//! The drive's data: one node of the remote tree, and the shapes of the
//! service's answers.

use vstd::prelude::*;

verus! {

/// One node of the remote tree, as the contracts see it.
pub ghost struct Entry {
    pub fid: Seq<char>,
    pub file_name: Seq<char>,
    pub pdir_fid: Seq<char>,
    pub size: u64,
    pub format_type: Seq<char>,
    pub status: u8,
    pub created_at: u64,
    pub updated_at: u64,
    pub dir: bool,
    pub file: bool,
    pub download_url: Option<Seq<char>>,
}

/// One node of the remote tree: a file or a directory, known by its `fid`.
#[derive(Debug, Clone)]
pub struct QuarkFile {
    pub fid: String,
    pub file_name: String,
    pub pdir_fid: String,
    pub size: u64,
    pub format_type: String,
    pub status: u8,
    pub created_at: u64,
    pub updated_at: u64,
    pub dir: bool,
    pub file: bool,
    pub download_url: Option<String>,
}

impl View for QuarkFile {
    type V = Entry;

    open spec fn view(&self) -> Entry {
        Entry {
            fid: self.fid@,
            file_name: self.file_name@,
            pdir_fid: self.pdir_fid@,
            size: self.size,
            format_type: self.format_type@,
            status: self.status,
            created_at: self.created_at,
            updated_at: self.updated_at,
            dir: self.dir,
            file: self.file,
            download_url: match self.download_url {
                Some(u) => Some(u@),
                None => None,
            },
        }
    }
}

/// The views of a list of nodes, in order.
pub open spec fn listing(v: Seq<QuarkFile>) -> Seq<Entry> {
    Seq::new(v.len(), |i: int| v[i]@)
}

/// The id of the root directory.
pub open spec fn root_fid() -> Seq<char> {
    seq!['0']
}

/// The root directory: a node of the library's own making, with no parent.
pub open spec fn root_entry(now_millis: u64) -> Entry {
    Entry {
        fid: root_fid(),
        file_name: seq!['/'],
        pdir_fid: Seq::empty(),
        size: 0,
        format_type: Seq::empty(),
        status: 1,
        created_at: now_millis,
        updated_at: now_millis,
        dir: true,
        file: false,
        download_url: None,
    }
}

#[verifier::external_type_specification]
#[verifier::external_body]
pub struct ExSystemTime(std::time::SystemTime);

/// `std::time::SystemTime::now`: the time of the call. Nothing is known of it.
#[verifier::external_body]
fn system_now() -> std::time::SystemTime {
    std::time::SystemTime::now()
}

/// `std::time::SystemTime::duration_since`, from the Unix epoch: the time
/// between the epoch and `at`, or `None` where `at` lies before the epoch.
/// Nothing is known of it.
#[verifier::external_body]
fn since_epoch(at: &std::time::SystemTime) -> Option<core::time::Duration> {
    match at.duration_since(std::time::UNIX_EPOCH) {
        Ok(span) => Some(span),
        Err(_) => None,
    }
}

/// `core::time::Duration::as_millis`: the whole milliseconds of a time span.
/// Nothing is known of it.
#[verifier::external_body]
fn millis_of(span: &core::time::Duration) -> u128 {
    span.as_millis()
}

impl QuarkFile {
    /// The root directory, stamped with the given time.
    pub fn root_at(now_millis: u64) -> (root: Self)
        ensures
            root@ == root_entry(now_millis),
    {
        proof {
            reveal_strlit("0");
            reveal_strlit("/");
            reveal_strlit("");
        }
        let root = QuarkFile {
            pdir_fid: String::from_str(""),
            size: 0u64,
            format_type: String::from_str(""),
            status: 1u8,
            created_at: now_millis,
            updated_at: now_millis,
            dir: true,
            file: false,
            file_name: String::from_str("/"),
            fid: String::from_str("0"),
            download_url: None,
        };
        assert(root.fid@ =~= root_fid());
        assert(root.file_name@ =~= seq!['/']);
        assert(root.pdir_fid@ =~= Seq::<char>::empty());
        assert(root.format_type@ =~= Seq::<char>::empty());
        root
    }

    /// The root directory, stamped with the time of the call: the low 64 bits
    /// of the milliseconds since the Unix epoch, and 0 where the clock stands
    /// before the epoch.
    pub fn new_root() -> (root: Self)
        ensures
            root@ == root_entry(root.created_at),
    {
        let at = system_now();
        let now: u64 = match since_epoch(&at) {
            Some(span) => {
                let millis: u128 = millis_of(&span);
                #[verifier::truncate]
                (millis as u64)
            },
            None => 0,
        };
        Self::root_at(now)
    }

    /// A copy with the same view.
    pub fn duplicate(&self) -> (copy: Self)
        ensures
            copy@ == self@,
    {
        QuarkFile {
            fid: self.fid.clone(),
            file_name: self.file_name.clone(),
            pdir_fid: self.pdir_fid.clone(),
            size: self.size,
            format_type: self.format_type.clone(),
            status: self.status,
            created_at: self.created_at,
            updated_at: self.updated_at,
            dir: self.dir,
            file: self.file,
            download_url: match &self.download_url {
                Some(u) => Some(u.clone()),
                None => None,
            },
        }
    }
}

/// One directory's children as one answer of the service holds them, with the
/// number of children that the service says the directory has.
#[derive(Debug, Clone)]
pub struct QuarkFiles {
    pub list: Vec<QuarkFile>,
    pub total: u32,
}

/// A copy of a list of nodes, with the same views in the same order.
pub fn duplicate_list(list: &Vec<QuarkFile>) -> (copy: Vec<QuarkFile>)
    ensures
        listing(copy@) == listing(list@),
{
    let mut copy: Vec<QuarkFile> = Vec::new();
    let mut i: usize = 0;
    while i < list.len()
        invariant
            i <= list.len(),
            copy.len() == i,
            forall|j: int| 0 <= j < i ==> copy@[j]@ == list@[j]@,
        decreases list.len() - i,
    {
        copy.push(list[i].duplicate());
        i += 1;
    }
    assert(listing(copy@) =~= listing(list@));
    copy
}

/// The ids of the files whose download links are asked for.
#[derive(Debug, Clone)]
pub struct GetFilesDownloadUrlsRequest {
    pub fids: Vec<String>,
}

#[derive(Debug, Clone)]
pub struct StreamInfo {
    pub size: u64,
}

/// One file as the service describes it by itself.
#[derive(Debug, Clone)]
pub struct GetFileItem {
    pub fid: String,
    pub file_name: String,
    pub pdir_fid: String,
    pub category: u8,
    pub file_type: u8,
    pub size: u64,
    pub format_type: String,
    pub status: u8,
    pub tag: String,
    pub created_at: u64,
    pub updated_at: u64,
    pub dir: bool,
    pub file: bool,
}

/// The envelope of every answer of the service.
#[derive(Debug, Clone)]
pub struct Response<T, U> {
    pub status: u8,
    pub code: u32,
    pub message: String,
    pub timestamp: u64,
    pub data: T,
    pub metadata: U,
}

pub type GetFilesResponse = Response<FilesData, FilesMetadata>;

pub type GetFilesDownloadUrlsResponse = Response<Vec<FileDownloadUrlItem>, FileDownloadUrlMetadata>;

#[derive(Debug, Clone)]
pub struct FilesData {
    pub list: Vec<QuarkFile>,
}

#[derive(Debug, Clone)]
pub struct FilesMetadata {
    pub total: u32,
    pub count: u32,
    pub page: u32,
}

#[derive(Debug, Clone)]
pub struct FileDownloadUrlItem {
    pub fid: String,
    pub download_url: String,
}

#[derive(Debug, Clone)]
pub struct FileDownloadUrlMetadata {
}

impl From<GetFilesResponse> for QuarkFiles {
    /// The children and their full number, out of the envelope.
    fn from(response: GetFilesResponse) -> (files: QuarkFiles) {
        QuarkFiles { list: response.data.list, total: response.metadata.total }
    }
}

impl vstd::std_specs::convert::FromSpecImpl<GetFilesResponse> for QuarkFiles {
    open spec fn obeys_from_spec() -> bool {
        true
    }

    open spec fn from_spec(response: GetFilesResponse) -> QuarkFiles {
        QuarkFiles { list: response.data.list, total: response.metadata.total }
    }
}

/// The map that a list of pairs stands for: each id with the link of the
/// last pair that names it.
pub open spec fn url_map(pairs: Seq<(Seq<char>, Seq<char>)>) -> Map<Seq<char>, Seq<char>>
    decreases pairs.len(),
{
    if pairs.len() == 0 {
        Map::empty()
    } else {
        url_map(pairs.drop_last()).insert(pairs.last().0, pairs.last().1)
    }
}

/// The id and link of each item, in order.
pub open spec fn item_pairs(items: Seq<FileDownloadUrlItem>) -> Seq<(Seq<char>, Seq<char>)> {
    Seq::new(items.len(), |i: int| (items[i].fid@, items[i].download_url@))
}

/// The views of a list of pairs of strings.
pub open spec fn pair_views(pairs: Seq<(String, String)>) -> Seq<(Seq<char>, Seq<char>)> {
    Seq::new(pairs.len(), |i: int| (pairs[i].0@, pairs[i].1@))
}

/// No id occurs twice.
pub open spec fn distinct_fids(pairs: Seq<(Seq<char>, Seq<char>)>) -> bool {
    forall|i: int, j: int| 0 <= i < j < pairs.len() ==> pairs[i].0 != pairs[j].0
}

/// Giving an id that a list without repeats holds a new link is the same as
/// adding the pair to the map.
pub proof fn lemma_url_map_update(pairs: Seq<(Seq<char>, Seq<char>)>, j: int, url: Seq<char>)
    requires
        distinct_fids(pairs),
        0 <= j < pairs.len(),
    ensures
        url_map(pairs.update(j, (pairs[j].0, url))) == url_map(pairs).insert(pairs[j].0, url),
    decreases pairs.len(),
{
    let fid = pairs[j].0;
    let changed = pairs.update(j, (fid, url));
    if j == pairs.len() - 1 {
        assert(changed.drop_last() =~= pairs.drop_last());
        assert(url_map(changed) =~= url_map(pairs).insert(fid, url));
    } else {
        let front = pairs.drop_last();
        assert(distinct_fids(front));
        assert(front[j] == pairs[j]);
        lemma_url_map_update(front, j, url);
        assert(changed.drop_last() =~= front.update(j, (fid, url)));
        assert(changed.last() == pairs.last());
        assert(pairs.last().0 != fid);
        assert(url_map(changed) =~= url_map(pairs).insert(fid, url));
    }
}

impl Response<Vec<FileDownloadUrlItem>, FileDownloadUrlMetadata> {
    /// The download links by file id: one pair for each id, with the link of
    /// the last item that names the id.
    pub fn into_map(self) -> (pairs: Vec<(String, String)>)
        ensures
            url_map(pair_views(pairs@)) == url_map(item_pairs(self.data@)),
            distinct_fids(pair_views(pairs@)),
    {
        let mut pairs: Vec<(String, String)> = Vec::new();
        let mut i: usize = 0;
        assert(item_pairs(self.data@).take(0) =~= Seq::<(Seq<char>, Seq<char>)>::empty());
        assert(pair_views(pairs@) =~= Seq::<(Seq<char>, Seq<char>)>::empty());
        while i < self.data.len()
            invariant
                i <= self.data.len(),
                url_map(pair_views(pairs@)) == url_map(item_pairs(self.data@).take(i as int)),
                distinct_fids(pair_views(pairs@)),
            decreases self.data.len() - i,
        {
            let fid = self.data[i].fid.clone();
            let url = self.data[i].download_url.clone();
            let ghost before = pair_views(pairs@);
            proof {
                let upto = item_pairs(self.data@).take(i + 1);
                assert(upto.drop_last() =~= item_pairs(self.data@).take(i as int));
                assert(upto.last() == (fid@, url@));
            }
            let mut j: usize = 0;
            while j < pairs.len() && !(pairs[j].0 == fid)
                invariant
                    j <= pairs.len(),
                    forall|k: int| 0 <= k < j ==> pairs@[k].0@ != fid@,
                decreases pairs.len() - j,
            {
                j += 1;
            }
            if j < pairs.len() {
                proof {
                    assert(before[j as int].0 == fid@);
                    lemma_url_map_update(before, j as int, url@);
                }
                pairs.set(j, (fid, url));
                assert(pair_views(pairs@) =~= before.update(j as int, (fid@, url@)));
                assert(distinct_fids(pair_views(pairs@))) by {
                    assert forall|a: int, b: int| 0 <= a < b < pairs@.len() implies pair_views(
                        pairs@,
                    )[a].0 != pair_views(pairs@)[b].0 by {
                        assert(pair_views(pairs@)[a].0 == before[a].0);
                        assert(pair_views(pairs@)[b].0 == before[b].0);
                    }
                }
            } else {
                assert forall|k: int| 0 <= k < before.len() implies before[k].0 != fid@ by {
                    assert(before[k].0 == pairs@[k].0@);
                }
                pairs.push((fid, url));
                assert(pair_views(pairs@).drop_last() =~= before);
                assert(pair_views(pairs@).last() == (fid@, url@));
                assert(distinct_fids(pair_views(pairs@))) by {
                    assert forall|a: int, b: int| 0 <= a < b < pairs@.len() implies pair_views(
                        pairs@,
                    )[a].0 != pair_views(pairs@)[b].0 by {
                        assert(pair_views(pairs@)[a] == before[a]);
                        if b < before.len() {
                            assert(pair_views(pairs@)[b] == before[b]);
                        }
                    }
                }
            }
            i += 1;
        }
        assert(item_pairs(self.data@).take(i as int) =~= item_pairs(self.data@));
        pairs
    }
}

} // verus!
