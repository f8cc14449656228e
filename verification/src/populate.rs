//! Filling the cache on demand: the walk from a known directory down to the
//! one that was asked for, one listing at a time.
//!
//! The remote service is not called from here. A [`Descent`] says which page
//! of which directory it needs next; whoever talks to the service hands the
//! answer to [`Descent::advance`], which says what to store and how to go on.

use vstd::prelude::*;
use crate::drive::model::{listing, root_fid, Entry, QuarkFile, QuarkFiles};
use crate::path::{names, render, render_prefix};

verus! {

/// The number of children asked for at a time.
pub const ONE_PAGE: u32 = 50;

/// The number of pages that hold `total` children.
pub open spec fn page_count(total: nat) -> nat {
    ((total + ONE_PAGE - 1) / (ONE_PAGE as int)) as nat
}

/// After page `page` brought `got` children, another page is due: the page was
/// full, and the next one is no later than the last that `total` children fill.
pub open spec fn more_pages(page: nat, got: nat, total: nat) -> bool {
    got >= ONE_PAGE && page + 1 <= page_count(total)
}

/// The last child of that name, if there is one.
pub open spec fn pick(list: Seq<Entry>, name: Seq<char>) -> Option<Entry>
    decreases list.len(),
{
    if list.len() == 0 {
        None
    } else if list.last().file_name == name {
        Some(list.last())
    } else {
        pick(list.drop_last(), name)
    }
}

/// The last child of that name, if it is a directory.
pub open spec fn pick_dir(list: Seq<Entry>, name: Seq<char>) -> Option<Entry> {
    match pick(list, name) {
        Some(e) => if e.dir {
            Some(e)
        } else {
            None
        },
        None => None,
    }
}

/// Why a request to the service failed.
#[derive(Debug, Clone, Copy, PartialEq, Eq, Structural)]
pub enum FetchError {
    /// The network or the service was in trouble; a later request may do better.
    Transient,
    /// The service turned the request down for want of rights.
    Forbidden,
    /// The service turned the request down, or its answer could not be read.
    Permanent,
}

/// What the service answered to one request for a page.
pub enum FetchResult {
    /// The page, and the number of children the directory has in all.
    Listed(QuarkFiles),
    /// The service knows no such directory.
    Missing,
    /// The request failed.
    Failed(FetchError),
}

pub ghost enum Answer {
    Listed { list: Seq<Entry>, total: nat },
    Missing,
    Failed(FetchError),
}

impl View for FetchResult {
    type V = Answer;

    open spec fn view(&self) -> Answer {
        match self {
            FetchResult::Listed(files) => Answer::Listed {
                list: listing(files.list@),
                total: files.total as nat,
            },
            FetchResult::Missing => Answer::Missing,
            FetchResult::Failed(e) => Answer::Failed(*e),
        }
    }
}

/// How a resolution ended.
pub enum Outcome {
    /// The directory exists; these are its children, in the service's order.
    Found(Vec<QuarkFile>),
    /// No directory has that path.
    NotFound,
    /// A request to the service failed; nothing was stored for the directory
    /// that was being listed.
    Failed(FetchError),
}

pub ghost enum OutcomeView {
    Found(Seq<Entry>),
    NotFound,
    Failed(FetchError),
}

impl View for Outcome {
    type V = OutcomeView;

    open spec fn view(&self) -> OutcomeView {
        match self {
            Outcome::Found(list) => OutcomeView::Found(listing(list@)),
            Outcome::NotFound => OutcomeView::NotFound,
            Outcome::Failed(e) => OutcomeView::Failed(*e),
        }
    }
}

/// A resolution under way: the directory at `segs[..depth]` is being listed.
pub struct Descent {
    /// The segments of the path that was asked for.
    pub segs: Vec<String>,
    /// How many of them lead to the directory being listed.
    pub depth: usize,
    /// The id of the directory being listed.
    pub dir_fid: String,
    /// The page to ask for next, from 1.
    pub page: u32,
    /// The number of children, as the first page said; 0 before it came.
    pub total: u32,
    /// The children that the pages so far brought.
    pub listed: Vec<QuarkFile>,
}

pub ghost struct DescentView {
    pub segs: Seq<Seq<char>>,
    pub depth: nat,
    pub dir_fid: Seq<char>,
    pub page: nat,
    pub total: nat,
    pub listed: Seq<Entry>,
}

impl View for Descent {
    type V = DescentView;

    open spec fn view(&self) -> DescentView {
        DescentView {
            segs: names(self.segs@),
            depth: self.depth as nat,
            dir_fid: self.dir_fid@,
            page: self.page as nat,
            total: self.total as nat,
            listed: listing(self.listed@),
        }
    }
}

/// Either the next request to make, or the end.
pub enum Progress {
    Fetch(Descent),
    Done(Outcome),
}

pub ghost enum ProgressView {
    Fetch(DescentView),
    Done(OutcomeView),
}

impl View for Progress {
    type V = ProgressView;

    open spec fn view(&self) -> ProgressView {
        match self {
            Progress::Fetch(d) => ProgressView::Fetch(d@),
            Progress::Done(o) => ProgressView::Done(o@),
        }
    }
}

/// What the cache gave when it was asked about the path and the directories
/// above it, nearest first.
pub enum Probe {
    /// The path itself is stored, with these children.
    Hit(Vec<QuarkFile>),
    /// The path is not stored, nor any directory below the one at
    /// `segs[..depth]`, which is stored with these children.
    Ancestor { depth: usize, list: Vec<QuarkFile> },
    /// Nothing on the way to the root is stored.
    Cold,
}

pub ghost enum ProbeView {
    Hit(Seq<Entry>),
    Ancestor { depth: nat, list: Seq<Entry> },
    Cold,
}

impl View for Probe {
    type V = ProbeView;

    open spec fn view(&self) -> ProbeView {
        match self {
            Probe::Hit(list) => ProbeView::Hit(listing(list@)),
            Probe::Ancestor { depth, list } => ProbeView::Ancestor {
                depth: *depth as nat,
                list: listing(list@),
            },
            Probe::Cold => ProbeView::Cold,
        }
    }
}

/// The first request for the directory `dir_fid` at `segs[..depth]`.
pub open spec fn enter(segs: Seq<Seq<char>>, depth: nat, dir_fid: Seq<char>) -> DescentView {
    DescentView { segs, depth, dir_fid, page: 1, total: 0, listed: Seq::empty() }
}

/// How to go on from the full listing of the directory at `segs[..depth]`:
/// it is the answer if that is the whole path; else the walk follows the one
/// child that the next segment names, and ends where no directory has that name.
pub open spec fn descend(segs: Seq<Seq<char>>, depth: nat, children: Seq<Entry>) -> ProgressView {
    if depth >= segs.len() {
        ProgressView::Done(OutcomeView::Found(children))
    } else {
        match pick_dir(children, segs[depth as int]) {
            Some(e) => ProgressView::Fetch(enter(segs, depth + 1, e.fid)),
            None => ProgressView::Done(OutcomeView::NotFound),
        }
    }
}

/// The number of children that governs the paging: the first page's word.
pub open spec fn total_after(d: DescentView, total: nat) -> nat {
    if d.page == 1 {
        total
    } else {
        d.total
    }
}

/// How a descent goes on when the answer to its request comes.
pub open spec fn step(d: DescentView, a: Answer) -> ProgressView {
    match a {
        Answer::Missing => ProgressView::Done(OutcomeView::NotFound),
        Answer::Failed(e) => ProgressView::Done(OutcomeView::Failed(e)),
        Answer::Listed { list, total } => {
            if more_pages(d.page, list.len(), total_after(d, total)) {
                ProgressView::Fetch(
                    DescentView {
                        page: d.page + 1,
                        total: total_after(d, total),
                        listed: d.listed + list,
                        ..d
                    },
                )
            } else {
                descend(d.segs, d.depth, d.listed + list)
            }
        },
    }
}

/// What the answer completes: the path of the directory that was being listed
/// and all its children. `None` while pages are missing, and after a failure.
pub open spec fn completed(d: DescentView, a: Answer) -> Option<(Seq<char>, Seq<Entry>)> {
    match a {
        Answer::Listed { list, total } => {
            if more_pages(d.page, list.len(), total_after(d, total)) {
                None
            } else {
                Some((render(d.segs.take(d.depth as int)), d.listed + list))
            }
        },
        _ => None,
    }
}

/// Where a resolution starts, given what the cache holds.
pub open spec fn begin_from(segs: Seq<Seq<char>>, probe: ProbeView) -> ProgressView {
    match probe {
        ProbeView::Hit(list) => ProgressView::Done(OutcomeView::Found(list)),
        ProbeView::Ancestor { depth, list } => descend(segs, depth, list),
        ProbeView::Cold => ProgressView::Fetch(enter(segs, 0, root_fid())),
    }
}

/// What a lookup in the cache gave, as the contracts see it.
pub open spec fn found_view(found: Option<Vec<QuarkFile>>) -> Option<Seq<Entry>> {
    match found {
        Some(list) => Some(listing(list@)),
        None => None,
    }
}

/// What the walk up from a path of `len` segments knows once the lookup of
/// the directory at `depth` has given `found`.
pub open spec fn probe_at(len: nat, depth: nat, found: Option<Seq<Entry>>) -> ProbeView {
    match found {
        Some(list) => if depth >= len {
            ProbeView::Hit(list)
        } else {
            ProbeView::Ancestor { depth, list }
        },
        None => ProbeView::Cold,
    }
}

/// How the walk up from a path goes on after a lookup.
pub enum WalkStep {
    /// The walk is over: the resolution starts here.
    Start(Progress),
    /// The directory one level up is to be looked up next.
    Lookup { segs: Vec<String>, depth: usize },
}

pub ghost enum WalkView {
    Start(ProgressView),
    Lookup { segs: Seq<Seq<char>>, depth: nat },
}

impl View for WalkStep {
    type V = WalkView;

    open spec fn view(&self) -> WalkView {
        match self {
            WalkStep::Start(next) => WalkView::Start(next@),
            WalkStep::Lookup { segs, depth } => WalkView::Lookup {
                segs: names(segs@),
                depth: *depth as nat,
            },
        }
    }
}

/// How the walk up from the path with these segments goes on once the lookup
/// of the directory at `segs[..depth]` has given `found`. The first lookup
/// that gives a listing ends the walk: the resolution starts from that
/// listing. A lookup that gives nothing sends the walk one level up, and at
/// the root ends it with a start from the root.
pub open spec fn walk_step(segs: Seq<Seq<char>>, depth: nat, found: Option<Seq<Entry>>) -> WalkView {
    if found is None && depth > 0 {
        WalkView::Lookup { segs, depth: (depth - 1) as nat }
    } else {
        WalkView::Start(begin_from(segs, probe_at(segs.len(), depth, found)))
    }
}

/// How the walk up from the path with these segments goes on once the lookup
/// of the directory at `segs[..depth]` has given `found`.
pub fn after_lookup(segs: Vec<String>, depth: usize, found: Option<Vec<QuarkFile>>) -> (next:
    WalkStep)
    requires
        depth <= segs.len(),
    ensures
        next@ == walk_step(names(segs@), depth as nat, found_view(found)),
        next matches WalkStep::Start(Progress::Fetch(d)) ==> d.wf(),
        next matches WalkStep::Lookup { segs: same, depth: above } ==> above <= same.len(),
{
    match found {
        Some(list) => {
            if depth >= segs.len() {
                WalkStep::Start(Descent::begin(segs, Probe::Hit(list)))
            } else {
                WalkStep::Start(Descent::begin(segs, Probe::Ancestor { depth, list }))
            }
        },
        None => {
            if depth > 0 {
                WalkStep::Lookup { segs, depth: depth - 1 }
            } else {
                WalkStep::Start(Descent::begin(segs, Probe::Cold))
            }
        },
    }
}

/// The last page that `total` children fill.
pub fn last_page(total: u32) -> (pages: u32)
    ensures
        pages == page_count(total as nat),
{
    ((total as u64 + (ONE_PAGE as u64 - 1)) / (ONE_PAGE as u64)) as u32
}

/// The index of the last child of that name.
pub fn find_last(list: &Vec<QuarkFile>, name: &String) -> (found: Option<usize>)
    ensures
        match found {
            Some(i) => i < list.len() && pick(listing(list@), name@) == Some(list@[i as int]@),
            None => pick(listing(list@), name@) is None,
        },
{
    let mut i: usize = list.len();
    assert(listing(list@).take(i as int) =~= listing(list@));
    while i > 0
        invariant
            i <= list.len(),
            pick(listing(list@), name@) == pick(listing(list@).take(i as int), name@),
        decreases i,
    {
        proof {
            let head = listing(list@).take(i as int);
            assert(head.drop_last() =~= listing(list@).take(i - 1));
            assert(head.last() == list@[i - 1]@);
        }
        if list[i - 1].file_name == *name {
            return Some(i - 1);
        }
        i -= 1;
    }
    None
}

impl Descent {
    /// The descent is in step with itself: it lists a directory on the path,
    /// and its next page has a number.
    pub open spec fn wf(&self) -> bool {
        &&& self.depth <= self.segs.len()
        &&& self.page >= 1
    }

    /// The first request for the directory `dir_fid` at `segs[..depth]`.
    pub fn enter(segs: Vec<String>, depth: usize, dir_fid: String) -> (d: Descent)
        requires
            depth <= segs.len(),
        ensures
            d@ == enter(names(segs@), depth as nat, dir_fid@),
            d.wf(),
    {
        let d = Descent { segs, depth, dir_fid, page: 1, total: 0, listed: Vec::new() };
        assert(listing(d.listed@) =~= Seq::<Entry>::empty());
        d
    }

    /// Goes on from the full listing of the directory at `segs[..depth]`.
    pub fn descend(segs: Vec<String>, depth: usize, children: Vec<QuarkFile>) -> (next: Progress)
        requires
            depth <= segs.len(),
        ensures
            next@ == descend(names(segs@), depth as nat, listing(children@)),
            next matches Progress::Fetch(d) ==> d.wf(),
    {
        if depth >= segs.len() {
            return Progress::Done(Outcome::Found(children));
        }
        match find_last(&children, &segs[depth]) {
            Some(i) => {
                if children[i].dir {
                    let fid = children[i].fid.clone();
                    Progress::Fetch(Descent::enter(segs, depth + 1, fid))
                } else {
                    Progress::Done(Outcome::NotFound)
                }
            },
            None => Progress::Done(Outcome::NotFound),
        }
    }

    /// Takes the answer to this descent's request. Gives what is now complete
    /// and has to be stored (a directory's path and all its children), and how
    /// the resolution goes on.
    pub fn advance(self, fetched: FetchResult) -> (r: (Option<(String, Vec<QuarkFile>)>, Progress))
        requires
            self.wf(),
        ensures
            r.1@ == step(self@, fetched@),
            r.0 is Some <==> completed(self@, fetched@) is Some,
            r.0 matches Some(kv) ==> completed(self@, fetched@) == Some((kv.0@, listing(kv.1@))),
            r.1 matches Progress::Fetch(d) ==> d.wf(),
    {
        match fetched {
            FetchResult::Missing => (None, Progress::Done(Outcome::NotFound)),
            FetchResult::Failed(e) => (None, Progress::Done(Outcome::Failed(e))),
            FetchResult::Listed(files) => {
                let ghost before = self@;
                let ghost page_view = listing(files.list@);
                let mut list = files.list;
                let got = list.len();
                let total = if self.page == 1 {
                    files.total
                } else {
                    self.total
                };
                let mut d = self;
                d.listed.append(&mut list);
                assert(listing(d.listed@) =~= before.listed + page_view);
                if got >= ONE_PAGE as usize && d.page < last_page(total) {
                    d.page = d.page + 1;
                    d.total = total;
                    (None, Progress::Fetch(d))
                } else {
                    let key = render_prefix(&d.segs, d.depth);
                    let copy = crate::drive::model::duplicate_list(&d.listed);
                    let next = Descent::descend(d.segs, d.depth, d.listed);
                    (Some((key, copy)), next)
                }
            },
        }
    }

    /// Where a resolution of the path with these segments starts, given what
    /// the cache holds.
    pub fn begin(segs: Vec<String>, probe: Probe) -> (next: Progress)
        requires
            probe matches Probe::Ancestor { depth, .. } ==> depth < segs.len(),
        ensures
            next@ == begin_from(names(segs@), probe@),
            next matches Progress::Fetch(d) ==> d.wf(),
    {
        proof {
            reveal_strlit("0");
        }
        match probe {
            Probe::Hit(list) => Progress::Done(Outcome::Found(list)),
            Probe::Ancestor { depth, list } => Descent::descend(segs, depth, list),
            Probe::Cold => {
                let fid = String::from_str("0");
                assert(fid@ =~= root_fid());
                Progress::Fetch(Descent::enter(segs, 0, fid))
            },
        }
    }
}

} // verus!
