//! What holds of a resolution when the remote tree does not change and every
//! request is answered from it.
//!
//! The remote tree is modelled as a map from the id of each directory to its
//! children, in the service's order.

use vstd::prelude::*;
use crate::cache::{no_listings, observable, stored_after};
use crate::drive::model::{root_fid, Entry};
use crate::path::{all_names, lemma_render_injective, lemma_segments_are_names, render, segments};
use crate::populate::{
    begin_from, completed, descend, enter, more_pages, page_count, pick_dir, step, total_after,
    Answer, DescentView, OutcomeView, ProbeView, ProgressView, ONE_PAGE,
};

verus! {

/// The number of children that the pages before `page` hold when all are full.
pub open spec fn page_start(page: nat) -> nat {
    ((page - 1) * ONE_PAGE) as nat
}

/// The answer of a service that holds `remote` to a request for one page:
/// the children from the page's start, a page at most, and their full number.
pub open spec fn answer(remote: Map<Seq<char>, Seq<Entry>>, fid: Seq<char>, page: nat) -> Answer {
    if remote.contains_key(fid) {
        let all = remote[fid];
        let from: int = if page_start(page) <= all.len() {
            page_start(page) as int
        } else {
            all.len() as int
        };
        let to: int = if from + ONE_PAGE <= all.len() {
            from + ONE_PAGE
        } else {
            all.len() as int
        };
        Answer::Listed { list: all.subrange(from, to), total: all.len() }
    } else {
        Answer::Missing
    }
}

/// The id of the directory with these segments, found from the root by
/// following, at each level, the child that the segment names.
pub open spec fn dir_at(remote: Map<Seq<char>, Seq<Entry>>, segs: Seq<Seq<char>>) -> Option<
    Seq<char>,
>
    decreases segs.len(),
{
    if segs.len() == 0 {
        Some(root_fid())
    } else {
        match dir_at(remote, segs.drop_last()) {
            Some(parent) => if remote.contains_key(parent) {
                match pick_dir(remote[parent], segs.last()) {
                    Some(e) => Some(e.fid),
                    None => None,
                }
            } else {
                None
            },
            None => None,
        }
    }
}

/// The children of the directory with these segments, if it exists.
pub open spec fn listing_at(remote: Map<Seq<char>, Seq<Entry>>, segs: Seq<Seq<char>>) -> Option<
    Seq<Entry>,
> {
    match dir_at(remote, segs) {
        Some(fid) => if remote.contains_key(fid) {
            Some(remote[fid])
        } else {
            None
        },
        None => None,
    }
}

/// The outcome that the remote tree calls for.
pub open spec fn expected(remote: Map<Seq<char>, Seq<Entry>>, segs: Seq<Seq<char>>) -> OutcomeView {
    match listing_at(remote, segs) {
        Some(children) => OutcomeView::Found(children),
        None => OutcomeView::NotFound,
    }
}

/// The levels between the directory being listed and the one asked for.
pub open spec fn levels_left(d: DescentView) -> nat {
    if d.depth <= d.segs.len() {
        (d.segs.len() - d.depth) as nat
    } else {
        0
    }
}

/// A bound on the pages of the directory being listed that are still to come.
pub open spec fn pages_left(remote: Map<Seq<char>, Seq<Entry>>, d: DescentView) -> nat {
    let total = if d.page <= 1 {
        if remote.contains_key(d.dir_fid) {
            remote[d.dir_fid].len()
        } else {
            0
        }
    } else {
        d.total
    };
    if d.page <= page_count(total) {
        (page_count(total) - d.page + 1) as nat
    } else {
        0
    }
}

/// The outcome of a descent whose every request is answered from `remote`.
pub open spec fn run(remote: Map<Seq<char>, Seq<Entry>>, d: DescentView) -> OutcomeView
    decreases levels_left(d), pages_left(remote, d),
    via run_decreases
{
    match step(d, answer(remote, d.dir_fid, d.page)) {
        ProgressView::Done(o) => o,
        ProgressView::Fetch(next) => run(remote, next),
    }
}

#[via_fn]
proof fn run_decreases(remote: Map<Seq<char>, Seq<Entry>>, d: DescentView) {
    let a = answer(remote, d.dir_fid, d.page);
    if let ProgressView::Fetch(next) = step(d, a) {
        lemma_step_makes_progress(remote, d);
    }
}

/// Each answer brings a descent nearer its end: it goes one level down, or
/// stays and has one page less to come.
pub proof fn lemma_step_makes_progress(remote: Map<Seq<char>, Seq<Entry>>, d: DescentView)
    ensures
        step(d, answer(remote, d.dir_fid, d.page)) matches ProgressView::Fetch(next) ==> {
            ||| levels_left(next) < levels_left(d)
            ||| levels_left(next) == levels_left(d) && pages_left(remote, next) < pages_left(
                remote,
                d,
            )
        },
{
    let a = answer(remote, d.dir_fid, d.page);
    if let ProgressView::Fetch(next) = step(d, a) {
        match a {
            Answer::Listed { list, total } => {
                let t = total_after(d, total);
                if more_pages(d.page, list.len(), t) {
                    assert(next.page == d.page + 1);
                    assert(next.total == t);
                    assert(next.depth == d.depth);
                    assert(next.segs == d.segs);
                    assert(next.dir_fid == d.dir_fid);
                    assert(total == remote[d.dir_fid].len());
                } else {
                    assert(d.depth < d.segs.len());
                    assert(next.depth == d.depth + 1);
                    assert(next.segs == d.segs);
                }
            },
            _ => {},
        }
    }
}

/// The outcome of a resolution from where it stands.
pub open spec fn resolve(remote: Map<Seq<char>, Seq<Entry>>, p: ProgressView) -> OutcomeView {
    match p {
        ProgressView::Done(o) => o,
        ProgressView::Fetch(d) => run(remote, d),
    }
}

/// A descent is on course when the directory it lists is the one that the
/// remote tree has at that place of the path, and the children it holds are
/// the ones that the pages before the next hold there.
pub open spec fn on_course(remote: Map<Seq<char>, Seq<Entry>>, d: DescentView) -> bool {
    &&& d.depth <= d.segs.len()
    &&& d.page >= 1
    &&& dir_at(remote, d.segs.take(d.depth as int)) == Some(d.dir_fid)
    &&& remote.contains_key(d.dir_fid) ==> {
        &&& page_start(d.page) <= remote[d.dir_fid].len()
        &&& d.listed == remote[d.dir_fid].take(page_start(d.page) as int)
        &&& d.page > 1 ==> d.total == remote[d.dir_fid].len()
    }
}

/// The cache agrees with the remote tree: what is stored under the path of a
/// directory is the children that the remote tree has for it.
pub open spec fn coherent(
    stored: Map<Seq<char>, Seq<Entry>>,
    remote: Map<Seq<char>, Seq<Entry>>,
) -> bool {
    forall|segs: Seq<Seq<char>>|
        all_names(segs) && #[trigger] stored.contains_key(render(segs)) ==> listing_at(
            remote,
            segs,
        ) == Some(stored[render(segs)])
}

/// The descent with one more page taken in.
pub open spec fn with_page(d: DescentView, list: Seq<Entry>, total: nat) -> DescentView {
    DescentView { page: d.page + 1, total, listed: d.listed + list, ..d }
}

/// Where the tree has no directory for the start of a path, it has none for
/// the whole path.
pub proof fn lemma_no_dir_below(remote: Map<Seq<char>, Seq<Entry>>, segs: Seq<Seq<char>>, k: int)
    requires
        0 <= k <= segs.len(),
        dir_at(remote, segs.take(k)) is None,
    ensures
        dir_at(remote, segs) is None,
    decreases segs.len() - k,
{
    if k == segs.len() {
        assert(segs.take(k) =~= segs);
    } else {
        assert(segs.take(k + 1).drop_last() =~= segs.take(k));
        lemma_no_dir_below(remote, segs, k + 1);
    }
}

/// The directory one level down is the child that the next segment names.
pub proof fn lemma_dir_one_down(remote: Map<Seq<char>, Seq<Entry>>, segs: Seq<Seq<char>>, k: int)
    requires
        0 <= k < segs.len(),
    ensures
        dir_at(remote, segs.take(k + 1)) == match dir_at(remote, segs.take(k)) {
            Some(parent) => if remote.contains_key(parent) {
                match pick_dir(remote[parent], segs[k]) {
                    Some(e) => Some(e.fid),
                    None => None,
                }
            } else {
                None
            },
            None => None,
        },
{
    assert(segs.take(k + 1).drop_last() =~= segs.take(k));
    assert(segs.take(k + 1).last() == segs[k]);
}

/// What an answer from the remote tree does to a descent on course that
/// lists a directory of the tree. While the directory has children beyond
/// the page, the descent takes the page in, stays on course and nothing is
/// complete; with the last page it holds the children whole and in order,
/// which are then complete under the directory's path.
pub proof fn lemma_page_answered(remote: Map<Seq<char>, Seq<Entry>>, d: DescentView)
    requires
        on_course(remote, d),
        remote.contains_key(d.dir_fid),
    ensures
        answer(remote, d.dir_fid, d.page) matches Answer::Listed { list, total } && {
            let a = answer(remote, d.dir_fid, d.page);
            let all = remote[d.dir_fid];
            &&& total_after(d, total) == all.len()
            &&& more_pages(d.page, list.len(), all.len()) <==> page_count(all.len()) > d.page
            &&& if more_pages(d.page, list.len(), all.len()) {
                &&& step(d, a) == ProgressView::Fetch(with_page(d, list, all.len()))
                &&& on_course(remote, with_page(d, list, all.len()))
                &&& completed(d, a) is None
            } else {
                &&& d.listed + list == all
                &&& step(d, a) == descend(d.segs, d.depth, all)
                &&& completed(d, a) == Some((render(d.segs.take(d.depth as int)), all))
            }
        },
{
    let a = answer(remote, d.dir_fid, d.page);
    let all = remote[d.dir_fid];
    let from = page_start(d.page) as int;
    match a {
        Answer::Listed { list, total } => {
            assert(total_after(d, total) == all.len());
            if more_pages(d.page, list.len(), all.len()) {
                let next = with_page(d, list, all.len());
                assert(page_start(next.page) == from + ONE_PAGE);
                assert(next.listed =~= all.take(from + ONE_PAGE));
            } else {
                if list.len() >= ONE_PAGE {
                    assert(page_count(all.len()) <= d.page);
                    assert(all.len() <= from + ONE_PAGE);
                } else {
                    assert(all.len() < from + ONE_PAGE);
                    assert(page_count(all.len()) <= d.page);
                }
                assert(d.listed + list =~= all);
            }
        },
        _ => {},
    }
}

/// How the walk goes on from the children of a directory of the tree: down
/// to the child that the tree has on the path, on course; or it ends as the
/// tree calls for.
pub proof fn lemma_descend(
    remote: Map<Seq<char>, Seq<Entry>>,
    segs: Seq<Seq<char>>,
    depth: nat,
    fid: Seq<char>,
)
    requires
        depth <= segs.len(),
        dir_at(remote, segs.take(depth as int)) == Some(fid),
        remote.contains_key(fid),
    ensures
        match descend(segs, depth, remote[fid]) {
            ProgressView::Fetch(next) => {
                &&& depth < segs.len()
                &&& next.segs == segs
                &&& next.depth == depth + 1
                &&& on_course(remote, next)
            },
            ProgressView::Done(o) => o == expected(remote, segs),
        },
{
    if depth == segs.len() {
        assert(segs.take(depth as int) =~= segs);
    } else {
        lemma_dir_one_down(remote, segs, depth as int);
        match pick_dir(remote[fid], segs[depth as int]) {
            Some(e) => {
                let next = enter(segs, depth + 1, e.fid);
                assert(next.listed =~= remote[e.fid].take(0));
            },
            None => {
                lemma_no_dir_below(remote, segs, (depth + 1) as int);
            },
        }
    }
}

/// A directory that the tree does not hold has nothing below it either.
pub proof fn lemma_missing(remote: Map<Seq<char>, Seq<Entry>>, d: DescentView)
    requires
        on_course(remote, d),
        !remote.contains_key(d.dir_fid),
    ensures
        expected(remote, d.segs) == OutcomeView::NotFound,
{
    let depth = d.depth as int;
    if depth == d.segs.len() {
        assert(d.segs.take(depth) =~= d.segs);
    } else {
        lemma_dir_one_down(remote, d.segs, depth);
        lemma_no_dir_below(remote, d.segs, depth + 1);
    }
}

/// A descent that is on course ends as the remote tree calls for: with the
/// children of the directory asked for, whole and in the service's order, or
/// with `NotFound` where the tree has no such directory.
pub proof fn lemma_run_on_course(remote: Map<Seq<char>, Seq<Entry>>, d: DescentView)
    requires
        on_course(remote, d),
    ensures
        run(remote, d) == expected(remote, d.segs),
    decreases levels_left(d), pages_left(remote, d),
{
    lemma_step_makes_progress(remote, d);
    if remote.contains_key(d.dir_fid) {
        lemma_page_answered(remote, d);
        lemma_descend(remote, d.segs, d.depth, d.dir_fid);
        match step(d, answer(remote, d.dir_fid, d.page)) {
            ProgressView::Fetch(next) => {
                lemma_run_on_course(remote, next);
            },
            ProgressView::Done(_) => {},
        }
    } else {
        lemma_missing(remote, d);
    }
}

/// A resolution starts on course, whatever the cache gave, where the cache
/// agrees with the remote tree.
pub proof fn lemma_begin_on_course(
    remote: Map<Seq<char>, Seq<Entry>>,
    stored: Map<Seq<char>, Seq<Entry>>,
    segs: Seq<Seq<char>>,
    probe: ProbeView,
)
    requires
        all_names(segs),
        coherent(stored, remote),
        observable(stored, segs, probe),
    ensures
        match begin_from(segs, probe) {
            ProgressView::Fetch(d) => on_course(remote, d) && d.segs == segs,
            ProgressView::Done(o) => o == expected(remote, segs),
        },
{
    match probe {
        ProbeView::Hit(list) => {
            assert(stored.contains_key(render(segs)));
        },
        ProbeView::Ancestor { depth, list } => {
            let above = segs.take(depth as int);
            assert(all_names(above));
            assert(stored.contains_key(render(above)));
            lemma_descend(remote, segs, depth, dir_at(remote, above)->0);
        },
        ProbeView::Cold => {
            let d = enter(segs, 0, root_fid());
            assert(segs.take(0) =~= Seq::<Seq<char>>::empty());
            assert(d.listed =~= remote[root_fid()].take(0));
        },
    }
}

/// While the remote tree does not change, a resolution gives what the tree
/// holds for the path, whatever the cache held when it began: the children of
/// that directory, or `NotFound`.
pub proof fn lemma_resolution_follows_remote(
    remote: Map<Seq<char>, Seq<Entry>>,
    stored: Map<Seq<char>, Seq<Entry>>,
    segs: Seq<Seq<char>>,
    probe: ProbeView,
)
    requires
        all_names(segs),
        coherent(stored, remote),
        observable(stored, segs, probe),
    ensures
        resolve(remote, begin_from(segs, probe)) == expected(remote, segs),
{
    lemma_begin_on_course(remote, stored, segs, probe);
    match begin_from(segs, probe) {
        ProgressView::Fetch(d) => {
            lemma_run_on_course(remote, d);
        },
        ProgressView::Done(_) => {},
    }
}

/// With nothing stored, a resolution starts at the root and still gives what
/// the remote tree holds for the path.
pub proof fn lemma_cold_start_follows_remote(remote: Map<Seq<char>, Seq<Entry>>, key: Seq<char>)
    ensures
        begin_from(segments(key), ProbeView::Cold) == ProgressView::Fetch(
            enter(segments(key), 0, root_fid()),
        ),
        resolve(remote, begin_from(segments(key), ProbeView::Cold)) == expected(
            remote,
            segments(key),
        ),
{
    lemma_segments_are_names(key);
    lemma_resolution_follows_remote(remote, no_listings(), segments(key), ProbeView::Cold);
}

/// An answer from the remote tree keeps a descent on course and the cache in
/// agreement with the tree: what is stored is the whole listing of a
/// directory of the tree, under that directory's path.
pub proof fn lemma_step_keeps_course(
    remote: Map<Seq<char>, Seq<Entry>>,
    stored: Map<Seq<char>, Seq<Entry>>,
    d: DescentView,
)
    requires
        all_names(d.segs),
        coherent(stored, remote),
        on_course(remote, d),
    ensures
        coherent(stored_after(stored, d, answer(remote, d.dir_fid, d.page)), remote),
        step(d, answer(remote, d.dir_fid, d.page)) matches ProgressView::Fetch(next) ==> on_course(
            remote,
            next,
        ) && next.segs == d.segs,
        completed(d, answer(remote, d.dir_fid, d.page)) matches Some(whole) ==> whole == (
            render(d.segs.take(d.depth as int)),
            remote[d.dir_fid],
        ),
{
    if remote.contains_key(d.dir_fid) {
        let a = answer(remote, d.dir_fid, d.page);
        lemma_page_answered(remote, d);
        lemma_descend(remote, d.segs, d.depth, d.dir_fid);
        if completed(d, a) is Some {
            let here = d.segs.take(d.depth as int);
            let all = remote[d.dir_fid];
            let after = stored_after(stored, d, a);
            assert(all_names(here));
            assert forall|segs: Seq<Seq<char>>|
                all_names(segs) && #[trigger] after.contains_key(render(segs)) implies listing_at(
                remote,
                segs,
            ) == Some(after[render(segs)]) by {
                if render(segs) == render(here) {
                    lemma_render_injective(segs, here);
                } else {
                    assert(stored.contains_key(render(segs)));
                }
            }
        }
    }
}

/// The number of requests that a descent makes for the directory it lists,
/// from the request it is about to make on.
pub open spec fn pages_asked(remote: Map<Seq<char>, Seq<Entry>>, d: DescentView) -> nat
    decreases pages_left(remote, d),
    via pages_asked_decreases
{
    match step(d, answer(remote, d.dir_fid, d.page)) {
        ProgressView::Fetch(next) => if next.depth == d.depth && next.dir_fid == d.dir_fid {
            1 + pages_asked(remote, next)
        } else {
            1
        },
        ProgressView::Done(_) => 1,
    }
}

#[via_fn]
proof fn pages_asked_decreases(remote: Map<Seq<char>, Seq<Entry>>, d: DescentView) {
    lemma_step_makes_progress(remote, d);
}

/// A directory is listed with as many requests as its children fill pages,
/// and with one where it has no child.
pub proof fn lemma_pages_asked(remote: Map<Seq<char>, Seq<Entry>>, d: DescentView)
    requires
        on_course(remote, d),
        remote.contains_key(d.dir_fid),
    ensures
        pages_asked(remote, d) == if page_count(remote[d.dir_fid].len()) > d.page {
            page_count(remote[d.dir_fid].len()) - d.page + 1
        } else {
            1
        },
    decreases pages_left(remote, d),
{
    lemma_step_makes_progress(remote, d);
    lemma_page_answered(remote, d);
    lemma_descend(remote, d.segs, d.depth, d.dir_fid);
    match answer(remote, d.dir_fid, d.page) {
        Answer::Listed { list, total } => {
            if more_pages(d.page, list.len(), remote[d.dir_fid].len()) {
                lemma_pages_asked(remote, with_page(d, list, remote[d.dir_fid].len()));
            }
        },
        _ => {},
    }
}

/// The cache and the resolutions under way, as the contracts see them.
pub ghost struct World {
    pub stored: Map<Seq<char>, Seq<Entry>>,
    pub live: Set<DescentView>,
}

/// What can happen to a cache that is filled by resolutions alone.
pub ghost enum Event {
    /// A resolution of `key` begins, and the cache gives `probe`.
    Begin { key: Seq<char>, probe: ProbeView },
    /// The remote tree answers the request of a resolution under way.
    Answered { d: DescentView },
    /// The listing under one path is discarded.
    Invalidate { path: Seq<char> },
    /// Every listing is discarded.
    InvalidateAll,
}

/// A new cache, with no resolution under way.
pub open spec fn new_world() -> World {
    World { stored: no_listings(), live: Set::empty() }
}

/// The event can happen: the cache gives only what it holds, and only a
/// resolution under way gets an answer.
pub open spec fn can_happen(w: World, e: Event) -> bool {
    match e {
        Event::Begin { key, probe } => observable(w.stored, segments(key), probe),
        Event::Answered { d } => w.live.contains(d),
        Event::Invalidate { path } => true,
        Event::InvalidateAll => true,
    }
}

/// The cache and the resolutions under way after an event, as
/// `Cache::get_or_insert`, `Cache::advance`, `Cache::invalidate` and
/// `Cache::invalidate_all` leave them when every answer comes from `remote`.
pub open spec fn after(remote: Map<Seq<char>, Seq<Entry>>, w: World, e: Event) -> World {
    match e {
        Event::Begin { key, probe } => match begin_from(segments(key), probe) {
            ProgressView::Fetch(d) => World { live: w.live.insert(d), ..w },
            ProgressView::Done(_) => w,
        },
        Event::Answered { d } => {
            let a = answer(remote, d.dir_fid, d.page);
            World {
                stored: stored_after(w.stored, d, a),
                live: match step(d, a) {
                    ProgressView::Fetch(next) => w.live.remove(d).insert(next),
                    ProgressView::Done(_) => w.live.remove(d),
                },
            }
        },
        Event::Invalidate { path } => World { stored: w.stored.remove(path), ..w },
        Event::InvalidateAll => World { stored: no_listings(), ..w },
    }
}

/// Where a run of events leaves a new cache.
pub open spec fn reached(remote: Map<Seq<char>, Seq<Entry>>, events: Seq<Event>) -> World
    decreases events.len(),
{
    if events.len() == 0 {
        new_world()
    } else {
        after(remote, reached(remote, events.drop_last()), events.last())
    }
}

/// Each event of the run can happen where the events before it lead.
pub open spec fn lawful(remote: Map<Seq<char>, Seq<Entry>>, events: Seq<Event>) -> bool
    decreases events.len(),
{
    events.len() == 0 || (lawful(remote, events.drop_last()) && can_happen(
        reached(remote, events.drop_last()),
        events.last(),
    ))
}

/// The cache agrees with the remote tree, and every resolution under way is
/// on course.
pub open spec fn sound(remote: Map<Seq<char>, Seq<Entry>>, w: World) -> bool {
    &&& coherent(w.stored, remote)
    &&& forall|d: DescentView| #[trigger] w.live.contains(d) ==> all_names(d.segs) && on_course(remote, d)
}

/// No event breaks the agreement of the cache with the remote tree, nor
/// takes a resolution off its course.
pub proof fn lemma_after_sound(remote: Map<Seq<char>, Seq<Entry>>, w: World, e: Event)
    requires
        sound(remote, w),
        can_happen(w, e),
    ensures
        sound(remote, after(remote, w, e)),
{
    match e {
        Event::Begin { key, probe } => {
            lemma_segments_are_names(key);
            lemma_begin_on_course(remote, w.stored, segments(key), probe);
        },
        Event::Answered { d } => {
            lemma_step_keeps_course(remote, w.stored, d);
        },
        Event::Invalidate { path } => {
            let less = w.stored.remove(path);
            assert forall|segs: Seq<Seq<char>>|
                all_names(segs) && #[trigger] less.contains_key(render(segs)) implies listing_at(
                remote,
                segs,
            ) == Some(less[render(segs)]) by {
                assert(w.stored.contains_key(render(segs)));
            }
        },
        Event::InvalidateAll => {},
    }
}

/// A cache that is filled by resolutions alone agrees with the remote tree
/// at every time, as long as the tree does not change.
pub proof fn lemma_reached_sound(remote: Map<Seq<char>, Seq<Entry>>, events: Seq<Event>)
    requires
        lawful(remote, events),
    ensures
        sound(remote, reached(remote, events)),
    decreases events.len(),
{
    if events.len() > 0 {
        lemma_reached_sound(remote, events.drop_last());
        lemma_after_sound(remote, reached(remote, events.drop_last()), events.last());
    }
}

/// Resolving one path twice, with the remote tree unchanged, gives the same
/// children in the same order both times, whatever happened to the cache
/// before each time: listings stored, run out, or discarded.
pub proof fn lemma_resolution_idempotent(
    remote: Map<Seq<char>, Seq<Entry>>,
    key: Seq<char>,
    first_events: Seq<Event>,
    first_probe: ProbeView,
    second_events: Seq<Event>,
    second_probe: ProbeView,
)
    requires
        lawful(remote, first_events),
        observable(reached(remote, first_events).stored, segments(key), first_probe),
        lawful(remote, second_events),
        observable(reached(remote, second_events).stored, segments(key), second_probe),
    ensures
        resolve(remote, begin_from(segments(key), first_probe)) == expected(remote, segments(key)),
        resolve(remote, begin_from(segments(key), second_probe)) == resolve(
            remote,
            begin_from(segments(key), first_probe),
        ),
{
    lemma_segments_are_names(key);
    lemma_reached_sound(remote, first_events);
    lemma_reached_sound(remote, second_events);
    lemma_resolution_follows_remote(
        remote,
        reached(remote, first_events).stored,
        segments(key),
        first_probe,
    );
    lemma_resolution_follows_remote(
        remote,
        reached(remote, second_events).stored,
        segments(key),
        second_probe,
    );
}

} // verus!
