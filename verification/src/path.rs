//! Canonical directory paths.
//!
//! A path is read as its segments: the maximal runs of characters other than
//! `/`. Its canonical spelling is absolute, separated by single `/`, and has no
//! trailing separator unless it is the root `/` itself.

use vstd::prelude::*;

verus! {

/// The segments of a path, in order.
pub open spec fn segments(s: Seq<char>) -> Seq<Seq<char>>
    decreases s.len(),
{
    if s.len() == 0 {
        Seq::empty()
    } else {
        let rest = segments(s.drop_last());
        if s.last() == '/' {
            rest
        } else if s.len() == 1 || s[s.len() - 2] == '/' {
            rest.push(seq![s.last()])
        } else {
            rest.drop_last().push(rest.last().push(s.last()))
        }
    }
}

/// Each segment preceded by a separator.
pub open spec fn joined(segs: Seq<Seq<char>>) -> Seq<char>
    decreases segs.len(),
{
    if segs.len() == 0 {
        Seq::empty()
    } else {
        joined(segs.drop_last()) + seq!['/'] + segs.last()
    }
}

/// The canonical spelling of the path with these segments.
pub open spec fn render(segs: Seq<Seq<char>>) -> Seq<char> {
    if segs.len() == 0 {
        seq!['/']
    } else {
        joined(segs)
    }
}

/// A segment is a name: not empty, and free of separators.
pub open spec fn is_name(seg: Seq<char>) -> bool {
    seg.len() > 0 && forall|j: int| 0 <= j < seg.len() ==> seg[j] != '/'
}

pub open spec fn all_names(segs: Seq<Seq<char>>) -> bool {
    forall|i: int| 0 <= i < segs.len() ==> is_name(#[trigger] segs[i])
}

/// The canonical spelling of any path.
pub open spec fn canonical(s: Seq<char>) -> Seq<char> {
    render(segments(s))
}

/// The canonical path of the directory that holds `s`; the root has none.
pub open spec fn parent_of(s: Seq<char>) -> Option<Seq<char>> {
    if segments(s).len() == 0 {
        None
    } else {
        Some(render(segments(s).drop_last()))
    }
}

/// The last segment of `s`; the root has none.
pub open spec fn name_of(s: Seq<char>) -> Option<Seq<char>> {
    if segments(s).len() == 0 {
        None
    } else {
        Some(segments(s).last())
    }
}

/// The views of a vector of strings.
pub open spec fn names(v: Seq<String>) -> Seq<Seq<char>> {
    Seq::new(v.len(), |i: int| v[i]@)
}

/// A run of non-separator characters behind a separator, or at the start, is
/// one more segment.
pub proof fn lemma_segments_run(x: Seq<char>, t: Seq<char>)
    requires
        x.len() == 0 || x.last() == '/',
        is_name(t),
    ensures
        segments(x + t) == segments(x).push(t),
    decreases t.len(),
{
    let s = x + t;
    assert(s.drop_last() =~= x + t.drop_last());
    assert(s.last() == t.last());
    if t.len() == 1 {
        assert(t.drop_last() =~= Seq::<char>::empty());
        assert(x + t.drop_last() =~= x);
        assert(seq![s.last()] =~= t);
        if x.len() > 0 {
            assert(s[s.len() - 2] == x.last());
        }
    } else {
        let t0 = t.drop_last();
        assert(is_name(t0));
        lemma_segments_run(x, t0);
        let rest = segments(s.drop_last());
        assert(rest == segments(x).push(t0));
        assert(s[s.len() - 2] == t0.last());
        assert(rest.drop_last() =~= segments(x));
        assert(rest.last().push(s.last()) =~= t);
    }
}

/// A separator at the end adds no segment.
pub proof fn lemma_segments_sep(x: Seq<char>)
    ensures
        segments(x + seq!['/']) == segments(x),
{
    let s = x + seq!['/'];
    assert(s.drop_last() =~= x);
}

/// Every segment of a path is a name, and a path that ends in a name has one.
pub proof fn lemma_segments_are_names(s: Seq<char>)
    ensures
        all_names(segments(s)),
        s.len() > 0 && s.last() != '/' ==> segments(s).len() > 0,
    decreases s.len(),
{
    if s.len() > 0 {
        lemma_segments_are_names(s.drop_last());
        let rest = segments(s.drop_last());
        if s.last() == '/' {
        } else if s.len() == 1 || s[s.len() - 2] == '/' {
            assert(is_name(seq![s.last()]));
        } else {
            assert(s.drop_last().last() == s[s.len() - 2]);
            assert(rest.len() > 0);
            assert(is_name(rest.last()));
            assert(is_name(rest.last().push(s.last())));
        }
    }
}

/// Reading the canonical spelling gives the segments back.
pub proof fn lemma_segments_of_render(segs: Seq<Seq<char>>)
    requires
        all_names(segs),
    ensures
        segments(render(segs)) == segs,
        segments(joined(segs)) == segs,
    decreases segs.len(),
{
    if segs.len() == 0 {
        assert(seq!['/'] =~= Seq::<char>::empty() + seq!['/']);
        lemma_segments_sep(Seq::<char>::empty());
        assert(segments(joined(segs)) =~= segs);
        assert(segments(render(segs)) =~= segs);
    } else {
        let front = segs.drop_last();
        assert(all_names(front));
        lemma_segments_of_render(front);
        lemma_segments_sep(joined(front));
        let x = joined(front) + seq!['/'];
        assert(is_name(segs.last()));
        lemma_segments_run(x, segs.last());
        assert(front.push(segs.last()) =~= segs);
    }
}

/// Two lists of names with one spelling are one list.
pub proof fn lemma_render_injective(a: Seq<Seq<char>>, b: Seq<Seq<char>>)
    requires
        all_names(a),
        all_names(b),
        render(a) == render(b),
    ensures
        a == b,
{
    lemma_segments_of_render(a);
    lemma_segments_of_render(b);
}

/// Splits a path into its segments.
pub fn split_path(path: &str) -> (segs: Vec<String>)
    ensures
        names(segs@) == segments(path@),
{
    let n = path.unicode_len();
    let mut segs: Vec<String> = Vec::new();
    let mut start: usize = 0;
    let mut i: usize = 0;
    assert(path@.take(0) =~= Seq::<char>::empty());
    assert(names(segs@) =~= segments(path@.take(0)));
    while i < n
        invariant
            n == path@.len(),
            start <= i <= n,
            start == 0 || path@[start - 1] == '/',
            forall|j: int| start <= j < i ==> path@[j] != '/',
            names(segs@) == segments(path@.take(start as int)),
        decreases n - i,
    {
        let c = path.get_char(i);
        if c == '/' {
            if start < i {
                let run = String::from_str(path.substring_char(start, i));
                proof {
                    let x = path@.take(start as int);
                    let t = path@.subrange(start as int, i as int);
                    assert(is_name(t));
                    lemma_segments_run(x, t);
                    assert(x + t =~= path@.take(i as int));
                    assert(names(segs@.push(run)) =~= names(segs@).push(t));
                }
                segs.push(run);
            }
            proof {
                lemma_segments_sep(path@.take(i as int));
                assert(path@.take(i as int) + seq!['/'] =~= path@.take(i + 1));
            }
            start = i + 1;
        }
        i += 1;
    }
    if start < n {
        let run = String::from_str(path.substring_char(start, n));
        proof {
            let x = path@.take(start as int);
            let t = path@.subrange(start as int, n as int);
            assert(is_name(t));
            lemma_segments_run(x, t);
            assert(x + t =~= path@);
            assert(names(segs@.push(run)) =~= names(segs@).push(t));
        }
        segs.push(run);
    } else {
        assert(path@.take(start as int) =~= path@);
    }
    segs
}

/// Spells the path made of the first `depth` segments.
pub fn render_prefix(segs: &Vec<String>, depth: usize) -> (out: String)
    requires
        depth <= segs.len(),
    ensures
        out@ == render(names(segs@).take(depth as int)),
{
    proof {
        reveal_strlit("/");
    }
    if depth == 0 {
        let out = String::from_str("/");
        assert(out@ =~= seq!['/']);
        return out;
    }
    let mut out = String::new();
    let mut i: usize = 0;
    assert(names(segs@).take(0) =~= Seq::<Seq<char>>::empty());
    while i < depth
        invariant
            i <= depth <= segs.len(),
            "/"@ == seq!['/'],
            out@ == joined(names(segs@).take(i as int)),
        decreases depth - i,
    {
        proof {
            let next = names(segs@).take(i + 1);
            assert(next.drop_last() =~= names(segs@).take(i as int));
            assert(next.last() == segs@[i as int]@);
        }
        out.append("/");
        out.append(segs[i].as_str());
        i += 1;
    }
    out
}

/// The canonical spelling of `path`.
pub fn canonical_path(path: &str) -> (out: String)
    ensures
        out@ == canonical(path@),
{
    let segs = split_path(path);
    let out = render_prefix(&segs, segs.len());
    assert(names(segs@).take(segs.len() as int) =~= names(segs@));
    out
}

/// The canonical path of the directory that holds `path`, or `None` for the root.
pub fn parent_path(path: &str) -> (out: Option<String>)
    ensures
        out is Some <==> parent_of(path@) is Some,
        out matches Some(p) ==> Some(p@) == parent_of(path@),
{
    let segs = split_path(path);
    if segs.len() == 0 {
        None
    } else {
        let out = render_prefix(&segs, segs.len() - 1);
        assert(names(segs@).take(segs.len() - 1) =~= names(segs@).drop_last());
        Some(out)
    }
}

/// The last segment of `path`, or `None` for the root.
pub fn file_name(path: &str) -> (out: Option<String>)
    ensures
        out is Some <==> name_of(path@) is Some,
        out matches Some(p) ==> Some(p@) == name_of(path@),
{
    let mut segs = split_path(path);
    let ghost before = segs@;
    match segs.pop() {
        None => None,
        Some(last) => {
            assert(last@ == names(before).last());
            Some(last)
        },
    }
}

} // verus!
