//! The listing engine: filter predicates, sort orders, and page slicing
//! over a sequence of tasks.

use vstd::prelude::*;

use crate::pagination::SortBy;
use crate::pagination::SortDir;
use crate::pagination::TaskFilters;
use crate::pagination::TaskFiltersView;
use crate::task::Task;
use crate::task::TaskView;
use crate::task::spec_status_rank;
use crate::task::status_rank;
use crate::text::spec_lower;
use crate::text::to_lower_str;

verus! {

/// The views of a sequence of task records.
pub open spec fn spec_views(s: Seq<Task>) -> Seq<TaskView> {
    s.map_values(|t: Task| t@)
}

/// `needle` occurs as a contiguous substring of `hay`.
pub open spec fn spec_contains_sub(hay: Seq<char>, needle: Seq<char>) -> bool {
    exists|i: int|
        0 <= i <= hay.len() - needle.len() && #[trigger] hay.subrange(i, i + needle.len())
            == needle
}

/// Decides `spec_contains_sub`.
pub fn contains_sub(hay: &str, needle: &str) -> (r: bool)
    ensures
        r == spec_contains_sub(hay@, needle@),
{
    let nh = hay.unicode_len();
    let nn = needle.unicode_len();
    if nn > nh {
        return false;
    }
    if nn == 0 {
        proof {
            assert(hay@.subrange(0, 0 + needle@.len() as int) =~= needle@);
        }
        return true;
    }
    let mut i: usize = 0;
    while i <= nh - nn
        invariant
            nh == hay@.len(),
            nn == needle@.len(),
            1 <= nn <= nh,
            i <= nh - nn + 1,
            forall|x: int| 0 <= x < i ==> #[trigger] hay@.subrange(x, x + nn) != needle@,
        decreases nh - i,
    {
        let mut j: usize = 0;
        let mut matched: bool = true;
        while j < nn
            invariant
                nh == hay@.len(),
                nn == needle@.len(),
                i + nn <= nh,
                j <= nn,
                matched ==> forall|y: int| 0 <= y < j ==> hay@[i + y] == needle@[y],
                !matched ==> hay@.subrange(i as int, i + nn) != needle@,
            decreases nn - j,
        {
            if hay.get_char(i + j) != needle.get_char(j) {
                matched = false;
                proof {
                    assert(hay@.subrange(i as int, i + nn)[j as int] != needle@[j as int]);
                    assert(hay@.subrange(i as int, i + nn) != needle@);
                }
                j = nn;
            } else {
                j = j + 1;
            }
        }
        if matched {
            proof {
                assert(hay@.subrange(i as int, i + nn) =~= needle@);
            }
            return true;
        }
        proof {
            assert(hay@.subrange(i as int, i + nn) != needle@);
        }
        i = i + 1;
    }
    proof {
        assert forall|p: int| !(0 <= p <= hay@.len() - needle@.len() && #[trigger] hay@.subrange(
            p,
            p + needle@.len(),
        ) == needle@) by {
            if 0 <= p <= hay@.len() - needle@.len() {
                assert(hay@.subrange(p, p + needle@.len()) != needle@);
            }
        }
    }
    false
}

/// The search predicate: the lowered needle occurs in the lowered title or
/// in the lowered description.
pub open spec fn spec_search_matches(t: TaskView, needle: Seq<char>) -> bool {
    ||| spec_contains_sub(spec_lower(t.title), spec_lower(needle))
    ||| match t.description {
        Some(d) => spec_contains_sub(spec_lower(d), spec_lower(needle)),
        None => false,
    }
}

/// The whole filter predicate of one listing; an absent filter constrains
/// nothing.
pub open spec fn spec_task_matches(t: TaskView, f: TaskFiltersView) -> bool {
    &&& match f.status {
        Some(st) => t.status == st,
        None => true,
    }
    &&& match f.user_id {
        Some(u) => t.user_id == u,
        None => true,
    }
    &&& match f.created_after {
        Some(a) => t.created_at >= a,
        None => true,
    }
    &&& match f.created_before {
        Some(b) => t.created_at <= b,
        None => true,
    }
    &&& match f.search {
        Some(s) => spec_search_matches(t, s),
        None => true,
    }
}

/// Decides `spec_task_matches`.
pub fn task_matches(t: &Task, f: &TaskFilters) -> (r: bool)
    ensures
        r == spec_task_matches(t@, f@),
{
    let status_ok: bool = match &f.status {
        Some(st) => t.status == *st,
        None => true,
    };
    let owner_ok: bool = match &f.user_id {
        Some(u) => t.user_id == *u,
        None => true,
    };
    let after_ok: bool = match &f.created_after {
        Some(a) => t.created_at >= *a,
        None => true,
    };
    let before_ok: bool = match &f.created_before {
        Some(b) => t.created_at <= *b,
        None => true,
    };
    let search_ok: bool = match &f.search {
        Some(s) => {
            let needle = to_lower_str(s.as_str());
            let title_l = to_lower_str(t.title.as_str());
            if contains_sub(title_l.as_str(), needle.as_str()) {
                true
            } else {
                match &t.description {
                    Some(d) => {
                        let d_l = to_lower_str(d.as_str());
                        contains_sub(d_l.as_str(), needle.as_str())
                    },
                    None => false,
                }
            }
        },
        None => true,
    };
    status_ok && owner_ok && after_ok && before_ok && search_ok
}

/// A copy of a task vector, element by element.
pub fn clone_tasks(v: &Vec<Task>) -> (r: Vec<Task>)
    ensures
        spec_views(r@) == spec_views(v@),
{
    let mut out: Vec<Task> = Vec::new();
    let mut i: usize = 0;
    proof {
        assert(spec_views(out@) =~= spec_views(v@).subrange(0, 0));
    }
    while i < v.len()
        invariant
            i <= v@.len(),
            spec_views(out@) == spec_views(v@).subrange(0, i as int),
        decreases v@.len() - i,
    {
        out.push(v[i].clone());
        proof {
            assert(spec_views(v@).subrange(0, i + 1) =~= spec_views(v@).subrange(0, i as int).push(
                v@[i as int]@,
            ));
        }
        i = i + 1;
    }
    proof {
        assert(spec_views(out@) =~= spec_views(v@));
    }
    out
}

/// Keeps exactly the tasks that match the filters, in their stored order.
pub fn filter_tasks(v: &Vec<Task>, f: &TaskFilters) -> (r: Vec<Task>)
    ensures
        spec_views(r@) == spec_views(v@).filter(|t: TaskView| spec_task_matches(t, f@)),
{
    broadcast use Seq::lemma_filter_push;

    let ghost pred = |t: TaskView| spec_task_matches(t, f@);
    let mut out: Vec<Task> = Vec::new();
    let mut i: usize = 0;
    proof {
        assert(spec_views(v@.take(0)) =~= Seq::<TaskView>::empty());
        assert(spec_views(out@) =~= spec_views(v@.take(0)).filter(pred));
    }
    while i < v.len()
        invariant
            i <= v@.len(),
            spec_views(out@) == spec_views(v@.take(i as int)).filter(
                |t: TaskView| spec_task_matches(t, f@),
            ),
        decreases v@.len() - i,
    {
        let ghost prev = out@;
        if task_matches(&v[i], f) {
            out.push(v[i].clone());
        }
        proof {
            let pred2 = |t: TaskView| spec_task_matches(t, f@);
            assert(spec_views(v@.take(i + 1)) =~= spec_views(v@.take(i as int)).push(v@[i as int]@));
            spec_views(v@.take(i as int)).lemma_filter_push(v@[i as int]@, pred2);
            if spec_task_matches(v@[i as int]@, f@) {
                assert(spec_views(out@) =~= spec_views(prev).push(v@[i as int]@));
            } else {
                assert(spec_views(out@) =~= spec_views(prev));
            }
        }
        i = i + 1;
    }
    proof {
        assert(v@.take(v@.len() as int) =~= v@);
    }
    out
}

/// Whatever holds the same elements as a filtered sequence contains only
/// elements the predicate accepts.
pub proof fn lemma_member_of_filter(
    a: Seq<TaskView>,
    b: Seq<TaskView>,
    p: spec_fn(TaskView) -> bool,
    x: TaskView,
)
    requires
        a.to_multiset() == b.filter(p).to_multiset(),
        a.contains(x),
    ensures
        p(x),
{
    broadcast use vstd::seq_lib::to_multiset_contains, Seq::lemma_filter_pred;

    assert(a.to_multiset().count(x) > 0);
    assert(b.filter(p).to_multiset().count(x) > 0);
    assert(b.filter(p).contains(x));
    let i = choose|i: int| 0 <= i < b.filter(p).len() && b.filter(p)[i] == x;
    assert(p(b.filter(p)[i]));
}

/// Two pointwise-equal predicates filter a sequence identically.
pub proof fn lemma_filter_congruent(
    s: Seq<TaskView>,
    p1: spec_fn(TaskView) -> bool,
    p2: spec_fn(TaskView) -> bool,
)
    requires
        forall|t: TaskView| #[trigger] p1(t) == #[trigger] p2(t),
    ensures
        s.filter(p1) == s.filter(p2),
    decreases s.len(),
{
    broadcast use Seq::lemma_filter_len;

    if s.len() == 0 {
        assert(s.filter(p1).len() <= 0);
        assert(s.filter(p2).len() <= 0);
        assert(s.filter(p1) =~= s.filter(p2));
    } else {
        lemma_filter_congruent(s.drop_last(), p1, p2);
        s.drop_last().lemma_filter_push(s.last(), p1);
        s.drop_last().lemma_filter_push(s.last(), p2);
        assert(s.drop_last().push(s.last()) =~= s);
    }
}

/// Lexicographic order on character sequences, by code point.
pub open spec fn spec_lex_le(a: Seq<char>, b: Seq<char>) -> bool
    decreases a.len(),
{
    if a.len() == 0 {
        true
    } else if b.len() == 0 {
        false
    } else if a[0] != b[0] {
        a[0] < b[0]
    } else {
        spec_lex_le(a.drop_first(), b.drop_first())
    }
}

/// Lexicographic order is total.
pub proof fn lemma_lex_total(a: Seq<char>, b: Seq<char>)
    ensures
        spec_lex_le(a, b) || spec_lex_le(b, a),
    decreases a.len(),
{
    if a.len() > 0 && b.len() > 0 && a[0] == b[0] {
        lemma_lex_total(a.drop_first(), b.drop_first());
    }
}

/// Lexicographic order is transitive.
pub proof fn lemma_lex_trans(a: Seq<char>, b: Seq<char>, c: Seq<char>)
    requires
        spec_lex_le(a, b),
        spec_lex_le(b, c),
    ensures
        spec_lex_le(a, c),
    decreases a.len(),
{
    if a.len() > 0 && b.len() > 0 && c.len() > 0 && a[0] == b[0] && b[0] == c[0] {
        lemma_lex_trans(a.drop_first(), b.drop_first(), c.drop_first());
    }
}

/// Decides `spec_lex_le`.
pub fn str_lex_le(a: &str, b: &str) -> (r: bool)
    ensures
        r == spec_lex_le(a@, b@),
{
    let na = a.unicode_len();
    let nb = b.unicode_len();
    let mut i: usize = 0;
    proof {
        assert(a@.skip(0) =~= a@);
        assert(b@.skip(0) =~= b@);
    }
    while i < na && i < nb
        invariant
            na == a@.len(),
            nb == b@.len(),
            i <= na,
            i <= nb,
            spec_lex_le(a@, b@) == spec_lex_le(a@.skip(i as int), b@.skip(i as int)),
        decreases na - i,
    {
        let ca = a.get_char(i);
        let cb = b.get_char(i);
        proof {
            assert(a@.skip(i as int)[0] == a@[i as int]);
            assert(b@.skip(i as int)[0] == b@[i as int]);
            assert(a@.skip(i as int).drop_first() =~= a@.skip(i + 1));
            assert(b@.skip(i as int).drop_first() =~= b@.skip(i + 1));
        }
        if ca != cb {
            return ca < cb;
        }
        i = i + 1;
    }
    proof {
        if i >= na {
            assert(a@.skip(i as int).len() == 0);
        } else {
            assert(b@.skip(i as int).len() == 0);
            assert(a@.skip(i as int).len() > 0);
        }
    }
    na <= nb
}

/// One listing order on task views.
pub open spec fn spec_key_le(a: TaskView, b: TaskView, sb: SortBy) -> bool {
    match sb {
        SortBy::CreatedAt => a.created_at <= b.created_at,
        SortBy::UpdatedAt => a.updated_at <= b.updated_at,
        SortBy::Title => spec_lex_le(a.title, b.title),
        SortBy::Status => spec_status_rank(a.status) <= spec_status_rank(b.status),
    }
}

/// The listing order with its direction applied.
pub open spec fn spec_task_le(a: TaskView, b: TaskView, sb: SortBy, d: SortDir) -> bool {
    match d {
        SortDir::Asc => spec_key_le(a, b, sb),
        SortDir::Desc => spec_key_le(b, a, sb),
    }
}

/// The listing order is total.
pub proof fn lemma_task_le_total(a: TaskView, b: TaskView, sb: SortBy, d: SortDir)
    ensures
        spec_task_le(a, b, sb, d) || spec_task_le(b, a, sb, d),
{
    if sb is Title {
        lemma_lex_total(a.title, b.title);
    }
}

/// The listing order is transitive.
pub proof fn lemma_task_le_trans(a: TaskView, b: TaskView, c: TaskView, sb: SortBy, d: SortDir)
    requires
        spec_task_le(a, b, sb, d),
        spec_task_le(b, c, sb, d),
    ensures
        spec_task_le(a, c, sb, d),
{
    if sb is Title {
        match d {
            SortDir::Asc => lemma_lex_trans(a.title, b.title, c.title),
            SortDir::Desc => lemma_lex_trans(c.title, b.title, a.title),
        }
    }
}

/// Decides `spec_task_le`.
pub fn task_le(a: &Task, b: &Task, sb: SortBy, d: SortDir) -> (r: bool)
    ensures
        r == spec_task_le(a@, b@, sb, d),
{
    let (x, y): (&Task, &Task) = match d {
        SortDir::Asc => (a, b),
        SortDir::Desc => (b, a),
    };
    match sb {
        SortBy::CreatedAt => x.created_at <= y.created_at,
        SortBy::UpdatedAt => x.updated_at <= y.updated_at,
        SortBy::Title => str_lex_le(x.title.as_str(), y.title.as_str()),
        SortBy::Status => status_rank(x.status) <= status_rank(y.status),
    }
}

/// The sequence is ordered by the listing order.
pub open spec fn spec_sorted(s: Seq<TaskView>, sb: SortBy, d: SortDir) -> bool {
    forall|x: int, y: int|
        0 <= x < y < s.len() ==> spec_task_le(#[trigger] s[x], #[trigger] s[y], sb, d)
}

/// Sorts tasks by the listing order; the result is ordered and holds
/// exactly the input tasks.  Ties may come out in any order, as they may
/// from the underlying store.
pub fn sort_tasks(v: &Vec<Task>, sb: SortBy, d: SortDir) -> (r: Vec<Task>)
    ensures
        spec_sorted(spec_views(r@), sb, d),
        spec_views(r@).to_multiset() == spec_views(v@).to_multiset(),
{
    broadcast use vstd::seq_lib::to_multiset_build, vstd::seq_lib::to_multiset_insert;

    let mut out: Vec<Task> = Vec::new();
    let mut i: usize = 0;
    proof {
        assert(spec_views(v@.take(0)) =~= Seq::<TaskView>::empty());
        assert(spec_views(out@) =~= spec_views(v@.take(0)));
    }
    while i < v.len()
        invariant
            i <= v@.len(),
            spec_sorted(spec_views(out@), sb, d),
            spec_views(out@).to_multiset() == spec_views(v@.take(i as int)).to_multiset(),
        decreases v@.len() - i,
    {
        let t = v[i].clone();
        let mut k: usize = 0;
        while k < out.len() && task_le(&out[k], &t, sb, d)
            invariant
                k <= out@.len(),
                forall|j: int| 0 <= j < k ==> spec_task_le(#[trigger] spec_views(out@)[j], t@, sb, d),
            decreases out@.len() - k,
        {
            k = k + 1;
        }
        proof {
            if k < out@.len() {
                lemma_task_le_total(spec_views(out@)[k as int], t@, sb, d);
            }
            assert forall|j: int| k <= j < out@.len() implies spec_task_le(
                t@,
                #[trigger] spec_views(out@)[j],
                sb,
                d,
            ) by {
                if j > k {
                    lemma_task_le_trans(t@, spec_views(out@)[k as int], spec_views(out@)[j], sb, d);
                }
            }
        }
        let ghost old_out = out@;
        out.insert(k, t);
        proof {
            assert(spec_views(out@) =~= spec_views(old_out).insert(k as int, t@));
            assert(spec_views(v@.take(i + 1)) =~= spec_views(v@.take(i as int)).push(v@[i as int]@));
            assert(spec_views(old_out).len() == old_out.len());
            vstd::seq_lib::to_multiset_insert(spec_views(old_out), k as int, t@);
            vstd::seq_lib::to_multiset_build(spec_views(v@.take(i as int)), v@[i as int]@);
            assert(spec_views(old_out).insert(k as int, t@).to_multiset() == spec_views(
                old_out,
            ).to_multiset().insert(t@));
            assert(spec_sorted(spec_views(out@), sb, d)) by {
                assert forall|x: int, y: int|
                    0 <= x < y < spec_views(out@).len() implies spec_task_le(
                    #[trigger] spec_views(out@)[x],
                    #[trigger] spec_views(out@)[y],
                    sb,
                    d,
                ) by {
                    let so = spec_views(old_out);
                    let sn = spec_views(out@);
                    assert(sn =~= so.insert(k as int, t@));
                    if x < k && y < k {
                        assert(sn[x] == so[x] && sn[y] == so[y]);
                    } else if x < k && y == k {
                        assert(sn[x] == so[x] && sn[y] == t@);
                    } else if x < k && y > k {
                        assert(sn[x] == so[x] && sn[y] == so[y - 1]);
                    } else if x == k {
                        assert(sn[x] == t@ && sn[y] == so[y - 1]);
                    } else {
                        assert(sn[x] == so[x - 1] && sn[y] == so[y - 1]);
                    }
                }
            }
        }
        i = i + 1;
    }
    proof {
        assert(v@.take(v@.len() as int) =~= v@);
    }
    out
}

/// The rows of one page: `count` rows starting at `offset`, clipped to the
/// sequence.
pub open spec fn spec_page(s: Seq<TaskView>, offset: int, count: int) -> Seq<TaskView> {
    let start = if offset <= s.len() {
        offset
    } else {
        s.len() as int
    };
    let end = if offset + count <= s.len() {
        offset + count
    } else {
        s.len() as int
    };
    s.subrange(start, end)
}

/// Copies one page out of an ordered listing.
pub fn page_slice(v: &Vec<Task>, offset: u64, count: u64) -> (r: Vec<Task>)
    requires
        offset + count <= u64::MAX,
    ensures
        spec_views(r@) == spec_page(spec_views(v@), offset as int, count as int),
{
    let n = v.len();
    let start: usize = if offset <= n as u64 {
        offset as usize
    } else {
        n
    };
    let end: usize = if offset + count <= n as u64 {
        (offset + count) as usize
    } else {
        n
    };
    let mut out: Vec<Task> = Vec::new();
    let mut i: usize = start;
    proof {
        assert(spec_views(out@) =~= spec_views(v@).subrange(start as int, start as int));
    }
    while i < end
        invariant
            start <= i <= end <= v@.len(),
            spec_views(out@) == spec_views(v@).subrange(start as int, i as int),
        decreases end - i,
    {
        out.push(v[i].clone());
        proof {
            assert(spec_views(v@).subrange(start as int, i + 1) =~= spec_views(v@).subrange(
                start as int,
                i as int,
            ).push(v@[i as int]@));
        }
        i = i + 1;
    }
    proof {
        assert(spec_views(out@) =~= spec_page(spec_views(v@), offset as int, count as int));
    }
    out
}

} // verus!
