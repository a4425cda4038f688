//! Projects, their grouping by start year, and chronological navigation.

use vstd::prelude::*;
use crate::date::Date;
use crate::lemmas::{lemma_filter_member, lemma_filter_push};
use crate::text::owned;

verus! {

/// A portfolio project.
#[derive(Debug, Clone, PartialEq)]
pub struct Project {
    pub id: u128,
    pub title: String,
    pub slug: String,
    pub description: Option<String>,
    pub start_date: Date,
    pub end_date: Option<Date>,
    pub thumbnail_url: Option<String>,
}

impl Project {
    /// A copy of this project.
    pub fn duplicate(&self) -> (r: Project)
        ensures
            r == *self,
    {
        let description = match &self.description {
            Some(d) => Some(d.clone()),
            None => None,
        };
        let thumbnail_url = match &self.thumbnail_url {
            Some(t) => Some(t.clone()),
            None => None,
        };
        Project {
            id: self.id,
            title: self.title.clone(),
            slug: self.slug.clone(),
            description,
            start_date: self.start_date,
            end_date: self.end_date,
            thumbnail_url,
        }
    }

    /// The dates are well formed and the project does not end before it starts.
    pub open spec fn wf(&self) -> bool {
        &&& self.start_date.wf()
        &&& match self.end_date {
            Some(e) => e.wf() && self.start_date.key() <= e.key(),
            None => true,
        }
    }
}

/// Holds of the projects that start in `year`.
pub open spec fn in_year(year: i32) -> spec_fn(Project) -> bool {
    |p: Project| p.start_date.year == year
}

/// `groups` is `projects` grouped by start year: one group for each year that some
/// project starts in, the most recent year first, and in each group the projects of
/// that year in their order in `projects`.
pub open spec fn grouped_by_year(projects: Seq<Project>, groups: Seq<(i32, Seq<Project>)>) -> bool {
    &&& forall|i: int, j: int| 0 <= i < j < groups.len() ==> groups[i].0 > groups[j].0
    &&& forall|i: int| 0 <= i < groups.len() ==> #[trigger] groups[i].1 == projects.filter(in_year(groups[i].0))
    &&& forall|i: int| 0 <= i < groups.len() ==> #[trigger] groups[i].1.len() > 0
    &&& forall|k: int|
        #![trigger projects[k]]
        0 <= k < projects.len() ==> exists|i: int|
            #![trigger groups[i]]
            0 <= i < groups.len() && groups[i].0 == projects[k].start_date.year
}

/// Each group's year is the start year of some project.
proof fn lemma_group_year_occurs(projects: Seq<Project>, groups: Seq<(i32, Seq<Project>)>, i: int)
    requires
        grouped_by_year(projects, groups),
        0 <= i < groups.len(),
    ensures
        exists|k: int| 0 <= k < projects.len() && projects[k].start_date.year == groups[i].0,
{
    let f = in_year(groups[i].0);
    assert(groups[i].1 == projects.filter(f));
    assert(groups[i].1.len() > 0);
    lemma_filter_member(projects, f, 0);
    projects.lemma_filter_pred(f, 0);
    let k = choose|k: int| 0 <= k < projects.len() && projects[k] == projects.filter(f)[0];
    assert(projects[k].start_date.year == groups[i].0);
}

proof fn lemma_years_agree(
    projects: Seq<Project>,
    g1: Seq<(i32, Seq<Project>)>,
    g2: Seq<(i32, Seq<Project>)>,
    i: int,
)
    requires
        grouped_by_year(projects, g1),
        grouped_by_year(projects, g2),
        0 <= i < g1.len(),
        i < g2.len(),
    ensures
        forall|j: int| 0 <= j <= i ==> (#[trigger] g1[j]).0 == g2[j].0,
    decreases i,
{
    if i > 0 {
        lemma_years_agree(projects, g1, g2, i - 1);
    }
    lemma_year_not_above(projects, g1, g2, i);
    lemma_year_not_above(projects, g2, g1, i);
}

proof fn lemma_year_not_above(
    projects: Seq<Project>,
    g1: Seq<(i32, Seq<Project>)>,
    g2: Seq<(i32, Seq<Project>)>,
    i: int,
)
    requires
        grouped_by_year(projects, g1),
        grouped_by_year(projects, g2),
        0 <= i < g1.len(),
        i < g2.len(),
        forall|j: int| 0 <= j < i ==> (#[trigger] g1[j]).0 == g2[j].0,
    ensures
        g1[i].0 <= g2[i].0,
{
    lemma_group_year_occurs(projects, g1, i);
    let k = choose|k: int| 0 <= k < projects.len() && projects[k].start_date.year == g1[i].0;
    assert(projects[k] == projects[k]);
    let m = choose|m: int| #![trigger g2[m]] 0 <= m < g2.len() && g2[m].0 == projects[k].start_date.year;
    if m < i {
        assert(g1[m].0 == g2[m].0);
        assert(g1[m].0 > g1[i].0);
    } else if m > i {
        assert(g2[i].0 > g2[m].0);
    }
}

/// The year of a group past the end of one grouping occurs in that grouping too,
/// which is impossible when the two agree up to that point.
proof fn lemma_no_extra_group(
    projects: Seq<Project>,
    g1: Seq<(i32, Seq<Project>)>,
    g2: Seq<(i32, Seq<Project>)>,
)
    requires
        grouped_by_year(projects, g1),
        grouped_by_year(projects, g2),
        g1.len() <= g2.len(),
        forall|j: int| 0 <= j < g1.len() ==> (#[trigger] g1[j]).0 == g2[j].0,
    ensures
        g1.len() == g2.len(),
{
    if g1.len() < g2.len() {
        let n = g1.len() as int;
        lemma_group_year_occurs(projects, g2, n);
        let k = choose|k: int| 0 <= k < projects.len() && projects[k].start_date.year == g2[n].0;
        assert(projects[k] == projects[k]);
        let m = choose|m: int| #![trigger g1[m]] 0 <= m < g1.len() && g1[m].0 == projects[k].start_date.year;
        assert(g2[m].0 == g1[m].0);
        assert(g2[m].0 > g2[n].0);
    }
}

/// There is only one grouping of a list of projects by start year, so grouping the
/// same projects twice gives the same groups.
pub proof fn lemma_grouping_unique(
    projects: Seq<Project>,
    g1: Seq<(i32, Seq<Project>)>,
    g2: Seq<(i32, Seq<Project>)>,
)
    requires
        grouped_by_year(projects, g1),
        grouped_by_year(projects, g2),
    ensures
        g1 == g2,
{
    let n = if g1.len() <= g2.len() { g1.len() } else { g2.len() };
    if n > 0 {
        lemma_years_agree(projects, g1, g2, n - 1);
    }
    if g1.len() <= g2.len() {
        lemma_no_extra_group(projects, g1, g2);
    } else {
        assert forall|j: int| 0 <= j < g2.len() implies (#[trigger] g2[j]).0 == g1[j].0 by {
            assert(g1[j].0 == g2[j].0);
        }
        lemma_no_extra_group(projects, g2, g1);
    }
    assert forall|j: int| 0 <= j < g1.len() implies g1[j] == g2[j] by {
        assert(g1[j].0 == g2[j].0);
        assert(g1[j].1 == projects.filter(in_year(g1[j].0)));
        assert(g2[j].1 == projects.filter(in_year(g2[j].0)));
    }
    assert(g1 =~= g2);
}

/// The view of a list of year groups.
pub open spec fn groups_view(groups: Seq<(i32, Vec<Project>)>) -> Seq<(i32, Seq<Project>)> {
    groups.map_values(|g: (i32, Vec<Project>)| (g.0, g.1@))
}

/// Groups projects by the calendar year of their start date, most recent year first;
/// within a year the projects keep their relative order.
pub fn group_by_year(projects: Vec<Project>) -> (r: Vec<(i32, Vec<Project>)>)
    ensures
        grouped_by_year(projects@, groups_view(r@)),
{
    let ghost all = projects@;
    let n: usize = projects.len();
    let mut groups: Vec<(i32, Vec<Project>)> = Vec::new();
    let mut k: usize = 0;
    let mut rest = projects;
    while rest.len() > 0
        invariant
            k + rest.len() == all.len(),
            all.len() == n,
            rest@ == all.skip(k as int),
            grouped_by_year(all.take(k as int), groups_view(groups@)),
        decreases rest.len(),
    {
        let p = rest.remove(0);
        let ghost pre = all.take(k as int);
        assert(p == all[k as int]);
        assert(rest@ =~= all.skip(k + 1));
        assert(all.take(k + 1) =~= pre.push(p));
        let y = p.start_date.year;
        let mut j: usize = 0;
        while j < groups.len() && groups[j].0 > y
            invariant
                j <= groups.len(),
                forall|i: int| 0 <= i < j ==> groups@[i].0 > y,
            decreases groups.len() - j,
        {
            j = j + 1;
        }
        let ghost old_groups = groups_view(groups@);
        proof {
            assert forall|i: int| 0 <= i < old_groups.len() implies #[trigger] old_groups[i].0 == groups@[i].0 by {}
        }
        if j < groups.len() && groups[j].0 == y {
            let (gy, mut members) = groups.remove(j);
            members.push(p);
            groups.insert(j, (gy, members));
            proof {
                let ng = groups_view(groups@);
                assert(ng =~= old_groups.update(j as int, (y, old_groups[j as int].1.push(p))));
                assert forall|a: int, b: int| 0 <= a < b < ng.len() implies ng[a].0 > ng[b].0 by {
                    assert(ng[a].0 == old_groups[a].0);
                    assert(ng[b].0 == old_groups[b].0);
                }
                assert forall|i: int| 0 <= i < ng.len() implies #[trigger] ng[i].1.len() > 0 by {
                    if i != j {
                        assert(ng[i] == old_groups[i]);
                    }
                }
                assert forall|i: int| 0 <= i < ng.len() implies #[trigger] ng[i].1 == pre.push(p).filter(in_year(ng[i].0)) by {
                    lemma_filter_push(pre, p, in_year(ng[i].0));
                }
                assert forall|q: int| #![trigger pre.push(p)[q]] 0 <= q < pre.push(p).len() implies exists|i: int| #![trigger ng[i]] 0 <= i < ng.len() && ng[i].0 == pre.push(p)[q].start_date.year by {
                    if q < pre.len() {
                        assert(pre.push(p)[q] == pre[q]);
                        let i = choose|i: int| #![trigger old_groups[i]] 0 <= i < old_groups.len() && old_groups[i].0 == pre[q].start_date.year;
                        assert(ng[i].0 == old_groups[i].0);
                    } else {
                        assert(ng[j as int].0 == y);
                    }
                }
            }
        } else {
            let mut members: Vec<Project> = Vec::new();
            members.push(p);
            groups.insert(j, (y, members));
            proof {
                let ng = groups_view(groups@);
                assert(ng =~= old_groups.insert(j as int, (y, seq![p])));
                assert forall|a: int, b: int| 0 <= a < b < ng.len() implies ng[a].0 > ng[b].0 by {
                    if b < j {
                        assert(ng[a] == old_groups[a]);
                        assert(ng[b] == old_groups[b]);
                    } else if b == j {
                        assert(ng[a] == old_groups[a]);
                    } else if a < j {
                        assert(ng[a] == old_groups[a]);
                        assert(ng[b] == old_groups[b - 1]);
                    } else if a == j {
                        assert(ng[b] == old_groups[b - 1]);
                        assert(old_groups[j as int].0 <= y);
                        assert(old_groups[j as int].0 != y);
                        if b - 1 > j {
                            assert(old_groups[j as int].0 > old_groups[b - 1].0);
                        }
                    } else {
                        assert(ng[a] == old_groups[a - 1]);
                        assert(ng[b] == old_groups[b - 1]);
                    }
                }
                assert forall|i: int| 0 <= i < ng.len() implies #[trigger] ng[i].1.len() > 0 by {
                    if i < j {
                        assert(ng[i] == old_groups[i]);
                    } else if i > j {
                        assert(ng[i] == old_groups[i - 1]);
                    }
                }
                reveal_with_fuel(Seq::filter, 1);
                assert forall|i: int| 0 <= i < ng.len() implies #[trigger] ng[i].1 == pre.push(p).filter(in_year(ng[i].0)) by {
                    lemma_filter_push(pre, p, in_year(ng[i].0));
                    if i == j {
                        assert forall|m: int| 0 <= m < pre.len() implies !in_year(y)(#[trigger] pre[m]) by {
                            let g = choose|g: int| #![trigger old_groups[g]] 0 <= g < old_groups.len() && old_groups[g].0 == pre[m].start_date.year;
                        }
                        pre.lemma_all_neg_filter_empty(in_year(y));
                        assert(pre.filter(in_year(y)).push(p) =~= seq![p]);
                    }
                }
                assert forall|q: int| #![trigger pre.push(p)[q]] 0 <= q < pre.push(p).len() implies exists|i: int| #![trigger ng[i]] 0 <= i < ng.len() && ng[i].0 == pre.push(p)[q].start_date.year by {
                    if q < pre.len() {
                        assert(pre.push(p)[q] == pre[q]);
                        let i = choose|i: int| #![trigger old_groups[i]] 0 <= i < old_groups.len() && old_groups[i].0 == pre[q].start_date.year;
                        if i < j {
                            assert(ng[i].0 == old_groups[i].0);
                        } else {
                            assert(ng[i + 1].0 == old_groups[i].0);
                        }
                    } else {
                        assert(ng[j as int].0 == y);
                    }
                }
            }
        }
        assert(grouped_by_year(all.take(k + 1), groups_view(groups@)));
        k = k + 1;
    }
    assert(all.take(k as int) =~= all);
    groups
}

/// `projects[i]` is the latest project that starts strictly before `date`, the first
/// listed among several that start on that day.
pub open spec fn is_next_older(projects: Seq<Project>, date: Date, i: int) -> bool {
    &&& 0 <= i < projects.len()
    &&& projects[i].start_date.key() < date.key()
    &&& forall|j: int|
        0 <= j < projects.len() && #[trigger] projects[j].start_date.key() < date.key()
            ==> projects[j].start_date.key() <= projects[i].start_date.key()
    &&& forall|j: int|
        0 <= j < i && #[trigger] projects[j].start_date.key() < date.key()
            ==> projects[j].start_date.key() < projects[i].start_date.key()
}

/// `projects[i]` is the earliest project that starts strictly after `date`, the
/// first listed among several that start on that day.
pub open spec fn is_next_newer(projects: Seq<Project>, date: Date, i: int) -> bool {
    &&& 0 <= i < projects.len()
    &&& date.key() < projects[i].start_date.key()
    &&& forall|j: int|
        0 <= j < projects.len() && date.key() < #[trigger] projects[j].start_date.key()
            ==> projects[i].start_date.key() <= projects[j].start_date.key()
    &&& forall|j: int|
        0 <= j < i && date.key() < #[trigger] projects[j].start_date.key()
            ==> projects[i].start_date.key() < projects[j].start_date.key()
}

/// The position of the project to show as "next" from one that starts on `date`:
/// the latest that starts strictly earlier, or `None` where none does. Among
/// projects that start on the same day the first listed is taken.
pub fn next_project(projects: &Vec<Project>, date: &Date) -> (r: Option<usize>)
    ensures
        match r {
            Some(i) => is_next_older(projects@, *date, i as int),
            None => forall|j: int|
                0 <= j < projects.len() ==> date.key() <= #[trigger] projects[j].start_date.key(),
        },
{
    let mut best: Option<usize> = None;
    let mut i: usize = 0;
    while i < projects.len()
        invariant
            i <= projects.len(),
            match best {
                Some(b) => {
                    &&& b < i
                    &&& projects@[b as int].start_date.key() < date.key()
                    &&& forall|j: int|
                        0 <= j < i && #[trigger] projects@[j].start_date.key() < date.key()
                            ==> projects@[j].start_date.key() <= projects@[b as int].start_date.key()
                    &&& forall|j: int|
                        0 <= j < b && #[trigger] projects@[j].start_date.key() < date.key()
                            ==> projects@[j].start_date.key() < projects@[b as int].start_date.key()
                },
                None => forall|j: int|
                    0 <= j < i ==> date.key() <= #[trigger] projects@[j].start_date.key(),
            },
        decreases projects.len() - i,
    {
        if projects[i].start_date.is_before(date) {
            match best {
                Some(b) => {
                    if projects[b].start_date.is_before(&projects[i].start_date) {
                        best = Some(i);
                    }
                },
                None => {
                    best = Some(i);
                },
            }
        }
        i = i + 1;
    }
    assert(projects@.take(i as int) =~= projects@);
    best
}

/// The position of the project to show as "previous" from one that starts on
/// `date`: the earliest that starts strictly later, or `None` where none does. Among
/// projects that start on the same day the first listed is taken.
pub fn prev_project(projects: &Vec<Project>, date: &Date) -> (r: Option<usize>)
    ensures
        match r {
            Some(i) => is_next_newer(projects@, *date, i as int),
            None => forall|j: int|
                0 <= j < projects.len() ==> #[trigger] projects[j].start_date.key() <= date.key(),
        },
{
    let mut best: Option<usize> = None;
    let mut i: usize = 0;
    while i < projects.len()
        invariant
            i <= projects.len(),
            match best {
                Some(b) => {
                    &&& b < i
                    &&& date.key() < projects@[b as int].start_date.key()
                    &&& forall|j: int|
                        0 <= j < i && date.key() < #[trigger] projects@[j].start_date.key()
                            ==> projects@[b as int].start_date.key() <= projects@[j].start_date.key()
                    &&& forall|j: int|
                        0 <= j < b && date.key() < #[trigger] projects@[j].start_date.key()
                            ==> projects@[b as int].start_date.key() < projects@[j].start_date.key()
                },
                None => forall|j: int|
                    0 <= j < i ==> #[trigger] projects@[j].start_date.key() <= date.key(),
            },
        decreases projects.len() - i,
    {
        if date.is_before(&projects[i].start_date) {
            match best {
                Some(b) => {
                    if projects[i].start_date.is_before(&projects[b].start_date) {
                        best = Some(i);
                    }
                },
                None => {
                    best = Some(i);
                },
            }
        }
        i = i + 1;
    }
    assert(projects@.take(i as int) =~= projects@);
    best
}

/// `order` lists each position of `projects` once, newest start date first, and
/// positions of projects that start on the same day in increasing order.
pub open spec fn is_newest_first(projects: Seq<Project>, order: Seq<usize>) -> bool {
    &&& order.len() == projects.len()
    &&& forall|k: int| 0 <= k < order.len() ==> (#[trigger] order[k]) < projects.len()
    &&& forall|j: usize| j < projects.len() ==> #[trigger] order.contains(j)
    &&& forall|k: int, l: int|
        0 <= k < l < order.len() ==> {
            let a = projects[(#[trigger] order[k]) as int].start_date.key();
            let b = projects[(#[trigger] order[l]) as int].start_date.key();
            order[k] != order[l] && (b < a || (a == b && order[k] < order[l]))
        }
}

proof fn lemma_order_agrees_at(projects: Seq<Project>, o1: Seq<usize>, o2: Seq<usize>, i: int)
    requires
        is_newest_first(projects, o1),
        is_newest_first(projects, o2),
        0 <= i < o1.len(),
        forall|j: int| 0 <= j < i ==> (#[trigger] o1[j]) == o2[j],
    ensures
        o1[i] == o2[i],
{
    let x = o1[i];
    let y = o2[i];
    assert(o2.contains(x));
    assert(o1.contains(y));
    let m = choose|m: int| 0 <= m < o2.len() && o2[m] == x;
    let n = choose|n: int| 0 <= n < o1.len() && o1[n] == y;
    if m < i {
        assert(o1[m] == o2[m]);
        assert(o1[m] != o1[i]);
    }
    if n < i {
        assert(o1[n] == o2[n]);
        assert(o2[n] != o2[i]);
    }
    if m > i && n > i {
        let kx = projects[x as int].start_date.key();
        let ky = projects[y as int].start_date.key();
        assert(o2[i] != o2[m] && (kx < ky || (ky == kx && y < x)));
        assert(o1[i] != o1[n] && (ky < kx || (kx == ky && x < y)));
    }
}

proof fn lemma_order_agrees_upto(projects: Seq<Project>, o1: Seq<usize>, o2: Seq<usize>, i: int)
    requires
        is_newest_first(projects, o1),
        is_newest_first(projects, o2),
        0 <= i <= o1.len(),
    ensures
        forall|j: int| 0 <= j < i ==> (#[trigger] o1[j]) == o2[j],
    decreases i,
{
    if i > 0 {
        lemma_order_agrees_upto(projects, o1, o2, i - 1);
        lemma_order_agrees_at(projects, o1, o2, i - 1);
    }
}

/// There is only one newest-first order of a list of projects.
pub proof fn lemma_newest_first_unique(projects: Seq<Project>, o1: Seq<usize>, o2: Seq<usize>)
    requires
        is_newest_first(projects, o1),
        is_newest_first(projects, o2),
    ensures
        o1 == o2,
{
    lemma_order_agrees_upto(projects, o1, o2, o1.len() as int);
    assert(o1 =~= o2);
}

/// The index is determined by the projects: two newest-first orders of the same
/// projects, each grouped by start year, give the same groups.
pub proof fn lemma_index_unique(
    projects: Seq<Project>,
    o1: Seq<usize>,
    o2: Seq<usize>,
    g1: Seq<(i32, Seq<Project>)>,
    g2: Seq<(i32, Seq<Project>)>,
)
    requires
        is_newest_first(projects, o1),
        is_newest_first(projects, o2),
        grouped_by_year(listed(projects, o1), g1),
        grouped_by_year(listed(projects, o2), g2),
    ensures
        g1 == g2,
{
    lemma_newest_first_unique(projects, o1, o2);
    lemma_grouping_unique(listed(projects, o1), g1, g2);
}

/// The projects at the positions of `order`, in that order.
pub open spec fn listed(projects: Seq<Project>, order: Seq<usize>) -> Seq<Project> {
    order.map_values(|k: usize| projects[k as int])
}

/// The positions of `projects`, newest start date first; projects that start on the
/// same day keep their relative order. Each position appears once.
pub fn newest_first(projects: &Vec<Project>) -> (r: Vec<usize>)
    ensures
        is_newest_first(projects@, r@),
{
    let mut out: Vec<usize> = Vec::new();
    let mut j: usize = 0;
    while j < projects.len()
        invariant
            j <= projects.len(),
            out.len() == j,
            forall|k: int| 0 <= k < out.len() ==> (#[trigger] out[k]) < j,
            forall|m: usize| m < j ==> #[trigger] out@.contains(m),
            forall|k: int, l: int|
                0 <= k < l < out.len() ==> {
                    let a = projects[(#[trigger] out[k]) as int].start_date.key();
                    let b = projects[(#[trigger] out[l]) as int].start_date.key();
                    out[k] != out[l] && (b < a || (a == b && out[k] < out[l]))
                },
        decreases projects.len() - j,
    {
        let mut p: usize = 0;
        while p < out.len() && !projects[out[p]].start_date.is_before(&projects[j].start_date)
            invariant
                p <= out.len(),
                j < projects.len(),
                forall|k: int| 0 <= k < out.len() ==> (#[trigger] out[k]) < j,
                forall|k: int|
                    0 <= k < p ==> projects[j as int].start_date.key() <= projects[(#[trigger] out[k]) as int].start_date.key(),
            decreases out.len() - p,
        {
            p = p + 1;
        }
        let ghost prev = out@;
        out.insert(p, j);
        proof {
            let kj = projects[j as int].start_date.key();
            assert forall|k: int, l: int| 0 <= k < l < out.len() implies {
                let a = projects[(#[trigger] out[k]) as int].start_date.key();
                let b = projects[(#[trigger] out[l]) as int].start_date.key();
                out[k] != out[l] && (b < a || (a == b && out[k] < out[l]))
            } by {
                if l < p {
                    assert(out[k] == prev[k] && out[l] == prev[l]);
                } else if l == p {
                    assert(out[k] == prev[k]);
                } else if k < p {
                    assert(out[k] == prev[k] && out[l] == prev[l - 1]);
                    if p < l - 1 {
                        assert(out[p as int + 1] == prev[p as int]);
                    }
                } else if k == p {
                    assert(out[l] == prev[l - 1]);
                    if p < l - 1 {
                        assert(out[p as int + 1] == prev[p as int]);
                    }
                } else {
                    assert(out[k] == prev[k - 1] && out[l] == prev[l - 1]);
                }
            }
            assert forall|m: usize| m < j + 1 implies #[trigger] out@.contains(m) by {
                if m == j {
                    assert(out[p as int] == j);
                } else {
                    assert(prev.contains(m));
                    let k = choose|k: int| 0 <= k < prev.len() && prev[k] == m;
                    if k < p {
                        assert(out[k] == m);
                    } else {
                        assert(out[k + 1] == m);
                    }
                }
            }
            assert forall|k: int| 0 <= k < out.len() implies (#[trigger] out[k]) < j + 1 by {
                if k < p {
                    assert(out[k] == prev[k]);
                } else if k > p {
                    assert(out[k] == prev[k - 1]);
                }
            }
        }
        j = j + 1;
    }
    out
}

/// The position of the first project whose slug is `slug`.
pub fn find_by_slug(projects: &Vec<Project>, slug: &str) -> (r: Option<usize>)
    ensures
        match r {
            Some(i) => i < projects.len() && projects[i as int].slug@ == slug@ && forall|j: int|
                0 <= j < i ==> (#[trigger] projects[j]).slug@ != slug@,
            None => forall|j: int| 0 <= j < projects.len() ==> (#[trigger] projects[j]).slug@ != slug@,
        },
{
    let wanted = owned(slug);
    let mut i: usize = 0;
    while i < projects.len()
        invariant
            i <= projects.len(),
            wanted@ == slug@,
            forall|j: int| 0 <= j < i ==> (#[trigger] projects[j]).slug@ != slug@,
        decreases projects.len() - i,
    {
        if projects[i].slug == wanted {
            return Some(i);
        }
        i = i + 1;
    }
    None
}

} // verus!
