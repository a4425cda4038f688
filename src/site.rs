//! What each public page shows: the well-known pages with their built-in fallbacks,
//! and the data behind a project's page.

use vstd::prelude::*;
use crate::catalog::{
    find_by_slug, group_by_year, groups_view, grouped_by_year, is_newest_first, is_next_newer,
    is_next_older, listed, newest_first, next_project, prev_project, Project,
};
use crate::date::Date;
use crate::ordering::{lemma_block_order_unique, lists_blocks_of, ordered_positions};
use crate::catalog::in_year;
use crate::lemmas::lemma_filter_member;
use crate::store::{not_project, ContentBlock, ContentStore, Page};
use crate::text::owned;

verus! {

impl Page {
    /// A copy of this page.
    pub fn duplicate(&self) -> (r: Page)
        ensures
            r == *self,
    {
        Page {
            slug: self.slug.clone(),
            title: self.title.clone(),
            content: self.content.clone(),
            updated_at: self.updated_at,
        }
    }
}

/// The position of the first page whose slug is `slug`.
pub fn find_page(pages: &Vec<Page>, slug: &str) -> (r: Option<usize>)
    ensures
        match r {
            Some(i) => i < pages.len() && pages[i as int].slug@ == slug@ && forall|j: int|
                0 <= j < i ==> (#[trigger] pages[j]).slug@ != slug@,
            None => forall|j: int| 0 <= j < pages.len() ==> (#[trigger] pages[j]).slug@ != slug@,
        },
{
    let wanted = owned(slug);
    let mut i: usize = 0;
    while i < pages.len()
        invariant
            i <= pages.len(),
            wanted@ == slug@,
            forall|j: int| 0 <= j < i ==> (#[trigger] pages[j]).slug@ != slug@,
        decreases pages.len() - i,
    {
        if pages[i].slug == wanted {
            return Some(i);
        }
        i = i + 1;
    }
    None
}

/// The first page of `pages` with slug `slug`, if any.
pub open spec fn page_with_slug(pages: Seq<Page>, slug: Seq<char>) -> Option<Page> {
    if exists|i: int| 0 <= i < pages.len() && (#[trigger] pages[i]).slug@ == slug {
        let i = choose|i: int|
            0 <= i < pages.len() && (#[trigger] pages[i]).slug@ == slug && forall|j: int|
                0 <= j < i ==> (#[trigger] pages[j]).slug@ != slug;
        Some(pages[i])
    } else {
        None
    }
}

proof fn lemma_page_with_slug(pages: Seq<Page>, slug: Seq<char>, i: int)
    requires
        0 <= i < pages.len(),
        pages[i].slug@ == slug,
        forall|j: int| 0 <= j < i ==> (#[trigger] pages[j]).slug@ != slug,
    ensures
        page_with_slug(pages, slug) == Some(pages[i]),
{
    let k = choose|k: int|
        0 <= k < pages.len() && (#[trigger] pages[k]).slug@ == slug && forall|j: int|
            0 <= j < k ==> (#[trigger] pages[j]).slug@ != slug;
    if k < i {
        assert(pages[k].slug@ != slug);
    } else if k > i {
        assert(pages[i].slug@ != slug);
    }
}

/// Finds a page by slug, falling back to `fallback` where there is none.
pub fn page_or(pages: &Vec<Page>, slug: &str, fallback: Page) -> (r: Page)
    ensures
        r == match page_with_slug(pages@, slug@) {
            Some(p) => p,
            None => fallback,
        },
{
    match find_page(pages, slug) {
        Some(i) => {
            proof {
                lemma_page_with_slug(pages@, slug@, i as int);
            }
            pages[i].duplicate()
        },
        None => fallback,
    }
}

/// The footer markup shown when no `footer` page exists.
pub open spec fn default_footer() -> Seq<char> {
    "<p>&copy; 2024</p>"@
}

/// The footer markup: the content of the `footer` page, or the built-in default.
pub fn footer_text(pages: &Vec<Page>) -> (r: String)
    ensures
        r@ == match page_with_slug(pages@, "footer"@) {
            Some(p) => p.content@,
            None => default_footer(),
        },
{
    match find_page(pages, "footer") {
        Some(i) => {
            proof {
                lemma_page_with_slug(pages@, "footer"@, i as int);
            }
            pages[i].content.clone()
        },
        None => owned("<p>&copy; 2024</p>"),
    }
}

/// The `about` page shown when none is stored, stamped `now`.
pub open spec fn default_about(now: i64) -> (Seq<char>, Seq<char>, Seq<char>, i64) {
    ("about"@, "About"@, "<p>About info missing.</p>"@, now)
}

/// The `contact` page shown when none is stored, stamped `now`.
pub open spec fn default_contact(now: i64) -> (Seq<char>, Seq<char>, Seq<char>, i64) {
    ("contact"@, "Contact"@, "<p>Contact info missing.</p>"@, now)
}

/// The fields of a page.
pub open spec fn page_fields(p: Page) -> (Seq<char>, Seq<char>, Seq<char>, i64) {
    (p.slug@, p.title@, p.content@, p.updated_at)
}

/// The `about` page, or its built-in default stamped `now`.
pub fn about_page(pages: &Vec<Page>, now: i64) -> (r: Page)
    ensures
        page_fields(r) == match page_with_slug(pages@, "about"@) {
            Some(p) => page_fields(p),
            None => default_about(now),
        },
{
    let fallback = Page {
        slug: owned("about"),
        title: owned("About"),
        content: owned("<p>About info missing.</p>"),
        updated_at: now,
    };
    page_or(pages, "about", fallback)
}

/// The `contact` page, or its built-in default stamped `now`.
pub fn contact_page(pages: &Vec<Page>, now: i64) -> (r: Page)
    ensures
        page_fields(r) == match page_with_slug(pages@, "contact"@) {
            Some(p) => page_fields(p),
            None => default_contact(now),
        },
{
    let fallback = Page {
        slug: owned("contact"),
        title: owned("Contact"),
        content: owned("<p>Contact info missing.</p>"),
        updated_at: now,
    };
    page_or(pages, "contact", fallback)
}

/// Some group of `groups` holds `p`.
pub open spec fn in_some_group(groups: Seq<(i32, Seq<Project>)>, p: Project) -> bool {
    exists|g: int| 0 <= g < groups.len() && (#[trigger] groups[g]).1.contains(p)
}

/// Every project in a grouping is one of the grouped projects, and every grouped
/// project is in the group of its year.
pub proof fn lemma_groups_hold_exactly(projects: Seq<Project>, groups: Seq<(i32, Seq<Project>)>)
    requires
        grouped_by_year(projects, groups),
    ensures
        forall|g: int, m: int|
            0 <= g < groups.len() && 0 <= m < groups[g].1.len() ==> projects.contains(
                #[trigger] groups[g].1[m],
            ),
        forall|k: int| 0 <= k < projects.len() ==> in_some_group(groups, #[trigger] projects[k]),
{
    assert forall|g: int, m: int|
        0 <= g < groups.len() && 0 <= m < groups[g].1.len() implies projects.contains(
            #[trigger] groups[g].1[m],
        ) by {
        assert(groups[g].1 == projects.filter(in_year(groups[g].0)));
        lemma_filter_member(projects, in_year(groups[g].0), m);
    }
    assert forall|k: int| 0 <= k < projects.len() implies in_some_group(groups, #[trigger] projects[k]) by {
        lemma_project_in_its_group(projects, groups, k);
    }
}

proof fn lemma_project_in_its_group(projects: Seq<Project>, groups: Seq<(i32, Seq<Project>)>, k: int)
    requires
        grouped_by_year(projects, groups),
        0 <= k < projects.len(),
    ensures
        in_some_group(groups, projects[k]),
{
    let p = projects[k];
    let g = choose|g: int| #![trigger groups[g]] 0 <= g < groups.len() && groups[g].0 == p.start_date.year;
    assert(groups[g].1 == projects.filter(in_year(groups[g].0)));
    assert(in_year(groups[g].0)(projects[k]));
    projects.lemma_filter_contains(in_year(groups[g].0), k);
    assert(groups[g].1.contains(projects[k]));
}

/// Rebuilding the index after a project is deleted lists every other project and no
/// project with the deleted one's slug.
pub proof fn lemma_deleted_project_not_indexed(
    store: ContentStore,
    id: u128,
    order: Seq<usize>,
    groups: Seq<(i32, Seq<Project>)>,
)
    requires
        store.wf(),
        is_newest_first(store.projects@.filter(not_project(id)), order),
        grouped_by_year(listed(store.projects@.filter(not_project(id)), order), groups),
    ensures
        forall|i: int, g: int, m: int|
            0 <= i < store.projects.len() && store.projects[i].id == id && 0 <= g < groups.len() && 0
                <= m < groups[g].1.len() ==> (#[trigger] groups[g].1[m]).slug@ != (
            #[trigger] store.projects[i]).slug@,
        forall|q: int|
            0 <= q < store.projects.len() && (#[trigger] store.projects[q]).id != id ==> in_some_group(
                groups,
                store.projects[q],
            ),
{
    let ps = store.projects@;
    let remaining = ps.filter(not_project(id));
    let shown = listed(remaining, order);
    lemma_groups_hold_exactly(shown, groups);
    assert forall|i: int, g: int, m: int|
        0 <= i < store.projects.len() && store.projects[i].id == id && 0 <= g < groups.len() && 0
            <= m < groups[g].1.len() implies (#[trigger] groups[g].1[m]).slug@ != (
        #[trigger] store.projects[i]).slug@ by {
        let p = groups[g].1[m];
        assert(shown.contains(p));
        let k = choose|k: int| 0 <= k < shown.len() && shown[k] == p;
        let r = order[k] as int;
        assert(shown[k] == remaining[r]);
        lemma_filter_member(ps, not_project(id), r);
        ps.lemma_filter_pred(not_project(id), r);
        let a = choose|a: int| 0 <= a < ps.len() && ps[a] == remaining[r];
        assert(a != i);
        if a < i {
            assert(ps[a].slug@ != ps[i].slug@);
        } else {
            assert(ps[i].slug@ != ps[a].slug@);
        }
    }
    assert forall|q: int|
        0 <= q < store.projects.len() && (#[trigger] store.projects[q]).id != id implies in_some_group(
            groups,
            store.projects[q],
        ) by {
        ps.lemma_filter_contains(not_project(id), q);
        let r = choose|r: int| 0 <= r < remaining.len() && remaining[r] == ps[q];
        assert(order.contains(r as usize));
        let k = choose|k: int| 0 <= k < order.len() && order[k] == r as usize;
        assert(shown[k] == ps[q]);
        assert(shown[k] == shown[k]);
    }
}

/// `next` is the project shown as "next" from one that starts on `date`.
pub open spec fn older_neighbour(projects: Seq<Project>, date: Date, next: Option<usize>) -> bool {
    match next {
        Some(i) => is_next_older(projects, date, i as int),
        None => forall|j: int|
            0 <= j < projects.len() ==> date.key() <= #[trigger] projects[j].start_date.key(),
    }
}

/// `prev` is the project shown as "previous" from one that starts on `date`.
pub open spec fn newer_neighbour(projects: Seq<Project>, date: Date, prev: Option<usize>) -> bool {
    match prev {
        Some(i) => is_next_newer(projects, date, i as int),
        None => forall|j: int|
            0 <= j < projects.len() ==> #[trigger] projects[j].start_date.key() <= date.key(),
    }
}

/// The page of the project with slug `slug` shows the project at `project` (the
/// first with that slug), its blocks at `blocks` in display order, and the
/// neighbours at `next` and `prev`.
pub open spec fn detail_of(
    projects: Seq<Project>,
    blocks: Seq<ContentBlock>,
    slug: Seq<char>,
    project: usize,
    shown: Seq<usize>,
    next: Option<usize>,
    prev: Option<usize>,
) -> bool {
    &&& project < projects.len()
    &&& projects[project as int].slug@ == slug
    &&& forall|j: int| 0 <= j < project ==> (#[trigger] projects[j]).slug@ != slug
    &&& older_neighbour(projects, projects[project as int].start_date, next)
    &&& newer_neighbour(projects, projects[project as int].start_date, prev)
    &&& lists_blocks_of(blocks, projects[project as int].id, shown)
}

proof fn lemma_older_neighbour_unique(projects: Seq<Project>, date: Date, n1: Option<usize>, n2: Option<usize>)
    requires
        older_neighbour(projects, date, n1),
        older_neighbour(projects, date, n2),
    ensures
        n1 == n2,
{
    match (n1, n2) {
        (Some(a), Some(b)) => {
            let (a, b) = (a as int, b as int);
            assert(projects[a].start_date.key() <= projects[b].start_date.key());
            assert(projects[b].start_date.key() <= projects[a].start_date.key());
            if a < b {
                assert(projects[a].start_date.key() < projects[b].start_date.key());
            } else if b < a {
                assert(projects[b].start_date.key() < projects[a].start_date.key());
            }
        },
        (Some(a), None) => {
            assert(date.key() <= projects[a as int].start_date.key());
        },
        (None, Some(b)) => {
            assert(date.key() <= projects[b as int].start_date.key());
        },
        (None, None) => {},
    }
}

proof fn lemma_newer_neighbour_unique(projects: Seq<Project>, date: Date, n1: Option<usize>, n2: Option<usize>)
    requires
        newer_neighbour(projects, date, n1),
        newer_neighbour(projects, date, n2),
    ensures
        n1 == n2,
{
    match (n1, n2) {
        (Some(a), Some(b)) => {
            let (a, b) = (a as int, b as int);
            assert(projects[a].start_date.key() <= projects[b].start_date.key());
            assert(projects[b].start_date.key() <= projects[a].start_date.key());
            if a < b {
                assert(projects[a].start_date.key() < projects[b].start_date.key());
            } else if b < a {
                assert(projects[b].start_date.key() < projects[a].start_date.key());
            }
        },
        (Some(a), None) => {
            assert(projects[a as int].start_date.key() <= date.key());
        },
        (None, Some(b)) => {
            assert(projects[b as int].start_date.key() <= date.key());
        },
        (None, None) => {},
    }
}

/// A project's page is determined by the snapshot: where block ids are distinct, two
/// results for the same slug show the same project, the same blocks in the same
/// order and the same neighbours.
pub proof fn lemma_detail_unique(
    projects: Seq<Project>,
    blocks: Seq<ContentBlock>,
    slug: Seq<char>,
    p1: usize,
    s1: Seq<usize>,
    n1: Option<usize>,
    v1: Option<usize>,
    p2: usize,
    s2: Seq<usize>,
    n2: Option<usize>,
    v2: Option<usize>,
)
    requires
        forall|a: int, b: int| 0 <= a < b < blocks.len() ==> (#[trigger] blocks[a]).id != (#[trigger] blocks[b]).id,
        detail_of(projects, blocks, slug, p1, s1, n1, v1),
        detail_of(projects, blocks, slug, p2, s2, n2, v2),
    ensures
        p1 == p2,
        s1 == s2,
        n1 == n2,
        v1 == v2,
{
    if p1 < p2 {
        assert(projects[p1 as int].slug@ != slug);
    } else if p2 < p1 {
        assert(projects[p2 as int].slug@ != slug);
    }
    let d = projects[p1 as int].start_date;
    lemma_older_neighbour_unique(projects, d, n1, n2);
    lemma_newer_neighbour_unique(projects, d, v1, v2);
    lemma_block_order_unique(blocks, projects[p1 as int].id, s1, s2);
}

/// What a project's page shows, as positions in the store: the project, its blocks in
/// display order, and its chronological neighbours.
#[derive(Debug, Clone, PartialEq)]
pub struct ProjectDetail {
    pub project: usize,
    pub blocks: Vec<usize>,
    /// The latest project that starts strictly earlier.
    pub next: Option<usize>,
    /// The earliest project that starts strictly later.
    pub prev: Option<usize>,
}

impl ContentStore {
    /// What the index shows: the projects listed newest first (projects that start on
    /// the same day in store order), grouped by start year, most recent year first.
    pub fn index_groups(&self) -> (r: Vec<(i32, Vec<Project>)>)
        ensures
            exists|order: Seq<usize>|
                is_newest_first(self.projects@, order) && grouped_by_year(
                    listed(self.projects@, order),
                    groups_view(r@),
                ),
    {
        let order = newest_first(&self.projects);
        let mut projects: Vec<Project> = Vec::new();
        let mut k: usize = 0;
        while k < order.len()
            invariant
                k <= order.len(),
                is_newest_first(self.projects@, order@),
                projects@ == listed(self.projects@, order@.take(k as int)),
            decreases order.len() - k,
        {
            let p = self.projects[order[k]].duplicate();
            proof {
                assert(listed(self.projects@, order@.take(k + 1)) =~= listed(
                    self.projects@,
                    order@.take(k as int),
                ).push(p));
            }
            projects.push(p);
            k = k + 1;
        }
        assert(order@.take(k as int) =~= order@);
        group_by_year(projects)
    }

    /// The data of the page of the project with slug `slug`, or `None` where no
    /// project has that slug.
    pub fn project_detail(&self, slug: &str) -> (r: Option<ProjectDetail>)
        ensures
            r is None <==> forall|j: int|
                0 <= j < self.projects.len() ==> (#[trigger] self.projects[j]).slug@ != slug@,
            r matches Some(d) ==> detail_of(
                self.projects@,
                self.blocks@,
                slug@,
                d.project,
                d.blocks@,
                d.next,
                d.prev,
            ),
    {
        match find_by_slug(&self.projects, slug) {
            Some(i) => {
                let date = self.projects[i].start_date;
                let blocks = ordered_positions(&self.blocks, self.projects[i].id);
                let next = next_project(&self.projects, &date);
                let prev = prev_project(&self.projects, &date);
                Some(ProjectDetail { project: i, blocks, next, prev })
            },
            None => None,
        }
    }
}

} // verus!
