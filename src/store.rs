//! The content store: projects, pages and the ordered content blocks of each
//! project, with the invariants that tie them together.

use vstd::prelude::*;
use crate::catalog::{find_by_slug, Project};
use crate::lemmas::{lemma_filter_index_map, lemma_filter_member, lemma_filter_push};
use crate::ordering::{apply_reorder, next_sort_order, order_after, succ_saturating};
use crate::content::BlockContent;

verus! {

/// One ordered section of a project's page.
#[derive(Debug, Clone, PartialEq)]
pub struct ContentBlock {
    pub id: u128,
    pub project_id: u128,
    pub content: BlockContent,
    pub sort_order: i32,
}

impl ContentBlock {
    /// The block type, derived from the payload so that the two cannot disagree.
    pub fn block_type(&self) -> (r: String)
        ensures
            r@ == crate::content::tag_of(self.content@),
    {
        self.content.block_type()
    }
}

/// A standalone page, keyed by its slug.
#[derive(Debug, Clone, PartialEq)]
pub struct Page {
    pub slug: String,
    pub title: String,
    pub content: String,
    /// Seconds since the Unix epoch.
    pub updated_at: i64,
}

/// A request to move one block to a new position.
#[derive(Clone, Copy, PartialEq, Eq, Structural, Debug)]
pub struct BlockOrderUpdate {
    pub id: u128,
    pub sort_order: i32,
}

/// A batch of reorder requests.
#[derive(Debug, Clone, PartialEq)]
pub struct ReorderRequest {
    pub updates: Vec<BlockOrderUpdate>,
}

/// Why the store refused a change.
#[derive(Clone, Copy, PartialEq, Eq, Structural, Debug)]
pub enum StoreError {
    /// The id is already taken.
    DuplicateId,
    /// Another project has this slug.
    DuplicateSlug,
    /// A date is out of range, or the project ends before it starts.
    InvalidDates,
    /// No project has the owning id.
    UnknownProject,
}

/// `project` with its id replaced by `id`.
pub open spec fn with_id(project: Project, id: u128) -> Project {
    Project {
        id,
        title: project.title,
        slug: project.slug,
        description: project.description,
        start_date: project.start_date,
        end_date: project.end_date,
        thumbnail_url: project.thumbnail_url,
    }
}

/// A snapshot of everything the site shows.
pub struct ContentStore {
    pub projects: Vec<Project>,
    pub pages: Vec<Page>,
    pub blocks: Vec<ContentBlock>,
}

/// Holds of the elements whose `project_id` is not `id`.
pub open spec fn not_owned_by(id: u128) -> spec_fn(ContentBlock) -> bool {
    |b: ContentBlock| b.project_id != id
}

/// Holds of the blocks whose `id` is not `id`.
pub open spec fn not_block(id: u128) -> spec_fn(ContentBlock) -> bool {
    |b: ContentBlock| b.id != id
}

/// Holds of the projects whose `id` is not `id`.
pub open spec fn not_project(id: u128) -> spec_fn(Project) -> bool {
    |p: Project| p.id != id
}

/// Some project of `projects` has the id `id`.
pub open spec fn has_project(projects: Seq<Project>, id: u128) -> bool {
    exists|i: int| 0 <= i < projects.len() && (#[trigger] projects[i]).id == id
}

impl ContentStore {
    /// Projects are well formed, with distinct ids and distinct slugs; blocks have
    /// distinct ids and each belongs to a project of the store.
    pub open spec fn wf(&self) -> bool {
        &&& forall|i: int| 0 <= i < self.projects.len() ==> (#[trigger] self.projects[i]).wf()
        &&& forall|i: int, j: int|
            0 <= i < j < self.projects.len() ==> (#[trigger] self.projects[i]).id != (
            #[trigger] self.projects[j]).id && self.projects[i].slug@ != self.projects[j].slug@
        &&& forall|i: int, j: int|
            0 <= i < j < self.blocks.len() ==> (#[trigger] self.blocks[i]).id != (
            #[trigger] self.blocks[j]).id
        &&& forall|i: int|
            0 <= i < self.blocks.len() ==> has_project(
                self.projects@,
                (#[trigger] self.blocks[i]).project_id,
            )
        &&& forall|i: int, j: int|
            0 <= i < j < self.pages.len() ==> (#[trigger] self.pages[i]).slug@ != (
            #[trigger] self.pages[j]).slug@
    }

    /// An empty store.
    pub fn new() -> (r: ContentStore)
        ensures
            r.wf(),
            r.projects@.len() == 0,
            r.pages@.len() == 0,
            r.blocks@.len() == 0,
    {
        ContentStore { projects: Vec::new(), pages: Vec::new(), blocks: Vec::new() }
    }

    /// Deletes the project with id `id` together with all of its blocks. Returns
    /// whether there was such a project.
    pub fn delete_project(&mut self, id: u128) -> (r: bool)
        ensures
            r == has_project(old(self).projects@, id),
            final(self).projects@ == old(self).projects@.filter(not_project(id)),
            final(self).blocks@ == old(self).blocks@.filter(not_owned_by(id)),
            final(self).pages@ == old(self).pages@,
            old(self).wf() ==> final(self).wf(),
    {
        let ghost old_projects = self.projects@;
        let ghost old_blocks = self.blocks@;
        let mut rest: Vec<ContentBlock> = Vec::new();
        std::mem::swap(&mut rest, &mut self.blocks);
        let n: usize = rest.len();
        let mut k: usize = 0;
        while rest.len() > 0
            invariant
                k + rest.len() == old_blocks.len(),
                old_blocks.len() == n,
                rest@ == old_blocks.skip(k as int),
                self.blocks@ == old_blocks.take(k as int).filter(not_owned_by(id)),
                self.projects@ == old_projects,
                self.pages@ == old(self).pages@,
            decreases rest.len(),
        {
            let b = rest.remove(0);
            proof {
                assert(b == old_blocks[k as int]);
                assert(rest@ =~= old_blocks.skip(k + 1));
                assert(old_blocks.take(k + 1) =~= old_blocks.take(k as int).push(b));
                lemma_filter_push(old_blocks.take(k as int), b, not_owned_by(id));
            }
            if b.project_id != id {
                self.blocks.push(b);
            }
            k = k + 1;
        }
        assert(old_blocks.take(k as int) =~= old_blocks);
        let mut others: Vec<Project> = Vec::new();
        std::mem::swap(&mut others, &mut self.projects);
        let m: usize = others.len();
        let mut found = false;
        k = 0;
        while others.len() > 0
            invariant
                k + others.len() == old_projects.len(),
                old_projects.len() == m,
                others@ == old_projects.skip(k as int),
                self.projects@ == old_projects.take(k as int).filter(not_project(id)),
                self.blocks@ == old_blocks.filter(not_owned_by(id)),
                found == has_project(old_projects.take(k as int), id),
                self.pages@ == old(self).pages@,
            decreases others.len(),
        {
            let p = others.remove(0);
            proof {
                assert(p == old_projects[k as int]);
                assert(others@ =~= old_projects.skip(k + 1));
                assert(old_projects.take(k + 1) =~= old_projects.take(k as int).push(p));
                lemma_filter_push(old_projects.take(k as int), p, not_project(id));
                let pre = old_projects.take(k as int);
                if has_project(pre, id) {
                    let i = choose|i: int| 0 <= i < pre.len() && (#[trigger] pre[i]).id == id;
                    assert(pre.push(p)[i] == pre[i]);
                }
                if has_project(pre.push(p), id) && p.id != id {
                    let i = choose|i: int| 0 <= i < pre.len() + 1 && (#[trigger] pre.push(p)[i]).id == id;
                    assert(pre.push(p)[i] == pre[i]);
                }
                if p.id == id {
                    assert(pre.push(p)[k as int] == p);
                }
            }
            if p.id != id {
                self.projects.push(p);
            } else {
                found = true;
            }
            k = k + 1;
        }
        assert(old_projects.take(k as int) =~= old_projects);
        proof {
            if old(self).wf() {
                self.lemma_delete_keeps_wf(old(self), id);
            }
        }
        found
    }

    /// Adds a project. Refused where its dates are not well formed or it ends before
    /// it starts, where another project has its id, or where another has its slug
    /// (checked in that order).
    pub fn add_project(&mut self, project: Project) -> (r: Result<(), StoreError>)
        ensures
            r == if !project.wf() {
                Err::<(), StoreError>(StoreError::InvalidDates)
            } else if has_project(old(self).projects@, project.id) {
                Err(StoreError::DuplicateId)
            } else if exists|j: int|
                0 <= j < old(self).projects.len() && (#[trigger] old(self).projects[j]).slug@
                    == project.slug@ {
                Err(StoreError::DuplicateSlug)
            } else {
                Ok(())
            },
            r is Ok ==> final(self).projects@ == old(self).projects@.push(project),
            r is Err ==> final(self).projects@ == old(self).projects@,
            final(self).blocks@ == old(self).blocks@,
            final(self).pages@ == old(self).pages@,
            old(self).wf() ==> final(self).wf(),
    {
        let valid = project.start_date.is_valid() && match project.end_date {
            Some(e) => e.is_valid() && !e.is_before(&project.start_date),
            None => true,
        };
        if !valid {
            return Err(StoreError::InvalidDates);
        }
        let mut i: usize = 0;
        while i < self.projects.len()
            invariant
                i <= self.projects.len(),
                *self == *old(self),
                project.wf(),
                forall|j: int| 0 <= j < i ==> (#[trigger] self.projects[j]).id != project.id,
            decreases self.projects.len() - i,
        {
            if self.projects[i].id == project.id {
                assert(self.projects@[i as int].id == project.id);
                return Err(StoreError::DuplicateId);
            }
            i = i + 1;
        }
        match find_by_slug(&self.projects, project.slug.as_str()) {
            Some(_) => {
                return Err(StoreError::DuplicateSlug);
            },
            None => {},
        }
        let ghost before = self.projects@;
        self.projects.push(project);
        proof {
            if old(self).wf() {
                assert forall|b: int| 0 <= b < self.blocks.len() implies has_project(
                    self.projects@,
                    (#[trigger] self.blocks[b]).project_id,
                ) by {
                    let q = choose|q: int| 0 <= q < before.len() && (#[trigger] before[q]).id == self.blocks[b].project_id;
                    assert(self.projects@[q] == before[q]);
                }
                assert forall|a: int, b: int| 0 <= a < b < self.projects.len() implies (#[trigger] self.projects[a]).id != (
                    #[trigger] self.projects[b]).id && self.projects[a].slug@ != self.projects[b].slug@ by {
                    assert(self.projects[a] == before[a]);
                    if b < before.len() {
                        assert(self.projects[b] == before[b]);
                    }
                }
            }
        }
        Ok(())
    }

    /// Appends a block to project `project_id`, after its last block (see
    /// `next_sort_order`). Refused where no project has that id or another block has
    /// the block's id. Returns the sort order given to the block.
    pub fn add_block(&mut self, id: u128, project_id: u128, content: BlockContent) -> (r: Result<i32, StoreError>)
        ensures
            r matches Err(e) ==> e == if !has_project(old(self).projects@, project_id) {
                StoreError::UnknownProject
            } else {
                StoreError::DuplicateId
            },
            r is Err <==> (!has_project(old(self).projects@, project_id) || exists|j: int|
                0 <= j < old(self).blocks.len() && (#[trigger] old(self).blocks[j]).id == id),
            r matches Ok(order) ==> final(self).blocks@ == old(self).blocks@.push(
                ContentBlock { id, project_id, content, sort_order: order },
            ),
            r matches Ok(order) ==> ((forall|j: int|
                0 <= j < old(self).blocks.len() ==> (#[trigger] old(self).blocks[j]).project_id
                    != project_id) ==> order == 0),
            r matches Ok(order) ==> (exists|j: int|
                0 <= j < old(self).blocks.len() && (#[trigger] old(self).blocks[j]).project_id
                    == project_id) ==> exists|j: int|
                0 <= j < old(self).blocks.len() && (#[trigger] old(self).blocks[j]).project_id
                    == project_id && order == succ_saturating(old(self).blocks[j].sort_order)
                    && forall|k: int|
                    0 <= k < old(self).blocks.len() && (#[trigger] old(self).blocks[k]).project_id
                        == project_id ==> old(self).blocks[k].sort_order <= old(
                    self).blocks[j].sort_order,
            r is Err ==> final(self).blocks@ == old(self).blocks@,
            final(self).projects@ == old(self).projects@,
            final(self).pages@ == old(self).pages@,
            old(self).wf() ==> final(self).wf(),
    {
        let mut i: usize = 0;
        let mut known = false;
        while i < self.projects.len()
            invariant
                i <= self.projects.len(),
                known == has_project(self.projects@.take(i as int), project_id),
                *self == *old(self),
            decreases self.projects.len() - i,
        {
            proof {
                let pre = self.projects@.take(i as int);
                assert(self.projects@.take(i + 1) =~= pre.push(self.projects@[i as int]));
                if has_project(pre, project_id) {
                    let q = choose|q: int| 0 <= q < pre.len() && (#[trigger] pre[q]).id == project_id;
                    assert(self.projects@.take(i + 1)[q] == pre[q]);
                }
                if has_project(self.projects@.take(i + 1), project_id) && self.projects@[i as int].id != project_id {
                    let q = choose|q: int| 0 <= q < i + 1 && (#[trigger] self.projects@.take(i + 1)[q]).id == project_id;
                    assert(self.projects@.take(i + 1)[q] == pre[q]);
                }
                if self.projects@[i as int].id == project_id {
                    assert(self.projects@.take(i + 1)[i as int] == self.projects@[i as int]);
                }
            }
            if self.projects[i].id == project_id {
                known = true;
            }
            i = i + 1;
        }
        assert(self.projects@.take(i as int) =~= self.projects@);
        if !known {
            return Err(StoreError::UnknownProject);
        }
        let mut j: usize = 0;
        while j < self.blocks.len()
            invariant
                j <= self.blocks.len(),
                *self == *old(self),
                known,
                has_project(self.projects@, project_id),
                forall|k: int| 0 <= k < j ==> (#[trigger] self.blocks[k]).id != id,
            decreases self.blocks.len() - j,
        {
            if self.blocks[j].id == id {
                assert(has_project(old(self).projects@, project_id));
                return Err(StoreError::DuplicateId);
            }
            j = j + 1;
        }
        let order = next_sort_order(&self.blocks, project_id);
        let ghost before = self.blocks@;
        self.blocks.push(ContentBlock { id, project_id, content, sort_order: order });
        proof {
            if old(self).wf() {
                assert forall|a: int, b: int| 0 <= a < b < self.blocks.len() implies (#[trigger] self.blocks[a]).id != (
                    #[trigger] self.blocks[b]).id by {
                    if b == before.len() {
                        assert(self.blocks[a] == before[a]);
                    } else {
                        assert(self.blocks[a] == before[a]);
                        assert(self.blocks[b] == before[b]);
                    }
                }
                assert forall|b: int| 0 <= b < self.blocks.len() implies has_project(
                    self.projects@,
                    (#[trigger] self.blocks[b]).project_id,
                ) by {
                    if b < before.len() {
                        assert(self.blocks[b] == before[b]);
                    }
                }
            }
        }
        Ok(order)
    }

    /// Applies a batch of reorder requests to the blocks (see `apply_reorder`).
    pub fn reorder(&mut self, request: &ReorderRequest)
        ensures
            final(self).blocks@.len() == old(self).blocks@.len(),
            forall|i: int|
                0 <= i < final(self).blocks@.len() ==> {
                    let b = #[trigger] final(self).blocks@[i];
                    let a = old(self).blocks@[i];
                    &&& b.id == a.id
                    &&& b.project_id == a.project_id
                    &&& b.content == a.content
                    &&& b.sort_order == order_after(request.updates@, a.id, a.sort_order)
                },
            final(self).projects@ == old(self).projects@,
            final(self).pages@ == old(self).pages@,
            old(self).wf() ==> final(self).wf(),
    {
        apply_reorder(&mut self.blocks, &request.updates);
        proof {
            if old(self).wf() {
                assert forall|a: int, b: int| 0 <= a < b < self.blocks.len() implies (#[trigger] self.blocks[a]).id != (
                    #[trigger] self.blocks[b]).id by {
                    assert(self.blocks[a].id == old(self).blocks[a].id);
                    assert(self.blocks[b].id == old(self).blocks[b].id);
                }
                assert forall|b: int| 0 <= b < self.blocks.len() implies has_project(
                    self.projects@,
                    (#[trigger] self.blocks[b]).project_id,
                ) by {
                    assert(self.blocks[b].project_id == old(self).blocks[b].project_id);
                }
            }
        }
    }

    /// Deletes the block with id `id`. Returns whether there was one.
    pub fn delete_block(&mut self, id: u128) -> (r: bool)
        ensures
            r == exists|j: int| 0 <= j < old(self).blocks.len() && (#[trigger] old(self).blocks[j]).id == id,
            final(self).blocks@ == old(self).blocks@.filter(not_block(id)),
            final(self).projects@ == old(self).projects@,
            final(self).pages@ == old(self).pages@,
            old(self).wf() ==> final(self).wf(),
    {
        let ghost old_blocks = self.blocks@;
        let mut rest: Vec<ContentBlock> = Vec::new();
        std::mem::swap(&mut rest, &mut self.blocks);
        let n: usize = rest.len();
        let mut k: usize = 0;
        let mut found = false;
        while rest.len() > 0
            invariant
                k + rest.len() == old_blocks.len(),
                old_blocks.len() == n,
                rest@ == old_blocks.skip(k as int),
                self.blocks@ == old_blocks.take(k as int).filter(not_block(id)),
                self.projects@ == old(self).projects@,
                self.pages@ == old(self).pages@,
                found == exists|j: int| 0 <= j < k && (#[trigger] old_blocks[j]).id == id,
            decreases rest.len(),
        {
            let b = rest.remove(0);
            proof {
                assert(b == old_blocks[k as int]);
                assert(rest@ =~= old_blocks.skip(k + 1));
                assert(old_blocks.take(k + 1) =~= old_blocks.take(k as int).push(b));
                lemma_filter_push(old_blocks.take(k as int), b, not_block(id));
            }
            if b.id != id {
                self.blocks.push(b);
            } else {
                found = true;
            }
            k = k + 1;
        }
        assert(old_blocks.take(k as int) =~= old_blocks);
        proof {
            if old(self).wf() {
                let bs = old_blocks;
                assert forall|a: int, b: int| 0 <= a < b < self.blocks.len() implies (#[trigger] self.blocks[a]).id != (
                    #[trigger] self.blocks[b]).id by {
                    lemma_filter_index_map(bs, not_block(id), a, b);
                }
                assert forall|i: int| 0 <= i < self.blocks.len() implies has_project(
                    self.projects@,
                    (#[trigger] self.blocks[i]).project_id,
                ) by {
                    lemma_filter_member(bs, not_block(id), i);
                    let a = choose|a: int| 0 <= a < bs.len() && bs[a] == self.blocks[i];
                    assert(has_project(old(self).projects@, bs[a].project_id));
                }
            }
        }
        found
    }

    /// Replaces the payload and sort order of the first block with id `id`; its owner
    /// stays. Returns whether there was such a block.
    pub fn update_block(&mut self, id: u128, content: BlockContent, sort_order: i32) -> (r: bool)
        ensures
            r == exists|j: int| 0 <= j < old(self).blocks.len() && (#[trigger] old(self).blocks[j]).id == id,
            !r ==> final(self).blocks@ == old(self).blocks@,
            r ==> exists|j: int|
                0 <= j < old(self).blocks.len() && old(self).blocks[j].id == id && (forall|k: int|
                    0 <= k < j ==> (#[trigger] old(self).blocks[k]).id != id) && final(self).blocks@
                    == old(self).blocks@.update(
                    j,
                    ContentBlock { id, project_id: old(self).blocks[j].project_id, content, sort_order },
                ),
            final(self).projects@ == old(self).projects@,
            final(self).pages@ == old(self).pages@,
            old(self).wf() ==> final(self).wf(),
    {
        let mut i: usize = 0;
        while i < self.blocks.len()
            invariant
                i <= self.blocks.len(),
                *self == *old(self),
                forall|k: int| 0 <= k < i ==> (#[trigger] self.blocks[k]).id != id,
            decreases self.blocks.len() - i,
        {
            if self.blocks[i].id == id {
                let owner = self.blocks[i].project_id;
                self.blocks.set(i, ContentBlock { id, project_id: owner, content, sort_order });
                proof {
                    if old(self).wf() {
                        assert forall|a: int| 0 <= a < self.blocks.len() implies (#[trigger] self.blocks[a]).id
                            == old(self).blocks[a].id && self.blocks[a].project_id == old(self).blocks[a].project_id by {}
                        assert forall|a: int, b: int| 0 <= a < b < self.blocks.len() implies (#[trigger] self.blocks[a]).id != (
                            #[trigger] self.blocks[b]).id by {
                            assert(old(self).blocks[a].id != old(self).blocks[b].id);
                        }
                        assert forall|b: int| 0 <= b < self.blocks.len() implies has_project(
                            self.projects@,
                            (#[trigger] self.blocks[b]).project_id,
                        ) by {
                            assert(has_project(old(self).projects@, old(self).blocks[b].project_id));
                        }
                    }
                }
                return true;
            }
            i = i + 1;
        }
        false
    }

    /// Replaces the fields of the project with id `id` by those of `project`, keeping
    /// the id. Refused where the new dates are not well formed or the end comes before
    /// the start, where no project has that id, or where another project has the new
    /// slug (checked in that order).
    pub fn update_project(&mut self, id: u128, project: Project) -> (r: Result<(), StoreError>)
        ensures
            r == if !project.wf() {
                Err::<(), StoreError>(StoreError::InvalidDates)
            } else if !has_project(old(self).projects@, id) {
                Err(StoreError::UnknownProject)
            } else if exists|j: int|
                0 <= j < old(self).projects.len() && (#[trigger] old(self).projects[j]).id != id
                    && old(self).projects[j].slug@ == project.slug@ {
                Err(StoreError::DuplicateSlug)
            } else {
                Ok(())
            },
            r is Ok ==> exists|j: int|
                0 <= j < old(self).projects.len() && old(self).projects[j].id == id
                    && final(self).projects@ == old(self).projects@.update(j, with_id(project, id)),
            r is Err ==> final(self).projects@ == old(self).projects@,
            final(self).blocks@ == old(self).blocks@,
            final(self).pages@ == old(self).pages@,
            old(self).wf() ==> final(self).wf(),
    {
        let valid = project.start_date.is_valid() && match project.end_date {
            Some(e) => e.is_valid() && !e.is_before(&project.start_date),
            None => true,
        };
        if !valid {
            return Err(StoreError::InvalidDates);
        }
        let mut found: Option<usize> = None;
        let mut clash = false;
        let wanted = project.slug.clone();
        let mut i: usize = 0;
        while i < self.projects.len()
            invariant
                i <= self.projects.len(),
                *self == *old(self),
                project.wf(),
                wanted@ == project.slug@,
                match found {
                    Some(f) => f < i && self.projects[f as int].id == id,
                    None => forall|k: int| 0 <= k < i ==> (#[trigger] self.projects[k]).id != id,
                },
                clash == exists|k: int|
                    0 <= k < i && (#[trigger] self.projects[k]).id != id && self.projects[k].slug@
                        == project.slug@,
            decreases self.projects.len() - i,
        {
            if self.projects[i].id == id {
                if found.is_none() {
                    found = Some(i);
                }
            } else if self.projects[i].slug == wanted {
                clash = true;
            }
            proof {
                if clash && !(self.projects[i as int].id != id && self.projects[i as int].slug@ == project.slug@) {
                    let k = choose|k: int|
                        0 <= k < i + 1 && (#[trigger] self.projects[k]).id != id && self.projects[k].slug@
                            == project.slug@;
                    assert(k < i);
                }
            }
            i = i + 1;
        }
        match found {
            None => {
                return Err(StoreError::UnknownProject);
            },
            Some(f) => {
                assert(has_project(self.projects@, id));
                if clash {
                    return Err(StoreError::DuplicateSlug);
                }
                let ghost before = self.projects@;
                let ghost np = with_id(project, id);
                let updated = Project {
                    id,
                    title: project.title,
                    slug: project.slug,
                    description: project.description,
                    start_date: project.start_date,
                    end_date: project.end_date,
                    thumbnail_url: project.thumbnail_url,
                };
                self.projects.set(f, updated);
                proof {
                    assert(self.projects@ == before.update(f as int, np));
                    if old(self).wf() {
                        assert forall|a: int, b: int| 0 <= a < b < self.projects.len() implies (#[trigger] self.projects[a]).id != (
                            #[trigger] self.projects[b]).id && self.projects[a].slug@ != self.projects[b].slug@ by {
                            if a == f {
                                assert(before[b].id != before[a].id);
                                assert(before[b].id != id);
                            } else if b == f {
                                assert(before[a].id != before[b].id);
                                assert(before[a].id != id);
                            }
                        }
                        assert forall|b: int| 0 <= b < self.blocks.len() implies has_project(
                            self.projects@,
                            (#[trigger] self.blocks[b]).project_id,
                        ) by {
                            let q = choose|q: int| 0 <= q < before.len() && (#[trigger] before[q]).id == self.blocks[b].project_id;
                            if q == f {
                                assert(self.projects@[q].id == id);
                            } else {
                                assert(self.projects@[q] == before[q]);
                            }
                        }
                    }
                }
                Ok(())
            },
        }
    }

    /// Sets the title and content of the first page with slug `slug`, stamping it
    /// `now`. Returns whether there was such a page; pages are not created here.
    pub fn update_page(&mut self, slug: &str, title: String, content: String, now: i64) -> (r: bool)
        ensures
            r == exists|j: int| 0 <= j < old(self).pages.len() && (#[trigger] old(self).pages[j]).slug@ == slug@,
            !r ==> final(self).pages@ == old(self).pages@,
            r ==> exists|j: int|
                0 <= j < old(self).pages.len() && old(self).pages[j].slug@ == slug@ && (forall|k: int|
                    0 <= k < j ==> (#[trigger] old(self).pages[k]).slug@ != slug@) && final(self).pages@
                    == old(self).pages@.update(
                    j,
                    Page { slug: old(self).pages[j].slug, title, content, updated_at: now },
                ),
            final(self).projects@ == old(self).projects@,
            final(self).blocks@ == old(self).blocks@,
            final(self).wf() == old(self).wf(),
    {
        match crate::site::find_page(&self.pages, slug) {
            Some(i) => {
                let slug_kept = self.pages[i].slug.clone();
                self.pages.set(i, Page { slug: slug_kept, title, content, updated_at: now });
                proof {
                    assert forall|a: int| 0 <= a < self.pages.len() implies (#[trigger] self.pages[a]).slug
                        == old(self).pages[a].slug by {}
                    if old(self).wf() {
                        assert forall|a: int, b: int| 0 <= a < b < self.pages.len() implies (#[trigger] self.pages[a]).slug@ != (
                            #[trigger] self.pages[b]).slug@ by {
                            assert(old(self).pages[a].slug@ != old(self).pages[b].slug@);
                        }
                    }
                    if self.wf() {
                        assert forall|a: int, b: int| 0 <= a < b < old(self).pages.len() implies (#[trigger] old(self).pages[a]).slug@ != (
                            #[trigger] old(self).pages[b]).slug@ by {
                            assert(self.pages[a].slug@ != self.pages[b].slug@);
                        }
                    }
                }
                true
            },
            None => false,
        }
    }

    proof fn lemma_delete_keeps_wf(&self, before: &ContentStore, id: u128)
        requires
            before.wf(),
            self.pages@ == before.pages@,
            self.projects@ == before.projects@.filter(not_project(id)),
            self.blocks@ == before.blocks@.filter(not_owned_by(id)),
        ensures
            self.wf(),
    {
        let ps = before.projects@;
        let bs = before.blocks@;
        assert forall|i: int| 0 <= i < self.projects.len() implies (#[trigger] self.projects[i]).wf() by {
            lemma_filter_member(ps, not_project(id), i);
        }
        assert forall|i: int, j: int| 0 <= i < j < self.projects.len() implies (#[trigger] self.projects[i]).id != (
            #[trigger] self.projects[j]).id && self.projects[i].slug@ != self.projects[j].slug@ by {
            lemma_filter_index_map(ps, not_project(id), i, j);
        }
        assert forall|i: int, j: int| 0 <= i < j < self.blocks.len() implies (#[trigger] self.blocks[i]).id != (
            #[trigger] self.blocks[j]).id by {
            lemma_filter_index_map(bs, not_owned_by(id), i, j);
        }
        assert forall|i: int| 0 <= i < self.blocks.len() implies has_project(
            self.projects@,
            (#[trigger] self.blocks[i]).project_id,
        ) by {
            let b = self.blocks[i];
            lemma_filter_member(bs, not_owned_by(id), i);
            bs.lemma_filter_pred(not_owned_by(id), i);
            let a = choose|a: int| 0 <= a < bs.len() && bs[a] == b;
            assert(has_project(ps, bs[a].project_id));
            let q = choose|q: int| 0 <= q < ps.len() && (#[trigger] ps[q]).id == b.project_id;
            assert(not_project(id)(ps[q]));
            ps.lemma_filter_contains(not_project(id), q);
            let r = choose|r: int| 0 <= r < self.projects.len() && self.projects@[r] == ps[q];
            assert(self.projects[r].id == b.project_id);
        }
    }
}

} // verus!
