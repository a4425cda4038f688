//! The static export: the ordered steps that turn a snapshot of the store into a
//! complete site tree, the paths they write, and a model of the resulting tree.

use vstd::prelude::*;
use crate::catalog::Project;
use crate::lemmas::lemma_filter_member;
use crate::store::{not_project, ContentStore};
use crate::text::{owned, push_str};

verus! {

/// One stage of a full export.
#[derive(Debug, Clone, PartialEq)]
pub enum ExportStep {
    /// Remove the previous output tree, if any, and create an empty root.
    ResetOutput,
    /// Copy the static asset directory to `static/`; a missing directory is only
    /// worth a warning.
    CopyStaticAssets,
    /// Render the index to `index.html`.
    WriteIndex,
    /// Render the page of the project with this slug to `project/<slug>/index.html`;
    /// a project that no longer resolves is skipped.
    WriteProject(String),
    /// Render the `about` page to `about/index.html`.
    WriteAbout,
    /// Render the `contact` page to `contact/index.html`.
    WriteContact,
    /// Write this redirect to `admin/index.html`.
    WriteAdminRedirect(String),
}

/// The mathematical value of an `ExportStep`.
pub enum StepView {
    ResetOutput,
    CopyStaticAssets,
    WriteIndex,
    WriteProject(Seq<char>),
    WriteAbout,
    WriteContact,
    WriteAdminRedirect(Seq<char>),
}

impl View for ExportStep {
    type V = StepView;

    open spec fn view(&self) -> StepView {
        match self {
            ExportStep::ResetOutput => StepView::ResetOutput,
            ExportStep::CopyStaticAssets => StepView::CopyStaticAssets,
            ExportStep::WriteIndex => StepView::WriteIndex,
            ExportStep::WriteProject(s) => StepView::WriteProject(s@),
            ExportStep::WriteAbout => StepView::WriteAbout,
            ExportStep::WriteContact => StepView::WriteContact,
            ExportStep::WriteAdminRedirect(h) => StepView::WriteAdminRedirect(h@),
        }
    }
}

/// The views of a list of steps.
pub open spec fn steps_view(steps: Seq<ExportStep>) -> Seq<StepView> {
    steps.map_values(|s: ExportStep| s@)
}

/// The path, relative to the output root, of a project's page.
pub open spec fn project_page_path(slug: Seq<char>) -> Seq<char> {
    "project/"@ + slug + "/index.html"@
}

/// The path, relative to the output root, that a step writes (`None` for the reset).
pub open spec fn step_path(step: StepView) -> Option<Seq<char>> {
    match step {
        StepView::ResetOutput => None,
        StepView::CopyStaticAssets => Some("static"@),
        StepView::WriteIndex => Some("index.html"@),
        StepView::WriteProject(slug) => Some(project_page_path(slug)),
        StepView::WriteAbout => Some("about/index.html"@),
        StepView::WriteContact => Some("contact/index.html"@),
        StepView::WriteAdminRedirect(_) => Some("admin/index.html"@),
    }
}

/// The page that sends visitors of the static site to the admin application at
/// `admin_url`.
pub open spec fn admin_redirect_html(admin_url: Seq<char>) -> Seq<char> {
    "<!DOCTYPE html>\n<html>\n<head>\n<meta http-equiv=\"refresh\" content=\"0; url="@ + admin_url
        + "/login\">\n<title>Redirecting to Admin...</title>\n</head>\n<body>\n<p>Redirecting to <a href=\""@
        + admin_url + "/login\">Admin Dashboard</a>...</p>\n<script>window.location.href = \""@
        + admin_url + "/login\";</script>\n</body>\n</html>"@
}

/// The steps of a full export of a snapshot whose projects are `projects`, in order:
/// reset, static assets, index, one page per project, about, contact, admin redirect.
pub open spec fn export_plan_spec(projects: Seq<Project>, admin_url: Seq<char>) -> Seq<StepView> {
    seq![StepView::ResetOutput, StepView::CopyStaticAssets, StepView::WriteIndex]
        + projects.map_values(|p: Project| StepView::WriteProject(p.slug@))
        + seq![StepView::WriteAbout, StepView::WriteContact, StepView::WriteAdminRedirect(admin_redirect_html(admin_url))]
}

/// The output tree, as the step that last wrote each path, after `step`.
pub open spec fn apply_step(tree: Map<Seq<char>, StepView>, step: StepView) -> Map<Seq<char>, StepView> {
    match step_path(step) {
        Some(path) => tree.insert(path, step),
        None => Map::empty(),
    }
}

/// The output tree after the steps, run in order from `tree`.
pub open spec fn run_steps(tree: Map<Seq<char>, StepView>, steps: Seq<StepView>) -> Map<Seq<char>, StepView>
    decreases steps.len(),
{
    if steps.len() == 0 {
        tree
    } else {
        run_steps(apply_step(tree, steps[0]), steps.drop_first())
    }
}

/// The redirect page to the admin application at `admin_url`.
pub fn admin_redirect(admin_url: &str) -> (r: String)
    ensures
        r@ == admin_redirect_html(admin_url@),
{
    let mut out = owned("<!DOCTYPE html>\n<html>\n<head>\n<meta http-equiv=\"refresh\" content=\"0; url=");
    push_str(&mut out, admin_url);
    push_str(&mut out, "/login\">\n<title>Redirecting to Admin...</title>\n</head>\n<body>\n<p>Redirecting to <a href=\"");
    push_str(&mut out, admin_url);
    push_str(&mut out, "/login\">Admin Dashboard</a>...</p>\n<script>window.location.href = \"");
    push_str(&mut out, admin_url);
    push_str(&mut out, "/login\";</script>\n</body>\n</html>");
    out
}

/// The path of the page of the project with slug `slug`.
pub fn project_path(slug: &str) -> (r: String)
    ensures
        r@ == project_page_path(slug@),
{
    let mut out = owned("project/");
    push_str(&mut out, slug);
    push_str(&mut out, "/index.html");
    out
}

impl ExportStep {
    /// The path, relative to the output root, that this step writes.
    pub fn output_path(&self) -> (r: Option<String>)
        ensures
            match step_path(self@) {
                Some(p) => r is Some && r->0@ == p,
                None => r is None,
            },
    {
        match self {
            ExportStep::ResetOutput => None,
            ExportStep::CopyStaticAssets => Some(owned("static")),
            ExportStep::WriteIndex => Some(owned("index.html")),
            ExportStep::WriteProject(slug) => Some(project_path(slug.as_str())),
            ExportStep::WriteAbout => Some(owned("about/index.html")),
            ExportStep::WriteContact => Some(owned("contact/index.html")),
            ExportStep::WriteAdminRedirect(_) => Some(owned("admin/index.html")),
        }
    }
}

impl ContentStore {
    /// The steps of a full export of this snapshot, with the admin redirect pointing
    /// at `admin_url`.
    pub fn export_plan(&self, admin_url: &str) -> (r: Vec<ExportStep>)
        ensures
            steps_view(r@) == export_plan_spec(self.projects@, admin_url@),
    {
        let mut steps: Vec<ExportStep> = Vec::new();
        steps.push(ExportStep::ResetOutput);
        steps.push(ExportStep::CopyStaticAssets);
        steps.push(ExportStep::WriteIndex);
        let ghost head = seq![StepView::ResetOutput, StepView::CopyStaticAssets, StepView::WriteIndex];
        let ghost slugs = self.projects@.map_values(|p: Project| StepView::WriteProject(p.slug@));
        let mut i: usize = 0;
        while i < self.projects.len()
            invariant
                i <= self.projects.len(),
                steps_view(steps@) =~= head + slugs.take(i as int),
                slugs == self.projects@.map_values(|p: Project| StepView::WriteProject(p.slug@)),
            decreases self.projects.len() - i,
        {
            let ghost before = steps@;
            steps.push(ExportStep::WriteProject(self.projects[i].slug.clone()));
            proof {
                assert(steps_view(steps@) =~= steps_view(before).push(slugs[i as int]));
                assert(slugs.take(i + 1) =~= slugs.take(i as int).push(slugs[i as int]));
            }
            i = i + 1;
        }
        assert(slugs.take(i as int) =~= slugs);
        steps.push(ExportStep::WriteAbout);
        steps.push(ExportStep::WriteContact);
        steps.push(ExportStep::WriteAdminRedirect(admin_redirect(admin_url)));
        assert(steps_view(steps@) =~= export_plan_spec(self.projects@, admin_url@));
        steps
    }
}

/// What performing one step came to.
pub enum StepEvent {
    /// The step did its work.
    Done,
    /// The project of a `WriteProject` step no longer resolves; nothing was written.
    Skipped,
    /// The static asset directory is missing; nothing was copied.
    AssetsMissing,
    /// An I/O failure, with its description.
    Failed(String),
}

/// Where an export run stands.
#[derive(Debug, Clone, PartialEq)]
pub enum RunStatus {
    /// Steps remain to be performed.
    Running,
    /// Every step was performed.
    Completed,
    /// A step failed for this reason; no further step is performed.
    Failed(String),
}

/// One export run: the plan, the output root, and how far it has come.
pub struct ExportRun {
    pub steps: Vec<ExportStep>,
    pub root: String,
    pub position: usize,
    pub status: RunStatus,
}

impl ExportRun {
    /// The position is within the plan; a run is running exactly while steps remain
    /// and none failed, and completed only at the end of the plan.
    pub open spec fn wf(&self) -> bool {
        &&& self.position <= self.steps.len()
        &&& (self.status is Running ==> self.position < self.steps.len())
        &&& (self.status is Completed ==> self.position == self.steps.len())
    }

    /// A run of `steps` writing under `root`, not yet started.
    pub fn start(steps: Vec<ExportStep>, root: String) -> (r: ExportRun)
        ensures
            r.wf(),
            r.steps == steps,
            r.root == root,
            r.position == 0,
            r.status == if steps.len() == 0 {
                RunStatus::Completed
            } else {
                RunStatus::Running
            },
    {
        let status = if steps.len() == 0 {
            RunStatus::Completed
        } else {
            RunStatus::Running
        };
        ExportRun { steps, root, position: 0, status }
    }

    /// The step to perform next, or `None` once the run has ended.
    pub fn current(&self) -> (r: Option<&ExportStep>)
        requires
            self.wf(),
        ensures
            match r {
                Some(s) => self.status is Running && *s == self.steps[self.position as int],
                None => !(self.status is Running),
            },
    {
        match self.status {
            RunStatus::Running => Some(&self.steps[self.position]),
            _ => None,
        }
    }

    /// Records what performing the current step came to: a skipped project or a
    /// missing asset directory is no failure and the run moves on, completing after
    /// the last step; an I/O failure ends the run with that reason. A run that has
    /// ended stays as it is.
    pub fn record(&mut self, event: StepEvent)
        requires
            old(self).wf(),
        ensures
            final(self).wf(),
            final(self).steps == old(self).steps,
            final(self).root == old(self).root,
            !(old(self).status is Running) ==> *final(self) == *old(self),
            old(self).status is Running ==> match event {
                StepEvent::Failed(reason) => final(self).status == RunStatus::Failed(reason)
                    && final(self).position == old(self).position,
                _ => final(self).position == old(self).position + 1 && final(self).status == if
                final(self).position == old(self).steps.len() {
                    RunStatus::Completed
                } else {
                    RunStatus::Running
                },
            },
    {
        match self.status {
            RunStatus::Running => {},
            _ => {
                return;
            },
        }
        match event {
            StepEvent::Failed(reason) => {
                self.status = RunStatus::Failed(reason);
            },
            _ => {
                self.position = self.position + 1;
                if self.position == self.steps.len() {
                    self.status = RunStatus::Completed;
                }
            },
        }
    }

    /// How the run ended: `Ok` with the output root once completed, `Err` with the
    /// reason once failed, `None` while it is running.
    pub fn outcome(&self) -> (r: Option<Result<String, String>>)
        ensures
            match self.status {
                RunStatus::Running => r is None,
                RunStatus::Completed => r matches Some(Ok(root)) && root@ == self.root@,
                RunStatus::Failed(reason) => r matches Some(Err(e)) && e@ == reason@,
            },
    {
        match &self.status {
            RunStatus::Running => None,
            RunStatus::Completed => Some(Ok(self.root.clone())),
            RunStatus::Failed(reason) => Some(Err(reason.clone())),
        }
    }
}

/// A run that starts with a reset ends in the same tree whatever tree it started
/// from.
proof fn lemma_reset_forgets(t1: Map<Seq<char>, StepView>, t2: Map<Seq<char>, StepView>, steps: Seq<StepView>)
    requires
        steps.len() > 0,
        steps[0] == StepView::ResetOutput,
    ensures
        run_steps(t1, steps) == run_steps(t2, steps),
{
}

/// Exporting is idempotent: a full export of a snapshot leaves the same tree
/// whatever the output root held before, so running it twice in a row gives the
/// same tree as running it once.
pub proof fn lemma_export_idempotent(
    projects: Seq<Project>,
    admin_url: Seq<char>,
    before: Map<Seq<char>, StepView>,
    other: Map<Seq<char>, StepView>,
)
    ensures
        run_steps(before, export_plan_spec(projects, admin_url)) == run_steps(
            other,
            export_plan_spec(projects, admin_url),
        ),
        run_steps(
            run_steps(before, export_plan_spec(projects, admin_url)),
            export_plan_spec(projects, admin_url),
        ) == run_steps(before, export_plan_spec(projects, admin_url)),
{
    let plan = export_plan_spec(projects, admin_url);
    assert(plan[0] == StepView::ResetOutput);
    lemma_reset_forgets(before, other, plan);
    lemma_reset_forgets(run_steps(before, plan), before, plan);
}

/// A path in the tree after a run was there before or was written by some step.
proof fn lemma_written_by_some_step(tree: Map<Seq<char>, StepView>, steps: Seq<StepView>, path: Seq<char>)
    requires
        run_steps(tree, steps).contains_key(path),
    ensures
        tree.contains_key(path) && !(exists|j: int| 0 <= j < steps.len() && steps[j] == StepView::ResetOutput)
            || exists|j: int| 0 <= j < steps.len() && step_path(#[trigger] steps[j]) == Some(path),
    decreases steps.len(),
{
    if steps.len() > 0 {
        let next = apply_step(tree, steps[0]);
        lemma_written_by_some_step(next, steps.drop_first(), path);
        if exists|j: int| 0 <= j < steps.len() - 1 && step_path(#[trigger] steps.drop_first()[j]) == Some(path) {
            let j = choose|j: int| 0 <= j < steps.len() - 1 && step_path(#[trigger] steps.drop_first()[j]) == Some(path);
            assert(steps[j + 1] == steps.drop_first()[j]);
        } else {
            if exists|j: int| 0 <= j < steps.len() && steps[j] == StepView::ResetOutput {
                let j = choose|j: int| 0 <= j < steps.len() && steps[j] == StepView::ResetOutput;
                if j > 0 {
                    assert(steps.drop_first()[j - 1] == StepView::ResetOutput);
                }
            }
        }
    }
}

/// Distinct slugs have distinct page paths.
proof fn lemma_project_path_injective(a: Seq<char>, b: Seq<char>)
    requires
        project_page_path(a) == project_page_path(b),
    ensures
        a == b,
{
    reveal_strlit("project/");
    reveal_strlit("/index.html");
    let pa = project_page_path(a);
    let pb = project_page_path(b);
    assert("project/"@.len() == 8);
    assert("/index.html"@.len() == 11);
    assert(pa.len() == a.len() + 19);
    assert(pb.len() == b.len() + 19);
    assert(a.len() == b.len());
    assert forall|k: int| 0 <= k < a.len() implies a[k] == b[k] by {
        assert(pa[8 + k] == a[k]);
        assert(pb[8 + k] == b[k]);
    }
    assert(a =~= b);
}

/// Rebuilding after a project is deleted leaves no page at the deleted project's
/// path, whatever the output root held before.
pub proof fn lemma_deleted_project_leaves_no_page(
    store: ContentStore,
    id: u128,
    admin_url: Seq<char>,
    before: Map<Seq<char>, StepView>,
)
    requires
        store.wf(),
    ensures
        forall|i: int|
            0 <= i < store.projects.len() && (#[trigger] store.projects[i]).id == id ==> !run_steps(
                before,
                export_plan_spec(store.projects@.filter(not_project(id)), admin_url),
            ).contains_key(project_page_path(store.projects[i].slug@)),
{
    let remaining = store.projects@.filter(not_project(id));
    let plan = export_plan_spec(remaining, admin_url);
    let rest = plan.drop_first();
    assert forall|i: int|
        0 <= i < store.projects.len() && (#[trigger] store.projects[i]).id == id implies !run_steps(
            before,
            plan,
        ).contains_key(project_page_path(store.projects[i].slug@)) by {
        let slug = store.projects[i].slug@;
        let path = project_page_path(slug);
        assert(plan[0] == StepView::ResetOutput);
        assert(run_steps(before, plan) == run_steps(Map::empty(), rest));
        if run_steps(Map::empty(), rest).contains_key(path) {
            lemma_written_by_some_step(Map::empty(), rest, path);
            let j = choose|j: int| 0 <= j < rest.len() && step_path(#[trigger] rest[j]) == Some(path);
            reveal_strlit("project/");
            reveal_strlit("/index.html");
            reveal_strlit("static");
            reveal_strlit("index.html");
            reveal_strlit("about/index.html");
            reveal_strlit("contact/index.html");
            reveal_strlit("admin/index.html");
            assert(path.len() >= 19);
            if 2 <= j < 2 + remaining.len() {
                let q = j - 2;
                assert(rest[j] == StepView::WriteProject(remaining[q].slug@));
                lemma_project_path_injective(remaining[q].slug@, slug);
                lemma_filter_member(store.projects@, not_project(id), q);
                store.projects@.lemma_filter_pred(not_project(id), q);
                let a = choose|a: int| 0 <= a < store.projects.len() && store.projects@[a] == remaining[q];
                assert(a != i);
                if a < i {
                    assert(store.projects[a].slug@ != store.projects[i].slug@);
                } else {
                    assert(store.projects[i].slug@ != store.projects[a].slug@);
                }
            } else if j < 2 {
                assert(rest[0] == StepView::CopyStaticAssets);
                assert(rest[1] == StepView::WriteIndex);
            } else {
                assert(rest[2 + remaining.len() as int] == StepView::WriteAbout);
                assert(rest[3 + remaining.len() as int] == StepView::WriteContact);
                assert(rest[4 + remaining.len() as int] == StepView::WriteAdminRedirect(admin_redirect_html(admin_url)));
            }
        }
    }
}

} // verus!
