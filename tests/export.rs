use artist_portfolio::catalog::Project;
use artist_portfolio::date::Date;
use artist_portfolio::export::{admin_redirect, project_path, ExportRun, ExportStep, RunStatus, StepEvent};
use artist_portfolio::store::ContentStore;

fn project(id: u128, slug: &str, year: i32) -> Project {
    Project {
        id,
        title: slug.to_string(),
        slug: slug.to_string(),
        description: None,
        start_date: Date { year, month: 2, day: 3 },
        end_date: None,
        thumbnail_url: None,
    }
}

fn store() -> ContentStore {
    let mut s = ContentStore::new();
    s.add_project(project(1, "alpha", 2023)).unwrap();
    s.add_project(project(2, "beta", 2024)).unwrap();
    s
}

fn paths(steps: &[ExportStep]) -> Vec<Option<String>> {
    steps.iter().map(|s| s.output_path()).collect()
}

#[test]
fn plan_covers_the_whole_tree_in_order() {
    let plan = store().export_plan("https://admin.example");
    assert_eq!(plan.len(), 8);
    assert_eq!(plan[0], ExportStep::ResetOutput);
    assert_eq!(plan[1], ExportStep::CopyStaticAssets);
    assert_eq!(plan[2], ExportStep::WriteIndex);
    assert_eq!(plan[3], ExportStep::WriteProject("alpha".to_string()));
    assert_eq!(plan[4], ExportStep::WriteProject("beta".to_string()));
    assert_eq!(plan[5], ExportStep::WriteAbout);
    assert_eq!(plan[6], ExportStep::WriteContact);
    assert_eq!(plan[7], ExportStep::WriteAdminRedirect(admin_redirect("https://admin.example")));
    assert_eq!(
        paths(&plan),
        vec![
            None,
            Some("static".to_string()),
            Some("index.html".to_string()),
            Some("project/alpha/index.html".to_string()),
            Some("project/beta/index.html".to_string()),
            Some("about/index.html".to_string()),
            Some("contact/index.html".to_string()),
            Some("admin/index.html".to_string()),
        ]
    );
}

#[test]
fn exporting_twice_plans_the_same_tree() {
    let s = store();
    assert_eq!(s.export_plan("u"), s.export_plan("u"));
}

#[test]
fn deleted_project_is_not_exported_again() {
    let mut s = store();
    let before = paths(&s.export_plan("u"));
    assert!(before.contains(&Some("project/alpha/index.html".to_string())));
    assert!(s.delete_project(1));
    let after = paths(&s.export_plan("u"));
    assert!(!after.contains(&Some("project/alpha/index.html".to_string())));
    assert!(after.contains(&Some("project/beta/index.html".to_string())));
    assert_eq!(after[0], None);
}

#[test]
fn empty_store_still_exports_fixed_pages() {
    let plan = ContentStore::new().export_plan("u");
    assert_eq!(plan.len(), 6);
    assert_eq!(plan[3], ExportStep::WriteAbout);
}

#[test]
fn admin_redirect_page() {
    let html = admin_redirect("https://a.example/admin");
    let expected = "<!DOCTYPE html>\n<html>\n<head>\n<meta http-equiv=\"refresh\" content=\"0; url=https://a.example/admin/login\">\n<title>Redirecting to Admin...</title>\n</head>\n<body>\n<p>Redirecting to <a href=\"https://a.example/admin/login\">Admin Dashboard</a>...</p>\n<script>window.location.href = \"https://a.example/admin/login\";</script>\n</body>\n</html>";
    assert_eq!(html, expected);
}

#[test]
fn project_paths() {
    assert_eq!(project_path("my-work"), "project/my-work/index.html");
    assert_eq!(project_path(""), "project//index.html");
}

#[test]
fn run_completes_after_the_last_step() {
    let plan = store().export_plan("u");
    let n = plan.len();
    let mut run = ExportRun::start(plan, "dist".to_string());
    let mut seen = 0;
    while let Some(step) = run.current() {
        let event = match step {
            ExportStep::CopyStaticAssets => StepEvent::AssetsMissing,
            ExportStep::WriteProject(_) => StepEvent::Skipped,
            _ => StepEvent::Done,
        };
        run.record(event);
        seen += 1;
    }
    assert_eq!(seen, n);
    assert_eq!(run.status, RunStatus::Completed);
    assert_eq!(run.outcome(), Some(Ok("dist".to_string())));
}

#[test]
fn run_stops_at_the_first_failure() {
    let mut run = ExportRun::start(store().export_plan("u"), "dist".to_string());
    assert_eq!(run.outcome(), None);
    run.record(StepEvent::Done);
    run.record(StepEvent::Failed("disk full".to_string()));
    assert_eq!(run.position, 1);
    assert!(run.current().is_none());
    run.record(StepEvent::Done);
    assert_eq!(run.status, RunStatus::Failed("disk full".to_string()));
    assert_eq!(run.outcome(), Some(Err("disk full".to_string())));
}

#[test]
fn empty_run_is_complete() {
    let run = ExportRun::start(vec![], "out".to_string());
    assert_eq!(run.status, RunStatus::Completed);
    assert!(run.current().is_none());
}
