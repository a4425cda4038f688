use artist_portfolio::catalog::Project;
use artist_portfolio::content::BlockContent;
use artist_portfolio::date::Date;
use artist_portfolio::site::{about_page, contact_page, footer_text};
use artist_portfolio::store::{BlockOrderUpdate, ContentStore, Page, ReorderRequest, StoreError};

fn project(id: u128, slug: &str, year: i32) -> Project {
    Project {
        id,
        title: slug.to_uppercase(),
        slug: slug.to_string(),
        description: Some("d".to_string()),
        start_date: Date { year, month: 1, day: 1 },
        end_date: None,
        thumbnail_url: None,
    }
}

fn page(slug: &str, content: &str) -> Page {
    Page { slug: slug.to_string(), title: slug.to_string(), content: content.to_string(), updated_at: 5 }
}

#[test]
fn add_project_checks_dates_ids_and_slugs() {
    let mut store = ContentStore::new();
    assert_eq!(store.add_project(project(1, "a", 2020)), Ok(()));
    assert_eq!(store.add_project(project(1, "b", 2020)), Err(StoreError::DuplicateId));
    assert_eq!(store.add_project(project(2, "a", 2020)), Err(StoreError::DuplicateSlug));
    let mut bad = project(3, "c", 2020);
    bad.end_date = Some(Date { year: 2019, month: 12, day: 31 });
    assert_eq!(store.add_project(bad), Err(StoreError::InvalidDates));
    let mut bad_month = project(4, "d", 2020);
    bad_month.start_date.month = 13;
    assert_eq!(store.add_project(bad_month), Err(StoreError::InvalidDates));
    assert_eq!(store.projects.len(), 1);
}

#[test]
fn add_block_appends_after_the_last() {
    let mut store = ContentStore::new();
    store.add_project(project(1, "a", 2020)).unwrap();
    assert_eq!(store.add_block(10, 1, BlockContent::Text("x".to_string())), Ok(0));
    assert_eq!(store.add_block(11, 1, BlockContent::Gallery(vec![])), Ok(1));
    assert_eq!(store.add_block(11, 1, BlockContent::Gallery(vec![])), Err(StoreError::DuplicateId));
    assert_eq!(store.add_block(12, 2, BlockContent::Gallery(vec![])), Err(StoreError::UnknownProject));
    assert_eq!(store.blocks.len(), 2);
    assert_eq!(store.blocks[1].block_type(), "gallery");
}

#[test]
fn deleting_a_project_deletes_its_blocks() {
    let mut store = ContentStore::new();
    store.add_project(project(1, "a", 2020)).unwrap();
    store.add_project(project(2, "b", 2021)).unwrap();
    store.add_block(10, 1, BlockContent::Text("x".to_string())).unwrap();
    store.add_block(11, 2, BlockContent::Text("y".to_string())).unwrap();
    store.add_block(12, 1, BlockContent::Text("z".to_string())).unwrap();
    assert!(store.delete_project(1));
    assert_eq!(store.projects.len(), 1);
    assert_eq!(store.projects[0].slug, "b");
    let ids: Vec<u128> = store.blocks.iter().map(|b| b.id).collect();
    assert_eq!(ids, vec![11]);
    assert!(!store.delete_project(1));
}

#[test]
fn store_reorder() {
    let mut store = ContentStore::new();
    store.add_project(project(1, "a", 2020)).unwrap();
    store.add_block(10, 1, BlockContent::Text("x".to_string())).unwrap();
    store.add_block(11, 1, BlockContent::Text("y".to_string())).unwrap();
    let req = ReorderRequest {
        updates: vec![BlockOrderUpdate { id: 10, sort_order: 5 }, BlockOrderUpdate { id: 42, sort_order: 1 }],
    };
    store.reorder(&req);
    assert_eq!(store.blocks[0].sort_order, 5);
    assert_eq!(store.blocks[1].sort_order, 1);
}

#[test]
fn project_detail_collects_blocks_and_neighbours() {
    let mut store = ContentStore::new();
    store.add_project(project(1, "alpha", 2023)).unwrap();
    store.add_project(project(2, "beta", 2024)).unwrap();
    store.add_project(project(3, "gamma", 2025)).unwrap();
    store.add_block(10, 2, BlockContent::Text("x".to_string())).unwrap();
    store.add_block(11, 2, BlockContent::Text("y".to_string())).unwrap();
    store.add_block(12, 1, BlockContent::Text("z".to_string())).unwrap();
    store.reorder(&ReorderRequest { updates: vec![BlockOrderUpdate { id: 10, sort_order: 7 }] });
    let d = store.project_detail("beta").unwrap();
    assert_eq!(d.project, 1);
    let ids: Vec<u128> = d.blocks.iter().map(|&i| store.blocks[i].id).collect();
    assert_eq!(ids, vec![11, 10]);
    assert_eq!(d.next, Some(0));
    assert_eq!(d.prev, Some(2));
    assert!(store.project_detail("delta").is_none());
}

#[test]
fn well_known_pages_fall_back_to_defaults() {
    let pages = vec![page("footer", "<p>Footer</p>"), page("about", "<p>Me</p>")];
    assert_eq!(footer_text(&pages), "<p>Footer</p>");
    assert_eq!(footer_text(&vec![]), "<p>&copy; 2024</p>");
    assert_eq!(about_page(&pages, 99), page("about", "<p>Me</p>"));
    let contact = contact_page(&pages, 99);
    assert_eq!(contact.slug, "contact");
    assert_eq!(contact.title, "Contact");
    assert_eq!(contact.content, "<p>Contact info missing.</p>");
    assert_eq!(contact.updated_at, 99);
    let about = about_page(&vec![], 1);
    assert_eq!(about.title, "About");
    assert_eq!(about.content, "<p>About info missing.</p>");
}

#[test]
fn delete_block_removes_only_that_block() {
    let mut store = ContentStore::new();
    store.add_project(project(1, "a", 2020)).unwrap();
    store.add_block(10, 1, BlockContent::Text("x".to_string())).unwrap();
    store.add_block(11, 1, BlockContent::Text("y".to_string())).unwrap();
    assert!(store.delete_block(10));
    assert!(!store.delete_block(10));
    let ids: Vec<u128> = store.blocks.iter().map(|b| b.id).collect();
    assert_eq!(ids, vec![11]);
    assert_eq!(store.projects.len(), 1);
}

#[test]
fn update_page_changes_an_existing_page_only() {
    let mut store = ContentStore::new();
    store.pages.push(page("about", "<p>old</p>"));
    assert!(store.update_page("about", "About me".to_string(), "<p>new</p>".to_string(), 42));
    assert_eq!(
        store.pages[0],
        Page { slug: "about".to_string(), title: "About me".to_string(), content: "<p>new</p>".to_string(), updated_at: 42 }
    );
    assert!(!store.update_page("contact", "C".to_string(), "c".to_string(), 1));
    assert_eq!(store.pages.len(), 1);
}

#[test]
fn index_groups_newest_year_first() {
    let mut store = ContentStore::new();
    store.add_project(project(1, "alpha", 2023)).unwrap();
    store.add_project(project(2, "gamma", 2024)).unwrap();
    let mut beta = project(3, "beta", 2023);
    beta.start_date = Date { year: 2023, month: 6, day: 1 };
    store.add_project(beta).unwrap();
    let groups = store.index_groups();
    let shape: Vec<(i32, Vec<String>)> =
        groups.iter().map(|(y, ps)| (*y, ps.iter().map(|p| p.slug.clone()).collect())).collect();
    assert_eq!(
        shape,
        vec![(2024, vec!["gamma".to_string()]), (2023, vec!["beta".to_string(), "alpha".to_string()])]
    );
    assert!(ContentStore::new().index_groups().is_empty());
}

#[test]
fn update_block_keeps_owner() {
    let mut store = ContentStore::new();
    store.add_project(project(1, "a", 2020)).unwrap();
    store.add_block(10, 1, BlockContent::Text("x".to_string())).unwrap();
    assert!(store.update_block(10, BlockContent::Video("v".to_string()), 7));
    assert_eq!(store.blocks[0].content, BlockContent::Video("v".to_string()));
    assert_eq!(store.blocks[0].sort_order, 7);
    assert_eq!(store.blocks[0].project_id, 1);
    assert!(!store.update_block(11, BlockContent::Video("v".to_string()), 7));
}

#[test]
fn update_project_checks_and_keeps_id() {
    let mut store = ContentStore::new();
    store.add_project(project(1, "a", 2020)).unwrap();
    store.add_project(project(2, "b", 2021)).unwrap();
    let mut changed = project(99, "a2", 2022);
    changed.title = "New".to_string();
    assert_eq!(store.update_project(1, changed), Ok(()));
    assert_eq!(store.projects[0].id, 1);
    assert_eq!(store.projects[0].slug, "a2");
    assert_eq!(store.projects[0].title, "New");
    assert_eq!(store.update_project(1, project(1, "b", 2022)), Err(StoreError::DuplicateSlug));
    assert_eq!(store.update_project(1, project(1, "a2", 2023)), Ok(()));
    assert_eq!(store.update_project(5, project(5, "z", 2022)), Err(StoreError::UnknownProject));
    let mut bad = project(1, "q", 2022);
    bad.end_date = Some(Date { year: 2000, month: 1, day: 1 });
    assert_eq!(store.update_project(1, bad), Err(StoreError::InvalidDates));
    assert_eq!(store.projects[0].start_date.year, 2023);
}

#[test]
fn index_and_project_pages_are_the_same_on_a_second_run() {
    let mut store = ContentStore::new();
    store.add_project(project(1, "alpha", 2023)).unwrap();
    store.add_project(project(2, "beta", 2023)).unwrap();
    store.add_project(project(3, "gamma", 2024)).unwrap();
    store.add_block(10, 2, BlockContent::Text("x".to_string())).unwrap();
    store.add_block(11, 2, BlockContent::Text("y".to_string())).unwrap();
    store.reorder(&ReorderRequest { updates: vec![BlockOrderUpdate { id: 11, sort_order: 0 }] });
    assert_eq!(store.index_groups(), store.index_groups());
    let first = store.project_detail("beta").unwrap();
    assert_eq!(store.project_detail("beta").unwrap(), first);
    assert_eq!(first.blocks, vec![0, 1]);
    assert_eq!(first.next, None);
    assert_eq!(first.prev, Some(2));
}

#[test]
fn deleted_project_leaves_the_index() {
    let mut store = ContentStore::new();
    store.add_project(project(1, "alpha", 2023)).unwrap();
    store.add_project(project(2, "beta", 2024)).unwrap();
    assert!(store.delete_project(1));
    let slugs: Vec<String> =
        store.index_groups().iter().flat_map(|(_, ps)| ps.iter().map(|p| p.slug.clone())).collect();
    assert_eq!(slugs, vec!["beta".to_string()]);
}
