use artist_portfolio::content::BlockContent;
use artist_portfolio::date::{earliest_date, parse_date, parse_date_option, Date};
use artist_portfolio::forms::{csrf_token_valid, BlockForm, ProjectForm};

#[test]
fn iso_dates_are_read() {
    assert_eq!(parse_date("2023-06-01"), Date { year: 2023, month: 6, day: 1 });
    assert_eq!(parse_date("2024-02-29"), Date { year: 2024, month: 2, day: 29 });
}

#[test]
fn unreadable_start_date_falls_back_to_the_minimum() {
    assert_eq!(parse_date("not a date"), earliest_date());
    assert_eq!(parse_date("2023-02-30"), Date { year: -9999, month: 1, day: 1 });
    assert_eq!(parse_date(""), earliest_date());
}

#[test]
fn optional_dates() {
    assert_eq!(parse_date_option(None), None);
    assert_eq!(parse_date_option(Some("junk".to_string())), None);
    assert_eq!(
        parse_date_option(Some("2020-12-31".to_string())),
        Some(Date { year: 2020, month: 12, day: 31 })
    );
}

#[test]
fn date_order() {
    let a = Date { year: 2023, month: 12, day: 31 };
    let b = Date { year: 2024, month: 1, day: 1 };
    assert!(a.is_before(&b));
    assert!(!b.is_before(&a));
    assert!(!a.is_before(&a));
    assert!(a.is_valid());
    assert!(!Date { year: 2023, month: 0, day: 1 }.is_valid());
}

#[test]
fn project_form_becomes_a_project() {
    let form = ProjectForm {
        title: "T".to_string(),
        slug: "t".to_string(),
        description: Some("D".to_string()),
        start_date: "2022-03-04".to_string(),
        end_date: Some("bad".to_string()),
        authenticity_token: "x".to_string(),
    };
    let p = form.into_project(77);
    assert_eq!(p.id, 77);
    assert_eq!(p.title, "T");
    assert_eq!(p.slug, "t");
    assert_eq!(p.description, Some("D".to_string()));
    assert_eq!(p.start_date, Date { year: 2022, month: 3, day: 4 });
    assert_eq!(p.end_date, None);
    assert_eq!(p.thumbnail_url, None);
}

#[test]
fn block_form_becomes_content() {
    let form = BlockForm {
        block_type: "File".to_string(),
        sort_order: 3,
        content: r#"[["f.pdf","Spec"]]"#.to_string(),
        authenticity_token: "x".to_string(),
    };
    assert_eq!(
        form.block_content(),
        BlockContent::File(vec![("f.pdf".to_string(), "Spec".to_string())])
    );
}

#[test]
fn csrf_tokens() {
    assert!(csrf_token_valid(&Some("abc".to_string()), "abc"));
    assert!(!csrf_token_valid(&Some("abc".to_string()), "abd"));
    assert!(!csrf_token_valid(&None, ""));
}
