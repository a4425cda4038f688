use artist_portfolio::catalog::{find_by_slug, group_by_year, newest_first, next_project, prev_project, Project};
use artist_portfolio::date::Date;

fn project(id: u128, title: &str, year: i32, month: u8, day: u8) -> Project {
    Project {
        id,
        title: title.to_string(),
        slug: title.to_lowercase(),
        description: None,
        start_date: Date { year, month, day },
        end_date: None,
        thumbnail_url: None,
    }
}

fn sample() -> Vec<Project> {
    // newest first, as the store lists them
    vec![
        project(3, "Gamma", 2024, 1, 1),
        project(2, "Beta", 2023, 6, 1),
        project(1, "Alpha", 2023, 1, 1),
    ]
}

#[test]
fn index_grouping_example() {
    let groups = group_by_year(sample());
    let shape: Vec<(i32, Vec<String>)> = groups
        .iter()
        .map(|(y, ps)| (*y, ps.iter().map(|p| p.title.clone()).collect()))
        .collect();
    assert_eq!(
        shape,
        vec![
            (2024, vec!["Gamma".to_string()]),
            (2023, vec!["Beta".to_string(), "Alpha".to_string()]),
        ]
    );
}

#[test]
fn neighbours_example() {
    let ps = sample();
    let beta = &ps[1];
    let next = next_project(&ps, &beta.start_date).unwrap();
    let prev = prev_project(&ps, &beta.start_date).unwrap();
    assert_eq!(ps[next].title, "Alpha");
    assert_eq!(ps[prev].title, "Gamma");
    assert_eq!(next_project(&ps, &ps[2].start_date), None);
    assert_eq!(prev_project(&ps, &ps[0].start_date), None);
}

#[test]
fn grouping_keeps_order_within_a_year_and_sorts_years() {
    let ps = vec![
        project(1, "A", 2020, 5, 1),
        project(2, "B", 2022, 1, 1),
        project(3, "C", 2020, 1, 1),
        project(4, "D", 2021, 3, 3),
    ];
    let groups = group_by_year(ps);
    let years: Vec<i32> = groups.iter().map(|g| g.0).collect();
    assert_eq!(years, vec![2022, 2021, 2020]);
    let in_2020: Vec<&str> = groups[2].1.iter().map(|p| p.title.as_str()).collect();
    assert_eq!(in_2020, vec!["A", "C"]);
}

#[test]
fn grouping_nothing_gives_no_groups() {
    assert!(group_by_year(vec![]).is_empty());
}

#[test]
fn neighbours_use_strict_inequality() {
    let ps = vec![
        project(1, "A", 2023, 3, 1),
        project(2, "B", 2023, 3, 1),
        project(3, "C", 2022, 12, 31),
        project(4, "D", 2023, 3, 2),
    ];
    let d = Date { year: 2023, month: 3, day: 1 };
    assert_eq!(next_project(&ps, &d), Some(2));
    assert_eq!(prev_project(&ps, &d), Some(3));
}

#[test]
fn slug_lookup() {
    let ps = sample();
    assert_eq!(find_by_slug(&ps, "beta"), Some(1));
    assert_eq!(find_by_slug(&ps, "delta"), None);
}

#[test]
fn newest_first_is_stable() {
    let ps = vec![
        project(1, "A", 2021, 1, 1),
        project(2, "B", 2023, 5, 5),
        project(3, "C", 2021, 1, 1),
        project(4, "D", 2022, 12, 31),
    ];
    assert_eq!(newest_first(&ps), vec![1, 3, 0, 2]);
    assert!(newest_first(&vec![]).is_empty());
}

#[test]
fn ties_take_the_first_listed() {
    let ps = vec![
        project(1, "A", 2020, 1, 1),
        project(2, "B", 2021, 1, 1),
        project(3, "C", 2020, 1, 1),
        project(4, "D", 2022, 1, 1),
        project(5, "E", 2022, 1, 1),
    ];
    let d = Date { year: 2021, month: 1, day: 1 };
    assert_eq!(next_project(&ps, &d), Some(0));
    assert_eq!(prev_project(&ps, &d), Some(3));
}
