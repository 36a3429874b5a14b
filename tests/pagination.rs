use passqr::input::Ordermap;
use passqr::pagination::{grid_cells, paginate, PageGroup};

fn entries(n: usize) -> Ordermap {
    Ordermap::new((0..n).map(|i| (format!("k{}", i), format!("v{}", i))).collect())
}

#[test]
fn end_to_end_three_entries() {
    let map = Ordermap::new(vec![
        ("svc-a".to_string(), "pw1".to_string()),
        ("svc-b".to_string(), "pw2".to_string()),
        ("svc-c".to_string(), "pw3".to_string()),
    ]);
    let pages = paginate(&map, 3, 4).ok().unwrap();
    assert_eq!(pages.len(), 1);
    assert_eq!(pages[0].entries, map);
    assert_eq!(pages[0].cells, vec![(0, 3), (1, 3), (2, 3)]);
    assert_eq!(pages[0].recap, "svc-a = \"pw1\"\nsvc-b = \"pw2\"\nsvc-c = \"pw3\"\n");
}

#[test]
fn exactly_one_full_page() {
    let map = entries(12);
    let pages = paginate(&map, 3, 4).ok().unwrap();
    assert_eq!(pages.len(), 1);
    assert_eq!(pages[0].entries, map);
    let mut cells = pages[0].cells.clone();
    cells.sort();
    let mut all = Vec::new();
    for c in 0..3u32 {
        for r in 0..4u32 {
            all.push((c, r));
        }
    }
    assert_eq!(cells, all);
}

#[test]
fn one_entry_over_a_page() {
    let map = entries(13);
    let pages = paginate(&map, 3, 4).ok().unwrap();
    assert_eq!(pages.len(), 2);
    assert_eq!(pages[0].entries.len(), 12);
    assert_eq!(pages[1].entries.len(), 1);
    assert_eq!(pages[1].cells, vec![(0, 3)]);
    assert_eq!(pages[1].recap, "k12 = \"v12\"\n");
}

#[test]
fn no_entries_no_pages() {
    let pages = paginate(&entries(0), 3, 4).ok().unwrap();
    assert!(pages.is_empty());
}

#[test]
fn pages_reassemble_entries() {
    let map = entries(30);
    let pages = paginate(&map, 2, 3).ok().unwrap();
    assert_eq!(pages.len(), 5);
    let joined: Vec<(String, String)> =
        pages.iter().flat_map(|p| p.entries.iter().to_vec()).collect();
    assert_eq!(joined.as_slice(), map.iter());
}

#[test]
fn cells_read_left_to_right_top_to_bottom() {
    let cells = grid_cells(12, 3, 4);
    assert_eq!(
        cells,
        vec![
            (0, 3), (1, 3), (2, 3),
            (0, 2), (1, 2), (2, 2),
            (0, 1), (1, 1), (2, 1),
            (0, 0), (1, 0), (2, 0),
        ]
    );
    assert_eq!(grid_cells(5, 2, 3), vec![(0, 2), (1, 2), (0, 1), (1, 1), (0, 0)]);
    assert!(grid_cells(0, 3, 4).is_empty());
}

#[test]
fn page_group_keeps_recap() {
    let g = PageGroup::new(entries(2), 3, 4, "x".to_string());
    assert_eq!(g.cells, vec![(0, 3), (1, 3)]);
    assert_eq!(g.recap, "x");
}
