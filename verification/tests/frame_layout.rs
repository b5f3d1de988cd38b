use zenith_scene::frame_layout::{
    flow_participants, grid_layout, node_skipped_in_flow, FlowChild, GridCell,
};

fn child(role: Option<&str>, visible: Option<bool>) -> FlowChild {
    FlowChild {
        role: role.map(|r| r.to_string()),
        visible,
    }
}

#[test]
fn skipped_when_hidden_or_guide() {
    assert!(node_skipped_in_flow(Some("guide"), None));
    assert!(node_skipped_in_flow(None, Some(false)));
    assert!(!node_skipped_in_flow(None, Some(true)));
    assert!(!node_skipped_in_flow(Some("Guide"), None));
    assert!(!node_skipped_in_flow(None, None));
}

#[test]
fn participants_keep_source_order() {
    let kids = vec![
        child(None, None),
        child(Some("guide"), None),
        child(None, Some(false)),
        child(Some("decor"), Some(true)),
    ];
    assert_eq!(flow_participants(&kids), vec![0, 3]);
}

#[test]
fn grid_auto_rows_fit_children() {
    let kids: Vec<FlowChild> = (0..5).map(|_| child(None, None)).collect();
    let plan = grid_layout(&kids, Some(2), None);
    assert_eq!(plan.cols, 2);
    assert_eq!(plan.rows, 3);
    assert_eq!(
        plan.cells,
        vec![
            GridCell { child: 0, col: 0, row: 0 },
            GridCell { child: 1, col: 1, row: 0 },
            GridCell { child: 2, col: 0, row: 1 },
            GridCell { child: 3, col: 1, row: 1 },
            GridCell { child: 4, col: 0, row: 2 },
        ]
    );
}

#[test]
fn grid_defaults_and_minimums() {
    let kids = vec![child(None, None), child(Some("guide"), None), child(None, None)];
    // No columns -> 1 column; zero columns clamps to 1; rows=0 clamps to 1.
    let plan = grid_layout(&kids, None, Some(0));
    assert_eq!((plan.cols, plan.rows), (1, 1));
    assert_eq!(
        plan.cells,
        vec![GridCell { child: 0, col: 0, row: 0 }, GridCell { child: 2, col: 0, row: 1 }]
    );
    let plan = grid_layout(&kids, Some(0), None);
    assert_eq!((plan.cols, plan.rows), (1, 2));
    let empty = grid_layout(&[], Some(3), None);
    assert_eq!((empty.cols, empty.rows), (3, 1));
    assert!(empty.cells.is_empty());
}

#[test]
fn grid_exact_fill_has_no_extra_row() {
    let kids: Vec<FlowChild> = (0..6).map(|_| child(None, None)).collect();
    let plan = grid_layout(&kids, Some(3), None);
    assert_eq!(plan.rows, 2);
}
