use jackdaw::panels::drag::{
    apply_dock_command, display_name, move_window_to_area, split_area_with_window, DockCommand, DockDragState,
    DropEdge, DropTarget, NO_ENTITY,
};
use jackdaw::panels::populate::populate_single_area;
use jackdaw::panels::world::{DockAreaStyle, DockPart, DockWorld, FlexDirection};

fn win(id: &str, name: &str) -> (String, String, Option<String>) {
    (id.to_string(), name.to_string(), None)
}

/// A group (0) holding a left area (1, ratio 600) and a right area (2), each with a tab bar.
/// Left: bar 3, row 4, tabs 5 (scene) 6 (assets), button row 7, contents 8 (scene) 9 (assets).
/// Right: bar 10, row 11, tab 12 (console), button row 13, content 14 (console).
fn two_areas() -> DockWorld {
    let mut w = DockWorld::new();
    let g = w.spawn(DockPart::Group { min_ratio: 150, direction: FlexDirection::Row }, None, None);
    let l = w.spawn(
        DockPart::Area { id: "left".to_string(), style: DockAreaStyle::TabBar, active: None },
        Some(g),
        Some(600),
    );
    let r = w.spawn(
        DockPart::Area { id: "right".to_string(), style: DockAreaStyle::TabBar, active: None },
        Some(g),
        Some(400),
    );
    populate_single_area(&mut w, l, &vec![win("scene", "Scene"), win("assets", "Assets")], false);
    populate_single_area(&mut w, r, &vec![win("console", "Console")], false);
    w
}

fn names() -> Vec<(String, String)> {
    vec![("scene".to_string(), "Scene View".to_string()), ("console".to_string(), "Console".to_string())]
}

fn part(w: &DockWorld, e: u64) -> &DockPart {
    &w.get(e).expect("entity exists").part
}

fn active(w: &DockWorld, area: u64) -> Option<Option<String>> {
    match part(w, area) {
        DockPart::Area { active, .. } => active.clone(),
        other => panic!("not an area: {:?}", other),
    }
}

#[test]
fn layout_of_the_fixture() {
    let w = two_areas();
    assert_eq!(w.get(0).unwrap().children, vec![1, 2]);
    assert_eq!(w.get(4).unwrap().children, vec![5, 6]);
    assert_eq!(w.get(11).unwrap().children, vec![12]);
    assert_eq!(w.get(1).unwrap().children, vec![3, 8, 9]);
    assert_eq!(w.next_entity, 15);
}

#[test]
fn display_name_prefers_the_registered_name() {
    assert_eq!(display_name(&names(), &"scene".to_string()), "Scene View");
    assert_eq!(display_name(&names(), &"assets".to_string()), "assets");
}

#[test]
fn moving_a_window_into_another_tab_bar() {
    let mut w = two_areas();
    move_window_to_area(&mut w, &"scene".to_string(), 1, 2, &"Scene View".to_string(), false);
    // the tab left the left area, the content now hangs, hidden, in the right area
    assert!(w.get(5).is_none());
    assert_eq!(w.get(8).unwrap().parent, Some(2));
    assert!(matches!(part(&w, 8), DockPart::Content { shown: false, .. }));
    assert_eq!(w.get(2).unwrap().children, vec![10, 14, 8]);
    assert_eq!(w.get(1).unwrap().children, vec![3, 9]);
    // a new, dimmed tab in the right area's row
    assert_eq!(w.get(11).unwrap().children, vec![12, 15]);
    match part(&w, 15) {
        DockPart::Tab { window_id, label, highlighted, .. } => {
            assert_eq!(window_id, "scene");
            assert_eq!(label, "Scene View");
            assert!(!highlighted);
        },
        other => panic!("{:?}", other),
    }
    // the left area falls back to its remaining window
    assert_eq!(active(&w, 1), Some(Some("assets".to_string())));
    assert!(matches!(part(&w, 9), DockPart::Content { shown: true, .. }));
    // the right area keeps its active window
    assert_eq!(active(&w, 2), Some(Some("console".to_string())));
}

#[test]
fn moving_an_inactive_window_keeps_the_source_active_window() {
    let mut w = two_areas();
    move_window_to_area(&mut w, &"assets".to_string(), 1, 2, &"assets".to_string(), false);
    assert!(w.get(6).is_none());
    assert_eq!(w.get(9).unwrap().parent, Some(2));
    assert_eq!(active(&w, 1), Some(Some("scene".to_string())));
}

#[test]
fn splitting_the_top_edge_puts_the_window_first() {
    let mut w = two_areas();
    split_area_with_window(&mut w, 2, DropEdge::Top, &"scene".to_string(), 1, &"Scene View".to_string(), false);
    // wrapper 15 takes the right area's place and share
    let wrapper = 15;
    assert_eq!(w.get(0).unwrap().children, vec![1, wrapper]);
    assert_eq!(w.get(wrapper).unwrap().parent, Some(0));
    assert_eq!(w.get(wrapper).unwrap().ratio, Some(400));
    assert!(matches!(part(&w, wrapper), DockPart::Group { min_ratio: 150, direction: FlexDirection::Column }));
    // new area 16, its tab bar 17, row 18, tab 19, button row 20; handle 21
    let new_area = 16;
    let handle = 21;
    match part(&w, new_area) {
        DockPart::Area { id, style, active } => {
            assert_eq!(id, "split_scene");
            assert_eq!(*style, DockAreaStyle::TabBar);
            assert_eq!(*active, Some(Some("scene".to_string())));
        },
        other => panic!("{:?}", other),
    }
    assert_eq!(w.get(wrapper).unwrap().children, vec![new_area, handle, 2]);
    assert!(matches!(part(&w, handle), DockPart::Handle));
    assert_eq!(w.get(2).unwrap().ratio, Some(1000));
    assert_eq!(w.get(new_area).unwrap().ratio, Some(350));
    assert_eq!(w.get(8).unwrap().parent, Some(new_area));
    assert!(matches!(part(&w, 8), DockPart::Content { shown: true, .. }));
    assert_eq!(w.get(new_area).unwrap().children, vec![17, 8]);
    assert!(matches!(part(&w, 19), DockPart::Tab { highlighted: true, .. }));
    // the source area falls back to its remaining window
    assert!(w.get(5).is_none());
    assert_eq!(active(&w, 1), Some(Some("assets".to_string())));
}

#[test]
fn splitting_the_right_edge_puts_the_window_last() {
    let mut w = two_areas();
    split_area_with_window(&mut w, 2, DropEdge::Right, &"scene".to_string(), 1, &"Scene View".to_string(), false);
    assert_eq!(w.get(15).unwrap().children, vec![2, 21, 16]);
    assert!(matches!(part(&w, 15), DockPart::Group { direction: FlexDirection::Row, .. }));
}

#[test]
fn splitting_without_the_content_only_removes_the_tab() {
    let mut w = two_areas();
    split_area_with_window(&mut w, 2, DropEdge::Left, &"scene".to_string(), 2, &"Scene View".to_string(), false);
    // no tab of "scene" under the right area, no content of it there: nothing changes
    assert_eq!(w.next_entity, 15);
    assert!(w.get(5).is_some());
}

#[test]
fn a_drag_from_a_tab_to_another_tab_bar_moves_the_window() {
    let w = two_areas();
    let mut drag: DockDragState<(i32, i32)> = DockDragState::new();
    drag.on_tab_drag_start(&w, &names(), 5, (10, 10));
    match &drag {
        DockDragState::PendingDrag { source_tab, window_id, window_name, start_pos } => {
            assert_eq!(*source_tab, 5);
            assert_eq!(window_id, "scene");
            assert_eq!(window_name, "Scene View");
            assert_eq!(*start_pos, (10, 10));
        },
        _ => panic!("expected a pending drag"),
    }
    assert!(drag.is_pending());
    drag.begin_dragging(&w, 100, (40, 40));
    match &drag {
        DockDragState::Dragging { source_area, ghost_entity, drop_target, overlay_entity, .. } => {
            assert_eq!(*source_area, 1);
            assert_eq!(*ghost_entity, 100);
            assert_eq!(*drop_target, None);
            assert_eq!(*overlay_entity, None);
        },
        _ => panic!("expected a drag"),
    }
    drag.retarget(Some(DropTarget::TabBar(2)), Some(101), (50, 50));
    assert_eq!(drag.overlay(), Some(101));
    let outcome = drag.on_drag_end();
    assert!(matches!(drag, DockDragState::Idle));
    assert_eq!(outcome.despawn, vec![100, 101]);
    match outcome.command {
        Some(DockCommand::MoveToArea { window_id, source_area, target_area }) => {
            assert_eq!(window_id, "scene");
            assert_eq!(source_area, 1);
            assert_eq!(target_area, 2);
        },
        _ => panic!("expected a move"),
    }
}

#[test]
fn dropping_on_the_own_tab_bar_does_nothing() {
    let w = two_areas();
    let mut drag: DockDragState<(i32, i32)> = DockDragState::new();
    drag.on_tab_drag_start(&w, &names(), 5, (0, 0));
    drag.begin_dragging(&w, 100, (30, 0));
    drag.retarget(Some(DropTarget::TabBar(1)), None, (31, 0));
    let outcome = drag.on_drag_end();
    assert_eq!(outcome.despawn, vec![100]);
    assert!(outcome.command.is_none());
}

#[test]
fn dropping_on_an_edge_splits_and_applies() {
    let mut w = two_areas();
    let mut drag: DockDragState<(i32, i32)> = DockDragState::new();
    drag.on_tab_drag_start(&w, &names(), 5, (0, 0));
    drag.begin_dragging(&w, 100, (30, 0));
    drag.retarget(Some(DropTarget::AreaEdge { area: 2, edge: DropEdge::Bottom }), Some(102), (31, 0));
    let outcome = drag.on_drag_end();
    let command = outcome.command.expect("a split");
    assert!(matches!(command, DockCommand::SplitArea { target_area: 2, edge: DropEdge::Bottom, source_area: 1, .. }));
    apply_dock_command(&mut w, &command, &names(), false);
    assert_eq!(w.get(15).unwrap().children, vec![2, 21, 16]);
    match part(&w, 19) {
        DockPart::Tab { label, .. } => assert_eq!(label, "Scene View"),
        other => panic!("{:?}", other),
    }
}

#[test]
fn ending_a_pending_drag_issues_nothing() {
    let w = two_areas();
    let mut drag: DockDragState<(i32, i32)> = DockDragState::new();
    drag.on_tab_drag_start(&w, &names(), 5, (0, 0));
    let outcome = drag.on_drag_end();
    assert!(outcome.despawn.is_empty());
    assert!(outcome.command.is_none());
    assert!(matches!(drag, DockDragState::Idle));
}

#[test]
fn escape_cancels_a_drag() {
    let w = two_areas();
    let mut drag: DockDragState<(i32, i32)> = DockDragState::new();
    drag.on_tab_drag_start(&w, &names(), 5, (0, 0));
    drag.begin_dragging(&w, 100, (30, 0));
    drag.retarget(None, Some(103), (31, 0));
    assert!(drag.cancel_drag_on_escape(false).is_empty());
    assert!(matches!(drag, DockDragState::Dragging { .. }));
    assert_eq!(drag.cancel_drag_on_escape(true), vec![100, 103]);
    assert!(matches!(drag, DockDragState::Idle));
}

#[test]
fn a_drag_start_elsewhere_is_ignored() {
    let w = two_areas();
    let mut drag: DockDragState<(i32, i32)> = DockDragState::new();
    drag.on_tab_drag_start(&w, &names(), 8, (0, 0));
    assert!(matches!(drag, DockDragState::Idle));
    drag.on_sidebar_icon_drag_start(&w, &names(), 5, (0, 0));
    assert!(matches!(drag, DockDragState::Idle));
    drag.on_grip_drag_start(&w, &names(), 5, (0, 0));
    assert!(matches!(drag, DockDragState::Idle));
}

#[test]
fn a_grip_drags_the_active_window_of_its_area() {
    let mut w = two_areas();
    let grip = w.spawn(DockPart::Grip { glyph: 'g' }, Some(13), None);
    let mut drag: DockDragState<(i32, i32)> = DockDragState::new();
    drag.on_grip_drag_start(&w, &names(), grip, (1, 2));
    match &drag {
        DockDragState::PendingDrag { source_tab, window_id, window_name, .. } => {
            assert_eq!(*source_tab, grip);
            assert_eq!(window_id, "console");
            assert_eq!(window_name, "Console");
        },
        _ => panic!("expected a pending drag"),
    }
}

#[test]
fn a_drag_from_outside_any_area_has_no_source_area() {
    let mut w = DockWorld::new();
    let row = w.spawn(DockPart::TabRow, None, None);
    let tab = w.spawn(
        DockPart::Tab {
            window_id: "loose".to_string(),
            label: "Loose".to_string(),
            highlighted: false,
            close_glyph: None,
            close_shown: false,
        },
        Some(row),
        None,
    );
    let mut drag: DockDragState<u8> = DockDragState::new();
    drag.on_tab_drag_start(&w, &Vec::new(), tab, 0);
    drag.begin_dragging(&w, 9, 1);
    assert!(matches!(drag, DockDragState::Dragging { source_area: NO_ENTITY, .. }));
}
