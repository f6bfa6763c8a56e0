use jackdaw::panels::populate::{activate_first_window, populate_header, populate_single_area, spawn_window_content};
use jackdaw::panels::sidebar::{handle_sidebar_icon_clicks, spawn_icon_sidebar_world};
use jackdaw::panels::tabs::{handle_dock_tab_clicks, on_close_button_click, remove_window_from_area, show_close_on_hover, spawn_tab_in_world};
use jackdaw::panels::world::{DockAreaStyle, DockPart, DockWorld};

fn area_world(style: DockAreaStyle) -> (DockWorld, u64) {
    let mut w = DockWorld::new();
    let a = w.spawn(DockPart::Area { id: "left".to_string(), style, active: None }, None, None);
    (w, a)
}

fn windows() -> Vec<(String, String, Option<String>)> {
    vec![
        ("hierarchy".to_string(), "Hierarchy".to_string(), Some("H".to_string())),
        ("assets".to_string(), "Assets".to_string(), None),
        ("console".to_string(), "Console".to_string(), None),
    ]
}

fn part(w: &DockWorld, e: u64) -> &DockPart {
    &w.get(e).expect("entity exists").part
}

fn active(w: &DockWorld, area: u64) -> Option<Option<String>> {
    match part(w, area) {
        DockPart::Area { active, .. } => active.clone(),
        other => panic!("not an area: {:?}", other),
    }
}

fn tab_state(w: &DockWorld, e: u64) -> (String, bool) {
    match part(w, e) {
        DockPart::Tab { window_id, highlighted, .. } => (window_id.clone(), *highlighted),
        other => panic!("not a tab: {:?}", other),
    }
}

fn shown(w: &DockWorld, e: u64) -> bool {
    match part(w, e) {
        DockPart::Content { shown, .. } => *shown,
        other => panic!("not a content: {:?}", other),
    }
}

#[test]
fn populate_tab_area_builds_bar_tabs_and_contents() {
    let (mut w, a) = area_world(DockAreaStyle::TabBar);
    let contents = populate_single_area(&mut w, a, &windows(), true);
    // area 0; bar 1; row 2; tabs 3..6; button row 6; add 7; grip 8; contents 9..12
    assert_eq!(contents, vec![9, 10, 11]);
    assert_eq!(w.next_entity, 12);
    assert!(matches!(part(&w, 1), DockPart::TabBar));
    assert_eq!(w.get(1).unwrap().parent, Some(a));
    assert!(matches!(part(&w, 2), DockPart::TabRow));
    assert_eq!(w.get(2).unwrap().parent, Some(1));
    assert_eq!(tab_state(&w, 3), ("hierarchy".to_string(), true));
    assert_eq!(tab_state(&w, 4), ("assets".to_string(), false));
    assert_eq!(tab_state(&w, 5), ("console".to_string(), false));
    match part(&w, 3) {
        DockPart::Tab { label, close_glyph, close_shown, .. } => {
            assert_eq!(label, "Hierarchy");
            assert_eq!(*close_glyph, Some('\u{e1b2}'));
            assert!(!close_shown);
        },
        _ => unreachable!(),
    }
    assert!(matches!(part(&w, 6), DockPart::ButtonRow));
    match part(&w, 7) {
        DockPart::AddButton { area_id, glyph } => {
            assert_eq!(area_id, "left");
            assert_eq!(*glyph, '\u{e13d}');
        },
        other => panic!("{:?}", other),
    }
    assert!(matches!(part(&w, 8), DockPart::Grip { glyph: '\u{e0eb}' }));
    assert!(shown(&w, 9));
    assert!(!shown(&w, 10));
    assert!(!shown(&w, 11));
    assert_eq!(w.get(10).unwrap().parent, Some(a));
    assert_eq!(active(&w, a), Some(Some("hierarchy".to_string())));
    assert_eq!(w.get(a).unwrap().children, vec![1, 9, 10, 11]);
    assert_eq!(w.get(2).unwrap().children, vec![3, 4, 5]);
}

#[test]
fn populate_without_icon_font_has_no_buttons() {
    let (mut w, a) = area_world(DockAreaStyle::TabBar);
    let contents = populate_single_area(&mut w, a, &windows(), false);
    // bar 1, row 2, tabs 3..6, button row 6, contents 7..10
    assert_eq!(contents, vec![7, 8, 9]);
    assert!(matches!(part(&w, 3), DockPart::Tab { close_glyph: None, .. }));
    assert!(w.get(6).unwrap().children.is_empty());
}

#[test]
fn populate_sidebar_area_builds_icons() {
    let (mut w, a) = area_world(DockAreaStyle::IconSidebar);
    let contents = populate_single_area(&mut w, a, &windows(), true);
    // sidebar 1, group 2, icons 3..6, contents 6..9
    assert_eq!(contents, vec![6, 7, 8]);
    match part(&w, 3) {
        DockPart::SidebarIcon { window_id, icon, highlighted } => {
            assert_eq!(window_id, "hierarchy");
            assert_eq!(icon, "H");
            assert!(*highlighted);
        },
        other => panic!("{:?}", other),
    }
    match part(&w, 4) {
        DockPart::SidebarIcon { icon, highlighted, .. } => {
            assert_eq!(icon, "?");
            assert!(!*highlighted);
        },
        other => panic!("{:?}", other),
    }
    assert_eq!(active(&w, a), Some(Some("hierarchy".to_string())));
}

#[test]
fn populate_headless_area_only_adds_contents() {
    let (mut w, a) = area_world(DockAreaStyle::Headless);
    let contents = populate_single_area(&mut w, a, &windows(), true);
    assert_eq!(contents, vec![1, 2, 3]);
    assert!(shown(&w, 1));
    assert!(!shown(&w, 3));
}

#[test]
fn populate_with_no_windows_does_nothing() {
    let (mut w, a) = area_world(DockAreaStyle::TabBar);
    let contents = populate_single_area(&mut w, a, &Vec::new(), true);
    assert!(contents.is_empty());
    assert_eq!(w.nodes.len(), 1);
    assert_eq!(active(&w, a), None);
}

#[test]
fn populate_on_a_non_area_does_nothing() {
    let mut w = DockWorld::new();
    let e = w.spawn(DockPart::TabBar, None, None);
    let contents = populate_single_area(&mut w, e, &windows(), true);
    assert!(contents.is_empty());
    assert_eq!(w.nodes.len(), 1);
}

#[test]
fn clicking_a_tab_switches_the_window() {
    let (mut w, a) = area_world(DockAreaStyle::TabBar);
    populate_single_area(&mut w, a, &windows(), true);
    handle_dock_tab_clicks(&mut w, &vec![4]);
    assert_eq!(active(&w, a), Some(Some("assets".to_string())));
    assert!(!tab_state(&w, 3).1);
    assert!(tab_state(&w, 4).1);
    assert!(!tab_state(&w, 5).1);
    assert!(!shown(&w, 9));
    assert!(shown(&w, 10));
    assert!(!shown(&w, 11));
}

#[test]
fn clicking_the_active_tab_changes_nothing() {
    let (mut w, a) = area_world(DockAreaStyle::TabBar);
    populate_single_area(&mut w, a, &windows(), true);
    handle_dock_tab_clicks(&mut w, &vec![3]);
    assert_eq!(active(&w, a), Some(Some("hierarchy".to_string())));
    assert!(shown(&w, 9));
    assert!(!shown(&w, 10));
}

#[test]
fn clicks_apply_in_order() {
    let (mut w, a) = area_world(DockAreaStyle::TabBar);
    populate_single_area(&mut w, a, &windows(), true);
    handle_dock_tab_clicks(&mut w, &vec![4, 5]);
    assert_eq!(active(&w, a), Some(Some("console".to_string())));
    assert!(shown(&w, 11));
    assert!(!shown(&w, 10));
}

#[test]
fn clicking_a_sidebar_icon_switches_the_window() {
    let (mut w, a) = area_world(DockAreaStyle::IconSidebar);
    populate_single_area(&mut w, a, &windows(), true);
    handle_sidebar_icon_clicks(&mut w, &vec![5]);
    assert_eq!(active(&w, a), Some(Some("console".to_string())));
    assert!(matches!(part(&w, 5), DockPart::SidebarIcon { highlighted: true, .. }));
    assert!(matches!(part(&w, 3), DockPart::SidebarIcon { highlighted: false, .. }));
    assert!(!shown(&w, 6));
    assert!(shown(&w, 8));
}

#[test]
fn closing_the_active_window_activates_the_first_remaining() {
    let (mut w, a) = area_world(DockAreaStyle::TabBar);
    populate_single_area(&mut w, a, &windows(), true);
    handle_dock_tab_clicks(&mut w, &vec![4]);
    remove_window_from_area(&mut w, &"assets".to_string());
    assert!(w.get(4).is_none());
    assert!(w.get(10).is_none());
    assert_eq!(active(&w, a), Some(Some("hierarchy".to_string())));
    assert!(shown(&w, 9));
    assert!(tab_state(&w, 3).1);
    assert!(!tab_state(&w, 5).1);
    assert_eq!(w.get(2).unwrap().children, vec![3, 5]);
    assert_eq!(w.get(a).unwrap().children, vec![1, 9, 11]);
}

#[test]
fn closing_another_window_keeps_the_active_one() {
    let (mut w, a) = area_world(DockAreaStyle::TabBar);
    populate_single_area(&mut w, a, &windows(), true);
    remove_window_from_area(&mut w, &"console".to_string());
    assert!(w.get(5).is_none());
    assert!(w.get(11).is_none());
    assert_eq!(active(&w, a), Some(Some("hierarchy".to_string())));
    assert!(tab_state(&w, 3).1);
    assert!(!tab_state(&w, 4).1);
}

#[test]
fn closing_the_last_window_leaves_the_active_record() {
    let (mut w, a) = area_world(DockAreaStyle::TabBar);
    let one = vec![("only".to_string(), "Only".to_string(), None)];
    populate_single_area(&mut w, a, &one, false);
    remove_window_from_area(&mut w, &"only".to_string());
    assert_eq!(active(&w, a), Some(Some("only".to_string())));
    assert_eq!(w.get(a).unwrap().children, vec![1]);
}

#[test]
fn closing_an_unknown_window_changes_nothing() {
    let (mut w, a) = area_world(DockAreaStyle::TabBar);
    populate_single_area(&mut w, a, &windows(), true);
    let before = w.nodes.len();
    remove_window_from_area(&mut w, &"nope".to_string());
    assert_eq!(w.nodes.len(), before);
}

#[test]
fn hovering_a_tab_shows_its_close_button() {
    let (mut w, a) = area_world(DockAreaStyle::TabBar);
    populate_single_area(&mut w, a, &windows(), true);
    show_close_on_hover(&mut w, 4, true);
    assert!(matches!(part(&w, 4), DockPart::Tab { close_shown: true, .. }));
    show_close_on_hover(&mut w, 4, false);
    assert!(matches!(part(&w, 4), DockPart::Tab { close_shown: false, .. }));
}

#[test]
fn a_tab_without_close_button_never_shows_one() {
    let (mut w, a) = area_world(DockAreaStyle::TabBar);
    populate_single_area(&mut w, a, &windows(), false);
    show_close_on_hover(&mut w, 4, true);
    assert!(matches!(part(&w, 4), DockPart::Tab { close_shown: false, .. }));
}

#[test]
fn spawning_a_tab_appends_it_to_the_row() {
    let (mut w, a) = area_world(DockAreaStyle::TabBar);
    populate_single_area(&mut w, a, &windows(), false);
    let t = spawn_tab_in_world(&mut w, 2, &"extra".to_string(), &"Extra".to_string(), false, false);
    assert_eq!(t, 10);
    assert_eq!(w.get(2).unwrap().children, vec![3, 4, 5, 10]);
    assert_eq!(tab_state(&w, 10), ("extra".to_string(), false));
}

#[test]
fn clicking_a_close_button_closes_its_window() {
    let (mut w, a) = area_world(DockAreaStyle::TabBar);
    populate_single_area(&mut w, a, &windows(), true);
    // tabs 3..6 (hierarchy, assets, console); contents 9..12
    on_close_button_click(&mut w, 3);
    assert!(w.get(3).is_none());
    assert!(w.get(9).is_none());
    assert_eq!(active(&w, a), Some(Some("assets".to_string())));
    assert!(shown(&w, 10));
    assert!(tab_state(&w, 4).1);
}

#[test]
fn a_close_click_without_a_close_button_does_nothing() {
    let (mut w, a) = area_world(DockAreaStyle::TabBar);
    populate_single_area(&mut w, a, &windows(), false);
    let before = w.nodes.len();
    on_close_button_click(&mut w, 3);
    assert_eq!(w.nodes.len(), before);
    on_close_button_click(&mut w, 2);
    assert_eq!(w.nodes.len(), before);
    assert_eq!(active(&w, a), Some(Some("hierarchy".to_string())));
}

#[test]
fn closing_a_window_removes_what_hangs_below_its_content() {
    let (mut w, a) = area_world(DockAreaStyle::TabBar);
    populate_single_area(&mut w, a, &windows(), true);
    // contents 9..12; a node below the hierarchy content, and one below that
    let below = w.spawn(DockPart::Handle, Some(9), None);
    let deeper = w.spawn(DockPart::Handle, Some(below), None);
    remove_window_from_area(&mut w, &"hierarchy".to_string());
    assert!(w.get(9).is_none());
    assert!(w.get(below).is_none());
    assert!(w.get(deeper).is_none());
    assert!(w.get(10).is_some());
}

#[test]
fn a_world_with_a_repeated_entity_is_not_well_formed() {
    let (mut w, a) = area_world(DockAreaStyle::TabBar);
    populate_single_area(&mut w, a, &windows(), true);
    assert!(w.is_well_formed());
    let copy = w.get(3).unwrap().entity;
    w.nodes[4].entity = copy;
    assert!(!w.is_well_formed());
    let mut v = DockWorld::new();
    v.spawn(DockPart::Handle, None, None);
    v.next_entity = 0;
    assert!(!v.is_well_formed());
}

#[test]
fn closing_an_inactive_window_reveals_nothing() {
    let (mut w, a) = area_world(DockAreaStyle::TabBar);
    populate_single_area(&mut w, a, &windows(), true);
    // make "console" active: contents 9 (hierarchy), 10 (assets), 11 (console)
    handle_dock_tab_clicks(&mut w, &vec![5]);
    remove_window_from_area(&mut w, &"hierarchy".to_string());
    assert_eq!(active(&w, a), Some(Some("console".to_string())));
    assert!(!shown(&w, 10));
    assert!(shown(&w, 11));
    assert!(!tab_state(&w, 4).1);
    assert!(tab_state(&w, 5).1);
}

#[test]
fn a_sidebar_on_any_entity_records_its_active_window() {
    let mut w = DockWorld::new();
    let host = w.spawn(DockPart::Handle, None, None);
    spawn_icon_sidebar_world(&mut w, host, &windows());
    assert_eq!(w.get(host).unwrap().host_active, Some(Some("hierarchy".to_string())));
    assert!(matches!(part(&w, host), DockPart::Handle));
    assert_eq!(w.get(host).unwrap().children, vec![1]);
}

#[test]
fn populating_step_by_step_matches_populating_at_once() {
    let (mut w, a) = area_world(DockAreaStyle::TabBar);
    let ws = windows();
    assert_eq!(populate_header(&mut w, a, &ws, true), Some(DockAreaStyle::TabBar));
    let mut built = Vec::new();
    for (i, (id, _, _)) in ws.iter().enumerate() {
        let c = spawn_window_content(&mut w, a, id, i == 0);
        built.push(c);
    }
    activate_first_window(&mut w, a, &ws);
    let (mut once, b) = area_world(DockAreaStyle::TabBar);
    let contents = populate_single_area(&mut once, b, &ws, true);
    assert_eq!(built, contents);
    assert_eq!(active(&w, a), active(&once, b));
    assert_eq!(w.nodes.len(), once.nodes.len());
    let mut h = DockWorld::new();
    let e = h.spawn(DockPart::Handle, None, None);
    assert_eq!(populate_header(&mut h, e, &ws, true), None);
}
