use jackdaw::panels::workspace::{WorkspaceDescriptor, WorkspaceRegistry};
use jackdaw::panels::workspace_tabs::{strips_to_fill, StripCandidate, handle_workspace_tab_clicks, populate_workspace_tabs, update_workspace_tab_visuals};

fn ws(id: &str, name: &str) -> WorkspaceDescriptor<u32, ()> {
    WorkspaceDescriptor { id: id.to_string(), name: name.to_string(), icon: None, accent_color: 0x5a8cff, layout: () }
}

fn registry() -> WorkspaceRegistry<u32, ()> {
    let mut r = WorkspaceRegistry::new();
    r.register(ws("scene", "Scene"));
    r.register(ws("animation", "Animation"));
    r.register(ws("scripting", "Scripting"));
    r
}

#[test]
fn the_first_registered_workspace_is_active() {
    let r = registry();
    assert_eq!(r.active, Some("scene".to_string()));
    assert_eq!(r.iter().len(), 3);
    assert_eq!(r.active_workspace().map(|w| w.name.clone()), Some("Scene".to_string()));
}

#[test]
fn get_finds_a_workspace_by_id() {
    let r = registry();
    assert_eq!(r.get("animation").map(|w| w.name.as_str()), Some("Animation"));
    assert!(r.get("missing").is_none());
}

#[test]
fn set_active_ignores_unknown_ids() {
    let mut r = registry();
    r.set_active("animation");
    assert_eq!(r.active, Some("animation".to_string()));
    r.set_active("missing");
    assert_eq!(r.active, Some("animation".to_string()));
}

#[test]
fn an_empty_registry_has_no_active_workspace() {
    let r: WorkspaceRegistry<u32, ()> = WorkspaceRegistry::new();
    assert!(r.active_workspace().is_none());
}

#[test]
fn clicking_tabs_switches_and_reports() {
    let mut r = registry();
    let pressed = vec!["scene".to_string(), "scripting".to_string(), "scripting".to_string(), "ghost".to_string()];
    let events = handle_workspace_tab_clicks(&mut r, &pressed);
    assert_eq!(events.len(), 2);
    assert_eq!(events[0].old, Some("scene".to_string()));
    assert_eq!(events[0].new, "scripting");
    // a click on an unregistered id still reports, but the active workspace stays
    assert_eq!(events[1].old, Some("scripting".to_string()));
    assert_eq!(events[1].new, "ghost");
    assert_eq!(r.active, Some("scripting".to_string()));
}

#[test]
fn visuals_follow_the_active_workspace() {
    let r = registry();
    let tabs = vec!["scene".to_string(), "animation".to_string(), "other".to_string()];
    assert_eq!(update_workspace_tab_visuals(&r, &tabs), vec![true, false, false]);
}

#[test]
fn each_empty_strip_gets_one_tab_per_workspace() {
    let r = registry();
    let plan = populate_workspace_tabs(&r, &vec![70, 71]);
    assert_eq!(plan.len(), 6);
    let got: Vec<(u64, usize, bool)> = plan.iter().map(|p| (p.strip, p.workspace, p.active)).collect();
    assert_eq!(got, vec![(70, 0, true), (70, 1, false), (70, 2, false), (71, 0, true), (71, 1, false), (71, 2, false)]);
    assert!(populate_workspace_tabs(&r, &Vec::new()).is_empty());
}

#[test]
fn only_empty_strips_that_are_not_tabs_are_filled() {
    let cs = vec![
        StripCandidate { entity: 1, is_workspace_tab: false, child_count: 0 },
        StripCandidate { entity: 2, is_workspace_tab: false, child_count: 3 },
        StripCandidate { entity: 3, is_workspace_tab: true, child_count: 0 },
        StripCandidate { entity: 4, is_workspace_tab: false, child_count: 0 },
    ];
    assert_eq!(strips_to_fill(&cs), vec![1, 4]);
    assert!(strips_to_fill(&Vec::new()).is_empty());
}
