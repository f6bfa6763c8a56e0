//! What the dock operations promise, proved from their specifications.

use vstd::prelude::*;
use crate::panels::world::{
    content_id, lemma_apply_children, lemma_detach_children, lemma_insert_child_at_children,
    lemma_reparent_children, lemma_set_ratio_children, lemma_spawn_children, lemma_apply_frame, lemma_despawn_frame, lemma_detach_frame, lemma_first,
    lemma_insert_child_at_frame, lemma_reparent_frame, lemma_set_ratio_frame, lemma_spawn, lemma_spawn_frame,
    pass_node, DockAreaStyle, NodeQuery, PartView, PassView, WorldView,
};
use crate::panels::tabs::{
    first_tab_id, is_active_in, lucide_codepoint, remove_window_spec, select_tab_spec, spawn_tab_bar_spec, spawn_tab_spec,
    spawn_tabs_spec, tab_part, TabIcon,
};
use crate::panels::populate::{first_content_entity, header_spec, names_of, populate_spec, populates, spawn_contents_spec};
use crate::panels::sidebar::{first_entry_id, spawn_icon_sidebar_spec, spawn_icons_spec};
use crate::panels::drag::{
    drop_command, retarget_spec, hand_over_source, make_room, move_window_spec, new_area_for, place_child, settle, slot_of,
    split_area_id, split_direction, split_spec, wrap_spec,
    CommandView, DragView, DropEdge, DropTarget, FULL_RATIO, DROPPED_RATIO, SPLIT_MIN_RATIO,
};

verus! {

/// Where a click on `tab` acts: the tab row, the area and the window, when the walk from
/// the tab up to its area succeeds and the area's active window is another one.
pub open spec fn select_target(v: WorldView, tab: u64) -> Option<(u64, u64, Seq<char>)> {
    if !v.has(tab) {
        None
    } else {
        match v.node(tab).part {
            PartView::Tab { window_id, .. } => match v.node(tab).parent {
                Some(row) => if !v.has(row) {
                    None
                } else {
                    match v.node(row).parent {
                        Some(bar) => if !v.has(bar) {
                            None
                        } else {
                            match v.node(bar).parent {
                                Some(area) => if !v.has(area) {
                                    None
                                } else {
                                    match v.node(area).part {
                                        PartView::Area { active: Some(cur), .. } => if cur == Some(window_id) {
                                            None
                                        } else {
                                            Some((row, area, window_id))
                                        },
                                        _ => None,
                                    }
                                },
                                None => None,
                            }
                        },
                        None => None,
                    }
                },
                None => None,
            },
            _ => None,
        }
    }
}

/// Clicking a tab of another window than the active one makes that window the area's
/// active window, shows exactly that window's contents in the area, and highlights
/// exactly that window's tabs in the row. Any other click changes nothing.
pub proof fn law_tab_click_switches_window(v: WorldView, tab: u64)
    requires
        v.wf(),
    ensures
        match select_target(v, tab) {
            None => select_tab_spec(v, tab) == v,
            Some((row, area, w)) => {
                let r = select_tab_spec(v, tab);
                &&& r.wf()
                &&& r.node(area).part matches PartView::Area { active: Some(Some(a)), .. } && a == w
                &&& forall|x: u64|
                    r.has(x) && r.node(x).parent == Some(area) && (#[trigger] r.node(x)).part is Content
                        ==> r.node(x).part->Content_shown == (r.node(x).part->Content_window_id == w)
                &&& forall|x: u64|
                    r.has(x) && r.node(x).parent == Some(row) && (#[trigger] r.node(x)).part is Tab
                        ==> r.node(x).part->Tab_highlighted == (r.node(x).part->Tab_window_id == w)
            },
        },
{
    match select_target(v, tab) {
        None => {},
        Some((row, area, w)) => {
            let v1 = v.apply(PassView::Activate(area, Some(w)));
            let v2 = v1.apply(PassView::RetintTabs(Some(row), w));
            let v3 = v2.apply(PassView::SwitchContents(area, w));
            lemma_apply_frame(v, PassView::Activate(area, Some(w)));
            lemma_apply_frame(v1, PassView::RetintTabs(Some(row), w));
            lemma_apply_frame(v2, PassView::SwitchContents(area, w));
            assert(v3 == select_tab_spec(v, tab));
        },
    }
}

/// Closing a window removes its first tab and the first of its contents that has a
/// parent, each with everything below it.
pub proof fn law_close_removes_tab_and_content(v: WorldView, window_id: Seq<char>)
    requires
        v.wf(),
    ensures
        remove_window_spec(v, window_id).wf(),
        match v.first(NodeQuery::TabFor(window_id)) {
            Some(t) => forall|x: u64| #[trigger] v.in_subtree(x, t) ==> !remove_window_spec(v, window_id).has(x),
            None => true,
        },
        ({
            let v1 = match v.first(NodeQuery::TabFor(window_id)) {
                Some(t) => v.despawn(t),
                None => v,
            };
            match v1.first(NodeQuery::ContentFor(window_id)) {
                Some(c) => forall|x: u64| #[trigger] v1.in_subtree(x, c) ==> !remove_window_spec(v, window_id).has(x),
                None => true,
            }
        }),
{
    let v1 = match v.first(NodeQuery::TabFor(window_id)) {
        Some(t) => v.despawn(t),
        None => v,
    };
    lemma_first(v, NodeQuery::TabFor(window_id));
    match v.first(NodeQuery::TabFor(window_id)) {
        Some(t) => lemma_despawn_frame(v, t),
        None => {},
    }
    lemma_first(v1, NodeQuery::ContentFor(window_id));
    match v1.first(NodeQuery::ContentFor(window_id)) {
        None => {},
        Some(c) => {
            let area = v1.node(c).parent->0;
            let v2 = v1.despawn(c);
            lemma_despawn_frame(v1, c);
            lemma_first(v2, NodeQuery::ContentIn(area));
            match v2.first(NodeQuery::ContentIn(area)) {
                None => {},
                Some(f) => {
                    let first_id = content_id(v2.node(f))->0;
                    let v3 = v2.apply(PassView::ReplaceActive(area, window_id, first_id));
                    let v4 = v3.apply(PassView::RevealContents(area, first_id));
                    lemma_apply_frame(v2, PassView::ReplaceActive(area, window_id, first_id));
                    lemma_apply_frame(v3, PassView::RevealContents(area, first_id));
                    lemma_apply_frame(v4, PassView::RetintTabs(None, first_id));
                },
            }
        },
    }
}

/// Moving a window into another area leaves its content hanging, hidden, under the target
/// area.
pub proof fn law_move_lands_hidden_in_target(
    v: WorldView,
    window_id: Seq<char>,
    source_area: u64,
    target_area: u64,
    window_name: Seq<char>,
    icons: bool,
)
    requires
        v.wf(),
        v.next_entity < u64::MAX,
        source_area != target_area,
    ensures
        move_window_spec(v, window_id, source_area, target_area, window_name, icons).wf(),
        ({
            let v1 = match v.first(NodeQuery::TabForIn(window_id, source_area)) {
                Some(t) => v.despawn(t),
                None => v,
            };
            let r = move_window_spec(v, window_id, source_area, target_area, window_name, icons);
            match v1.first(NodeQuery::ContentForIn(window_id, source_area)) {
                Some(c) => r.has(c) && r.node(c).parent == Some(target_area)
                    && r.node(c).part == (PartView::Content { window_id, shown: false }),
                None => true,
            }
        }),
{
    let v1 = match v.first(NodeQuery::TabForIn(window_id, source_area)) {
        Some(t) => v.despawn(t),
        None => v,
    };
    match v.first(NodeQuery::TabForIn(window_id, source_area)) {
        Some(t) => lemma_despawn_frame(v, t),
        None => {},
    }
    lemma_first(v1, NodeQuery::ContentForIn(window_id, source_area));
    let oc = v1.first(NodeQuery::ContentForIn(window_id, source_area));
    let v2 = match oc {
        Some(c) => v1.reparent(c, target_area).apply(PassView::ShowContent(c, false)),
        None => v1,
    };
    match oc {
        Some(c) => {
            lemma_reparent_frame(v1, c, target_area);
            lemma_apply_frame(v1.reparent(c, target_area), PassView::ShowContent(c, false));
            let rv = v1.reparent(c, target_area);
            assert(rv.has(c));
            assert(rv.node(c).entity == c);
            assert(content_id(v1.node(c)) == Some(window_id));
            assert(rv.node(c).part == v1.node(c).part);
            assert(v2.node(c) == pass_node(PassView::ShowContent(c, false), rv.node(c)));
            assert(v2.node(c).parent == Some(target_area));
            assert(v2.node(c).part == (PartView::Content { window_id, shown: false }));
        },
        None => {},
    }
    let v3 = match v2.tab_row_of(target_area) {
        Some(row) => spawn_tab_spec(v2, row, window_id, window_name, false, icons),
        None => v2,
    };
    match v2.tab_row_of(target_area) {
        Some(row) => lemma_spawn_frame(v2, tab_part(window_id, window_name, false, icons), Some(row), None),
        None => {},
    }
    match oc {
        Some(c) => {
            assert(v3.has(c));
            assert(v3.node(c).parent == Some(target_area));
            assert(v3.node(c).part == (PartView::Content { window_id, shown: false }));
        },
        None => {},
    }
    lemma_first(v3, NodeQuery::ContentIn(source_area));
    match v3.first(NodeQuery::ContentIn(source_area)) {
        None => {},
        Some(f) => {
            let first_id = content_id(v3.node(f))->0;
            let v4 = v3.apply(PassView::ReplaceActive(source_area, window_id, first_id));
            let v5 = v4.apply(PassView::RevealContents(source_area, first_id));
            lemma_apply_frame(v3, PassView::ReplaceActive(source_area, window_id, first_id));
            lemma_apply_frame(v4, PassView::RevealContents(source_area, first_id));
            match oc {
                Some(c) => {
                    assert(v4.node(c) == pass_node(PassView::ReplaceActive(source_area, window_id, first_id), v3.node(c)));
                    assert(v5.node(c) == pass_node(PassView::RevealContents(source_area, first_id), v4.node(c)));
                },
                None => {},
            }
        },
    }
}

/// Dropping a window on the tab bar of the area it came from does nothing.
pub proof fn law_drop_on_own_tab_bar_does_nothing<P>(d: DragView<P>)
    requires
        d matches DragView::Dragging { source_area, drop_target: Some(DropTarget::TabBar(t)), .. } && t
            == source_area,
    ensures
        drop_command(d) is None,
{
}


/// Spawning the first `n` tabs adds them, in order, under the row, and leaves every node
/// that was there as it was.
pub proof fn lemma_spawn_tabs(
    v: WorldView,
    row: u64,
    tabs: Seq<(Seq<char>, Seq<char>)>,
    icons: bool,
    n: nat,
)
    requires
        v.wf(),
        n <= tabs.len(),
        v.next_entity + n < u64::MAX,
    ensures
        spawn_tabs_spec(v, row, tabs, icons, n).wf(),
        spawn_tabs_spec(v, row, tabs, icons, n).next_entity == v.next_entity + n,
        forall|x: u64|
            v.has(x) ==> #[trigger] spawn_tabs_spec(v, row, tabs, icons, n).has(x)
                && spawn_tabs_spec(v, row, tabs, icons, n).node(x).part == v.node(x).part
                && spawn_tabs_spec(v, row, tabs, icons, n).node(x).parent == v.node(x).parent,
        forall|j: int|
            0 <= j < n ==> #[trigger] spawn_tabs_spec(v, row, tabs, icons, n).has((v.next_entity + j) as u64)
                && spawn_tabs_spec(v, row, tabs, icons, n).node((v.next_entity + j) as u64).parent == Some(row)
                && spawn_tabs_spec(v, row, tabs, icons, n).node((v.next_entity + j) as u64).part == tab_part(
                tabs[j].0,
                tabs[j].1,
                first_tab_id(tabs) == Some(tabs[j].0),
                icons,
            ),
    decreases n,
{
    if n > 0 {
        let m = (n - 1) as nat;
        lemma_spawn_tabs(v, row, tabs, icons, m);
        let w = spawn_tabs_spec(v, row, tabs, icons, m);
        let part = tab_part(tabs[m as int].0, tabs[m as int].1, first_tab_id(tabs) == Some(tabs[m as int].0), icons);
        lemma_spawn_frame(w, part, Some(row), None);
        crate::panels::world::lemma_spawn(w, part, Some(row), None);
        let r = spawn_tabs_spec(v, row, tabs, icons, n);
        assert(r == w.spawn(part, Some(row), None));
        assert forall|j: int| 0 <= j < n implies #[trigger] r.has((v.next_entity + j) as u64)
            && r.node((v.next_entity + j) as u64).parent == Some(row)
            && r.node((v.next_entity + j) as u64).part == tab_part(
                tabs[j].0,
                tabs[j].1,
                first_tab_id(tabs) == Some(tabs[j].0),
                icons,
            ) by {
            if j < m {
                assert(w.has((v.next_entity + j) as u64));
            }
        }
    }
}

/// A new tab bar holds one tab per window, in order, in its tab row; exactly the tabs of
/// the first window are highlighted; every node that was there stays as it was.
pub proof fn law_tab_bar_highlights_first(
    v: WorldView,
    area: u64,
    tabs: Seq<(Seq<char>, Seq<char>)>,
    icons: bool,
)
    requires
        v.wf(),
        v.next_entity + tabs.len() + 5 < u64::MAX,
    ensures
        ({
            let r = spawn_tab_bar_spec(v, area, tabs, icons);
            let bar = v.next_entity;
            let row = (v.next_entity + 1) as u64;
            &&& r.wf()
            &&& r.next_entity == v.next_entity + tabs.len() + if icons { 5int } else { 3int }
            &&& r.has(bar) && r.node(bar).part == PartView::TabBar && r.node(bar).parent == Some(area)
            &&& r.has(row) && r.node(row).part == PartView::TabRow && r.node(row).parent == Some(bar)
            &&& forall|j: int|
                0 <= j < tabs.len() ==> #[trigger] r.has((v.next_entity + 2 + j) as u64)
                    && r.node((v.next_entity + 2 + j) as u64).parent == Some(row)
                    && r.node((v.next_entity + 2 + j) as u64).part == tab_part(
                    tabs[j].0,
                    tabs[j].1,
                    tabs[j].0 == tabs[0].0,
                    icons,
                )
            &&& keeps(v, r)
        }),
{
    reveal(keeps);
    let bar = v.next_entity;
    let v1 = v.spawn(PartView::TabBar, Some(area), None);
    crate::panels::world::lemma_spawn(v, PartView::TabBar, Some(area), None);
    lemma_spawn_frame(v, PartView::TabBar, Some(area), None);
    let row = v1.next_entity;
    let v2 = v1.spawn(PartView::TabRow, Some(bar), None);
    crate::panels::world::lemma_spawn(v1, PartView::TabRow, Some(bar), None);
    lemma_spawn_frame(v1, PartView::TabRow, Some(bar), None);
    let v3 = spawn_tabs_spec(v2, row, tabs, icons, tabs.len());
    lemma_spawn_tabs(v2, row, tabs, icons, tabs.len());
    let area_id = crate::panels::tabs::area_id_of(v3, area);
    let right = v3.next_entity;
    let v4 = v3.spawn(PartView::ButtonRow, Some(bar), None);
    lemma_spawn_frame(v3, PartView::ButtonRow, Some(bar), None);
    let r = spawn_tab_bar_spec(v, area, tabs, icons);
    assert(forall|x: u64| v3.has(x) ==> #[trigger] v4.has(x) && v4.node(x).part == v3.node(x).part
        && v4.node(x).parent == v3.node(x).parent);
    if icons {
        let p5 = PartView::AddButton { area_id, glyph: lucide_codepoint(TabIcon::Plus) };
        let v5 = v4.spawn(p5, Some(right), None);
        lemma_spawn_frame(v4, p5, Some(right), None);
        lemma_spawn_frame(v5, PartView::Grip { glyph: lucide_codepoint(TabIcon::GripVertical) }, Some(right), None);
        assert(r == v5.spawn(PartView::Grip { glyph: lucide_codepoint(TabIcon::GripVertical) }, Some(right), None));
        assert forall|x: u64| v4.has(x) implies #[trigger] r.has(x) && r.node(x).part == v4.node(x).part
            && r.node(x).parent == v4.node(x).parent by {
            assert(v5.has(x));
        }
    } else {
        assert(r == v4);
    }
    // Whatever v4 holds, r holds with the same part and parent.
    assert(r.wf() && r.next_entity == v4.next_entity + if icons { 2int } else { 0int });
    assert(forall|x: u64| v4.has(x) ==> #[trigger] r.has(x) && r.node(x).part == v4.node(x).part
        && r.node(x).parent == v4.node(x).parent);
    assert forall|x: u64| v.has(x) implies #[trigger] r.has(x) && r.node(x).part == v.node(x).part
        && r.node(x).parent == v.node(x).parent by {
        assert(v1.has(x));
        assert(v2.has(x));
        assert(v3.has(x));
        assert(v4.has(x));
    }
    assert(v2.has(bar) && v3.has(bar) && v4.has(bar));
    assert(v3.has(row) && v4.has(row));
    assert forall|j: int| 0 <= j < tabs.len() implies #[trigger] r.has((v.next_entity + 2 + j) as u64)
        && r.node((v.next_entity + 2 + j) as u64).parent == Some(row)
        && r.node((v.next_entity + 2 + j) as u64).part == tab_part(tabs[j].0, tabs[j].1, tabs[j].0 == tabs[0].0, icons) by {
        assert(v3.has((v2.next_entity + j) as u64));
        assert((v2.next_entity + j) as u64 == (v.next_entity + 2 + j) as u64);
        assert(first_tab_id(tabs) == Some(tabs[0].0));
        assert(v4.has((v.next_entity + 2 + j) as u64));
    }
}

/// Spawning the contents of the first `n` windows adds them, in order, under the area,
/// only the first one shown, and leaves every node that was there as it was.
pub proof fn lemma_spawn_contents(
    v: WorldView,
    area: u64,
    ws: Seq<(Seq<char>, Seq<char>, Option<Seq<char>>)>,
    n: nat,
)
    requires
        v.wf(),
        n <= ws.len(),
        v.next_entity + n < u64::MAX,
    ensures
        spawn_contents_spec(v, area, ws, n).wf(),
        spawn_contents_spec(v, area, ws, n).next_entity == v.next_entity + n,
        forall|x: u64|
            v.has(x) ==> #[trigger] spawn_contents_spec(v, area, ws, n).has(x)
                && spawn_contents_spec(v, area, ws, n).node(x).part == v.node(x).part
                && spawn_contents_spec(v, area, ws, n).node(x).parent == v.node(x).parent,
        forall|j: int|
            0 <= j < n ==> #[trigger] spawn_contents_spec(v, area, ws, n).has((v.next_entity + j) as u64)
                && spawn_contents_spec(v, area, ws, n).node((v.next_entity + j) as u64).parent == Some(area)
                && spawn_contents_spec(v, area, ws, n).node((v.next_entity + j) as u64).part == (PartView::Content {
                window_id: ws[j].0,
                shown: j == 0,
            }),
    decreases n,
{
    if n > 0 {
        let m = (n - 1) as nat;
        lemma_spawn_contents(v, area, ws, m);
        let w = spawn_contents_spec(v, area, ws, m);
        let part = PartView::Content { window_id: ws[m as int].0, shown: m == 0 };
        lemma_spawn_frame(w, part, Some(area), None);
        crate::panels::world::lemma_spawn(w, part, Some(area), None);
        let r = spawn_contents_spec(v, area, ws, n);
        assert(r == w.spawn(part, Some(area), None));
        assert forall|x: u64| v.has(x) implies #[trigger] r.has(x) && r.node(x).part == v.node(x).part
            && r.node(x).parent == v.node(x).parent by {
            assert(w.has(x));
        }
        assert forall|j: int| 0 <= j < n implies #[trigger] r.has((v.next_entity + j) as u64)
            && r.node((v.next_entity + j) as u64).parent == Some(area)
            && r.node((v.next_entity + j) as u64).part == (PartView::Content { window_id: ws[j].0, shown: j == 0 }) by {
            if j < m {
                assert(w.has((v.next_entity + j) as u64));
            }
        }
    }
}

/// Spawning the first `n` sidebar icons leaves every node that was there as it was.
pub proof fn lemma_spawn_icons(
    v: WorldView,
    group: u64,
    ws: Seq<(Seq<char>, Seq<char>, Option<Seq<char>>)>,
    n: nat,
)
    requires
        v.wf(),
        n <= ws.len(),
        v.next_entity + n < u64::MAX,
    ensures
        spawn_icons_spec(v, group, ws, n).wf(),
        spawn_icons_spec(v, group, ws, n).next_entity == v.next_entity + n,
        forall|x: u64|
            v.has(x) ==> #[trigger] spawn_icons_spec(v, group, ws, n).has(x)
                && spawn_icons_spec(v, group, ws, n).node(x).part == v.node(x).part
                && spawn_icons_spec(v, group, ws, n).node(x).parent == v.node(x).parent,
    decreases n,
{
    if n > 0 {
        let m = (n - 1) as nat;
        lemma_spawn_icons(v, group, ws, m);
        let w = spawn_icons_spec(v, group, ws, m);
        let part = PartView::SidebarIcon {
            window_id: ws[m as int].0,
            icon: crate::panels::sidebar::icon_text(ws[m as int].2),
            highlighted: first_entry_id(ws) == Some(ws[m as int].0),
        };
        lemma_spawn_frame(w, part, Some(group), None);
        let r = spawn_icons_spec(v, group, ws, n);
        assert(r == w.spawn(part, Some(group), None));
        assert forall|x: u64| v.has(x) implies #[trigger] r.has(x) && r.node(x).part == v.node(x).part
            && r.node(x).parent == v.node(x).parent by {
            assert(w.has(x));
        }
    }
}

/// Filling an area with windows gives it one content entity per window, in order, of
/// which only the first is shown, and makes the first window the area's active one.
#[verifier::spinoff_prover]
pub proof fn law_populate_shows_first_window(
    v: WorldView,
    area: u64,
    ws: Seq<(Seq<char>, Seq<char>, Option<Seq<char>>)>,
    icons: bool,
)
    requires
        v.wf(),
        v.has(area),
        v.next_entity + 2 * ws.len() + 6 < u64::MAX,
        populates(v, area, ws),
    ensures
        ({
            let r = populate_spec(v, area, ws, icons);
            let b = first_content_entity(v, area, ws, icons);
            &&& r.wf()
            &&& r.node(area).part matches PartView::Area { active: Some(Some(a)), .. } && a == ws[0].0
            &&& forall|j: int|
                0 <= j < ws.len() ==> #[trigger] r.has((b + j) as u64) && r.node((b + j) as u64).parent == Some(area)
                    && r.node((b + j) as u64).part == (PartView::Content { window_id: ws[j].0, shown: j == 0 })
        }),
{
    let style = v.node(area).part->Area_style;
    let v1 = header_spec(v, area, style, ws, icons);
    assert(v1.wf() && v1.has(area) && v1.node(area).part is Area && v1.next_entity + ws.len() < u64::MAX) by {
        match style {
            crate::panels::world::DockAreaStyle::TabBar => {
                law_tab_bar_highlights_first(v, area, names_of(ws), icons);
                lemma_keeps_at(v, v1, area);
            },
            crate::panels::world::DockAreaStyle::IconSidebar => {
                let sidebar = v.next_entity;
                let s1 = v.spawn(PartView::Sidebar, Some(area), None);
                lemma_spawn_frame(v, PartView::Sidebar, Some(area), None);
                let s2 = s1.spawn(PartView::IconGroup, Some(sidebar), None);
                lemma_spawn_frame(s1, PartView::IconGroup, Some(sidebar), None);
                let s3 = spawn_icons_spec(s2, s1.next_entity, ws, ws.len());
                lemma_spawn_icons(s2, s1.next_entity, ws, ws.len());
                lemma_apply_frame(s3, PassView::Activate(area, first_entry_id(ws)));
                assert(s1.has(area));
                assert(s2.has(area));
                assert(s3.has(area));
                assert(s3.node(area).part is Area);
                assert(s3.node(area).entity == area);
                assert(v1 == s3.apply(PassView::Activate(area, first_entry_id(ws))));
            },
            crate::panels::world::DockAreaStyle::Headless => {},
        }
    }
    let v2 = spawn_contents_spec(v1, area, ws, ws.len());
    lemma_spawn_contents(v1, area, ws, ws.len());
    let r = v2.apply(PassView::Activate(area, first_entry_id(ws)));
    lemma_apply_frame(v2, PassView::Activate(area, first_entry_id(ws)));
    assert(r == populate_spec(v, area, ws, icons));
    assert(v2.has(area));
    assert(v2.node(area).part is Area);
    assert(v2.node(area).entity == area);
    assert(r.node(area) == pass_node(PassView::Activate(area, first_entry_id(ws)), v2.node(area)));
    assert forall|j: int| 0 <= j < ws.len() implies #[trigger] r.has((v1.next_entity + j) as u64)
        && r.node((v1.next_entity + j) as u64).parent == Some(area)
        && r.node((v1.next_entity + j) as u64).part == (PartView::Content { window_id: ws[j].0, shown: j == 0 }) by {
        let c = (v1.next_entity + j) as u64;
        assert(v2.has(c));
        assert(r.node(c) == pass_node(PassView::Activate(area, first_entry_id(ws)), v2.node(c)));
    }
    assert(r.wf());
    assert(first_content_entity(v, area, ws, icons) == v1.next_entity);
    assert(r.node(area).part matches PartView::Area { active: Some(Some(a)), .. } && a == ws[0].0);
}

/// `w` holds every node of `v` with the same part and parent.
#[verifier::opaque]
pub open spec fn keeps(v: WorldView, w: WorldView) -> bool {
    forall|x: u64|
        #[trigger] v.has(x) ==> w.has(x) && w.node(x).part == v.node(x).part && w.node(x).parent == v.node(x).parent
}

pub proof fn lemma_keeps_at(v: WorldView, w: WorldView, x: u64)
    requires
        keeps(v, w),
        v.has(x),
    ensures
        w.has(x),
        w.node(x).part == v.node(x).part,
        w.node(x).parent == v.node(x).parent,
{
    reveal(keeps);
}

pub proof fn lemma_spawn_keeps(v: WorldView, part: PartView, parent: Option<u64>, ratio: Option<u32>)
    requires
        v.wf(),
        v.next_entity < u64::MAX,
    ensures
        keeps(v, v.spawn(part, parent, ratio)),
        v.spawn(part, parent, ratio).wf(),
        v.spawn(part, parent, ratio).next_entity == v.next_entity + 1,
        v.spawn(part, parent, ratio).has(v.next_entity),
        v.spawn(part, parent, ratio).node(v.next_entity).part == part,
        v.spawn(part, parent, ratio).node(v.next_entity).parent == parent,
        !v.has(v.next_entity),
{
    reveal(keeps);
    lemma_spawn_frame(v, part, parent, ratio);
    lemma_spawn(v, part, parent, ratio);
}

/// Making room keeps every node but the target where it hangs, with its part, and adds
/// the group.
pub proof fn lemma_make_room(v3: WorldView, target: u64, edge: DropEdge, x: u64)
    requires
        v3.wf(),
        v3.has(target),
        v3.has(x),
        v3.next_entity + 12 < u64::MAX,
    ensures
        ({
            let v6 = make_room(v3, target, edge);
            &&& v6.wf()
            &&& v6.next_entity == v3.next_entity + 1
            &&& v6.has(v3.next_entity)
            &&& v6.node(v3.next_entity).part == (PartView::Group {
                min_ratio: SPLIT_MIN_RATIO,
                direction: split_direction(edge),
            })
            &&& v6.has(x) && v6.node(x).part == v3.node(x).part
            &&& x != target ==> v6.node(x).parent == v3.node(x).parent
        }),
{
    let ratio = match v3.node(target).ratio {
        Some(r) => r,
        None => FULL_RATIO,
    };
    let slot = slot_of(v3, target);
    let v4a = v3.set_ratio(target, None);
    lemma_set_ratio_frame(v3, target, None);
    let v4 = v4a.detach(target);
    lemma_detach_frame(v4a, target);
    assert(v4a.has(x));
    assert(v4.has(x) && v4.node(x).part == v3.node(x).part);
    assert(x != target ==> v4.node(x).parent == v3.node(x).parent);
    let wrapper = v4.next_entity;
    let gpart = PartView::Group { min_ratio: SPLIT_MIN_RATIO, direction: split_direction(edge) };
    let v5 = v4.spawn(gpart, None, Some(ratio));
    lemma_spawn_keeps(v4, gpart, None, Some(ratio));
    lemma_keeps_at(v4, v5, x);
    assert(x != wrapper);
    match slot {
        Some((p, i)) => {
            if v5.has(p) && i <= v5.node(p).children.len() {
                lemma_insert_child_at_frame(v5, p, i, wrapper);
            } else {
                lemma_reparent_frame(v5, wrapper, p);
            }
        },
        None => {},
    }
}

/// Building the new area keeps every node that was there where it hangs, with its part.
pub proof fn lemma_new_area_for(v6: WorldView, window_id: Seq<char>, window_name: Seq<char>, icons: bool, x: u64)
    requires
        v6.wf(),
        v6.has(x),
        v6.next_entity + 10 < u64::MAX,
    ensures
        ({
            let v9 = new_area_for(v6, window_id, window_name, icons);
            let new_area = v6.next_entity;
            &&& v9.wf()
            &&& v9.next_entity == v6.next_entity + if icons { 7int } else { 5int }
            &&& v9.has(new_area) && v9.node(new_area).parent is None
            &&& v9.node(new_area).part == (PartView::Area {
                id: split_area_id(window_id),
                style: DockAreaStyle::TabBar,
                active: Some(Some(window_id)),
            })
            &&& v9.has(x) && v9.node(x).parent == v6.node(x).parent
            &&& (v6.node(x).part is Content ==> v9.node(x).part == v6.node(x).part)
            &&& (v6.node(x).part is Group ==> v9.node(x).part == v6.node(x).part)
        }),
{
    let new_area = v6.next_entity;
    let apart = PartView::Area { id: split_area_id(window_id), style: DockAreaStyle::TabBar, active: None };
    let v7 = v6.spawn(apart, None, None);
    lemma_spawn_keeps(v6, apart, None, None);
    let tabs = seq![(window_id, window_name)];
    let v8 = spawn_tab_bar_spec(v7, new_area, tabs, icons);
    law_tab_bar_highlights_first(v7, new_area, tabs, icons);
    lemma_keeps_at(v7, v8, new_area);
    lemma_keeps_at(v6, v7, x);
    lemma_keeps_at(v7, v8, x);
    let v9 = v8.apply(PassView::Activate(new_area, Some(window_id)));
    lemma_apply_frame(v8, PassView::Activate(new_area, Some(window_id)));
    assert(v8.node(new_area).entity == new_area);
    assert(v8.node(x).entity == x);
    assert(v9.node(x) == pass_node(PassView::Activate(new_area, Some(window_id)), v8.node(x)));
    assert(v9.has(new_area));
}

/// Settling puts the content in the new area, shown, and the new area, the handle and the
/// target in the group.
pub proof fn lemma_settle(
    v9: WorldView,
    target: u64,
    c: u64,
    new_area: u64,
    wrapper: u64,
    edge: DropEdge,
    window_id: Seq<char>,
)
    requires
        v9.wf(),
        v9.next_entity < u64::MAX,
        v9.has(target) && v9.has(c) && v9.has(new_area) && v9.has(wrapper),
        c != target && c != new_area && c != wrapper && new_area != wrapper && target != wrapper,
        new_area != target,
        v9.node(c).part matches PartView::Content { window_id: cw, .. } && cw == window_id,
    ensures
        ({
            let r = settle(v9, target, c, new_area, wrapper, edge);
            let handle = v9.next_entity;
            &&& r.wf()
            &&& r.has(c) && r.node(c).parent == Some(new_area)
            &&& r.node(c).part == (PartView::Content { window_id, shown: true })
            &&& r.has(new_area) && r.node(new_area).parent == Some(wrapper)
            &&& r.node(new_area).part == v9.node(new_area).part
            &&& r.has(target) && r.node(target).parent == Some(wrapper)
            &&& r.has(handle) && r.node(handle).parent == Some(wrapper) && r.node(handle).part == PartView::Handle
            &&& r.has(wrapper) && r.node(wrapper).part == v9.node(wrapper).part
        }),
{
    let v10a = v9.reparent(c, new_area);
    lemma_reparent_frame(v9, c, new_area);
    assert(v10a.has(c) && v10a.has(new_area) && v10a.has(wrapper) && v10a.has(target));
    let v10 = v10a.apply(PassView::ShowContent(c, true));
    lemma_apply_frame(v10a, PassView::ShowContent(c, true));
    assert(v10a.node(c).entity == c);
    assert(v10a.node(new_area).entity == new_area);
    assert(v10a.node(wrapper).entity == wrapper);
    assert(v10.node(c) == pass_node(PassView::ShowContent(c, true), v10a.node(c)));
    assert(v10.node(new_area) == pass_node(PassView::ShowContent(c, true), v10a.node(new_area)));
    assert(v10.node(wrapper) == pass_node(PassView::ShowContent(c, true), v10a.node(wrapper)));
    assert(v10.has(target));
    let handle = v10.next_entity;
    let v11 = v10.spawn(PartView::Handle, None, None);
    lemma_spawn_keeps(v10, PartView::Handle, None, None);
    lemma_keeps_at(v10, v11, c);
    lemma_keeps_at(v10, v11, new_area);
    lemma_keeps_at(v10, v11, target);
    lemma_keeps_at(v10, v11, wrapper);
    let v12a = v11.set_ratio(target, Some(FULL_RATIO));
    lemma_set_ratio_frame(v11, target, Some(FULL_RATIO));
    let v12 = v12a.set_ratio(new_area, Some(DROPPED_RATIO));
    lemma_set_ratio_frame(v12a, new_area, Some(DROPPED_RATIO));
    assert(v12a.has(c) && v12a.has(new_area) && v12a.has(target) && v12a.has(handle) && v12a.has(wrapper));
    assert(v12.has(c) && v12.has(new_area) && v12.has(target) && v12.has(handle) && v12.has(wrapper));
    assert(handle != c && handle != new_area && handle != wrapper && handle != target);
    match edge {
        DropEdge::Top | DropEdge::Left => {
            let r1 = v12.reparent(new_area, wrapper);
            lemma_reparent_frame(v12, new_area, wrapper);
            let r2 = r1.reparent(handle, wrapper);
            lemma_reparent_frame(r1, handle, wrapper);
            lemma_reparent_frame(r2, target, wrapper);
            assert(r1.has(c) && r1.has(handle) && r1.has(target) && r1.has(wrapper));
            assert(r2.has(c) && r2.has(new_area) && r2.has(target) && r2.has(wrapper));
        },
        DropEdge::Bottom | DropEdge::Right => {
            let r1 = v12.reparent(target, wrapper);
            lemma_reparent_frame(v12, target, wrapper);
            let r2 = r1.reparent(handle, wrapper);
            lemma_reparent_frame(r1, handle, wrapper);
            lemma_reparent_frame(r2, new_area, wrapper);
            assert(r1.has(c) && r1.has(handle) && r1.has(new_area) && r1.has(wrapper));
            assert(r2.has(c) && r2.has(new_area) && r2.has(target) && r2.has(wrapper));
        },
    }
}

/// Spawning tabs into a row leaves the children of every other node that was there.
pub proof fn lemma_spawn_tabs_children(
    v: WorldView,
    row: u64,
    tabs: Seq<(Seq<char>, Seq<char>)>,
    icons: bool,
    n: nat,
    x: u64,
)
    requires
        v.wf(),
        n <= tabs.len(),
        v.next_entity + n < u64::MAX,
        v.has(x),
        x != row,
    ensures
        spawn_tabs_spec(v, row, tabs, icons, n).node(x).children == v.node(x).children,
    decreases n,
{
    if n > 0 {
        let m = (n - 1) as nat;
        lemma_spawn_tabs_children(v, row, tabs, icons, m, x);
        lemma_spawn_tabs(v, row, tabs, icons, m);
        let w = spawn_tabs_spec(v, row, tabs, icons, m);
        let i = n - 1;
        let part = tab_part(tabs[i].0, tabs[i].1, first_tab_id(tabs) == Some(tabs[i].0), icons);
        lemma_spawn_children(w, part, Some(row), None);
    }
}

/// Building a tab bar under `area` leaves the children of every other node that was there.
pub proof fn lemma_tab_bar_children(
    v: WorldView,
    area: u64,
    tabs: Seq<(Seq<char>, Seq<char>)>,
    icons: bool,
    x: u64,
)
    requires
        v.wf(),
        v.next_entity + tabs.len() + 5 < u64::MAX,
        v.has(x),
        x != area,
    ensures
        spawn_tab_bar_spec(v, area, tabs, icons).node(x).children == v.node(x).children,
{
    let bar = v.next_entity;
    let v1 = v.spawn(PartView::TabBar, Some(area), None);
    lemma_spawn_frame(v, PartView::TabBar, Some(area), None);
    lemma_spawn_children(v, PartView::TabBar, Some(area), None);
    assert(x != bar);
    let row = v1.next_entity;
    let v2 = v1.spawn(PartView::TabRow, Some(bar), None);
    lemma_spawn_frame(v1, PartView::TabRow, Some(bar), None);
    lemma_spawn_children(v1, PartView::TabRow, Some(bar), None);
    assert(x != row);
    let v3 = spawn_tabs_spec(v2, row, tabs, icons, tabs.len());
    lemma_spawn_tabs(v2, row, tabs, icons, tabs.len());
    lemma_spawn_tabs_children(v2, row, tabs, icons, tabs.len(), x);
    let area_id = crate::panels::tabs::area_id_of(v3, area);
    let right = v3.next_entity;
    assert(x < v.next_entity);
    let v4 = v3.spawn(PartView::ButtonRow, Some(bar), None);
    lemma_spawn_frame(v3, PartView::ButtonRow, Some(bar), None);
    lemma_spawn_children(v3, PartView::ButtonRow, Some(bar), None);
    if icons {
        let ap = PartView::AddButton { area_id, glyph: lucide_codepoint(TabIcon::Plus) };
        let v5 = v4.spawn(ap, Some(right), None);
        lemma_spawn_frame(v4, ap, Some(right), None);
        lemma_spawn_children(v4, ap, Some(right), None);
        let gp = PartView::Grip { glyph: lucide_codepoint(TabIcon::GripVertical) };
        lemma_spawn_children(v5, gp, Some(right), None);
    }
}

/// Making room: the new group has no children yet, the target hangs nowhere, and every
/// other node keeps its children except the target's old parent, which gets the group.
pub proof fn lemma_make_room_children(v3: WorldView, target: u64, edge: DropEdge, x: u64)
    requires
        v3.wf(),
        v3.has(target),
        v3.next_entity + 12 < u64::MAX,
    ensures
        ({
            let v6 = make_room(v3, target, edge);
            &&& v6.node(v3.next_entity).children == Seq::<u64>::empty()
            &&& v6.node(target).parent is None
            &&& (v3.has(x) && v3.node(target).parent != Some(x)) ==> v6.node(x).children == v3.node(x).children
        }),
{
    let ratio = match v3.node(target).ratio {
        Some(r) => r,
        None => FULL_RATIO,
    };
    let slot = slot_of(v3, target);
    let v4a = v3.set_ratio(target, None);
    lemma_set_ratio_frame(v3, target, None);
    lemma_set_ratio_children(v3, target, None);
    let v4 = v4a.detach(target);
    lemma_detach_frame(v4a, target);
    lemma_detach_children(v4a, target);
    let wrapper = v4.next_entity;
    let gpart = PartView::Group { min_ratio: SPLIT_MIN_RATIO, direction: split_direction(edge) };
    let v5 = v4.spawn(gpart, None, Some(ratio));
    lemma_spawn_frame(v4, gpart, None, Some(ratio));
    lemma_spawn_children(v4, gpart, None, Some(ratio));
    lemma_spawn(v4, gpart, None, Some(ratio));
    assert(v5.node(target).parent is None);
    match slot {
        Some((p, i)) => {
            assert(v3.node(target).parent == Some(p));
            assert(p != wrapper);
            if v5.has(p) && i <= v5.node(p).children.len() {
                lemma_insert_child_at_frame(v5, p, i, wrapper);
                lemma_insert_child_at_children(v5, p, i, wrapper);
            } else {
                lemma_reparent_frame(v5, wrapper, p);
                lemma_reparent_children(v5, wrapper, p);
            }
        },
        None => {},
    }
}

/// Building the new area leaves the children and the parent of every node that was there.
pub proof fn lemma_new_area_children(v6: WorldView, window_id: Seq<char>, window_name: Seq<char>, icons: bool, x: u64)
    requires
        v6.wf(),
        v6.has(x),
        v6.next_entity + 10 < u64::MAX,
    ensures
        new_area_for(v6, window_id, window_name, icons).node(x).children == v6.node(x).children,
{
    let new_area = v6.next_entity;
    let apart = PartView::Area { id: split_area_id(window_id), style: DockAreaStyle::TabBar, active: None };
    let v7 = v6.spawn(apart, None, None);
    lemma_spawn_frame(v6, apart, None, None);
    lemma_spawn_children(v6, apart, None, None);
    assert(x != new_area);
    let tabs = seq![(window_id, window_name)];
    let v8 = spawn_tab_bar_spec(v7, new_area, tabs, icons);
    law_tab_bar_highlights_first(v7, new_area, tabs, icons);
    lemma_tab_bar_children(v7, new_area, tabs, icons, x);
    lemma_keeps_at(v7, v8, x);
    lemma_apply_children(v8, PassView::Activate(new_area, Some(window_id)));
}

/// Settling gives the group, in order, the new area, the handle and the target for a top
/// or left edge, and the target, the handle and the new area for a bottom or right edge.
#[verifier::spinoff_prover]
pub proof fn lemma_settle_children(
    v9: WorldView,
    target: u64,
    c: u64,
    new_area: u64,
    wrapper: u64,
    edge: DropEdge,
)
    requires
        v9.wf(),
        v9.next_entity < u64::MAX,
        v9.has(target) && v9.has(c) && v9.has(new_area) && v9.has(wrapper),
        c != target && c != new_area && c != wrapper && new_area != wrapper && target != wrapper,
        new_area != target,
        v9.node(c).parent is None,
        v9.node(target).parent is None,
        v9.node(new_area).parent is None,
        v9.node(wrapper).children == Seq::<u64>::empty(),
    ensures
        ({
            let r = settle(v9, target, c, new_area, wrapper, edge);
            let handle = v9.next_entity;
            r.node(wrapper).children == match edge {
                DropEdge::Top | DropEdge::Left => seq![new_area, handle, target],
                DropEdge::Bottom | DropEdge::Right => seq![target, handle, new_area],
            }
        }),
{
    let v10a = v9.reparent(c, new_area);
    lemma_reparent_frame(v9, c, new_area);
    lemma_reparent_children(v9, c, new_area);
    let p1 = PassView::ShowContent(c, true);
    let v10 = v10a.apply(p1);
    lemma_apply_frame(v10a, p1);
    lemma_apply_children(v10a, p1);
    assert(v10.node(target) == pass_node(p1, v10a.node(target)));
    assert(v10.node(new_area) == pass_node(p1, v10a.node(new_area)));
    let handle = v10.next_entity;
    let v11 = v10.spawn(PartView::Handle, None, None);
    lemma_spawn_frame(v10, PartView::Handle, None, None);
    lemma_spawn_children(v10, PartView::Handle, None, None);
    lemma_spawn(v10, PartView::Handle, None, None);
    let v12a = v11.set_ratio(target, Some(FULL_RATIO));
    lemma_set_ratio_frame(v11, target, Some(FULL_RATIO));
    lemma_set_ratio_children(v11, target, Some(FULL_RATIO));
    let v12 = v12a.set_ratio(new_area, Some(DROPPED_RATIO));
    lemma_set_ratio_frame(v12a, new_area, Some(DROPPED_RATIO));
    lemma_set_ratio_children(v12a, new_area, Some(DROPPED_RATIO));
    assert(v12.has(wrapper) && v12.has(new_area) && v12.has(target) && v12.has(handle));
    assert(v12.node(wrapper).children == Seq::<u64>::empty());
    assert(v12.node(new_area).parent is None);
    assert(v12.node(target).parent is None);
    assert(v12.node(handle).parent is None);
    assert(handle != wrapper && handle != new_area && handle != target);
    match edge {
        DropEdge::Top | DropEdge::Left => {
            let r1 = v12.reparent(new_area, wrapper);
            lemma_reparent_frame(v12, new_area, wrapper);
            lemma_reparent_children(v12, new_area, wrapper);
            let r2 = r1.reparent(handle, wrapper);
            lemma_reparent_frame(r1, handle, wrapper);
            lemma_reparent_children(r1, handle, wrapper);
            lemma_reparent_children(r2, target, wrapper);
            assert(r1.node(wrapper).children == seq![new_area]);
            assert(r2.node(wrapper).children =~= seq![new_area, handle]);
            assert(r2.reparent(target, wrapper).node(wrapper).children =~= seq![new_area, handle, target]);
        },
        DropEdge::Bottom | DropEdge::Right => {
            let r1 = v12.reparent(target, wrapper);
            lemma_reparent_frame(v12, target, wrapper);
            lemma_reparent_children(v12, target, wrapper);
            let r2 = r1.reparent(handle, wrapper);
            lemma_reparent_frame(r1, handle, wrapper);
            lemma_reparent_children(r1, handle, wrapper);
            lemma_reparent_children(r2, new_area, wrapper);
            assert(r1.node(wrapper).children == seq![target]);
            assert(r2.node(wrapper).children =~= seq![target, handle]);
            assert(r2.reparent(new_area, wrapper).node(wrapper).children =~= seq![target, handle, new_area]);
        },
    }
}

/// The wrapping step of a split, given the world after the content `c` left the source
/// area.
pub proof fn lemma_wrap(
    v3: WorldView,
    target: u64,
    edge: DropEdge,
    window_id: Seq<char>,
    c: u64,
    window_name: Seq<char>,
    icons: bool,
)
    requires
        v3.wf(),
        v3.has(target),
        v3.has(c),
        c != target,
        v3.node(c).part matches PartView::Content { window_id: cw, .. } && cw == window_id,
        v3.next_entity + 12 < u64::MAX,
    ensures
        ({
            let r = wrap_spec(v3, target, edge, window_id, c, window_name, icons);
            let wrapper = v3.next_entity;
            let new_area = (v3.next_entity + 1) as u64;
            let handle = (v3.next_entity + if icons { 8int } else { 6int }) as u64;
            &&& r.wf()
            &&& r.has(c) && r.node(c).parent == Some(new_area)
            &&& r.node(c).part == (PartView::Content { window_id, shown: true })
            &&& r.has(new_area) && r.node(new_area).parent == Some(wrapper)
            &&& r.node(new_area).part == (PartView::Area {
                id: split_area_id(window_id),
                style: DockAreaStyle::TabBar,
                active: Some(Some(window_id)),
            })
            &&& r.has(target) && r.node(target).parent == Some(wrapper)
            &&& r.has(handle) && r.node(handle).parent == Some(wrapper) && r.node(handle).part == PartView::Handle
            &&& r.has(wrapper) && r.node(wrapper).part == (PartView::Group {
                min_ratio: SPLIT_MIN_RATIO,
                direction: split_direction(edge),
            })
        }),
{
    let wrapper = v3.next_entity;
    let v6 = make_room(v3, target, edge);
    lemma_make_room(v3, target, edge, c);
    lemma_make_room(v3, target, edge, target);
    let new_area = v6.next_entity;
    let v9 = new_area_for(v6, window_id, window_name, icons);
    lemma_new_area_for(v6, window_id, window_name, icons, c);
    lemma_new_area_for(v6, window_id, window_name, icons, target);
    lemma_new_area_for(v6, window_id, window_name, icons, wrapper);
    assert(!v6.has(new_area)) by {
        lemma_spawn_keeps(v6, PartView::Handle, None, None);
    }
    lemma_settle(v9, target, c, new_area, wrapper, edge, window_id);
}

/// The wrapping step of a split puts, in the new group, the new area before the handle
/// and the handle before the target for a top or left edge, and the other way round for
/// a bottom or right edge.
pub proof fn lemma_wrap_children(
    v3: WorldView,
    target: u64,
    edge: DropEdge,
    window_id: Seq<char>,
    c: u64,
    window_name: Seq<char>,
    icons: bool,
)
    requires
        v3.wf(),
        v3.has(target),
        v3.has(c),
        c != target,
        v3.node(c).parent is None,
        v3.next_entity + 12 < u64::MAX,
    ensures
        ({
            let r = wrap_spec(v3, target, edge, window_id, c, window_name, icons);
            let wrapper = v3.next_entity;
            let new_area = (v3.next_entity + 1) as u64;
            let handle = (v3.next_entity + if icons { 8int } else { 6int }) as u64;
            r.node(wrapper).children == match edge {
                DropEdge::Top | DropEdge::Left => seq![new_area, handle, target],
                DropEdge::Bottom | DropEdge::Right => seq![target, handle, new_area],
            }
        }),
{
    let wrapper = v3.next_entity;
    let v6 = make_room(v3, target, edge);
    lemma_make_room(v3, target, edge, c);
    lemma_make_room(v3, target, edge, target);
    lemma_make_room_children(v3, target, edge, c);
    let new_area = v6.next_entity;
    let v9 = new_area_for(v6, window_id, window_name, icons);
    lemma_new_area_for(v6, window_id, window_name, icons, c);
    lemma_new_area_for(v6, window_id, window_name, icons, target);
    lemma_new_area_for(v6, window_id, window_name, icons, wrapper);
    lemma_new_area_children(v6, window_id, window_name, icons, wrapper);
    assert(!v6.has(new_area)) by {
        lemma_spawn_keeps(v6, PartView::Handle, None, None);
    }
    lemma_settle_children(v9, target, c, new_area, wrapper, edge);
}

/// Dropping a window on an area's edge, when the source area holds the window's content
/// and the target area does not hang below the window's tab:
/// a new group takes the target area's place; the target area and a new tab-style area
/// for the window hang in that group, with a handle between them; the window's content
/// hangs, shown, in the new area, whose active window it is. The new area comes first in
/// the group for a top or left edge and last for a bottom or right edge.
pub proof fn law_split_wraps_target(
    v: WorldView,
    target: u64,
    edge: DropEdge,
    window_id: Seq<char>,
    source_area: u64,
    window_name: Seq<char>,
    icons: bool,
)
    requires
        v.wf(),
        v.has(target),
        v.node(target).part is Area,
        v.next_entity + 12 < u64::MAX,
        match v.first(NodeQuery::TabForIn(window_id, source_area)) {
            Some(t) => !v.in_subtree(target, t),
            None => true,
        },
    ensures
        ({
            let v1 = match v.first(NodeQuery::TabForIn(window_id, source_area)) {
                Some(t) => v.despawn(t),
                None => v,
            };
            let r = split_spec(v, target, edge, window_id, source_area, window_name, icons);
            let wrapper = v.next_entity;
            let new_area = (v.next_entity + 1) as u64;
            let handle = (v.next_entity + if icons { 8int } else { 6int }) as u64;
            match v1.first(NodeQuery::ContentForIn(window_id, source_area)) {
                None => r == v1,
                Some(c) => {
                    &&& r.wf()
                    &&& r.has(c) && r.node(c).parent == Some(new_area)
                    &&& r.node(c).part == (PartView::Content { window_id, shown: true })
                    &&& r.has(new_area) && r.node(new_area).parent == Some(wrapper)
                    &&& r.node(new_area).part == (PartView::Area {
                        id: split_area_id(window_id),
                        style: DockAreaStyle::TabBar,
                        active: Some(Some(window_id)),
                    })
                    &&& r.has(target) && r.node(target).parent == Some(wrapper)
                    &&& r.has(handle) && r.node(handle).parent == Some(wrapper) && r.node(handle).part == PartView::Handle
                    &&& r.has(wrapper) && r.node(wrapper).part == (PartView::Group {
                        min_ratio: SPLIT_MIN_RATIO,
                        direction: split_direction(edge),
                    })
                    &&& r.node(wrapper).children == match edge {
                        DropEdge::Top | DropEdge::Left => seq![new_area, handle, target],
                        DropEdge::Bottom | DropEdge::Right => seq![target, handle, new_area],
                    }
                },
            }
        }),
{
    let ot = v.first(NodeQuery::TabForIn(window_id, source_area));
    lemma_first(v, NodeQuery::TabForIn(window_id, source_area));
    let v1 = match ot {
        Some(t) => v.despawn(t),
        None => v,
    };
    match ot {
        Some(t) => {
            lemma_despawn_frame(v, t);
            assert(t != target);
            assert(v.despawn(t).has(target) == (v.has(target) && !v.in_subtree(target, t)));
            assert(v.despawn(t).node(target).part == v.node(target).part);
        },
        None => {},
    }
    assert(v1.wf() && v1.next_entity == v.next_entity && v1.has(target) && v1.node(target).part is Area);
    lemma_first(v1, NodeQuery::ContentForIn(window_id, source_area));
    match v1.first(NodeQuery::ContentForIn(window_id, source_area)) {
        None => {},
        Some(c) => {
            assert(c != target);
            let of = v1.first(NodeQuery::ContentInExcept(source_area, window_id));
            lemma_first(v1, NodeQuery::ContentInExcept(source_area, window_id));
            let v2 = hand_over_source(v1, source_area, window_id);
            match of {
                Some(f) => {
                    let first_id = content_id(v1.node(f))->0;
                    let a1 = v1.apply(PassView::ReplaceActive(source_area, window_id, first_id));
                    lemma_apply_frame(v1, PassView::ReplaceActive(source_area, window_id, first_id));
                    lemma_apply_frame(a1, PassView::RevealContents(source_area, first_id));
                    assert(v1.node(c).entity == c);
                    assert(a1.node(c) == pass_node(PassView::ReplaceActive(source_area, window_id, first_id), v1.node(c)));
                    assert(v2.node(c) == pass_node(PassView::RevealContents(source_area, first_id), a1.node(c)));
                },
                None => {},
            }
            assert(v2.wf() && v2.next_entity == v.next_entity && v2.has(target) && v2.has(c));
            assert(v2.node(c).part == v1.node(c).part);
            let v3 = v2.detach(c);
            lemma_detach_frame(v2, c);
            lemma_wrap(v3, target, edge, window_id, c, window_name, icons);
            lemma_wrap_children(v3, target, edge, window_id, c, window_name, icons);
        },
    }
}

/// When a window leaves an area that has other contents, the first of them becomes the
/// area's active window (when the leaving one was active), and that window's content is
/// shown; every node stays where it hangs.
pub proof fn law_hand_over_activates_first_remaining(
    v: WorldView,
    area: u64,
    window_id: Seq<char>,
    id: Seq<char>,
    style: DockAreaStyle,
)
    requires
        v.wf(),
        v.has(area),
        v.node(area).part == (PartView::Area { id, style, active: Some(Some(window_id)) }),
    ensures
        ({
            let r = hand_over_source(v, area, window_id);
            match v.first(NodeQuery::ContentInExcept(area, window_id)) {
                Some(f) => {
                    let first_id = content_id(v.node(f))->0;
                    &&& first_id != window_id
                    &&& r.node(area).part == (PartView::Area { id, style, active: Some(Some(first_id)) })
                    &&& r.has(f) && r.node(f).parent == Some(area)
                    &&& r.node(f).part == (PartView::Content { window_id: first_id, shown: true })
                    &&& forall|x: u64| #[trigger] r.has(x) == v.has(x)
                    &&& forall|x: u64| v.has(x) ==> #[trigger] r.node(x).parent == v.node(x).parent
                },
                None => r == v,
            }
        }),
{
    lemma_first(v, NodeQuery::ContentInExcept(area, window_id));
    match v.first(NodeQuery::ContentInExcept(area, window_id)) {
        Some(f) => {
            let first_id = content_id(v.node(f))->0;
            let p1 = PassView::ReplaceActive(area, window_id, first_id);
            let p2 = PassView::RevealContents(area, first_id);
            let a1 = v.apply(p1);
            lemma_apply_frame(v, p1);
            lemma_apply_frame(a1, p2);
            assert(a1.node(area) == pass_node(p1, v.node(area)));
            assert(a1.node(f) == pass_node(p1, v.node(f)));
            assert forall|x: u64| v.has(x) implies #[trigger] hand_over_source(v, area, window_id).node(x).parent
                == v.node(x).parent by {
                assert(a1.node(x) == pass_node(p1, v.node(x)));
            }
        },
        None => {},
    }
}

/// Closing a window that is not the active one of its area changes no part of any node
/// that stays: no other window is activated or shown, and no tab is restyled.
pub proof fn law_close_inactive_window_restyles_nothing(v: WorldView, window_id: Seq<char>)
    requires
        v.wf(),
    ensures
        ({
            let v1 = match v.first(NodeQuery::TabFor(window_id)) {
                Some(t) => v.despawn(t),
                None => v,
            };
            let r = remove_window_spec(v, window_id);
            match v1.first(NodeQuery::ContentFor(window_id)) {
                Some(c) => {
                    let area = v1.node(c).parent->0;
                    !is_active_in(v1.despawn(c), area, window_id) ==> forall|x: u64|
                        #[trigger] r.has(x) ==> v.has(x) && r.node(x).part == v.node(x).part
                },
                None => forall|x: u64| #[trigger] r.has(x) ==> v.has(x) && r.node(x).part == v.node(x).part,
            }
        }),
{
    let v1 = match v.first(NodeQuery::TabFor(window_id)) {
        Some(t) => v.despawn(t),
        None => v,
    };
    match v.first(NodeQuery::TabFor(window_id)) {
        Some(t) => lemma_despawn_frame(v, t),
        None => {},
    }
    assert(v1.wf());
    assert forall|x: u64| #[trigger] v1.has(x) implies v.has(x) && v1.node(x).part == v.node(x).part by {}
    match v1.first(NodeQuery::ContentFor(window_id)) {
        Some(c) => {
            lemma_despawn_frame(v1, c);
        },
        None => {},
    }
}

/// Closing the active window of an area that still holds contents makes the first of
/// them the area's active window and shows it.
pub proof fn law_close_active_window_activates_first_remaining(v: WorldView, window_id: Seq<char>)
    requires
        v.wf(),
    ensures
        ({
            let v1 = match v.first(NodeQuery::TabFor(window_id)) {
                Some(t) => v.despawn(t),
                None => v,
            };
            let r = remove_window_spec(v, window_id);
            match v1.first(NodeQuery::ContentFor(window_id)) {
                Some(c) => {
                    let area = v1.node(c).parent->0;
                    let v2 = v1.despawn(c);
                    match v2.first(NodeQuery::ContentIn(area)) {
                        Some(f) => is_active_in(v2, area, window_id) ==> {
                            let first_id = content_id(v2.node(f))->0;
                            &&& is_active_in(r, area, first_id)
                            &&& r.has(f) && r.node(f).part == (PartView::Content { window_id: first_id, shown: true })
                        },
                        None => true,
                    }
                },
                None => true,
            }
        }),
{
    let v1 = match v.first(NodeQuery::TabFor(window_id)) {
        Some(t) => v.despawn(t),
        None => v,
    };
    match v.first(NodeQuery::TabFor(window_id)) {
        Some(t) => lemma_despawn_frame(v, t),
        None => {},
    }
    match v1.first(NodeQuery::ContentFor(window_id)) {
        Some(c) => {
            let area = v1.node(c).parent->0;
            let v2 = v1.despawn(c);
            lemma_despawn_frame(v1, c);
            lemma_first(v2, NodeQuery::ContentIn(area));
            match v2.first(NodeQuery::ContentIn(area)) {
                Some(f) => {
                    if is_active_in(v2, area, window_id) {
                        let first_id = content_id(v2.node(f))->0;
                        let p1 = PassView::ReplaceActive(area, window_id, first_id);
                        let p2 = PassView::RevealContents(area, first_id);
                        let p3 = PassView::RetintTabs(None, first_id);
                        let a1 = v2.apply(p1);
                        let a2 = a1.apply(p2);
                        lemma_apply_frame(v2, p1);
                        lemma_apply_frame(a1, p2);
                        lemma_apply_frame(a2, p3);
                        assert(a1.node(area) == pass_node(p1, v2.node(area)));
                        assert(a2.node(area) == pass_node(p2, a1.node(area)));
                        assert(a1.node(f) == pass_node(p1, v2.node(f)));
                        assert(a2.node(f) == pass_node(p2, a1.node(f)));
                        assert(a2.apply(p3).node(area) == pass_node(p3, a2.node(area)));
                        assert(a2.apply(p3).node(f) == pass_node(p3, a2.node(f)));
                    }
                },
                None => {},
            }
        },
        None => {},
    }
}

/// Ending a drag whose drop target is an area's edge splits that area at that edge with
/// the dragged window, whatever area the window came from (its own included); a drop on
/// another area's tab bar moves the window there; a drag without a target, or a drag
/// that never started, issues nothing.
pub proof fn law_drop_commands<P>(d: DragView<P>)
    ensures
        d matches DragView::Dragging { window_id, source_area, drop_target: Some(DropTarget::AreaEdge { area, edge }), .. }
            ==> drop_command(d) == Some(CommandView::SplitArea { target_area: area, edge, window_id, source_area }),
        d matches DragView::Dragging { window_id, source_area, drop_target: Some(DropTarget::TabBar(t)), .. }
            ==> drop_command(d) == if t != source_area {
                Some(CommandView::MoveToArea { window_id, source_area, target_area: t })
            } else {
                None
            },
        d matches DragView::Dragging { drop_target: None, .. } ==> drop_command(d) is None,
        !(d is Dragging) ==> drop_command(d) is None,
{
}

/// Retargeting a drag onto an area's edge and then dropping it splits that area with the
/// dragged window, from the area the drag started in, even when the two are the same.
pub proof fn law_retarget_to_edge_then_drop_splits<P>(
    d: DragView<P>,
    area: u64,
    edge: DropEdge,
    overlay: Option<u64>,
    cursor: P,
)
    requires
        d is Dragging,
    ensures
        drop_command(retarget_spec(d, Some(DropTarget::AreaEdge { area, edge }), overlay, cursor)) == Some(
            CommandView::SplitArea {
                target_area: area,
                edge,
                window_id: d->Dragging_window_id,
                source_area: d->Dragging_source_area,
            },
        ),
{
}

/// Moving a window that is not the source area's active window leaves the source
/// area's active-window record as it was; moving the active one, when other contents
/// stay, makes the first of them active. The source area keeps its id and style.
pub proof fn law_move_keeps_source_active_unless_moved(
    v: WorldView,
    window_id: Seq<char>,
    source_area: u64,
    target_area: u64,
    window_name: Seq<char>,
    icons: bool,
    id: Seq<char>,
    style: DockAreaStyle,
    active: Option<Option<Seq<char>>>,
)
    requires
        v.wf(),
        v.next_entity < u64::MAX,
        v.has(source_area),
        v.node(source_area).part == (PartView::Area { id, style, active }),
        match v.first(NodeQuery::TabForIn(window_id, source_area)) {
            Some(t) => !v.in_subtree(source_area, t),
            None => true,
        },
    ensures
        ({
            let r = move_window_spec(v, window_id, source_area, target_area, window_name, icons);
            &&& r.has(source_area)
            &&& r.node(source_area).part matches PartView::Area { id: rid, style: rstyle, active: ractive }
                && rid == id && rstyle == style
                && (active != Some(Some(window_id)) ==> ractive == active)
        }),
{
    let ot = v.first(NodeQuery::TabForIn(window_id, source_area));
    let v1 = match ot {
        Some(t) => v.despawn(t),
        None => v,
    };
    match ot {
        Some(t) => {
            lemma_despawn_frame(v, t);
            assert(v1.has(source_area) == (v.has(source_area) && !v.in_subtree(source_area, t)));
        },
        None => {},
    }
    assert(v1.wf() && v1.next_entity == v.next_entity && v1.has(source_area));
    assert(v1.node(source_area).part == v.node(source_area).part);
    let oc = v1.first(NodeQuery::ContentForIn(window_id, source_area));
    let v2 = match oc {
        Some(c) => v1.reparent(c, target_area).apply(PassView::ShowContent(c, false)),
        None => v1,
    };
    match oc {
        Some(c) => {
            let rv = v1.reparent(c, target_area);
            lemma_reparent_frame(v1, c, target_area);
            lemma_apply_frame(rv, PassView::ShowContent(c, false));
            assert(v2.node(source_area) == pass_node(PassView::ShowContent(c, false), rv.node(source_area)));
        },
        None => {},
    }
    assert(v2.wf() && v2.next_entity == v.next_entity && v2.has(source_area));
    assert(v2.node(source_area).part == v.node(source_area).part);
    let v3 = match v2.tab_row_of(target_area) {
        Some(row) => spawn_tab_spec(v2, row, window_id, window_name, false, icons),
        None => v2,
    };
    match v2.tab_row_of(target_area) {
        Some(row) => lemma_spawn_frame(v2, tab_part(window_id, window_name, false, icons), Some(row), None),
        None => {},
    }
    assert(v3.wf() && v3.has(source_area));
    assert(v3.node(source_area).part == v.node(source_area).part);
    match v3.first(NodeQuery::ContentIn(source_area)) {
        None => {},
        Some(f) => {
            let first_id = content_id(v3.node(f))->0;
            let p1 = PassView::ReplaceActive(source_area, window_id, first_id);
            let p2 = PassView::RevealContents(source_area, first_id);
            let a1 = v3.apply(p1);
            lemma_apply_frame(v3, p1);
            lemma_apply_frame(a1, p2);
            assert(a1.node(source_area) == pass_node(p1, v3.node(source_area)));
            assert(a1.apply(p2).node(source_area) == pass_node(p2, a1.node(source_area)));
        },
    }
}

} // verus!
