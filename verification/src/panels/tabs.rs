//! Tab bars of dock areas: building them, switching tabs, closing tabs.

use vstd::prelude::*;
use crate::panels::world::{content_id, lemma_first, DockPart, DockWorld, NodeQuery, Pass, PassView, PartView, Probe, WorldView};

verus! {

/// The icons that a tab bar draws.
#[derive(Clone, Copy, PartialEq, Eq, Structural, Debug)]
pub enum TabIcon {
    /// The "add window" button.
    Plus,
    /// The grip that drags the area's active window.
    GripVertical,
    /// The close button of a tab.
    X,
}

/// The code point of each icon in the lucide icon font.
pub open spec fn lucide_codepoint(icon: TabIcon) -> char {
    match icon {
        TabIcon::Plus => '\u{e13d}',
        TabIcon::GripVertical => '\u{e0eb}',
        TabIcon::X => '\u{e1b2}',
    }
}

/// Calls `lucide_icons::Icon::unicode`, which maps each icon to its fixed code point in
/// the bundled lucide font; the contract states that table's entries for these icons.
#[verifier::external_body]
fn icon_glyph(icon: TabIcon) -> (c: char)
    ensures
        c == lucide_codepoint(icon),
{
    match icon {
        TabIcon::Plus => lucide_icons::Icon::Plus.unicode(),
        TabIcon::GripVertical => lucide_icons::Icon::GripVertical.unicode(),
        TabIcon::X => lucide_icons::Icon::X.unicode(),
    }
}

/// The tab that `spawn_tab` builds. A tab gets a close button only when the icon font is
/// loaded, and the close button starts hidden.
pub open spec fn tab_part(window_id: Seq<char>, label: Seq<char>, is_active: bool, icons: bool) -> PartView {
    PartView::Tab {
        window_id,
        label,
        highlighted: is_active,
        close_glyph: if icons { Some(lucide_codepoint(TabIcon::X)) } else { None },
        close_shown: false,
    }
}

pub open spec fn spawn_tab_spec(
    v: WorldView,
    tab_row: u64,
    window_id: Seq<char>,
    label: Seq<char>,
    is_active: bool,
    icons: bool,
) -> WorldView {
    v.spawn(tab_part(window_id, label, is_active, icons), Some(tab_row), None)
}

/// The view of a list of (window id, label) pairs.
pub open spec fn pairs_view(tabs: Seq<(String, String)>) -> Seq<(Seq<char>, Seq<char>)> {
    tabs.map_values(|t: (String, String)| (t.0@, t.1@))
}

/// The first window id of a list of tabs.
pub open spec fn first_tab_id(tabs: Seq<(Seq<char>, Seq<char>)>) -> Option<Seq<char>> {
    if tabs.len() > 0 {
        Some(tabs[0].0)
    } else {
        None
    }
}

/// Spawns the first `n` tabs of `tabs` into `tab_row`; a tab is active when its window
/// is the first one of the list.
pub open spec fn spawn_tabs_spec(
    v: WorldView,
    tab_row: u64,
    tabs: Seq<(Seq<char>, Seq<char>)>,
    icons: bool,
    n: nat,
) -> WorldView
    decreases n,
{
    if n == 0 {
        v
    } else {
        let i = n - 1;
        spawn_tab_spec(
            spawn_tabs_spec(v, tab_row, tabs, icons, (n - 1) as nat),
            tab_row,
            tabs[i].0,
            tabs[i].1,
            first_tab_id(tabs) == Some(tabs[i].0),
            icons,
        )
    }
}

/// The id of a dock area, or the empty text when `e` is no dock area.
pub open spec fn area_id_of(v: WorldView, e: u64) -> Seq<char> {
    if v.has(e) {
        match v.node(e).part {
            PartView::Area { id, .. } => id,
            _ => Seq::empty(),
        }
    } else {
        Seq::empty()
    }
}

/// What `spawn_tab_bar_world` builds under `area`: a tab bar holding a row of tabs and a
/// row of buttons; the add button and the grip only when the icon font is loaded.
pub open spec fn spawn_tab_bar_spec(
    v: WorldView,
    area: u64,
    tabs: Seq<(Seq<char>, Seq<char>)>,
    icons: bool,
) -> WorldView {
    let bar = v.next_entity;
    let v1 = v.spawn(PartView::TabBar, Some(area), None);
    let row = v1.next_entity;
    let v2 = v1.spawn(PartView::TabRow, Some(bar), None);
    let v3 = spawn_tabs_spec(v2, row, tabs, icons, tabs.len());
    let area_id = area_id_of(v3, area);
    let right = v3.next_entity;
    let v4 = v3.spawn(PartView::ButtonRow, Some(bar), None);
    if icons {
        let v5 = v4.spawn(
            PartView::AddButton { area_id, glyph: lucide_codepoint(TabIcon::Plus) },
            Some(right),
            None,
        );
        v5.spawn(PartView::Grip { glyph: lucide_codepoint(TabIcon::GripVertical) }, Some(right), None)
    } else {
        v4
    }
}

/// Spawns one tab into a tab row.
pub fn spawn_tab_in_world(
    world: &mut DockWorld,
    tab_row: u64,
    window_id: &String,
    label: &String,
    is_active: bool,
    icons: bool,
) -> (tab: u64)
    requires
        old(world)@.wf(),
        old(world).next_entity < u64::MAX,
    ensures
        tab == old(world).next_entity,
        final(world).next_entity == old(world).next_entity + 1,
        final(world)@ == spawn_tab_spec(old(world)@, tab_row, window_id@, label@, is_active, icons),
        final(world)@.wf(),
{
    spawn_tab(world, tab_row, window_id, label, is_active, icons)
}

fn spawn_tab(
    world: &mut DockWorld,
    tab_row: u64,
    window_id: &String,
    label: &String,
    is_active: bool,
    icons: bool,
) -> (tab: u64)
    requires
        old(world)@.wf(),
        old(world).next_entity < u64::MAX,
    ensures
        tab == old(world).next_entity,
        final(world).next_entity == old(world).next_entity + 1,
        final(world)@ == spawn_tab_spec(old(world)@, tab_row, window_id@, label@, is_active, icons),
        final(world)@.wf(),
{
    let close_glyph = if icons {
        Some(icon_glyph(TabIcon::X))
    } else {
        None
    };
    let part = DockPart::Tab {
        window_id: window_id.clone(),
        label: label.clone(),
        highlighted: is_active,
        close_glyph,
        close_shown: false,
    };
    world.spawn(part, Some(tab_row), None)
}

/// Builds the tab bar of `area`: one tab per (window id, label) pair, the first one active.
pub fn spawn_tab_bar_world(world: &mut DockWorld, area: u64, tabs: &Vec<(String, String)>, icons: bool)
    requires
        old(world)@.wf(),
        old(world).next_entity + tabs.len() + 5 < u64::MAX,
    ensures
        final(world)@ == spawn_tab_bar_spec(old(world)@, area, pairs_view(tabs@), icons),
        final(world)@.wf(),
        final(world).next_entity == old(world).next_entity + tabs.len() + if icons { 5int } else { 3int },
{
    let ghost tv = pairs_view(tabs@);
    let first_id: Option<&String> = if tabs.len() > 0 {
        Some(&tabs[0].0)
    } else {
        None
    };
    let bar = world.spawn(DockPart::TabBar, Some(area), None);
    let row = world.spawn(DockPart::TabRow, Some(bar), None);
    let ghost v2 = world@;
    let mut i: usize = 0;
    while i < tabs.len()
        invariant
            0 <= i <= tabs.len(),
            world@.wf(),
            tv == pairs_view(tabs@),
            world.next_entity == v2.next_entity + i,
            v2.next_entity + tabs.len() + 3 < u64::MAX,
            world@ == spawn_tabs_spec(v2, row, tv, icons, i as nat),
            match first_id {
                Some(f) => first_tab_id(tv) == Some(f@),
                None => first_tab_id(tv) is None,
            },
        decreases tabs.len() - i,
    {
        let is_active = match first_id {
            Some(f) => tabs[i].0 == *f,
            None => false,
        };
        spawn_tab(world, row, &tabs[i].0, &tabs[i].1, is_active, icons);
        i += 1;
    }
    let area_id = match world.find(area) {
        Some(k) => match &world.nodes[k].part {
            DockPart::Area { id, .. } => id.clone(),
            _ => String::new(),
        },
        None => String::new(),
    };
    let right = world.spawn(DockPart::ButtonRow, Some(bar), None);
    if icons {
        let plus = icon_glyph(TabIcon::Plus);
        world.spawn(DockPart::AddButton { area_id, glyph: plus }, Some(right), None);
        let grip = icon_glyph(TabIcon::GripVertical);
        world.spawn(DockPart::Grip { glyph: grip }, Some(right), None);
    }
}


/// What a click on `tab` does: walking up tab, tab row, tab bar to the area, it makes the
/// tab's window the area's active window, highlights that window's tabs in the row and
/// shows that window's content in the area, hiding the others. Nothing happens when a
/// link of that walk is missing, when the area keeps no active-window record, or when the
/// window is already the active one.
pub open spec fn select_tab_spec(v: WorldView, tab: u64) -> WorldView {
    if !v.has(tab) {
        v
    } else {
        match v.node(tab).part {
            PartView::Tab { window_id, .. } => match v.node(tab).parent {
                Some(row) => if !v.has(row) {
                    v
                } else {
                    match v.node(row).parent {
                        Some(bar) => if !v.has(bar) {
                            v
                        } else {
                            match v.node(bar).parent {
                                Some(area) => if !v.has(area) {
                                    v
                                } else {
                                    match v.node(area).part {
                                        PartView::Area { active: Some(cur), .. } => if cur == Some(window_id) {
                                            v
                                        } else {
                                            v.apply(PassView::Activate(area, Some(window_id))).apply(
                                                PassView::RetintTabs(Some(row), window_id),
                                            ).apply(PassView::SwitchContents(area, window_id))
                                        },
                                        _ => v,
                                    }
                                },
                                None => v,
                            }
                        },
                        None => v,
                    }
                },
                None => v,
            },
            _ => v,
        }
    }
}

/// Applies the clicks on the given tabs, in order.
pub open spec fn tab_clicks_spec(v: WorldView, pressed: Seq<u64>) -> WorldView
    decreases pressed.len(),
{
    if pressed.len() == 0 {
        v
    } else {
        select_tab_spec(tab_clicks_spec(v, pressed.drop_last()), pressed.last())
    }
}

/// Handles a click on one tab.
pub fn select_tab(world: &mut DockWorld, tab: u64)
    requires
        old(world)@.wf(),
    ensures
        final(world)@ == select_tab_spec(old(world)@, tab),
        final(world)@.wf(),
{
    let Some(ti) = world.find(tab) else { return };
    let new_id = match &world.nodes[ti].part {
        DockPart::Tab { window_id, .. } => window_id.clone(),
        _ => {
            return;
        },
    };
    let Some(row) = world.nodes[ti].parent else { return };
    let Some(ri) = world.find(row) else { return };
    let Some(bar) = world.nodes[ri].parent else { return };
    let Some(bi) = world.find(bar) else { return };
    let Some(area) = world.nodes[bi].parent else { return };
    let Some(ai) = world.find(area) else { return };
    let same = match &world.nodes[ai].part {
        DockPart::Area { active: Some(cur), .. } => match cur {
            Some(c) => *c == new_id,
            None => false,
        },
        _ => {
            return;
        },
    };
    if same {
        return;
    }
    let new_active = Some(new_id.clone());
    world.apply(&Pass::Activate(area, &new_active));
    world.apply(&Pass::RetintTabs(Some(row), &new_id));
    world.apply(&Pass::SwitchContents(area, &new_id));
}

/// Handles the clicks on the pressed tabs, in the order given.
pub fn handle_dock_tab_clicks(world: &mut DockWorld, pressed: &Vec<u64>)
    requires
        old(world)@.wf(),
    ensures
        final(world)@ == tab_clicks_spec(old(world)@, pressed@),
        final(world)@.wf(),
{
    let mut i: usize = 0;
    while i < pressed.len()
        invariant
            0 <= i <= pressed.len(),
            world@.wf(),
            world@ == tab_clicks_spec(old(world)@, pressed@.take(i as int)),
        decreases pressed.len() - i,
    {
        proof {
            assert(pressed@.take(i + 1).drop_last() =~= pressed@.take(i as int));
        }
        select_tab(world, pressed[i]);
        i += 1;
    }
    assert(pressed@.take(pressed.len() as int) =~= pressed@);
}

/// A tab shows its close button while the pointer hovers or presses it.
pub fn show_close_on_hover(world: &mut DockWorld, tab: u64, hovered_or_pressed: bool)
    requires
        old(world)@.wf(),
    ensures
        final(world)@ == old(world)@.apply(PassView::ShowClose(tab, hovered_or_pressed)),
        final(world)@.wf(),
{
    world.apply(&Pass::ShowClose(tab, hovered_or_pressed));
}

/// Whether `area` is a dock area whose active window is `window_id`.
pub open spec fn is_active_in(v: WorldView, area: u64, window_id: Seq<char>) -> bool {
    v.has(area) && (v.node(area).part matches PartView::Area { active: Some(Some(a)), .. } && a == window_id)
}

/// What closing a window does: the first tab of the window goes, and the first content
/// entity of the window that has a parent goes, each with everything below it. If the
/// closed window was the active one of the area that held that content, and the area
/// still holds contents, the first of them becomes the active window, its contents are
/// shown, and every tab of that window is highlighted while all other tabs are dimmed.
pub open spec fn remove_window_spec(v: WorldView, window_id: Seq<char>) -> WorldView {
    let v1 = match v.first(NodeQuery::TabFor(window_id)) {
        Some(t) => v.despawn(t),
        None => v,
    };
    match v1.first(NodeQuery::ContentFor(window_id)) {
        None => v1,
        Some(c) => {
            let area = v1.node(c).parent->0;
            let v2 = v1.despawn(c);
            match v2.first(NodeQuery::ContentIn(area)) {
                None => v2,
                Some(f) => if is_active_in(v2, area, window_id) {
                    let first_id = content_id(v2.node(f))->0;
                    v2.apply(PassView::ReplaceActive(area, window_id, first_id)).apply(
                        PassView::RevealContents(area, first_id),
                    ).apply(PassView::RetintTabs(None, first_id))
                } else {
                    v2
                },
            }
        },
    }
}

/// Closes a window: called when the close button of one of its tabs is clicked.
pub fn remove_window_from_area(world: &mut DockWorld, window_id: &String)
    requires
        old(world)@.wf(),
    ensures
        final(world)@ == remove_window_spec(old(world)@, window_id@),
        final(world)@.wf(),
{
    if let Some(t) = world.first(&Probe::TabFor(window_id)) {
        world.despawn(t);
    }
    let Some(c) = world.first(&Probe::ContentFor(window_id)) else { return };
    proof {
        lemma_first(world@, NodeQuery::ContentFor(window_id@));
    }
    let Some(ci) = world.find(c) else { return };
    let Some(area) = world.nodes[ci].parent else { return };
    world.despawn(c);
    let Some(f) = world.first(&Probe::ContentIn(area)) else { return };
    proof {
        lemma_first(world@, NodeQuery::ContentIn(area));
    }
    let Some(ai) = world.find(area) else { return };
    let was_active = match &world.nodes[ai].part {
        DockPart::Area { active: Some(Some(a)), .. } => *a == *window_id,
        _ => false,
    };
    if !was_active {
        return;
    }
    let Some(fi) = world.find(f) else { return };
    let first_id = match &world.nodes[fi].part {
        DockPart::Content { window_id, .. } => window_id.clone(),
        _ => {
            return;
        },
    };
    world.apply(&Pass::ReplaceActive(area, window_id, &first_id));
    world.apply(&Pass::RevealContents(area, &first_id));
    world.apply(&Pass::RetintTabs(None, &first_id));
}

/// What a click on the close button of `tab` does: it closes the tab's window. Nothing
/// happens when `tab` is no tab, or a tab without a close button.
pub open spec fn close_click_spec(v: WorldView, tab: u64) -> WorldView {
    if v.has(tab) {
        match v.node(tab).part {
            PartView::Tab { window_id, close_glyph: Some(_), .. } => remove_window_spec(v, window_id),
            _ => v,
        }
    } else {
        v
    }
}

/// Handles a click on the close button of a tab.
pub fn on_close_button_click(world: &mut DockWorld, tab: u64)
    requires
        old(world)@.wf(),
    ensures
        final(world)@ == close_click_spec(old(world)@, tab),
        final(world)@.wf(),
{
    let Some(i) = world.find(tab) else { return };
    let window_id = match &world.nodes[i].part {
        DockPart::Tab { window_id, close_glyph: Some(_), .. } => window_id.clone(),
        _ => {
            return;
        },
    };
    remove_window_from_area(world, &window_id);
}
} // verus!
