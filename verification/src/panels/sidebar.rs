//! Icon sidebars of dock areas: building them and switching windows by icon.

use vstd::prelude::*;
use crate::panels::world::{DockPart, DockWorld, Pass, PassView, PartView, WorldView};

verus! {

/// The view of a list of (window id, name, icon) entries.
pub open spec fn triples_view(ws: Seq<(String, String, Option<String>)>) -> Seq<(Seq<char>, Seq<char>, Option<Seq<char>>)> {
    ws.map_values(|w: (String, String, Option<String>)| (w.0@, w.1@, crate::panels::world::opt_text(w.2)))
}

/// The first window id of a list of entries.
pub open spec fn first_entry_id(ws: Seq<(Seq<char>, Seq<char>, Option<Seq<char>>)>) -> Option<Seq<char>> {
    if ws.len() > 0 {
        Some(ws[0].0)
    } else {
        None
    }
}

/// The text an icon shows: the window's icon, or a question mark when it has none.
pub open spec fn icon_text(icon: Option<Seq<char>>) -> Seq<char> {
    match icon {
        Some(t) => t,
        None => seq!['?'],
    }
}

/// Spawns the first `n` icons of `ws` into the icon group; an icon is highlighted when
/// its window is the first one of the list.
pub open spec fn spawn_icons_spec(
    v: WorldView,
    group: u64,
    ws: Seq<(Seq<char>, Seq<char>, Option<Seq<char>>)>,
    n: nat,
) -> WorldView
    decreases n,
{
    if n == 0 {
        v
    } else {
        let i = n - 1;
        spawn_icons_spec(v, group, ws, (n - 1) as nat).spawn(
            PartView::SidebarIcon {
                window_id: ws[i].0,
                icon: icon_text(ws[i].2),
                highlighted: first_entry_id(ws) == Some(ws[i].0),
            },
            Some(group),
            None,
        )
    }
}

/// What `spawn_icon_sidebar_world` builds under `area`: a sidebar holding a group of
/// icons, one per window; the first window becomes the area's active window.
pub open spec fn spawn_icon_sidebar_spec(
    v: WorldView,
    area: u64,
    ws: Seq<(Seq<char>, Seq<char>, Option<Seq<char>>)>,
) -> WorldView {
    let sidebar = v.next_entity;
    let v1 = v.spawn(PartView::Sidebar, Some(area), None);
    let group = v1.next_entity;
    let v2 = v1.spawn(PartView::IconGroup, Some(sidebar), None);
    spawn_icons_spec(v2, group, ws, ws.len()).apply(PassView::Activate(area, first_entry_id(ws)))
}

/// Builds the icon sidebar of `area` from (window id, name, icon) entries; the
/// active-window record of `area` (a dock area's own, or that of any other node) becomes
/// the first window.
pub fn spawn_icon_sidebar_world(
    world: &mut DockWorld,
    area: u64,
    windows: &Vec<(String, String, Option<String>)>,
)
    requires
        old(world)@.wf(),
        old(world)@.has(area),
        old(world).next_entity + windows.len() + 2 < u64::MAX,
    ensures
        final(world)@ == spawn_icon_sidebar_spec(old(world)@, area, triples_view(windows@)),
        final(world)@.wf(),
        final(world).next_entity == old(world).next_entity + windows.len() + 2,
{
    let ghost wv = triples_view(windows@);
    let first_id: Option<String> = if windows.len() > 0 {
        Some(windows[0].0.clone())
    } else {
        None
    };
    let sidebar = world.spawn(DockPart::Sidebar, Some(area), None);
    let group = world.spawn(DockPart::IconGroup, Some(sidebar), None);
    let ghost v2 = world@;
    let mut i: usize = 0;
    while i < windows.len()
        invariant
            0 <= i <= windows.len(),
            world@.wf(),
            wv == triples_view(windows@),
            world.next_entity == v2.next_entity + i,
            v2.next_entity + windows.len() < u64::MAX,
            world@ == spawn_icons_spec(v2, group, wv, i as nat),
            crate::panels::world::opt_text(first_id) == first_entry_id(wv),
        decreases windows.len() - i,
    {
        let (window_id, _name, icon) = &windows[i];
        let is_active = match &first_id {
            Some(f) => *window_id == *f,
            None => false,
        };
        let text = match icon {
            Some(t) => t.clone(),
            None => {
                proof {
                    reveal_strlit("?");
                }
                "?".to_owned()
            },
        };
        assert(text@ == icon_text(wv[i as int].2));
        assert(window_id@ == wv[i as int].0);
        assert(is_active == (first_entry_id(wv) == Some(wv[i as int].0)));
        world.spawn(
            DockPart::SidebarIcon { window_id: window_id.clone(), icon: text, highlighted: is_active },
            Some(group),
            None,
        );
        i += 1;
    }
    world.apply(&Pass::Activate(area, &first_id));
}

/// What a click on a sidebar icon does: walking up icon, icon group, sidebar to the area,
/// it makes the icon's window the active one, highlights that window's icons in the group
/// and shows that window's content in the area, hiding the others. Nothing happens when a
/// link of that walk is missing, when the area keeps no active-window record, or when the
/// window is already the active one.
pub open spec fn select_icon_spec(v: WorldView, icon: u64) -> WorldView {
    if !v.has(icon) {
        v
    } else {
        match v.node(icon).part {
            PartView::SidebarIcon { window_id, .. } => match v.node(icon).parent {
                Some(group) => if !v.has(group) {
                    v
                } else {
                    match v.node(group).parent {
                        Some(sidebar) => if !v.has(sidebar) {
                            v
                        } else {
                            match v.node(sidebar).parent {
                                Some(area) => if !v.has(area) {
                                    v
                                } else {
                                    match v.node(area).part {
                                        PartView::Area { active: Some(cur), .. } => if cur == Some(window_id) {
                                            v
                                        } else {
                                            v.apply(PassView::Activate(area, Some(window_id))).apply(
                                                PassView::RetintIcons(group, window_id),
                                            ).apply(PassView::SwitchContents(area, window_id))
                                        },
                                        _ => v,
                                    }
                                },
                                None => v,
                            }
                        },
                        None => v,
                    }
                },
                None => v,
            },
            _ => v,
        }
    }
}

/// Applies the clicks on the given icons, in order.
pub open spec fn icon_clicks_spec(v: WorldView, pressed: Seq<u64>) -> WorldView
    decreases pressed.len(),
{
    if pressed.len() == 0 {
        v
    } else {
        select_icon_spec(icon_clicks_spec(v, pressed.drop_last()), pressed.last())
    }
}

/// Handles a click on one sidebar icon.
pub fn select_icon(world: &mut DockWorld, icon: u64)
    requires
        old(world)@.wf(),
    ensures
        final(world)@ == select_icon_spec(old(world)@, icon),
        final(world)@.wf(),
{
    let Some(ii) = world.find(icon) else { return };
    let new_id = match &world.nodes[ii].part {
        DockPart::SidebarIcon { window_id, .. } => window_id.clone(),
        _ => {
            return;
        },
    };
    let Some(group) = world.nodes[ii].parent else { return };
    let Some(gi) = world.find(group) else { return };
    let Some(sidebar) = world.nodes[gi].parent else { return };
    let Some(si) = world.find(sidebar) else { return };
    let Some(area) = world.nodes[si].parent else { return };
    let Some(ai) = world.find(area) else { return };
    let same = match &world.nodes[ai].part {
        DockPart::Area { active: Some(cur), .. } => match cur {
            Some(c) => *c == new_id,
            None => false,
        },
        _ => {
            return;
        },
    };
    if same {
        return;
    }
    let new_active = Some(new_id.clone());
    world.apply(&Pass::Activate(area, &new_active));
    world.apply(&Pass::RetintIcons(group, &new_id));
    world.apply(&Pass::SwitchContents(area, &new_id));
}

/// Handles the clicks on the pressed sidebar icons, in the order given.
pub fn handle_sidebar_icon_clicks(world: &mut DockWorld, pressed: &Vec<u64>)
    requires
        old(world)@.wf(),
    ensures
        final(world)@ == icon_clicks_spec(old(world)@, pressed@),
        final(world)@.wf(),
{
    let mut i: usize = 0;
    while i < pressed.len()
        invariant
            0 <= i <= pressed.len(),
            world@.wf(),
            world@ == icon_clicks_spec(old(world)@, pressed@.take(i as int)),
        decreases pressed.len() - i,
    {
        proof {
            assert(pressed@.take(i + 1).drop_last() =~= pressed@.take(i as int));
        }
        select_icon(world, pressed[i]);
        i += 1;
    }
    assert(pressed@.take(pressed.len() as int) =~= pressed@);
}

} // verus!
