//! Filling a freshly added dock area with the windows registered for it.

use vstd::prelude::*;
use crate::panels::world::{DockAreaStyle, DockPart, DockWorld, Pass, PassView, PartView, WorldView};
use crate::panels::tabs::{spawn_tab_bar_spec, spawn_tab_bar_world, pairs_view};
use crate::panels::sidebar::{first_entry_id, spawn_icon_sidebar_spec, spawn_icon_sidebar_world, triples_view};

verus! {

/// The (window id, name) pairs of a list of (window id, name, icon) entries.
pub open spec fn names_of(ws: Seq<(Seq<char>, Seq<char>, Option<Seq<char>>)>) -> Seq<(Seq<char>, Seq<char>)> {
    ws.map_values(|w: (Seq<char>, Seq<char>, Option<Seq<char>>)| (w.0, w.1))
}

/// Spawns a content entity under `area` for each of the first `n` windows; only the
/// first window's content is shown.
pub open spec fn spawn_contents_spec(
    v: WorldView,
    area: u64,
    ws: Seq<(Seq<char>, Seq<char>, Option<Seq<char>>)>,
    n: nat,
) -> WorldView
    decreases n,
{
    if n == 0 {
        v
    } else {
        let i = n - 1;
        spawn_contents_spec(v, area, ws, (n - 1) as nat).spawn(
            PartView::Content { window_id: ws[i].0, shown: i == 0 },
            Some(area),
            None,
        )
    }
}

/// The world once the area's header is built: a tab bar, an icon sidebar, or nothing.
pub open spec fn header_spec(
    v: WorldView,
    area: u64,
    style: DockAreaStyle,
    ws: Seq<(Seq<char>, Seq<char>, Option<Seq<char>>)>,
    icons: bool,
) -> WorldView {
    match style {
        DockAreaStyle::TabBar => spawn_tab_bar_spec(v, area, names_of(ws), icons),
        DockAreaStyle::IconSidebar => spawn_icon_sidebar_spec(v, area, ws),
        DockAreaStyle::Headless => v,
    }
}

/// Whether `populate_single_area` builds anything: the area is a dock area and has windows.
pub open spec fn populates(v: WorldView, area: u64, ws: Seq<(Seq<char>, Seq<char>, Option<Seq<char>>)>) -> bool {
    v.node(area).part is Area && ws.len() > 0
}

/// What `populate_single_area` makes of the world: the header that the area's style asks
/// for, one content entity per window (only the first one shown), and the first window
/// as the area's active window.
pub open spec fn populate_spec(
    v: WorldView,
    area: u64,
    ws: Seq<(Seq<char>, Seq<char>, Option<Seq<char>>)>,
    icons: bool,
) -> WorldView {
    if populates(v, area, ws) {
        let style = v.node(area).part->Area_style;
        let v1 = header_spec(v, area, style, ws, icons);
        spawn_contents_spec(v1, area, ws, ws.len()).apply(PassView::Activate(area, first_entry_id(ws)))
    } else {
        v
    }
}

/// The entity number of the first content entity that `populate_single_area` spawns.
pub open spec fn first_content_entity(
    v: WorldView,
    area: u64,
    ws: Seq<(Seq<char>, Seq<char>, Option<Seq<char>>)>,
    icons: bool,
) -> u64 {
    header_spec(v, area, v.node(area).part->Area_style, ws, icons).next_entity
}

/// The first step of filling `area`: when it is a dock area and has windows, builds the
/// header that its style asks for and returns that style; otherwise changes nothing and
/// returns `None`. The caller then spawns each window's content, in order, letting the
/// window build its widgets in it right away, and ends with `activate_first_window`.
pub fn populate_header(
    world: &mut DockWorld,
    area: u64,
    windows: &Vec<(String, String, Option<String>)>,
    icons: bool,
) -> (style: Option<DockAreaStyle>)
    requires
        old(world)@.wf(),
        old(world)@.has(area),
        old(world).next_entity + 2 * windows.len() + 6 < u64::MAX,
    ensures
        final(world)@.wf(),
        old(world).next_entity <= final(world).next_entity <= old(world).next_entity + windows.len() + 5,
        style == if populates(old(world)@, area, triples_view(windows@)) {
            Some(old(world)@.node(area).part->Area_style)
        } else {
            None::<DockAreaStyle>
        },
        final(world)@ == match style {
            Some(st) => header_spec(old(world)@, area, st, triples_view(windows@), icons),
            None => old(world)@,
        },
{
    let ghost wv = triples_view(windows@);
    let ai = world.find(area).unwrap();
    let style = match &world.nodes[ai].part {
        DockPart::Area { style, .. } => *style,
        _ => {
            return None;
        },
    };
    if windows.len() == 0 {
        return None;
    }
    match style {
        DockAreaStyle::TabBar => {
            let mut tab_data: Vec<(String, String)> = Vec::new();
            let mut k: usize = 0;
            while k < windows.len()
                invariant
                    0 <= k <= windows.len(),
                    wv == triples_view(windows@),
                    pairs_view(tab_data@) == names_of(wv).take(k as int),
                    tab_data@.len() == k,
                decreases windows.len() - k,
            {
                tab_data.push((windows[k].0.clone(), windows[k].1.clone()));
                assert(pairs_view(tab_data@) =~= names_of(wv).take(k + 1));
                k += 1;
            }
            assert(names_of(wv).take(windows.len() as int) =~= names_of(wv));
            spawn_tab_bar_world(world, area, &tab_data, icons);
        },
        DockAreaStyle::IconSidebar => {
            spawn_icon_sidebar_world(world, area, windows);
        },
        DockAreaStyle::Headless => {},
    }
    Some(style)
}

/// Spawns the content entity of one window under `area`, shown only when it is the
/// first window, and returns it; the window then builds its widgets in it.
pub fn spawn_window_content(world: &mut DockWorld, area: u64, window_id: &String, first: bool) -> (c: u64)
    requires
        old(world)@.wf(),
        old(world).next_entity < u64::MAX,
    ensures
        c == old(world).next_entity,
        final(world).next_entity == old(world).next_entity + 1,
        final(world)@ == old(world)@.spawn(PartView::Content { window_id: window_id@, shown: first }, Some(area), None),
        final(world)@.wf(),
{
    world.spawn(DockPart::Content { window_id: window_id.clone(), shown: first }, Some(area), None)
}

/// The last step of filling `area`: its first window becomes its active window.
pub fn activate_first_window(world: &mut DockWorld, area: u64, windows: &Vec<(String, String, Option<String>)>)
    requires
        old(world)@.wf(),
    ensures
        final(world)@ == old(world)@.apply(PassView::Activate(area, first_entry_id(triples_view(windows@)))),
        final(world)@.wf(),
{
    let first_id = if windows.len() > 0 {
        Some(windows[0].0.clone())
    } else {
        None
    };
    world.apply(&Pass::Activate(area, &first_id));
}

/// Fills `area` with the windows registered for it, given as (window id, name, icon)
/// entries in registration order: the header, each window's content, then the first
/// window made active. Returns the content entities, one per window, in which each
/// window then builds its own widgets. A caller that lets each window build right after
/// its content takes the three steps itself.
pub fn populate_single_area(
    world: &mut DockWorld,
    area: u64,
    windows: &Vec<(String, String, Option<String>)>,
    icons: bool,
) -> (contents: Vec<u64>)
    requires
        old(world)@.wf(),
        old(world)@.has(area),
        old(world).next_entity + 2 * windows.len() + 6 < u64::MAX,
    ensures
        final(world)@ == populate_spec(old(world)@, area, triples_view(windows@), icons),
        final(world)@.wf(),
        contents@ == if populates(old(world)@, area, triples_view(windows@)) {
            Seq::new(
                windows.len() as nat,
                |i: int| (first_content_entity(old(world)@, area, triples_view(windows@), icons) + i) as u64,
            )
        } else {
            Seq::<u64>::empty()
        },
{
    let ghost wv = triples_view(windows@);
    if populate_header(world, area, windows, icons).is_none() {
        return Vec::new();
    }
    let ghost v1 = world@;
    let mut contents: Vec<u64> = Vec::new();
    let mut i: usize = 0;
    while i < windows.len()
        invariant
            0 <= i <= windows.len(),
            world@.wf(),
            wv == triples_view(windows@),
            world.next_entity == v1.next_entity + i,
            v1.next_entity + windows.len() < u64::MAX,
            world@ == spawn_contents_spec(v1, area, wv, i as nat),
            contents@ == Seq::new(i as nat, |j: int| (v1.next_entity + j) as u64),
        decreases windows.len() - i,
    {
        let c = spawn_window_content(world, area, &windows[i].0, i == 0);
        contents.push(c);
        assert(contents@ =~= Seq::new((i + 1) as nat, |j: int| (v1.next_entity + j) as u64));
        i += 1;
    }
    activate_first_window(world, area, windows);
    contents
}

} // verus!
