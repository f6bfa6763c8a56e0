//! Dragging windows between dock areas: the drag state machine, moving a window into
//! another area's tab bar, and splitting an area to make room for a dropped window.

use vstd::prelude::*;
use crate::panels::world::{
    content_id, lemma_detach_orphan, lemma_first, lemma_spawn, pos_from, position, DockAreaStyle, DockPart, DockWorld, FlexDirection, NodeQuery, Pass,
    PassView, PartView, Probe, WorldView,
};
use crate::panels::tabs::{spawn_tab_bar_spec, spawn_tab_bar_world, spawn_tab_in_world, spawn_tab_spec};

verus! {

/// The edge of an area on which a dragged window is dropped.
#[derive(Clone, Copy, PartialEq, Eq, Structural, Debug)]
pub enum DropEdge {
    Top,
    Bottom,
    Left,
    Right,
}

/// Where a dragged window would land.
#[derive(Clone, Copy, PartialEq, Eq, Structural, Debug)]
pub enum DropTarget {
    /// Into the tab bar of an area.
    TabBar(u64),
    /// Next to an area, splitting it at an edge.
    AreaEdge { area: u64, edge: DropEdge },
}

/// Share of a group that a panel takes in full, in thousandths.
pub const FULL_RATIO: u32 = 1000;

/// Share of the split group that a dropped window's new area takes, in thousandths.
pub const DROPPED_RATIO: u32 = 350;

/// Smallest share a panel of a split group may shrink to, in thousandths.
pub const SPLIT_MIN_RATIO: u32 = 150;

/// What moving a window into another area does: the window's first tab under the source
/// area goes; its content under the source area moves, hidden, to the end of the target
/// area; the target's tab row (when it has one) gets a new, dimmed tab for the window; and
/// if the source area still holds contents, the first of them becomes its active window
/// (when the moved one was active) and its contents are shown.
pub open spec fn move_window_spec(
    v: WorldView,
    window_id: Seq<char>,
    source_area: u64,
    target_area: u64,
    window_name: Seq<char>,
    icons: bool,
) -> WorldView {
    let v1 = match v.first(NodeQuery::TabForIn(window_id, source_area)) {
        Some(t) => v.despawn(t),
        None => v,
    };
    let v2 = match v1.first(NodeQuery::ContentForIn(window_id, source_area)) {
        Some(c) => v1.reparent(c, target_area).apply(PassView::ShowContent(c, false)),
        None => v1,
    };
    let v3 = match v2.tab_row_of(target_area) {
        Some(row) => spawn_tab_spec(v2, row, window_id, window_name, false, icons),
        None => v2,
    };
    match v3.first(NodeQuery::ContentIn(source_area)) {
        None => v3,
        Some(f) => {
            let first_id = content_id(v3.node(f))->0;
            v3.apply(PassView::ReplaceActive(source_area, window_id, first_id)).apply(
                PassView::RevealContents(source_area, first_id),
            )
        },
    }
}

/// Moves a window from one area into the tab bar of another.
pub fn move_window_to_area(
    world: &mut DockWorld,
    window_id: &String,
    source_area: u64,
    target_area: u64,
    window_name: &String,
    icons: bool,
)
    requires
        old(world)@.wf(),
        old(world).next_entity < u64::MAX,
    ensures
        final(world)@ == move_window_spec(
            old(world)@,
            window_id@,
            source_area,
            target_area,
            window_name@,
            icons,
        ),
        final(world)@.wf(),
{
    if let Some(t) = world.first(&Probe::TabForIn(window_id, source_area)) {
        world.despawn(t);
    }
    if let Some(c) = world.first(&Probe::ContentForIn(window_id, source_area)) {
        world.reparent(c, target_area);
        world.apply(&Pass::ShowContent(c, false));
    }
    let fuel = world.nodes.len();
    if let Some(row) = world.find_tab_row_recursive(target_area, fuel) {
        spawn_tab_in_world(world, row, window_id, window_name, false, icons);
    }
    let Some(f) = world.first(&Probe::ContentIn(source_area)) else { return };
    proof {
        lemma_first(world@, NodeQuery::ContentIn(source_area));
    }
    let Some(fi) = world.find(f) else { return };
    let first_id = match &world.nodes[fi].part {
        DockPart::Content { window_id, .. } => window_id.clone(),
        _ => {
            return;
        },
    };
    world.apply(&Pass::ReplaceActive(source_area, window_id, &first_id));
    world.apply(&Pass::RevealContents(source_area, &first_id));
}

/// The direction of the group that a split at `edge` creates.
pub open spec fn split_direction(edge: DropEdge) -> FlexDirection {
    match edge {
        DropEdge::Top | DropEdge::Bottom => FlexDirection::Column,
        DropEdge::Left | DropEdge::Right => FlexDirection::Row,
    }
}

/// The id of the area that a split creates for a window.
pub open spec fn split_area_id(window_id: Seq<char>) -> Seq<char> {
    seq!['s', 'p', 'l', 'i', 't', '_'] + window_id
}

/// Where a parentless child goes among its new parent's children: at `i`, or last when
/// `i` lies past the end.
pub open spec fn place_child(v: WorldView, p: u64, i: int, c: u64) -> WorldView {
    if v.has(p) && i <= v.node(p).children.len() {
        v.insert_child_at(p, i, c)
    } else {
        v.reparent(c, p)
    }
}

/// The target area's parent and its first position among that parent's children.
pub open spec fn slot_of(v: WorldView, target: u64) -> Option<(u64, int)> {
    match v.node(target).parent {
        Some(p) => if v.has(p) {
            match pos_from(v.node(p).children, target, 0) {
                Some(i) => Some((p, i)),
                None => None,
            }
        } else {
            None
        },
        None => None,
    }
}

/// Making room for a split: the target area leaves its parent and gives up its share; a
/// new group, numbered `next_entity`, takes that share and the target's place among its
/// parent's children.
pub open spec fn make_room(v3: WorldView, target: u64, edge: DropEdge) -> WorldView {
    let slot = slot_of(v3, target);
    let ratio = match v3.node(target).ratio {
        Some(r) => r,
        None => FULL_RATIO,
    };
    let v4 = v3.set_ratio(target, None).detach(target);
    let wrapper = v4.next_entity;
    let v5 = v4.spawn(
        PartView::Group { min_ratio: SPLIT_MIN_RATIO, direction: split_direction(edge) },
        None,
        Some(ratio),
    );
    match slot {
        Some((p, i)) => place_child(v5, p, i, wrapper),
        None => v5,
    }
}

/// The new area of a split, numbered `next_entity`: a tab-style area whose tab bar holds
/// only the dropped window, which is its active window.
pub open spec fn new_area_for(v6: WorldView, window_id: Seq<char>, window_name: Seq<char>, icons: bool) -> WorldView {
    let new_area = v6.next_entity;
    let v7 = v6.spawn(
        PartView::Area { id: split_area_id(window_id), style: DockAreaStyle::TabBar, active: None },
        None,
        None,
    );
    let v8 = spawn_tab_bar_spec(v7, new_area, seq![(window_id, window_name)], icons);
    v8.apply(PassView::Activate(new_area, Some(window_id)))
}

/// Settling a split: the content `c` moves, shown, into the new area; a handle is made;
/// the target keeps the full share and the new area a smaller one; the group takes the
/// new area, the handle and the target, the new area first for a top or left edge and last
/// for a bottom or right edge.
pub open spec fn settle(
    v9: WorldView,
    target: u64,
    c: u64,
    new_area: u64,
    wrapper: u64,
    edge: DropEdge,
) -> WorldView {
    let v10 = v9.reparent(c, new_area).apply(PassView::ShowContent(c, true));
    let handle = v10.next_entity;
    let v11 = v10.spawn(PartView::Handle, None, None);
    let v12 = v11.set_ratio(target, Some(FULL_RATIO)).set_ratio(new_area, Some(DROPPED_RATIO));
    match edge {
        DropEdge::Top | DropEdge::Left => v12.reparent(new_area, wrapper).reparent(handle, wrapper).reparent(
            target,
            wrapper,
        ),
        DropEdge::Bottom | DropEdge::Right => v12.reparent(target, wrapper).reparent(handle, wrapper).reparent(
            new_area,
            wrapper,
        ),
    }
}

/// The second half of a split, once the window's tab and content are out of the source
/// area (`c` is the content): room is made next to the target, the new area is built,
/// and everything settles into the new group.
pub open spec fn wrap_spec(
    v3: WorldView,
    target: u64,
    edge: DropEdge,
    window_id: Seq<char>,
    c: u64,
    window_name: Seq<char>,
    icons: bool,
) -> WorldView {
    let wrapper = v3.next_entity;
    let v6 = make_room(v3, target, edge);
    let new_area = v6.next_entity;
    let v9 = new_area_for(v6, window_id, window_name, icons);
    settle(v9, target, c, new_area, wrapper, edge)
}

/// The source area once a window leaves it: the first of its other contents becomes its
/// active window (when the leaving one was active) and is shown.
pub open spec fn hand_over_source(v1: WorldView, source_area: u64, window_id: Seq<char>) -> WorldView {
    match v1.first(NodeQuery::ContentInExcept(source_area, window_id)) {
        Some(f) => {
            let first_id = content_id(v1.node(f))->0;
            v1.apply(PassView::ReplaceActive(source_area, window_id, first_id)).apply(
                PassView::RevealContents(source_area, first_id),
            )
        },
        None => v1,
    }
}

/// What dropping a window on an area's edge does: the window's first tab under the
/// source area goes; if the source area holds no content of the window nothing else
/// happens; otherwise the first other content of the source area becomes its active
/// window (when the moved one was active) and is shown, and the target area is wrapped
/// as `wrap_spec` says.
pub open spec fn split_spec(
    v: WorldView,
    target: u64,
    edge: DropEdge,
    window_id: Seq<char>,
    source_area: u64,
    window_name: Seq<char>,
    icons: bool,
) -> WorldView {
    let v1 = match v.first(NodeQuery::TabForIn(window_id, source_area)) {
        Some(t) => v.despawn(t),
        None => v,
    };
    match v1.first(NodeQuery::ContentForIn(window_id, source_area)) {
        None => v1,
        Some(c) => {
            let v2 = hand_over_source(v1, source_area, window_id);
            let v3 = v2.detach(c);
            if v3.has(target) {
                wrap_spec(v3, target, edge, window_id, c, window_name, icons)
            } else {
                v3
            }
        },
    }
}


/// Drops a window on the edge of an area, splitting that area.
pub fn split_area_with_window(
    world: &mut DockWorld,
    target: u64,
    edge: DropEdge,
    window_id: &String,
    source_area: u64,
    window_name: &String,
    icons: bool,
)
    requires
        old(world)@.wf(),
        old(world).next_entity + 12 < u64::MAX,
    ensures
        final(world)@ == split_spec(old(world)@, target, edge, window_id@, source_area, window_name@, icons),
        final(world)@.wf(),
{
    if let Some(t) = world.first(&Probe::TabForIn(window_id, source_area)) {
        world.despawn(t);
    }
    let Some(c) = world.first(&Probe::ContentForIn(window_id, source_area)) else { return };
    if let Some(f) = world.first(&Probe::ContentInExcept(source_area, window_id)) {
        proof {
            lemma_first(world@, NodeQuery::ContentInExcept(source_area, window_id@));
        }
        let Some(fi) = world.find(f) else { return };
        let first_id = match &world.nodes[fi].part {
            DockPart::Content { window_id, .. } => window_id.clone(),
            _ => {
                return;
            },
        };
        world.apply(&Pass::ReplaceActive(source_area, window_id, &first_id));
        world.apply(&Pass::RevealContents(source_area, &first_id));
    }
    world.detach(c);
    let ghost v3 = world@;
    let Some(ti) = world.find(target) else { return };
    let slot: Option<(u64, usize)> = match world.nodes[ti].parent {
        Some(p) => match world.find(p) {
            Some(pi) => match position(&world.nodes[pi].children, target) {
                Some(k) => Some((p, k)),
                None => None,
            },
            None => None,
        },
        None => None,
    };
    let ratio = match world.nodes[ti].ratio {
        Some(r) => r,
        None => FULL_RATIO,
    };
    world.set_ratio(target, None);
    world.detach(target);
    let direction = match edge {
        DropEdge::Top | DropEdge::Bottom => FlexDirection::Column,
        DropEdge::Left | DropEdge::Right => FlexDirection::Row,
    };
    proof {
        lemma_spawn(
            world@,
            PartView::Group { min_ratio: SPLIT_MIN_RATIO, direction },
            None,
            Some(ratio),
        );
    }
    let wrapper = world.spawn(
        DockPart::Group { min_ratio: SPLIT_MIN_RATIO, direction },
        None,
        Some(ratio),
    );
    if let Some((p, i)) = slot {
        let fits = match world.find(p) {
            Some(pi) => i <= world.nodes[pi].children.len(),
            None => false,
        };
        if fits {
            proof {
                lemma_detach_orphan(world@, wrapper);
            }
            world.insert_child_at(p, i, wrapper);
        } else {
            world.reparent(wrapper, p);
        }
    }
    proof {
        reveal_strlit("split_");
    }
    let mut new_id = "split_".to_owned();
    new_id.append(window_id.as_str());
    assert(new_id@ =~= split_area_id(window_id@));
    let ghost v6 = world@;
    assert(v6 == match slot_of(v3, target) {
        Some((p, i)) => place_child(
            v3.set_ratio(target, None).detach(target).spawn(
                PartView::Group { min_ratio: SPLIT_MIN_RATIO, direction: split_direction(edge) },
                None,
                Some(match v3.node(target).ratio { Some(r) => r, None => FULL_RATIO }),
            ),
            p,
            i,
            wrapper,
        ),
        None => v3.set_ratio(target, None).detach(target).spawn(
            PartView::Group { min_ratio: SPLIT_MIN_RATIO, direction: split_direction(edge) },
            None,
            Some(match v3.node(target).ratio { Some(r) => r, None => FULL_RATIO }),
        ),
    });
    let new_area = world.spawn(
        DockPart::Area { id: new_id, style: DockAreaStyle::TabBar, active: None },
        None,
        None,
    );
    let tabs = vec![(window_id.clone(), window_name.clone())];
    assert(crate::panels::tabs::pairs_view(tabs@) =~= seq![(window_id@, window_name@)]);
    spawn_tab_bar_world(world, new_area, &tabs, icons);
    let active = Some(window_id.clone());
    world.apply(&Pass::Activate(new_area, &active));
    world.reparent(c, new_area);
    world.apply(&Pass::ShowContent(c, true));
    let handle = world.spawn(DockPart::Handle, None, None);
    world.set_ratio(target, Some(FULL_RATIO));
    world.set_ratio(new_area, Some(DROPPED_RATIO));
    match edge {
        DropEdge::Top | DropEdge::Left => {
            world.reparent(new_area, wrapper);
            world.reparent(handle, wrapper);
            world.reparent(target, wrapper);
        },
        DropEdge::Bottom | DropEdge::Right => {
            world.reparent(target, wrapper);
            world.reparent(handle, wrapper);
            world.reparent(new_area, wrapper);
        },
    }
}

/// An entity number that no entity has: the source area of a drag that started outside
/// every area.
pub const NO_ENTITY: u64 = 0xffff_ffff_ffff_ffff;

/// The name under which a window is shown: that of its first registered entry, or its
/// id when it has none.
pub open spec fn registered_name(names: Seq<(Seq<char>, Seq<char>)>, window_id: Seq<char>) -> Seq<char>
    decreases names.len(),
{
    if names.len() == 0 {
        window_id
    } else if names[0].0 == window_id {
        names[0].1
    } else {
        registered_name(names.drop_first(), window_id)
    }
}

/// The display name of a window, given the registered (window id, name) pairs.
pub fn display_name(names: &Vec<(String, String)>, window_id: &String) -> (r: String)
    ensures
        r@ == registered_name(crate::panels::tabs::pairs_view(names@), window_id@),
{
    let ghost nv = crate::panels::tabs::pairs_view(names@);
    assert(nv.skip(0) =~= nv);
    let mut i: usize = 0;
    while i < names.len()
        invariant
            0 <= i <= names.len(),
            nv == crate::panels::tabs::pairs_view(names@),
            registered_name(nv, window_id@) == registered_name(nv.skip(i as int), window_id@),
        decreases names.len() - i,
    {
        assert(nv.skip(i as int).drop_first() =~= nv.skip(i + 1));
        if names[i].0 == *window_id {
            return names[i].1.clone();
        }
        i += 1;
    }
    assert(nv.skip(i as int).len() == 0);
    window_id.clone()
}

/// The state of a drag of a dock window. Pointer positions are carried as they come.
pub enum DockDragState<P> {
    Idle,
    /// A drag began on a tab, icon or grip but has not yet moved far enough.
    PendingDrag { source_tab: u64, window_id: String, window_name: String, start_pos: P },
    /// A window is being dragged; a ghost follows the pointer and an overlay marks the
    /// current drop target.
    Dragging {
        source_tab: u64,
        window_id: String,
        window_name: String,
        source_area: u64,
        ghost_entity: u64,
        cursor_pos: P,
        drop_target: Option<DropTarget>,
        overlay_entity: Option<u64>,
    },
}

/// The mathematical value of a [`DockDragState`].
pub enum DragView<P> {
    Idle,
    PendingDrag { source_tab: u64, window_id: Seq<char>, window_name: Seq<char>, start_pos: P },
    Dragging {
        source_tab: u64,
        window_id: Seq<char>,
        window_name: Seq<char>,
        source_area: u64,
        ghost_entity: u64,
        cursor_pos: P,
        drop_target: Option<DropTarget>,
        overlay_entity: Option<u64>,
    },
}

impl<P> View for DockDragState<P> {
    type V = DragView<P>;

    open spec fn view(&self) -> DragView<P> {
        match *self {
            DockDragState::Idle => DragView::Idle,
            DockDragState::PendingDrag { source_tab, window_id, window_name, start_pos } => DragView::PendingDrag {
                source_tab,
                window_id: window_id@,
                window_name: window_name@,
                start_pos,
            },
            DockDragState::Dragging {
                source_tab,
                window_id,
                window_name,
                source_area,
                ghost_entity,
                cursor_pos,
                drop_target,
                overlay_entity,
            } => DragView::Dragging {
                source_tab,
                window_id: window_id@,
                window_name: window_name@,
                source_area,
                ghost_entity,
                cursor_pos,
                drop_target,
                overlay_entity,
            },
        }
    }
}

/// What to do with the dock once a drag ends.
pub enum DockCommand {
    /// Move the window into the tab bar of the target area.
    MoveToArea { window_id: String, source_area: u64, target_area: u64 },
    /// Split the target area at an edge, making room for the window.
    SplitArea { target_area: u64, edge: DropEdge, window_id: String, source_area: u64 },
}

/// The mathematical value of a [`DockCommand`].
pub enum CommandView {
    MoveToArea { window_id: Seq<char>, source_area: u64, target_area: u64 },
    SplitArea { target_area: u64, edge: DropEdge, window_id: Seq<char>, source_area: u64 },
}

impl View for DockCommand {
    type V = CommandView;

    open spec fn view(&self) -> CommandView {
        match *self {
            DockCommand::MoveToArea { window_id, source_area, target_area } => CommandView::MoveToArea {
                window_id: window_id@,
                source_area,
                target_area,
            },
            DockCommand::SplitArea { target_area, edge, window_id, source_area } => CommandView::SplitArea {
                target_area,
                edge,
                window_id: window_id@,
                source_area,
            },
        }
    }
}

/// The state that a drag start on entity `e` leads to: a drag of the tab's window when
/// `e` is a tab, and no change otherwise.
pub open spec fn tab_drag_start_spec<P>(
    d: DragView<P>,
    v: WorldView,
    names: Seq<(Seq<char>, Seq<char>)>,
    e: u64,
    pos: P,
) -> DragView<P> {
    if v.has(e) {
        match v.node(e).part {
            PartView::Tab { window_id, .. } => DragView::PendingDrag {
                source_tab: e,
                window_id,
                window_name: registered_name(names, window_id),
                start_pos: pos,
            },
            _ => d,
        }
    } else {
        d
    }
}

/// The state that a drag start on entity `e` leads to: a drag of the icon's window when
/// `e` is a sidebar icon, and no change otherwise.
pub open spec fn icon_drag_start_spec<P>(
    d: DragView<P>,
    v: WorldView,
    names: Seq<(Seq<char>, Seq<char>)>,
    e: u64,
    pos: P,
) -> DragView<P> {
    if v.has(e) {
        match v.node(e).part {
            PartView::SidebarIcon { window_id, .. } => DragView::PendingDrag {
                source_tab: e,
                window_id,
                window_name: registered_name(names, window_id),
                start_pos: pos,
            },
            _ => d,
        }
    } else {
        d
    }
}

/// The state that a drag start on entity `e` leads to: when `e` is a grip, a drag of the
/// active window of the nearest area above it that records one; otherwise no change.
pub open spec fn grip_drag_start_spec<P>(
    d: DragView<P>,
    v: WorldView,
    names: Seq<(Seq<char>, Seq<char>)>,
    e: u64,
    pos: P,
) -> DragView<P> {
    if v.has(e) && v.node(e).part is Grip {
        match v.active_above(e) {
            Some(Some(window_id)) => DragView::PendingDrag {
                source_tab: e,
                window_id,
                window_name: registered_name(names, window_id),
                start_pos: pos,
            },
            _ => d,
        }
    } else {
        d
    }
}

/// Once a pending drag has moved far enough it becomes a drag from the area that holds
/// its source, with a ghost and no drop target yet.
pub open spec fn begin_dragging_spec<P>(d: DragView<P>, v: WorldView, ghost: u64, cursor: P) -> DragView<P> {
    match d {
        DragView::PendingDrag { source_tab, window_id, window_name, .. } => DragView::Dragging {
            source_tab,
            window_id,
            window_name,
            source_area: match v.area_of(source_tab) {
                Some(a) => a,
                None => NO_ENTITY,
            },
            ghost_entity: ghost,
            cursor_pos: cursor,
            drop_target: None,
            overlay_entity: None,
        },
        _ => d,
    }
}

/// While dragging, the drop target, its overlay and the pointer position follow the pointer.
pub open spec fn retarget_spec<P>(d: DragView<P>, target: Option<DropTarget>, overlay: Option<u64>, cursor: P) -> DragView<P> {
    match d {
        DragView::Dragging { source_tab, window_id, window_name, source_area, ghost_entity, .. } =>
            DragView::Dragging {
                source_tab,
                window_id,
                window_name,
                source_area,
                ghost_entity,
                cursor_pos: cursor,
                drop_target: target,
                overlay_entity: overlay,
            },
        _ => d,
    }
}

/// The ghost and overlay of a drag, which go when it ends.
pub open spec fn drag_leftovers<P>(d: DragView<P>) -> Seq<u64> {
    match d {
        DragView::Dragging { ghost_entity, overlay_entity, .. } => match overlay_entity {
            Some(o) => seq![ghost_entity, o],
            None => seq![ghost_entity],
        },
        _ => Seq::empty(),
    }
}

/// The command that ending a drag issues: dropping on another area's tab bar moves the
/// window there, dropping on an area's edge splits that area, and anything else does
/// nothing.
pub open spec fn drop_command<P>(d: DragView<P>) -> Option<CommandView> {
    match d {
        DragView::Dragging { window_id, source_area, drop_target, .. } => match drop_target {
            Some(DropTarget::TabBar(t)) => if t != source_area {
                Some(CommandView::MoveToArea { window_id, source_area, target_area: t })
            } else {
                None
            },
            Some(DropTarget::AreaEdge { area, edge }) => Some(
                CommandView::SplitArea { target_area: area, edge, window_id, source_area },
            ),
            None => None,
        },
        _ => None,
    }
}

/// What ending or cancelling a drag hands back: the entities to despawn and the command
/// to apply.
pub struct DragOutcome {
    pub despawn: Vec<u64>,
    pub command: Option<DockCommand>,
}

fn leftovers(ghost_entity: u64, overlay_entity: Option<u64>) -> (r: Vec<u64>)
    ensures
        r@ == match overlay_entity {
            Some(o) => seq![ghost_entity, o],
            None => seq![ghost_entity],
        },
{
    let mut r = Vec::new();
    r.push(ghost_entity);
    if let Some(o) = overlay_entity {
        r.push(o);
    }
    assert(r@ =~= match overlay_entity {
        Some(o) => seq![ghost_entity, o],
        None => seq![ghost_entity],
    });
    r
}

impl<P> DockDragState<P> {
    pub fn new() -> (r: Self)
        ensures
            r@ == DragView::<P>::Idle,
    {
        DockDragState::Idle
    }

    /// A drag starts on `entity`; it is taken up when that entity is a tab.
    pub fn on_tab_drag_start(&mut self, world: &DockWorld, names: &Vec<(String, String)>, entity: u64, pos: P)
        requires
            world@.wf(),
        ensures
            final(self)@ == tab_drag_start_spec(old(self)@, world@, crate::panels::tabs::pairs_view(names@), entity, pos),
    {
        let Some(i) = world.find(entity) else { return };
        if let DockPart::Tab { window_id, .. } = &world.nodes[i].part {
            let window_name = display_name(names, window_id);
            *self = DockDragState::PendingDrag {
                source_tab: entity,
                window_id: window_id.clone(),
                window_name,
                start_pos: pos,
            };
        }
    }

    /// A drag starts on `entity`; it is taken up when that entity is a sidebar icon.
    pub fn on_sidebar_icon_drag_start(
        &mut self,
        world: &DockWorld,
        names: &Vec<(String, String)>,
        entity: u64,
        pos: P,
    )
        requires
            world@.wf(),
        ensures
            final(self)@ == icon_drag_start_spec(old(self)@, world@, crate::panels::tabs::pairs_view(names@), entity, pos),
    {
        let Some(i) = world.find(entity) else { return };
        if let DockPart::SidebarIcon { window_id, .. } = &world.nodes[i].part {
            let window_name = display_name(names, window_id);
            *self = DockDragState::PendingDrag {
                source_tab: entity,
                window_id: window_id.clone(),
                window_name,
                start_pos: pos,
            };
        }
    }

    /// A drag starts on `entity`; it is taken up when that entity is a grip.
    pub fn on_grip_drag_start(&mut self, world: &DockWorld, names: &Vec<(String, String)>, entity: u64, pos: P)
        requires
            world@.wf(),
        ensures
            final(self)@ == grip_drag_start_spec(old(self)@, world@, crate::panels::tabs::pairs_view(names@), entity, pos),
    {
        let Some(i) = world.find(entity) else { return };
        if let DockPart::Grip { .. } = &world.nodes[i].part {
            if let Some(Some(window_id)) = world.find_active_above(entity) {
                let window_name = display_name(names, &window_id);
                *self = DockDragState::PendingDrag { source_tab: entity, window_id, window_name, start_pos: pos };
            }
        }
    }

    /// Whether the drag is still waiting to move far enough.
    pub fn is_pending(&self) -> (r: bool)
        ensures
            r == (self@ is PendingDrag),
    {
        matches!(self, DockDragState::PendingDrag { .. })
    }

    /// A pending drag has moved far enough: it becomes a drag, with `ghost` following the
    /// pointer. Other states stay.
    pub fn begin_dragging(&mut self, world: &DockWorld, ghost: u64, cursor: P)
        requires
            world@.wf(),
        ensures
            final(self)@ == begin_dragging_spec(old(self)@, world@, ghost, cursor),
    {
        let mut state = DockDragState::Idle;
        std::mem::swap(self, &mut state);
        match state {
            DockDragState::PendingDrag { source_tab, window_id, window_name, start_pos: _ } => {
                let source_area = match world.find_parent_area(source_tab) {
                    Some(a) => a,
                    None => NO_ENTITY,
                };
                *self = DockDragState::Dragging {
                    source_tab,
                    window_id,
                    window_name,
                    source_area,
                    ghost_entity: ghost,
                    cursor_pos: cursor,
                    drop_target: None,
                    overlay_entity: None,
                };
            },
            other => {
                *self = other;
            },
        }
    }

    /// The overlay that currently marks the drop target, if any.
    pub fn overlay(&self) -> (r: Option<u64>)
        ensures
            r == match self@ {
                DragView::Dragging { overlay_entity, .. } => overlay_entity,
                _ => None,
            },
    {
        match self {
            DockDragState::Dragging { overlay_entity, .. } => *overlay_entity,
            _ => None,
        }
    }

    /// While dragging, records the drop target under the pointer and its overlay.
    pub fn retarget(&mut self, target: Option<DropTarget>, overlay: Option<u64>, cursor: P)
        ensures
            final(self)@ == retarget_spec(old(self)@, target, overlay, cursor),
    {
        if let DockDragState::Dragging { drop_target, overlay_entity, cursor_pos, .. } = self {
            *drop_target = target;
            *overlay_entity = overlay;
            *cursor_pos = cursor;
        }
    }

    /// Ends the drag: the state goes back to idle; the ghost and overlay are to be
    /// despawned, and the drop issues its command.
    pub fn on_drag_end(&mut self) -> (r: DragOutcome)
        ensures
            final(self)@ == DragView::<P>::Idle,
            r.despawn@ == drag_leftovers(old(self)@),
            match r.command {
                Some(c) => drop_command(old(self)@) == Some(c@),
                None => drop_command(old(self)@) is None,
            },
    {
        let mut state = DockDragState::Idle;
        std::mem::swap(self, &mut state);
        match state {
            DockDragState::Dragging {
                ghost_entity,
                overlay_entity,
                drop_target,
                window_id,
                source_area,
                ..
            } => {
                let despawn = leftovers(ghost_entity, overlay_entity);
                let command = match drop_target {
                    Some(DropTarget::TabBar(t)) => if t != source_area {
                        Some(DockCommand::MoveToArea { window_id, source_area, target_area: t })
                    } else {
                        None
                    },
                    Some(DropTarget::AreaEdge { area, edge }) => Some(
                        DockCommand::SplitArea { target_area: area, edge, window_id, source_area },
                    ),
                    None => None,
                };
                DragOutcome { despawn, command }
            },
            _ => DragOutcome { despawn: Vec::new(), command: None },
        }
    }

    /// Escape cancels a drag: the state goes back to idle and the ghost and overlay are
    /// to be despawned. Without the key press nothing changes.
    pub fn cancel_drag_on_escape(&mut self, escape_pressed: bool) -> (despawn: Vec<u64>)
        ensures
            escape_pressed ==> final(self)@ == DragView::<P>::Idle && despawn@ == drag_leftovers(old(self)@),
            !escape_pressed ==> final(self)@ == old(self)@ && despawn@.len() == 0,
    {
        if !escape_pressed {
            return Vec::new();
        }
        let mut state = DockDragState::Idle;
        std::mem::swap(self, &mut state);
        match state {
            DockDragState::Dragging { ghost_entity, overlay_entity, .. } => leftovers(ghost_entity, overlay_entity),
            _ => Vec::new(),
        }
    }
}

/// What applying a dock command does to the world.
pub open spec fn command_spec(v: WorldView, c: CommandView, names: Seq<(Seq<char>, Seq<char>)>, icons: bool) -> WorldView {
    match c {
        CommandView::MoveToArea { window_id, source_area, target_area } => move_window_spec(
            v,
            window_id,
            source_area,
            target_area,
            registered_name(names, window_id),
            icons,
        ),
        CommandView::SplitArea { target_area, edge, window_id, source_area } => split_spec(
            v,
            target_area,
            edge,
            window_id,
            source_area,
            registered_name(names, window_id),
            icons,
        ),
    }
}

/// Applies the command that a drop issued.
pub fn apply_dock_command(world: &mut DockWorld, command: &DockCommand, names: &Vec<(String, String)>, icons: bool)
    requires
        old(world)@.wf(),
        old(world).next_entity + 12 < u64::MAX,
    ensures
        final(world)@ == command_spec(old(world)@, command@, crate::panels::tabs::pairs_view(names@), icons),
        final(world)@.wf(),
{
    match command {
        DockCommand::MoveToArea { window_id, source_area, target_area } => {
            let name = display_name(names, window_id);
            move_window_to_area(world, window_id, *source_area, *target_area, &name, icons);
        },
        DockCommand::SplitArea { target_area, edge, window_id, source_area } => {
            let name = display_name(names, window_id);
            split_area_with_window(world, *target_area, *edge, window_id, *source_area, &name, icons);
        },
    }
}
} // verus!
