//! A model of the dock entities: areas, their tab bars, tabs, content windows and the
//! layout groups that hold areas. Entities are kept in spawn order, which is also the
//! order in which queries visit them; each node keeps its ordered list of children.

use vstd::prelude::*;

verus! {

/// Direction in which a layout group lays out its children.
#[derive(Clone, Copy, PartialEq, Eq, Structural, Debug)]
pub enum FlexDirection {
    Row,
    Column,
}

/// How a dock area presents the windows it holds.
#[derive(Clone, Copy, PartialEq, Eq, Structural, Debug)]
pub enum DockAreaStyle {
    TabBar,
    IconSidebar,
    Headless,
}

/// What a dock entity is.
#[derive(Debug)]
pub enum DockPart {
    /// A dock area. `active` is `None` while the area has no active-window record yet.
    Area { id: String, style: DockAreaStyle, active: Option<Option<String>> },
    /// The bar on top of a tab-style area.
    TabBar,
    /// The row of tabs inside a tab bar.
    TabRow,
    /// The row that holds the add button and the grip.
    ButtonRow,
    /// The "add window" button of an area, with its icon glyph.
    AddButton { area_id: String, glyph: char },
    /// The grip by which a whole area's active window is dragged.
    Grip { glyph: char },
    /// A tab. `close_glyph` is the glyph of its close button, when it has one.
    Tab {
        window_id: String,
        label: String,
        highlighted: bool,
        close_glyph: Option<char>,
        close_shown: bool,
    },
    /// The content entity of a docked window.
    Content { window_id: String, shown: bool },
    /// The container of an icon sidebar.
    Sidebar,
    /// The group that holds the sidebar icons.
    IconGroup,
    /// A sidebar icon.
    SidebarIcon { window_id: String, icon: String, highlighted: bool },
    /// A group that lays out its children along `direction`; `min_ratio` is in thousandths.
    Group { min_ratio: u32, direction: FlexDirection },
    /// The draggable handle between two panels of a group.
    Handle,
}

/// The mathematical value of a [`DockPart`]: texts as character sequences.
pub enum PartView {
    Area { id: Seq<char>, style: DockAreaStyle, active: Option<Option<Seq<char>>> },
    TabBar,
    TabRow,
    ButtonRow,
    AddButton { area_id: Seq<char>, glyph: char },
    Grip { glyph: char },
    Tab {
        window_id: Seq<char>,
        label: Seq<char>,
        highlighted: bool,
        close_glyph: Option<char>,
        close_shown: bool,
    },
    Content { window_id: Seq<char>, shown: bool },
    Sidebar,
    IconGroup,
    SidebarIcon { window_id: Seq<char>, icon: Seq<char>, highlighted: bool },
    Group { min_ratio: u32, direction: FlexDirection },
    Handle,
}

pub open spec fn opt_text(o: Option<String>) -> Option<Seq<char>> {
    match o {
        Some(s) => Some(s@),
        None => None,
    }
}

impl View for DockPart {
    type V = PartView;

    open spec fn view(&self) -> PartView {
        match *self {
            DockPart::Area { id, style, active } => PartView::Area {
                id: id@,
                style,
                active: match active {
                    Some(a) => Some(opt_text(a)),
                    None => None,
                },
            },
            DockPart::TabBar => PartView::TabBar,
            DockPart::TabRow => PartView::TabRow,
            DockPart::ButtonRow => PartView::ButtonRow,
            DockPart::AddButton { area_id, glyph } => PartView::AddButton { area_id: area_id@, glyph },
            DockPart::Grip { glyph } => PartView::Grip { glyph },
            DockPart::Tab { window_id, label, highlighted, close_glyph, close_shown } => PartView::Tab {
                window_id: window_id@,
                label: label@,
                highlighted,
                close_glyph,
                close_shown,
            },
            DockPart::Content { window_id, shown } => PartView::Content { window_id: window_id@, shown },
            DockPart::Sidebar => PartView::Sidebar,
            DockPart::IconGroup => PartView::IconGroup,
            DockPart::SidebarIcon { window_id, icon, highlighted } => PartView::SidebarIcon {
                window_id: window_id@,
                icon: icon@,
                highlighted,
            },
            DockPart::Group { min_ratio, direction } => PartView::Group { min_ratio, direction },
            DockPart::Handle => PartView::Handle,
        }
    }
}

/// The mathematical value of a [`DockNode`].
pub struct NodeView {
    pub entity: u64,
    pub parent: Option<u64>,
    pub children: Seq<u64>,
    /// Share of the parent group, in thousandths; `None` when the node has no panel share.
    pub ratio: Option<u32>,
    pub part: PartView,
    /// The active-window record of a node that is not a dock area (a dock area keeps its
    /// own in its part): `None` when it has none.
    pub host_active: Option<Option<Seq<char>>>,
}

/// One dock entity.
#[derive(Debug)]
pub struct DockNode {
    pub entity: u64,
    pub parent: Option<u64>,
    pub children: Vec<u64>,
    pub ratio: Option<u32>,
    pub part: DockPart,
    /// The active-window record of a node that is not a dock area: `None` when it has none.
    pub host_active: Option<Option<String>>,
}

impl View for DockNode {
    type V = NodeView;

    open spec fn view(&self) -> NodeView {
        NodeView {
            entity: self.entity,
            parent: self.parent,
            children: self.children@,
            ratio: self.ratio,
            part: self.part@,
            host_active: match self.host_active {
                Some(a) => Some(opt_text(a)),
                None => None,
            },
        }
    }
}

/// The mathematical value of a [`DockWorld`].
pub struct WorldView {
    pub nodes: Seq<NodeView>,
    pub next_entity: u64,
}

/// All dock entities, in spawn order, and the next entity number to hand out.
#[derive(Debug)]
pub struct DockWorld {
    pub nodes: Vec<DockNode>,
    pub next_entity: u64,
}

impl View for DockWorld {
    type V = WorldView;

    open spec fn view(&self) -> WorldView {
        WorldView { nodes: self.nodes@.map_values(|n: DockNode| n@), next_entity: self.next_entity }
    }
}

/// The nodes that are not `e` and do not lie below it in `v`.
pub open spec fn outside(v: WorldView, e: u64) -> spec_fn(NodeView) -> bool {
    |n: NodeView| !v.in_subtree(n.entity, e)
}

pub open spec fn other_than(x: u64) -> spec_fn(u64) -> bool {
    |y: u64| y != x
}

pub open spec fn without(s: Seq<u64>, x: u64) -> Seq<u64> {
    s.filter(other_than(x))
}

impl WorldView {
    pub open spec fn has(self, e: u64) -> bool {
        exists|i: int| 0 <= i < self.nodes.len() && self.nodes[i].entity == e
    }

    pub open spec fn index_of(self, e: u64) -> int {
        choose|i: int| 0 <= i < self.nodes.len() && self.nodes[i].entity == e
    }

    pub open spec fn node(self, e: u64) -> NodeView {
        self.nodes[self.index_of(e)]
    }

    /// Entity numbers are distinct and below the next one to hand out.
    pub open spec fn wf(self) -> bool {
        &&& forall|i: int, j: int|
            0 <= i < self.nodes.len() && 0 <= j < self.nodes.len() && i != j
                ==> self.nodes[i].entity != self.nodes[j].entity
        &&& forall|i: int| 0 <= i < self.nodes.len() ==> self.nodes[i].entity < self.next_entity
    }

    pub open spec fn with_nodes(self, nodes: Seq<NodeView>) -> WorldView {
        WorldView { nodes, next_entity: self.next_entity }
    }

    #[verifier::opaque]
    pub open spec fn set_part(self, e: u64, p: PartView) -> WorldView {
        self.with_nodes(
            self.nodes.map_values(|n: NodeView| if n.entity == e { NodeView { part: p, ..n } } else { n }),
        )
    }

    #[verifier::opaque]
    pub open spec fn set_ratio(self, e: u64, r: Option<u32>) -> WorldView {
        self.with_nodes(
            self.nodes.map_values(|n: NodeView| if n.entity == e { NodeView { ratio: r, ..n } } else { n }),
        )
    }

    #[verifier::opaque]
    pub open spec fn set_parent_field(self, e: u64, p: Option<u64>) -> WorldView {
        self.with_nodes(
            self.nodes.map_values(|n: NodeView| if n.entity == e { NodeView { parent: p, ..n } } else { n }),
        )
    }

    #[verifier::opaque]
    pub open spec fn remove_child(self, p: u64, c: u64) -> WorldView {
        self.with_nodes(
            self.nodes.map_values(
                |n: NodeView|
                    if n.entity == p { NodeView { children: without(n.children, c), ..n } } else { n },
            ),
        )
    }

    #[verifier::opaque]
    pub open spec fn push_child(self, p: u64, c: u64) -> WorldView {
        self.with_nodes(
            self.nodes.map_values(
                |n: NodeView| if n.entity == p { NodeView { children: n.children.push(c), ..n } } else { n },
            ),
        )
    }

    #[verifier::opaque]
    pub open spec fn insert_child(self, p: u64, i: int, c: u64) -> WorldView {
        self.with_nodes(
            self.nodes.map_values(
                |n: NodeView|
                    if n.entity == p { NodeView { children: n.children.insert(i, c), ..n } } else { n },
            ),
        )
    }

    /// Takes `c` out of its parent's children and clears its parent.
    #[verifier::opaque]
    pub open spec fn detach(self, c: u64) -> WorldView {
        if self.has(c) {
            match self.node(c).parent {
                Some(op) => self.set_parent_field(c, None).remove_child(op, c),
                None => self,
            }
        } else {
            self
        }
    }

    /// Makes `c` the last child of `p`.
    #[verifier::opaque]
    pub open spec fn reparent(self, c: u64, p: u64) -> WorldView {
        if self.has(c) {
            self.detach(c).set_parent_field(c, Some(p)).push_child(p, c)
        } else {
            self
        }
    }

    /// Makes `c` the child of `p` at position `i`.
    #[verifier::opaque]
    pub open spec fn insert_child_at(self, p: u64, i: int, c: u64) -> WorldView {
        if self.has(c) {
            self.detach(c).set_parent_field(c, Some(p)).insert_child(p, i, c)
        } else {
            self
        }
    }

    /// Removes `e` and all its descendants from the world, and `e` from its parent's
    /// children.
    #[verifier::opaque]
    pub open spec fn despawn(self, e: u64) -> WorldView {
        if self.has(e) {
            let d = self.detach(e);
            d.with_nodes(d.nodes.filter(outside(self, e)))
        } else {
            self
        }
    }

    /// The node that `spawn` adds.
    pub open spec fn fresh_node(self, part: PartView, parent: Option<u64>, ratio: Option<u32>) -> NodeView {
        NodeView { entity: self.next_entity, parent, children: Seq::empty(), ratio, part, host_active: None }
    }

    /// Adds a new entity numbered `next_entity`, as the last child of `parent`.
    #[verifier::opaque]
    pub open spec fn spawn(self, part: PartView, parent: Option<u64>, ratio: Option<u32>) -> WorldView {
        let s = WorldView {
            nodes: self.nodes.push(self.fresh_node(part, parent, ratio)),
            next_entity: (self.next_entity + 1) as u64,
        };
        match parent {
            Some(p) => s.push_child(p, self.next_entity),
            None => s,
        }
    }
}

pub proof fn lemma_index_of(v: WorldView, i: int)
    requires
        v.wf(),
        0 <= i < v.nodes.len(),
    ensures
        v.has(v.nodes[i].entity),
        v.index_of(v.nodes[i].entity) == i,
        v.node(v.nodes[i].entity) == v.nodes[i],
{
    let e = v.nodes[i].entity;
    assert(v.has(e));
    let k = v.index_of(e);
    assert(0 <= k < v.nodes.len() && v.nodes[k].entity == e);
}

impl DockWorld {
    /// A world with no entities.
    pub fn new() -> (w: Self)
        ensures
            w@.nodes.len() == 0,
            w.next_entity == 0,
            w@.wf(),
    {
        DockWorld { nodes: Vec::new(), next_entity: 0 }
    }

    /// Whether the world is well formed: entity numbers distinct and below the next one
    /// to hand out.
    pub fn is_well_formed(&self) -> (r: bool)
        ensures
            r == self@.wf(),
    {
        let n = self.nodes.len();
        let mut i: usize = 0;
        while i < n
            invariant
                0 <= i <= n,
                n == self.nodes.len(),
                self@.nodes.len() == n,
                forall|a: int, b: int| 0 <= a < i && 0 <= b < n && a != b ==> self@.nodes[a].entity != self@.nodes[b].entity,
                forall|a: int| 0 <= a < i ==> self@.nodes[a].entity < self.next_entity,
            decreases n - i,
        {
            assert(self@.nodes[i as int].entity == self.nodes@[i as int].entity);
            if self.nodes[i].entity >= self.next_entity {
                return false;
            }
            let mut j: usize = 0;
            while j < n
                invariant
                    0 <= i < n,
                    0 <= j <= n,
                    n == self.nodes.len(),
                    self@.nodes.len() == n,
                    forall|b: int| 0 <= b < j && b != i ==> self@.nodes[i as int].entity != self@.nodes[b].entity,
                decreases n - j,
            {
                assert(self@.nodes[j as int].entity == self.nodes@[j as int].entity);
                assert(self@.nodes[i as int].entity == self.nodes@[i as int].entity);
                if j != i && self.nodes[j].entity == self.nodes[i].entity {
                    return false;
                }
                j += 1;
            }
            i += 1;
        }
        true
    }

    /// The node of entity `e`.
    pub fn get(&self, e: u64) -> (r: Option<&DockNode>)
        requires
            self@.wf(),
        ensures
            match r {
                Some(n) => self@.has(e) && n@ == self@.node(e),
                None => !self@.has(e),
            },
    {
        match self.find(e) {
            Some(i) => Some(&self.nodes[i]),
            None => None,
        }
    }

    /// The position of entity `e`.
    pub fn find(&self, e: u64) -> (r: Option<usize>)
        requires
            self@.wf(),
        ensures
            match r {
                Some(i) => i < self.nodes.len() && self@.nodes[i as int].entity == e && self@.has(e)
                    && self@.index_of(e) == i,
                None => !self@.has(e),
            },
    {
        let mut i: usize = 0;
        while i < self.nodes.len()
            invariant
                0 <= i <= self.nodes.len(),
                self@.wf(),
                self@.nodes.len() == self.nodes.len(),
                forall|j: int| 0 <= j < i ==> self@.nodes[j].entity != e,
            decreases self.nodes.len() - i,
        {
            if self.nodes[i].entity == e {
                proof {
                    lemma_index_of(self@, i as int);
                }
                return Some(i);
            }
            i += 1;
        }
        None
    }
}


/// The elements of `v` other than `x`, in order.
pub fn vec_without(v: &Vec<u64>, x: u64) -> (r: Vec<u64>)
    ensures
        r@ == without(v@, x),
{
    let mut r: Vec<u64> = Vec::new();
    let mut i: usize = 0;
    while i < v.len()
        invariant
            0 <= i <= v.len(),
            r@ == without(v@.take(i as int), x),
        decreases v.len() - i,
    {
        proof {
            assert(v@.take(i + 1) =~= v@.take(i as int).push(v@[i as int]));
            v@.take(i as int).lemma_filter_push(v@[i as int], other_than(x));
        }
        if v[i] != x {
            r.push(v[i]);
        }
        i += 1;
    }
    assert(v@.take(v.len() as int) =~= v@);
    r
}

impl DockWorld {
    pub fn set_part(&mut self, e: u64, p: DockPart)
        requires
            old(self)@.wf(),
        ensures
            final(self).next_entity == old(self).next_entity,
            final(self)@ == old(self)@.set_part(e, p@),
            final(self)@.wf(),
    {
        reveal(WorldView::set_part);
        let ghost pv = p@;
        match self.find(e) {
            Some(i) => {
                self.nodes[i].part = p;
            },
            None => {},
        }
        assert(self@.nodes =~= old(self)@.set_part(e, pv).nodes);
    }

    pub fn set_ratio(&mut self, e: u64, r: Option<u32>)
        requires
            old(self)@.wf(),
        ensures
            final(self).next_entity == old(self).next_entity,
            final(self)@ == old(self)@.set_ratio(e, r),
            final(self)@.wf(),
    {
        reveal(WorldView::set_ratio);
        match self.find(e) {
            Some(i) => {
                self.nodes[i].ratio = r;
            },
            None => {},
        }
        assert(self@.nodes =~= old(self)@.set_ratio(e, r).nodes);
    }

    pub fn set_parent_field(&mut self, e: u64, p: Option<u64>)
        requires
            old(self)@.wf(),
        ensures
            final(self).next_entity == old(self).next_entity,
            final(self)@ == old(self)@.set_parent_field(e, p),
            final(self)@.wf(),
    {
        reveal(WorldView::set_parent_field);
        match self.find(e) {
            Some(i) => {
                self.nodes[i].parent = p;
            },
            None => {},
        }
        assert(self@.nodes =~= old(self)@.set_parent_field(e, p).nodes);
    }

    pub fn remove_child(&mut self, p: u64, c: u64)
        requires
            old(self)@.wf(),
        ensures
            final(self).next_entity == old(self).next_entity,
            final(self)@ == old(self)@.remove_child(p, c),
            final(self)@.wf(),
    {
        reveal(WorldView::remove_child);
        match self.find(p) {
            Some(i) => {
                let kids = vec_without(&self.nodes[i].children, c);
                self.nodes[i].children = kids;
            },
            None => {},
        }
        assert(self@.nodes =~= old(self)@.remove_child(p, c).nodes);
    }

    pub fn push_child(&mut self, p: u64, c: u64)
        requires
            old(self)@.wf(),
        ensures
            final(self).next_entity == old(self).next_entity,
            final(self)@ == old(self)@.push_child(p, c),
            final(self)@.wf(),
    {
        reveal(WorldView::push_child);
        match self.find(p) {
            Some(i) => {
                self.nodes[i].children.push(c);
            },
            None => {},
        }
        assert(self@.nodes =~= old(self)@.push_child(p, c).nodes);
    }

    pub fn insert_child(&mut self, p: u64, i: usize, c: u64)
        requires
            old(self)@.wf(),
            old(self)@.has(p) ==> i <= old(self)@.node(p).children.len(),
        ensures
            final(self).next_entity == old(self).next_entity,
            final(self)@ == old(self)@.insert_child(p, i as int, c),
            final(self)@.wf(),
    {
        reveal(WorldView::insert_child);
        match self.find(p) {
            Some(k) => {
                self.nodes[k].children.insert(i, c);
            },
            None => {},
        }
        assert(self@.nodes =~= old(self)@.insert_child(p, i as int, c).nodes);
    }

    pub fn detach(&mut self, c: u64)
        requires
            old(self)@.wf(),
        ensures
            final(self).next_entity == old(self).next_entity,
            final(self)@ == old(self)@.detach(c),
            final(self)@.wf(),
    {
        reveal(WorldView::detach);
        match self.find(c) {
            Some(i) => {
                match self.nodes[i].parent {
                    Some(op) => {
                        self.set_parent_field(c, None);
                        self.remove_child(op, c);
                    },
                    None => {},
                }
            },
            None => {},
        }
    }

    pub fn reparent(&mut self, c: u64, p: u64)
        requires
            old(self)@.wf(),
        ensures
            final(self).next_entity == old(self).next_entity,
            final(self)@ == old(self)@.reparent(c, p),
            final(self)@.wf(),
    {
        reveal(WorldView::reparent);
        if self.find(c).is_some() {
            self.detach(c);
            self.set_parent_field(c, Some(p));
            self.push_child(p, c);
        }
    }

    pub fn insert_child_at(&mut self, p: u64, i: usize, c: u64)
        requires
            old(self)@.wf(),
            old(self)@.detach(c).has(p) ==> i <= old(self)@.detach(c).node(p).children.len(),
        ensures
            final(self).next_entity == old(self).next_entity,
            final(self)@ == old(self)@.insert_child_at(p, i as int, c),
            final(self)@.wf(),
    {
        reveal(WorldView::insert_child_at);
        reveal(WorldView::set_parent_field);
        if self.find(c).is_some() {
            self.detach(c);
            let ghost d = self@;
            self.set_parent_field(c, Some(p));
            proof {
                if d.has(p) {
                    let k = d.index_of(p);
                    assert(self@.nodes[k].entity == p);
                    lemma_index_of(self@, k);
                    assert(self@.node(p).children == d.node(p).children);
                }
            }
            self.insert_child(p, i, c);
        }
    }

    pub fn despawn(&mut self, e: u64)
        requires
            old(self)@.wf(),
        ensures
            final(self).next_entity == old(self).next_entity,
            final(self)@ == old(self)@.despawn(e),
            final(self)@.wf(),
    {
        reveal(WorldView::despawn);
        proof {
            lemma_despawn_frame(old(self)@, e);
        }
        if self.find(e).is_none() {
            return;
        }
        let ghost v = self@;
        let ghost pred = outside(v, e);
        let mut gone: Vec<bool> = Vec::new();
        let mut k: usize = 0;
        while k < self.nodes.len()
            invariant
                self@ == v,
                v.wf(),
                0 <= k <= self.nodes.len(),
                gone@.len() == k,
                forall|j: int| 0 <= j < k ==> gone@[j] == v.in_subtree(v.nodes[j].entity, e),
            decreases self.nodes.len() - k,
        {
            let g = self.in_subtree(self.nodes[k].entity, e);
            gone.push(g);
            k += 1;
        }
        self.detach(e);
        let ghost d = self@;
        proof {
            reveal(WorldView::detach);
            reveal(WorldView::set_parent_field);
            reveal(WorldView::remove_child);
        }
        assert(d.nodes.len() == v.nodes.len());
        assert forall|j: int| 0 <= j < d.nodes.len() implies #[trigger] d.nodes[j].entity == v.nodes[j].entity by {}
        let mut i: usize = self.nodes.len();
        assert(d.nodes.skip(i as int) =~= Seq::<NodeView>::empty());
        assert(Seq::<NodeView>::empty().filter(pred) =~= Seq::<NodeView>::empty()) by {
            reveal(Seq::filter);
        }
        assert(self@.nodes =~= d.nodes.take(i as int) + d.nodes.skip(i as int).filter(pred));
        while i > 0
            invariant
                0 <= i <= d.nodes.len(),
                gone@.len() == d.nodes.len(),
                self.next_entity == d.next_entity,
                forall|j: int| 0 <= j < d.nodes.len() ==> gone@[j] == v.in_subtree(d.nodes[j].entity, e),
                self@.nodes == d.nodes.take(i as int) + d.nodes.skip(i as int).filter(pred),
                pred == outside(v, e),
            decreases i,
        {
            let ghost x = d.nodes[i - 1];
            let ghost rest = d.nodes.skip(i as int).filter(pred);
            proof {
                assert(self@.nodes.len() == self.nodes@.len());
                assert(self.nodes@.len() >= i);
                assert(pred(x) == !v.in_subtree(x.entity, e));
                assert(gone@[i - 1] == v.in_subtree(x.entity, e));
                assert(d.nodes.skip(i - 1) =~= seq![x] + d.nodes.skip(i as int));
                d.nodes.skip(i as int).lemma_filter_prepend(x, pred);
                assert(d.nodes.take(i as int) =~= d.nodes.take(i - 1).push(x));
            }
            if gone[i - 1] {
                let ghost before = self.nodes@;
                let ghost bv = self@.nodes;
                self.nodes.remove(i - 1);
                proof {
                    assert(!pred(x));
                    assert(d.nodes.skip(i - 1).filter(pred) == rest);
                    assert(bv == d.nodes.take(i as int) + rest);
                    assert(self.nodes@ == before.remove(i - 1));
                    assert(self@.nodes =~= bv.remove(i - 1));
                    assert(bv.remove(i - 1) =~= d.nodes.take(i - 1) + rest);
                    assert(self@.nodes =~= d.nodes.take(i - 1) + d.nodes.skip(i - 1).filter(pred));
                }
            } else {
                proof {
                    assert(pred(x));
                    assert(self@.nodes =~= d.nodes.take(i - 1) + d.nodes.skip(i - 1).filter(pred));
                }
            }
            i -= 1;
        }
        assert(d.nodes.take(0) + d.nodes.skip(0).filter(pred) =~= d.nodes.filter(pred)) by {
            assert(d.nodes.skip(0) =~= d.nodes);
        }
        assert(self@ =~= d.with_nodes(d.nodes.filter(pred)));
    }

    /// Spawns a node and returns its entity number.
    pub fn spawn(&mut self, part: DockPart, parent: Option<u64>, ratio: Option<u32>) -> (e: u64)
        requires
            old(self)@.wf(),
            old(self).next_entity < u64::MAX,
        ensures
            e == old(self).next_entity,
            final(self).next_entity == old(self).next_entity + 1,
            final(self)@ == old(self)@.spawn(part@, parent, ratio),
            final(self)@.wf(),
    {
        reveal(WorldView::spawn);
        let e = self.next_entity;
        let ghost pv = part@;
        self.nodes.push(DockNode { entity: e, parent, children: Vec::new(), ratio, part, host_active: None });
        self.next_entity = e + 1;
        assert(self@.nodes =~= old(self)@.nodes.push(old(self)@.fresh_node(pv, parent, ratio)));
        match parent {
            Some(p) => self.push_child(p, e),
            None => {},
        }
        e
    }
}

/// A test that picks dock entities.
pub enum NodeQuery {
    /// Any tab of the window.
    TabFor(Seq<char>),
    /// A tab of the window that lies in the subtree of the given entity.
    TabForIn(Seq<char>, u64),
    /// A content entity of the window that has a parent.
    ContentFor(Seq<char>),
    /// A content entity of the window whose parent is the given area.
    ContentForIn(Seq<char>, u64),
    /// Any content entity whose parent is the given area.
    ContentIn(u64),
    /// A content entity whose parent is the given area and whose window is not the given one.
    ContentInExcept(u64, Seq<char>),
}

/// The executable form of [`NodeQuery`].
pub enum Probe<'a> {
    TabFor(&'a String),
    TabForIn(&'a String, u64),
    ContentFor(&'a String),
    ContentForIn(&'a String, u64),
    ContentIn(u64),
    ContentInExcept(u64, &'a String),
}

impl<'a> View for Probe<'a> {
    type V = NodeQuery;

    open spec fn view(&self) -> NodeQuery {
        match *self {
            Probe::TabFor(w) => NodeQuery::TabFor(w@),
            Probe::TabForIn(w, r) => NodeQuery::TabForIn(w@, r),
            Probe::ContentFor(w) => NodeQuery::ContentFor(w@),
            Probe::ContentForIn(w, a) => NodeQuery::ContentForIn(w@, a),
            Probe::ContentIn(a) => NodeQuery::ContentIn(a),
            Probe::ContentInExcept(a, w) => NodeQuery::ContentInExcept(a, w@),
        }
    }
}

pub open spec fn is_tab_of(n: NodeView, wid: Seq<char>) -> bool {
    n.part matches PartView::Tab { window_id, .. } && window_id == wid
}

pub open spec fn content_id(n: NodeView) -> Option<Seq<char>> {
    match n.part {
        PartView::Content { window_id, .. } => Some(window_id),
        _ => None,
    }
}

impl WorldView {
    /// `e` is `root` or lies below it, following at most `fuel` parent links.
    pub open spec fn within(self, e: u64, root: u64, fuel: nat) -> bool
        decreases fuel,
    {
        e == root || (fuel > 0 && self.has(e) && match self.node(e).parent {
            Some(p) => self.within(p, root, (fuel - 1) as nat),
            None => false,
        })
    }

    /// `e` is `root` or one of its descendants. No chain of parents is longer than the
    /// number of entities, so the bound only matters in a world with a cycle of parents.
    pub open spec fn in_subtree(self, e: u64, root: u64) -> bool {
        self.within(e, root, self.nodes.len())
    }

    pub open spec fn matches(self, q: NodeQuery, n: NodeView) -> bool {
        match q {
            NodeQuery::TabFor(w) => is_tab_of(n, w),
            NodeQuery::TabForIn(w, r) => is_tab_of(n, w) && self.in_subtree(n.entity, r),
            NodeQuery::ContentFor(w) => content_id(n) == Some(w) && n.parent is Some,
            NodeQuery::ContentForIn(w, a) => content_id(n) == Some(w) && n.parent == Some(a),
            NodeQuery::ContentIn(a) => content_id(n) is Some && n.parent == Some(a),
            NodeQuery::ContentInExcept(a, w) => content_id(n) is Some && content_id(n) != Some(w)
                && n.parent == Some(a),
        }
    }

    /// The first position at or after `i` whose node matches `q`.
    pub open spec fn first_from(self, q: NodeQuery, i: int) -> Option<int>
        decreases self.nodes.len() - i,
    {
        if i < 0 || i >= self.nodes.len() {
            None
        } else if self.matches(q, self.nodes[i]) {
            Some(i)
        } else {
            self.first_from(q, i + 1)
        }
    }

    /// The first entity, in query order, that matches `q`.
    pub open spec fn first(self, q: NodeQuery) -> Option<u64> {
        match self.first_from(q, 0) {
            Some(i) => Some(self.nodes[i].entity),
            None => None,
        }
    }
}

impl DockWorld {
    /// Whether `e` is `root` or one of its descendants.
    pub fn in_subtree(&self, e: u64, root: u64) -> (r: bool)
        requires
            self@.wf(),
        ensures
            r == self@.in_subtree(e, root),
    {
        let mut cur = e;
        let mut fuel = self.nodes.len();
        loop
            invariant
                self@.wf(),
                fuel <= self.nodes.len(),
                self@.in_subtree(e, root) == self@.within(cur, root, fuel as nat),
            decreases fuel,
        {
            if cur == root {
                return true;
            }
            if fuel == 0 {
                return false;
            }
            match self.find(cur) {
                None => {
                    return false;
                },
                Some(i) => {
                    match self.nodes[i].parent {
                        None => {
                            return false;
                        },
                        Some(p) => {
                            cur = p;
                            fuel = fuel - 1;
                        },
                    }
                },
            }
        }
    }

    fn probe_matches(&self, q: &Probe, i: usize) -> (r: bool)
        requires
            self@.wf(),
            i < self.nodes.len(),
        ensures
            r == self@.matches(q@, self@.nodes[i as int]),
    {
        let n = &self.nodes[i];
        match q {
            Probe::TabFor(w) => match &n.part {
                DockPart::Tab { window_id, .. } => *window_id == **w,
                _ => false,
            },
            Probe::TabForIn(w, root) => match &n.part {
                DockPart::Tab { window_id, .. } => *window_id == **w && self.in_subtree(n.entity, *root),
                _ => false,
            },
            Probe::ContentFor(w) => match &n.part {
                DockPart::Content { window_id, .. } => *window_id == **w && n.parent.is_some(),
                _ => false,
            },
            Probe::ContentForIn(w, a) => match &n.part {
                DockPart::Content { window_id, .. } => *window_id == **w && n.parent == Some(*a),
                _ => false,
            },
            Probe::ContentIn(a) => match &n.part {
                DockPart::Content { .. } => n.parent == Some(*a),
                _ => false,
            },
            Probe::ContentInExcept(a, w) => match &n.part {
                DockPart::Content { window_id, .. } => !(*window_id == **w) && n.parent == Some(*a),
                _ => false,
            },
        }
    }

    /// The first entity, in query order, that the probe picks.
    pub fn first(&self, q: &Probe) -> (r: Option<u64>)
        requires
            self@.wf(),
        ensures
            r == self@.first(q@),
    {
        let mut i: usize = 0;
        while i < self.nodes.len()
            invariant
                0 <= i <= self.nodes.len(),
                self@.wf(),
                self@.first_from(q@, 0) == self@.first_from(q@, i as int),
            decreases self.nodes.len() - i,
        {
            if self.probe_matches(q, i) {
                return Some(self.nodes[i].entity);
            }
            i += 1;
        }
        None
    }
}


/// A pass over all dock entities that restyles or shows some of them.
pub enum PassView {
    /// Highlights the tabs of the given window and dims the others, among the tabs
    /// of the given row (or among all tabs, when no row is given).
    RetintTabs(Option<u64>, Seq<char>),
    /// Highlights the sidebar icons of the given window among the icons of a group.
    RetintIcons(u64, Seq<char>),
    /// Shows the contents of the given window in an area and hides the others.
    SwitchContents(u64, Seq<char>),
    /// Shows the contents of the given window in an area, leaving the others as they are.
    RevealContents(u64, Seq<char>),
    /// Records the active window of an area.
    Activate(u64, Option<Seq<char>>),
    /// Makes the second window active in an area whose active window is the first.
    ReplaceActive(u64, Seq<char>, Seq<char>),
    /// Shows or hides one content entity.
    ShowContent(u64, bool),
    /// Shows or hides the close button of one tab.
    ShowClose(u64, bool),
}

/// The executable form of [`PassView`].
pub enum Pass<'a> {
    RetintTabs(Option<u64>, &'a String),
    RetintIcons(u64, &'a String),
    SwitchContents(u64, &'a String),
    RevealContents(u64, &'a String),
    Activate(u64, &'a Option<String>),
    ReplaceActive(u64, &'a String, &'a String),
    ShowContent(u64, bool),
    ShowClose(u64, bool),
}

impl<'a> View for Pass<'a> {
    type V = PassView;

    open spec fn view(&self) -> PassView {
        match *self {
            Pass::RetintTabs(r, w) => PassView::RetintTabs(r, w@),
            Pass::RetintIcons(g, w) => PassView::RetintIcons(g, w@),
            Pass::SwitchContents(a, w) => PassView::SwitchContents(a, w@),
            Pass::RevealContents(a, w) => PassView::RevealContents(a, w@),
            Pass::Activate(a, w) => PassView::Activate(a, opt_text(*w)),
            Pass::ReplaceActive(a, w, f) => PassView::ReplaceActive(a, w@, f@),
            Pass::ShowContent(c, b) => PassView::ShowContent(c, b),
            Pass::ShowClose(t, b) => PassView::ShowClose(t, b),
        }
    }
}

/// What a pass makes of one node.
pub open spec fn pass_node(p: PassView, n: NodeView) -> NodeView {
    match p {
        PassView::RetintTabs(row, w) => match n.part {
            PartView::Tab { window_id, label, highlighted, close_glyph, close_shown } =>
                if row is None || n.parent == row {
                    NodeView {
                        part: PartView::Tab {
                            window_id,
                            label,
                            highlighted: window_id == w,
                            close_glyph,
                            close_shown,
                        },
                        ..n
                    }
                } else {
                    n
                },
            _ => n,
        },
        PassView::RetintIcons(g, w) => match n.part {
            PartView::SidebarIcon { window_id, icon, highlighted } =>
                if n.parent == Some(g) {
                    NodeView { part: PartView::SidebarIcon { window_id, icon, highlighted: window_id == w }, ..n }
                } else {
                    n
                },
            _ => n,
        },
        PassView::SwitchContents(a, w) => match n.part {
            PartView::Content { window_id, shown } =>
                if n.parent == Some(a) {
                    NodeView { part: PartView::Content { window_id, shown: window_id == w }, ..n }
                } else {
                    n
                },
            _ => n,
        },
        PassView::RevealContents(a, w) => match n.part {
            PartView::Content { window_id, shown } =>
                if n.parent == Some(a) && window_id == w {
                    NodeView { part: PartView::Content { window_id, shown: true }, ..n }
                } else {
                    n
                },
            _ => n,
        },
        PassView::Activate(a, w) => if n.entity == a {
            match n.part {
                PartView::Area { id, style, active } => NodeView {
                    part: PartView::Area { id, style, active: Some(w) },
                    ..n
                },
                _ => NodeView { host_active: Some(w), ..n },
            }
        } else {
            n
        },
        PassView::ReplaceActive(a, w, f) => match n.part {
            PartView::Area { id, style, active } =>
                if n.entity == a && active == Some(Some(w)) {
                    NodeView { part: PartView::Area { id, style, active: Some(Some(f)) }, ..n }
                } else {
                    n
                },
            _ => n,
        },
        PassView::ShowContent(c, b) => match n.part {
            PartView::Content { window_id, shown } =>
                if n.entity == c {
                    NodeView { part: PartView::Content { window_id, shown: b }, ..n }
                } else {
                    n
                },
            _ => n,
        },
        PassView::ShowClose(t, b) => match n.part {
            PartView::Tab { window_id, label, highlighted, close_glyph, close_shown } =>
                if n.entity == t && close_glyph is Some {
                    NodeView {
                        part: PartView::Tab { window_id, label, highlighted, close_glyph, close_shown: b },
                        ..n
                    }
                } else {
                    n
                },
            _ => n,
        },
    }
}

impl WorldView {
    #[verifier::opaque]
    pub open spec fn apply(self, p: PassView) -> WorldView {
        self.with_nodes(self.nodes.map_values(|n: NodeView| pass_node(p, n)))
    }

    /// The first tab row, in depth-first pre-order, at or below `e`.
    pub open spec fn row_search(self, e: u64, fuel: nat) -> Option<u64>
        decreases fuel, 0int,
    {
        if !self.has(e) {
            None
        } else if self.node(e).part is TabRow {
            Some(e)
        } else if fuel == 0 {
            None
        } else {
            self.row_search_in(self.node(e).children, 0, (fuel - 1) as nat)
        }
    }

    /// The first tab row at or below the children `kids[i..]`.
    pub open spec fn row_search_in(self, kids: Seq<u64>, i: int, fuel: nat) -> Option<u64>
        decreases fuel, kids.len() - i + 1,
    {
        if i < 0 || i >= kids.len() {
            None
        } else {
            match self.row_search(kids[i], fuel) {
                Some(r) => Some(r),
                None => self.row_search_in(kids, i + 1, fuel),
            }
        }
    }

    /// The tab row of the subtree of `e`.
    pub open spec fn tab_row_of(self, e: u64) -> Option<u64> {
        self.row_search(e, self.nodes.len())
    }

    /// The nearest dock area at or above `e`, following at most `fuel` parent links.
    pub open spec fn area_search(self, e: u64, fuel: nat) -> Option<u64>
        decreases fuel,
    {
        if !self.has(e) {
            None
        } else if self.node(e).part is Area {
            Some(e)
        } else if fuel == 0 {
            None
        } else {
            match self.node(e).parent {
                Some(p) => self.area_search(p, (fuel - 1) as nat),
                None => None,
            }
        }
    }

    /// The dock area that holds `e`.
    pub open spec fn area_of(self, e: u64) -> Option<u64> {
        self.area_search(e, self.nodes.len())
    }

    /// The active window record of the nearest area at or above `e` that has one.
    pub open spec fn active_search(self, e: u64, fuel: nat) -> Option<Option<Seq<char>>>
        decreases fuel,
    {
        if !self.has(e) {
            None
        } else {
            match self.node(e).part {
                PartView::Area { active: Some(a), .. } => Some(a),
                _ => if fuel == 0 {
                    None
                } else {
                    match self.node(e).parent {
                        Some(p) => self.active_search(p, (fuel - 1) as nat),
                        None => None,
                    }
                },
            }
        }
    }

    pub open spec fn active_above(self, e: u64) -> Option<Option<Seq<char>>> {
        self.active_search(e, self.nodes.len())
    }
}

impl DockWorld {
    /// Applies a restyling pass to every entity.
    pub fn apply(&mut self, p: &Pass)
        requires
            old(self)@.wf(),
        ensures
            final(self).next_entity == old(self).next_entity,
            final(self)@ == old(self)@.apply(p@),
            final(self)@.wf(),
    {
        reveal(WorldView::apply);
        let ghost pv = p@;
        let mut i: usize = 0;
        while i < self.nodes.len()
            invariant
                0 <= i <= self.nodes.len(),
                pv == p@,
                self@.next_entity == old(self)@.next_entity,
                self.nodes@.len() == old(self).nodes@.len(),
                forall|j: int| 0 <= j < i ==> self.nodes@[j]@ == pass_node(pv, old(self).nodes@[j]@),
                forall|j: int| i <= j < self.nodes@.len() ==> self.nodes@[j] == old(self).nodes@[j],
            decreases self.nodes.len() - i,
        {
            let parent = self.nodes[i].parent;
            let ghost before = self.nodes@;
            match p {
                Pass::RetintTabs(row, w) => {
                    if let DockPart::Tab { window_id, highlighted, .. } = &mut self.nodes[i].part {
                        if row.is_none() || parent == *row {
                            *highlighted = *window_id == **w;
                        }
                    }
                    assert(self.nodes@[i as int]@ == pass_node(pv, old(self).nodes@[i as int]@));
                },
                Pass::RetintIcons(g, w) => {
                    if let DockPart::SidebarIcon { window_id, highlighted, .. } = &mut self.nodes[i].part {
                        if parent == Some(*g) {
                            *highlighted = *window_id == **w;
                        }
                    }
                    assert(self.nodes@[i as int]@ == pass_node(pv, old(self).nodes@[i as int]@));
                },
                Pass::SwitchContents(a, w) => {
                    if let DockPart::Content { window_id, shown } = &mut self.nodes[i].part {
                        if parent == Some(*a) {
                            *shown = *window_id == **w;
                        }
                    }
                    assert(self.nodes@[i as int]@ == pass_node(pv, old(self).nodes@[i as int]@));
                },
                Pass::RevealContents(a, w) => {
                    if let DockPart::Content { window_id, shown } = &mut self.nodes[i].part {
                        if parent == Some(*a) && *window_id == **w {
                            *shown = true;
                        }
                    }
                    assert(self.nodes@[i as int]@ == pass_node(pv, old(self).nodes@[i as int]@));
                },
                Pass::Activate(a, w) => {
                    let me = self.nodes[i].entity;
                    if me == *a {
                        let is_area = matches!(self.nodes[i].part, DockPart::Area { .. });
                        if is_area {
                            if let DockPart::Area { active, .. } = &mut self.nodes[i].part {
                                *active = Some(clone_opt(*w));
                            }
                        } else {
                            self.nodes[i].host_active = Some(clone_opt(*w));
                        }
                    }
                    assert(self.nodes@[i as int]@ == pass_node(pv, old(self).nodes@[i as int]@));
                },
                Pass::ReplaceActive(a, w, f) => {
                    let me = self.nodes[i].entity;
                    if let DockPart::Area { active, .. } = &mut self.nodes[i].part {
                        let hit = match active {
                            Some(Some(cur)) => *cur == **w,
                            _ => false,
                        };
                        if me == *a && hit {
                            *active = Some(Some((**f).clone()));
                        }
                    }
                    assert(self.nodes@[i as int]@ == pass_node(pv, old(self).nodes@[i as int]@));
                },
                Pass::ShowContent(c, b) => {
                    let me = self.nodes[i].entity;
                    if let DockPart::Content { shown, .. } = &mut self.nodes[i].part {
                        if me == *c {
                            *shown = *b;
                        }
                    }
                    assert(self.nodes@[i as int]@ == pass_node(pv, old(self).nodes@[i as int]@));
                },
                Pass::ShowClose(t, b) => {
                    let me = self.nodes[i].entity;
                    if let DockPart::Tab { close_glyph, close_shown, .. } = &mut self.nodes[i].part {
                        if me == *t && close_glyph.is_some() {
                            *close_shown = *b;
                        }
                    }
                    assert(self.nodes@[i as int]@ == pass_node(pv, old(self).nodes@[i as int]@));
                },
            }
            assert(forall|j: int| 0 <= j < self.nodes.len() && j != i ==> self.nodes@[j] == before[j]);
            i += 1;
        }
        assert(self@.nodes =~= old(self)@.apply(pv).nodes);
    }

    /// The first tab row, depth first, in the subtree of `e`.
    pub fn find_tab_row_recursive(&self, e: u64, fuel: usize) -> (r: Option<u64>)
        requires
            self@.wf(),
        ensures
            r == self@.row_search(e, fuel as nat),
        decreases fuel, 0int,
    {
        match self.find(e) {
            None => None,
            Some(i) => {
                if let DockPart::TabRow = self.nodes[i].part {
                    Some(e)
                } else if fuel == 0 {
                    None
                } else {
                    self.search_children(&self.nodes[i].children, fuel - 1)
                }
            },
        }
    }

    fn search_children(&self, kids: &Vec<u64>, fuel: usize) -> (r: Option<u64>)
        requires
            self@.wf(),
        ensures
            r == self@.row_search_in(kids@, 0, fuel as nat),
        decreases fuel, 1int,
    {
        let mut i: usize = 0;
        while i < kids.len()
            invariant
                0 <= i <= kids.len(),
                self@.wf(),
                self@.row_search_in(kids@, 0, fuel as nat) == self@.row_search_in(kids@, i as int, fuel as nat),
            decreases kids.len() - i,
        {
            match self.find_tab_row_recursive(kids[i], fuel) {
                Some(r) => {
                    return Some(r);
                },
                None => {},
            }
            i += 1;
        }
        None
    }

    /// The dock area that holds `e`.
    pub fn find_parent_area(&self, e: u64) -> (r: Option<u64>)
        requires
            self@.wf(),
        ensures
            r == self@.area_of(e),
    {
        let mut cur = e;
        let mut fuel = self.nodes.len();
        loop
            invariant
                self@.wf(),
                fuel <= self.nodes.len(),
                self@.area_of(e) == self@.area_search(cur, fuel as nat),
            decreases fuel,
        {
            match self.find(cur) {
                None => {
                    return None;
                },
                Some(i) => {
                    if let DockPart::Area { .. } = self.nodes[i].part {
                        return Some(cur);
                    }
                    if fuel == 0 {
                        return None;
                    }
                    match self.nodes[i].parent {
                        None => {
                            return None;
                        },
                        Some(p) => {
                            cur = p;
                            fuel = fuel - 1;
                        },
                    }
                },
            }
        }
    }

    /// The active window of the nearest area at or above `e` that records one.
    pub fn find_active_above(&self, e: u64) -> (r: Option<Option<String>>)
        requires
            self@.wf(),
        ensures
            match r {
                Some(a) => self@.active_above(e) == Some(opt_text(a)),
                None => self@.active_above(e) is None,
            },
    {
        let mut cur = e;
        let mut fuel = self.nodes.len();
        loop
            invariant
                self@.wf(),
                fuel <= self.nodes.len(),
                self@.active_above(e) == self@.active_search(cur, fuel as nat),
            decreases fuel,
        {
            match self.find(cur) {
                None => {
                    return None;
                },
                Some(i) => {
                    if let DockPart::Area { active: Some(a), .. } = &self.nodes[i].part {
                        return Some(clone_opt(a));
                    }
                    if fuel == 0 {
                        return None;
                    }
                    match self.nodes[i].parent {
                        None => {
                            return None;
                        },
                        Some(p) => {
                            cur = p;
                            fuel = fuel - 1;
                        },
                    }
                },
            }
        }
    }
}

/// A copy of an optional text.
pub fn clone_opt(o: &Option<String>) -> (r: Option<String>)
    ensures
        opt_text(r) == opt_text(*o),
{
    match o {
        Some(s) => Some(s.clone()),
        None => None,
    }
}


pub proof fn lemma_first_from(v: WorldView, q: NodeQuery, i: int)
    ensures
        match v.first_from(q, i) {
            Some(k) => i <= k < v.nodes.len() && 0 <= k && v.matches(q, v.nodes[k]),
            None => true,
        },
    decreases v.nodes.len() - i,
{
    if i < 0 || i >= v.nodes.len() {
    } else if v.matches(q, v.nodes[i]) {
    } else {
        lemma_first_from(v, q, i + 1);
    }
}

/// The entity that `first` picks exists and passes the test.
pub proof fn lemma_first(v: WorldView, q: NodeQuery)
    requires
        v.wf(),
    ensures
        match v.first(q) {
            Some(e) => v.has(e) && v.matches(q, v.node(e)),
            None => true,
        },
{
    lemma_first_from(v, q, 0);
    match v.first_from(q, 0) {
        Some(k) => lemma_index_of(v, k),
        None => {},
    }
}

/// The first position at or after `i` at which `x` occurs in `s`.
pub open spec fn pos_from(s: Seq<u64>, x: u64, i: int) -> Option<int>
    decreases s.len() - i,
{
    if i < 0 || i >= s.len() {
        None
    } else if s[i] == x {
        Some(i)
    } else {
        pos_from(s, x, i + 1)
    }
}

pub proof fn lemma_pos_from(s: Seq<u64>, x: u64, i: int)
    ensures
        match pos_from(s, x, i) {
            Some(k) => 0 <= i <= k < s.len() && s[k] == x,
            None => true,
        },
    decreases s.len() - i,
{
    if i < 0 || i >= s.len() {
    } else if s[i] == x {
    } else {
        lemma_pos_from(s, x, i + 1);
    }
}

/// The first position of `x` in `v`.
pub fn position(v: &Vec<u64>, x: u64) -> (r: Option<usize>)
    ensures
        match r {
            Some(k) => pos_from(v@, x, 0) == Some(k as int),
            None => pos_from(v@, x, 0) is None,
        },
{
    let mut i: usize = 0;
    while i < v.len()
        invariant
            0 <= i <= v.len(),
            pos_from(v@, x, 0) == pos_from(v@, x, i as int),
        decreases v.len() - i,
    {
        if v[i] == x {
            return Some(i);
        }
        i += 1;
    }
    None
}

/// A freshly spawned node is there, with the part, parent and share it was given, and
/// every node that was there stays.
pub proof fn lemma_spawn(v: WorldView, part: PartView, parent: Option<u64>, ratio: Option<u32>)
    requires
        v.wf(),
        v.next_entity < u64::MAX,
    ensures
        v.spawn(part, parent, ratio).has(v.next_entity),
        v.spawn(part, parent, ratio).node(v.next_entity).parent == parent,
        v.spawn(part, parent, ratio).node(v.next_entity).part == part,
        forall|x: u64| v.has(x) ==> v.spawn(part, parent, ratio).has(x),
{
    reveal(WorldView::spawn);
    reveal(WorldView::push_child);
    let s = v.spawn(part, parent, ratio);
    let k = v.nodes.len() as int;
    assert(s.nodes[k].entity == v.next_entity);
    assert(s.wf()) by {
        assert forall|i: int, j: int|
            0 <= i < s.nodes.len() && 0 <= j < s.nodes.len() && i != j implies s.nodes[i].entity
            != s.nodes[j].entity by {
            if i < k && j < k {
            } else if i == k {
                assert(v.nodes[j].entity < v.next_entity);
            } else {
                assert(v.nodes[i].entity < v.next_entity);
            }
        }
    }
    lemma_index_of(s, k);
    assert forall|x: u64| v.has(x) implies s.has(x) by {
        let i = v.index_of(x);
        assert(s.nodes[i].entity == x);
    }
}

/// Detaching a node that has no parent changes nothing.
pub proof fn lemma_detach_orphan(v: WorldView, c: u64)
    requires
        v.has(c) ==> v.node(c).parent is None,
    ensures
        v.detach(c) == v,
{
    reveal(WorldView::detach);
}

/// Two worlds with the same entities at the same positions have the same entities, and a
/// node is found at the same position in both.
pub proof fn lemma_same_entities(v: WorldView, w: WorldView)
    requires
        v.wf(),
        v.nodes.len() == w.nodes.len(),
        forall|i: int| 0 <= i < v.nodes.len() ==> #[trigger] w.nodes[i].entity == v.nodes[i].entity,
        w.next_entity == v.next_entity,
    ensures
        w.wf(),
        forall|x: u64| #[trigger] w.has(x) == v.has(x),
        forall|x: u64| v.has(x) ==> #[trigger] w.index_of(x) == v.index_of(x),
{
    assert(w.wf()) by {
        assert forall|i: int, j: int|
            0 <= i < w.nodes.len() && 0 <= j < w.nodes.len() && i != j implies w.nodes[i].entity
            != w.nodes[j].entity by {
            assert(w.nodes[i].entity == v.nodes[i].entity);
            assert(w.nodes[j].entity == v.nodes[j].entity);
        }
        assert forall|i: int| 0 <= i < w.nodes.len() implies w.nodes[i].entity < w.next_entity by {
            assert(w.nodes[i].entity == v.nodes[i].entity);
        }
    }
    assert forall|x: u64| #[trigger] w.has(x) == v.has(x) by {
        if v.has(x) {
            let i = v.index_of(x);
            assert(w.nodes[i].entity == x);
        }
        if w.has(x) {
            let i = w.index_of(x);
            assert(v.nodes[i].entity == w.nodes[i].entity);
        }
    }
    assert forall|x: u64| v.has(x) implies #[trigger] w.index_of(x) == v.index_of(x) by {
        let i = v.index_of(x);
        lemma_index_of(v, i);
        assert(w.nodes[i].entity == x);
        lemma_index_of(w, i);
    }
}

/// A pass changes parts only: every node keeps its place, parent, children and share, and
/// its part is what the pass makes of it.
pub proof fn lemma_apply_frame(v: WorldView, p: PassView)
    requires
        v.wf(),
    ensures
        v.apply(p).wf(),
        v.apply(p).next_entity == v.next_entity,
        forall|x: u64| #[trigger] v.apply(p).has(x) == v.has(x),
        forall|x: u64|
            v.has(x) ==> #[trigger] v.apply(p).node(x) == pass_node(p, v.node(x)),
{
    reveal(WorldView::apply);
    let w = v.apply(p);
    assert forall|i: int| 0 <= i < v.nodes.len() implies #[trigger] w.nodes[i].entity == v.nodes[i].entity by {
        assert(w.nodes[i] == pass_node(p, v.nodes[i]));
    }
    lemma_same_entities(v, w);
}

/// Filtering keeps entity numbers distinct.
proof fn lemma_filter_distinct(s: Seq<NodeView>, p: spec_fn(NodeView) -> bool)
    requires
        forall|i: int, j: int| 0 <= i < s.len() && 0 <= j < s.len() && i != j ==> s[i].entity != s[j].entity,
    ensures
        forall|i: int, j: int|
            0 <= i < s.filter(p).len() && 0 <= j < s.filter(p).len() && i != j ==> s.filter(p)[i].entity
                != s.filter(p)[j].entity,
    decreases s.len(),
{
    reveal(Seq::filter);
    if s.len() > 0 {
        let t = s.drop_last();
        lemma_filter_distinct(t, p);
        let f = t.filter(p);
        if p(s.last()) {
            assert forall|i: int| 0 <= i < f.len() implies #[trigger] f[i].entity != s.last().entity by {
                assert(f.contains(f[i]));
                t.lemma_filter_contains_rev(p, f[i]);
                let k = choose|k: int| 0 <= k < t.len() && t[k] == f[i];
                assert(s[k] == t[k]);
            }
            let g = s.filter(p);
            assert(g == f.push(s.last()));
            assert forall|i: int, j: int| 0 <= i < g.len() && 0 <= j < g.len() && i != j implies g[i].entity
                != g[j].entity by {
                if i < f.len() && j < f.len() {
                    assert(g[i] == f[i] && g[j] == f[j]);
                } else if i < f.len() {
                    assert(g[i] == f[i]);
                } else if j < f.len() {
                    assert(g[j] == f[j]);
                }
            }
        }
    }
}

/// Keeping the nodes that `p` accepts: what stays is exactly the accepted nodes, as they
/// were.
pub proof fn lemma_filter_nodes(d: WorldView, p: spec_fn(NodeView) -> bool)
    requires
        d.wf(),
    ensures
        d.with_nodes(d.nodes.filter(p)).wf(),
        forall|x: u64| #[trigger] d.with_nodes(d.nodes.filter(p)).has(x) == (d.has(x) && p(d.node(x))),
        forall|x: u64|
            d.with_nodes(d.nodes.filter(p)).has(x) ==> #[trigger] d.with_nodes(d.nodes.filter(p)).node(x)
                == d.node(x),
{
    broadcast use vstd::seq_lib::group_filter_ensures;
    let r = d.with_nodes(d.nodes.filter(p));
    lemma_filter_distinct(d.nodes, p);
    assert forall|i: int| 0 <= i < r.nodes.len() implies exists|k: int| 0 <= k < d.nodes.len() && d.nodes[k] == #[trigger] r.nodes[i] by {
        assert(r.nodes.contains(r.nodes[i]));
        d.nodes.lemma_filter_contains_rev(p, r.nodes[i]);
    }
    assert(r.wf()) by {
        assert forall|i: int| 0 <= i < r.nodes.len() implies r.nodes[i].entity < r.next_entity by {
            let k = choose|k: int| 0 <= k < d.nodes.len() && d.nodes[k] == #[trigger] r.nodes[i];
        }
    }
    assert forall|x: u64| #[trigger] r.has(x) == (d.has(x) && p(d.node(x))) by {
        if r.has(x) {
            let i = r.index_of(x);
            let k = choose|k: int| 0 <= k < d.nodes.len() && d.nodes[k] == #[trigger] r.nodes[i];
            lemma_index_of(d, k);
            assert(p(r.nodes[i]));
        }
        if d.has(x) && p(d.node(x)) {
            let k = d.index_of(x);
            assert(r.nodes.contains(d.nodes[k]));
        }
    }
    assert forall|x: u64| r.has(x) implies #[trigger] r.node(x) == d.node(x) by {
        let i = r.index_of(x);
        let k = choose|k: int| 0 <= k < d.nodes.len() && d.nodes[k] == #[trigger] r.nodes[i];
        lemma_index_of(d, k);
    }
}

/// Despawning `e` removes `e` and every node below it, and leaves every other node where
/// it hangs, with its part. Despawning an entity that is not there changes nothing.
pub proof fn lemma_despawn_frame(v: WorldView, e: u64)
    requires
        v.wf(),
    ensures
        v.despawn(e).wf(),
        v.despawn(e).next_entity == v.next_entity,
        !v.despawn(e).has(e),
        !v.has(e) ==> v.despawn(e) == v,
        v.has(e) ==> forall|x: u64| #[trigger] v.despawn(e).has(x) == (v.has(x) && !v.in_subtree(x, e)),
        forall|x: u64|
            #[trigger] v.despawn(e).has(x) ==> v.has(x) && v.despawn(e).node(x).part == v.node(x).part
                && v.despawn(e).node(x).parent == v.node(x).parent,
{
    reveal(WorldView::despawn);
    if v.has(e) {
        let d = v.detach(e);
        lemma_detach_frame(v, e);
        lemma_filter_nodes(d, outside(v, e));
        let r = v.despawn(e);
        assert(v.in_subtree(e, e));
        assert forall|x: u64| #[trigger] r.has(x) == (v.has(x) && !v.in_subtree(x, e)) by {
            if d.has(x) {
                assert(d.node(x).entity == x) by {
                    let k = d.index_of(x);
                }
            }
        }
        assert forall|x: u64|
            #[trigger] r.has(x) implies v.has(x) && r.node(x).part == v.node(x).part && r.node(x).parent
                == v.node(x).parent by {
            assert(d.node(x).entity == x) by {
                let k = d.index_of(x);
            }
        }
    }
}

/// Reparenting `c` under `p` gives it that parent and leaves every node's part, and every
/// other node's parent, as it was.
pub proof fn lemma_reparent_frame(v: WorldView, c: u64, p: u64)
    requires
        v.wf(),
    ensures
        v.reparent(c, p).wf(),
        v.reparent(c, p).next_entity == v.next_entity,
        forall|x: u64| #[trigger] v.reparent(c, p).has(x) == v.has(x),
        v.has(c) ==> v.reparent(c, p).node(c).parent == Some(p),
        forall|x: u64|
            v.has(x) ==> (#[trigger] v.reparent(c, p).node(x)).part == v.node(x).part
                && (x != c ==> v.reparent(c, p).node(x).parent == v.node(x).parent),
{
    reveal(WorldView::reparent);
    reveal(WorldView::detach);
    reveal(WorldView::set_parent_field);
    reveal(WorldView::remove_child);
    reveal(WorldView::push_child);
    if v.has(c) {
        let r = v.reparent(c, p);
        assert forall|i: int| 0 <= i < v.nodes.len() implies #[trigger] r.nodes[i].entity == v.nodes[i].entity by {
        }
        lemma_same_entities(v, r);
        assert forall|x: u64|
            v.has(x) implies (#[trigger] r.node(x)).part == v.node(x).part && (x != c ==> r.node(x).parent
                == v.node(x).parent) by {
            let j = v.index_of(x);
            lemma_index_of(v, j);
            lemma_index_of(r, j);
        }
        let k = v.index_of(c);
        lemma_index_of(v, k);
        lemma_index_of(r, k);
    }
}

/// Spawning keeps every node that was there, with its part and parent.
pub proof fn lemma_spawn_frame(v: WorldView, part: PartView, parent: Option<u64>, ratio: Option<u32>)
    requires
        v.wf(),
        v.next_entity < u64::MAX,
    ensures
        v.spawn(part, parent, ratio).wf(),
        v.spawn(part, parent, ratio).next_entity == v.next_entity + 1,
        !v.has(v.next_entity),
        forall|x: u64| v.has(x) ==> #[trigger] v.spawn(part, parent, ratio).has(x),
        forall|x: u64|
            v.has(x) ==> (#[trigger] v.spawn(part, parent, ratio).node(x)).part == v.node(x).part
                && v.spawn(part, parent, ratio).node(x).parent == v.node(x).parent,
{
    reveal(WorldView::spawn);
    reveal(WorldView::push_child);
    lemma_spawn(v, part, parent, ratio);
    let s = v.spawn(part, parent, ratio);
    assert(!v.has(v.next_entity)) by {
        if v.has(v.next_entity) {
            let i = v.index_of(v.next_entity);
        }
    }
    assert forall|x: u64|
        v.has(x) implies (#[trigger] s.node(x)).part == v.node(x).part && s.node(x).parent == v.node(x).parent by {
        let j = v.index_of(x);
        lemma_index_of(v, j);
        assert(s.nodes[j].entity == x);
        lemma_index_of(s, j);
    }
    assert(s.wf()) by {
        let k = v.nodes.len() as int;
        assert forall|i: int, j: int|
            0 <= i < s.nodes.len() && 0 <= j < s.nodes.len() && i != j implies s.nodes[i].entity
            != s.nodes[j].entity by {
            if i < k && j < k {
            } else if i == k {
                assert(v.nodes[j].entity < v.next_entity);
            } else {
                assert(v.nodes[i].entity < v.next_entity);
            }
        }
    }
}

/// Changing a share leaves every node's part and parent as they were.
pub proof fn lemma_set_ratio_frame(v: WorldView, e: u64, r: Option<u32>)
    requires
        v.wf(),
    ensures
        v.set_ratio(e, r).wf(),
        v.set_ratio(e, r).next_entity == v.next_entity,
        forall|x: u64| #[trigger] v.set_ratio(e, r).has(x) == v.has(x),
        forall|x: u64|
            v.has(x) ==> (#[trigger] v.set_ratio(e, r).node(x)).part == v.node(x).part
                && v.set_ratio(e, r).node(x).parent == v.node(x).parent,
{
    reveal(WorldView::set_ratio);
    let w = v.set_ratio(e, r);
    assert forall|i: int| 0 <= i < v.nodes.len() implies #[trigger] w.nodes[i].entity == v.nodes[i].entity by {
    }
    lemma_same_entities(v, w);
    assert forall|x: u64| v.has(x) implies (#[trigger] w.node(x)).part == v.node(x).part && w.node(x).parent
        == v.node(x).parent by {
        let j = v.index_of(x);
        lemma_index_of(v, j);
        lemma_index_of(w, j);
    }
}

/// Detaching `c` clears its parent and leaves every node's part, and every other node's
/// parent, as they were.
pub proof fn lemma_detach_frame(v: WorldView, c: u64)
    requires
        v.wf(),
    ensures
        v.detach(c).wf(),
        v.detach(c).next_entity == v.next_entity,
        forall|x: u64| #[trigger] v.detach(c).has(x) == v.has(x),
        v.has(c) ==> v.detach(c).node(c).parent is None,
        forall|x: u64|
            v.has(x) ==> (#[trigger] v.detach(c).node(x)).part == v.node(x).part
                && (x != c ==> v.detach(c).node(x).parent == v.node(x).parent),
{
    reveal(WorldView::detach);
    reveal(WorldView::set_parent_field);
    reveal(WorldView::remove_child);
    let w = v.detach(c);
    assert forall|i: int| 0 <= i < v.nodes.len() implies #[trigger] w.nodes[i].entity == v.nodes[i].entity by {
    }
    lemma_same_entities(v, w);
    assert forall|x: u64| v.has(x) implies (#[trigger] w.node(x)).part == v.node(x).part && (x != c
        ==> w.node(x).parent == v.node(x).parent) by {
        let j = v.index_of(x);
        lemma_index_of(v, j);
        lemma_index_of(w, j);
    }
    if v.has(c) {
        let k = v.index_of(c);
        lemma_index_of(v, k);
        lemma_index_of(w, k);
    }
}

/// Placing `c` at a position among `p`'s children gives it that parent and leaves every
/// node's part, and every other node's parent, as they were.
pub proof fn lemma_insert_child_at_frame(v: WorldView, p: u64, i: int, c: u64)
    requires
        v.wf(),
    ensures
        v.insert_child_at(p, i, c).wf(),
        v.insert_child_at(p, i, c).next_entity == v.next_entity,
        forall|x: u64| #[trigger] v.insert_child_at(p, i, c).has(x) == v.has(x),
        v.has(c) ==> v.insert_child_at(p, i, c).node(c).parent == Some(p),
        forall|x: u64|
            v.has(x) ==> (#[trigger] v.insert_child_at(p, i, c).node(x)).part == v.node(x).part
                && (x != c ==> v.insert_child_at(p, i, c).node(x).parent == v.node(x).parent),
{
    reveal(WorldView::insert_child_at);
    reveal(WorldView::detach);
    reveal(WorldView::set_parent_field);
    reveal(WorldView::remove_child);
    reveal(WorldView::insert_child);
    if v.has(c) {
        let w = v.insert_child_at(p, i, c);
        assert forall|j: int| 0 <= j < v.nodes.len() implies #[trigger] w.nodes[j].entity == v.nodes[j].entity by {
        }
        lemma_same_entities(v, w);
        assert forall|x: u64| v.has(x) implies (#[trigger] w.node(x)).part == v.node(x).part && (x != c
            ==> w.node(x).parent == v.node(x).parent) by {
            let j = v.index_of(x);
            lemma_index_of(v, j);
            lemma_index_of(w, j);
        }
        let k = v.index_of(c);
        lemma_index_of(v, k);
        lemma_index_of(w, k);
    }
}
/// Spawning changes the children of the new node's parent only; the new node has none.
pub proof fn lemma_spawn_children(v: WorldView, part: PartView, parent: Option<u64>, ratio: Option<u32>)
    requires
        v.wf(),
        v.next_entity < u64::MAX,
    ensures
        forall|x: u64|
            v.has(x) && parent != Some(x) ==> #[trigger] v.spawn(part, parent, ratio).node(x).children
                == v.node(x).children,
        parent != Some(v.next_entity) ==> v.spawn(part, parent, ratio).node(v.next_entity).children
            == Seq::<u64>::empty(),
{
    reveal(WorldView::spawn);
    reveal(WorldView::push_child);
    lemma_spawn(v, part, parent, ratio);
    lemma_spawn_frame(v, part, parent, ratio);
    let s = v.spawn(part, parent, ratio);
    let k = v.nodes.len() as int;
    assert forall|x: u64| v.has(x) && parent != Some(x) implies #[trigger] s.node(x).children == v.node(x).children by {
        let j = v.index_of(x);
        lemma_index_of(v, j);
        assert(s.nodes[j].entity == x);
        lemma_index_of(s, j);
    }
    assert(s.nodes[k].entity == v.next_entity);
    lemma_index_of(s, k);
}

/// Changing a share leaves every node's children as they were.
pub proof fn lemma_set_ratio_children(v: WorldView, e: u64, r: Option<u32>)
    requires
        v.wf(),
    ensures
        forall|x: u64| v.has(x) ==> #[trigger] v.set_ratio(e, r).node(x).children == v.node(x).children,
{
    reveal(WorldView::set_ratio);
    let w = v.set_ratio(e, r);
    assert forall|j: int| 0 <= j < v.nodes.len() implies #[trigger] w.nodes[j].entity == v.nodes[j].entity by {}
    lemma_same_entities(v, w);
    assert forall|x: u64| v.has(x) implies #[trigger] w.node(x).children == v.node(x).children by {
        let j = v.index_of(x);
        lemma_index_of(v, j);
        lemma_index_of(w, j);
    }
}

/// A styling pass leaves every node's children as they were.
pub proof fn lemma_apply_children(v: WorldView, p: PassView)
    requires
        v.wf(),
    ensures
        forall|x: u64| v.has(x) ==> #[trigger] v.apply(p).node(x).children == v.node(x).children,
{
    lemma_apply_frame(v, p);
    assert forall|x: u64| v.has(x) implies #[trigger] v.apply(p).node(x).children == v.node(x).children by {
        assert(v.apply(p).node(x) == pass_node(p, v.node(x)));
    }
}

/// Reparenting `c` under `p` changes the children of `p` and of `c`'s old parent only; a
/// parentless `c` goes last among `p`'s children.
pub proof fn lemma_reparent_children(v: WorldView, c: u64, p: u64)
    requires
        v.wf(),
    ensures
        forall|x: u64|
            v.has(x) && x != p && !(v.has(c) && v.node(c).parent == Some(x)) ==> #[trigger] v.reparent(c, p).node(
                x,
            ).children == v.node(x).children,
        v.has(c) && v.has(p) && v.node(c).parent is None && c != p ==> v.reparent(c, p).node(p).children
            == v.node(p).children.push(c),
{
    reveal(WorldView::reparent);
    reveal(WorldView::detach);
    reveal(WorldView::set_parent_field);
    reveal(WorldView::remove_child);
    reveal(WorldView::push_child);
    if v.has(c) {
        let w = v.reparent(c, p);
        assert forall|j: int| 0 <= j < v.nodes.len() implies #[trigger] w.nodes[j].entity == v.nodes[j].entity by {}
        lemma_same_entities(v, w);
        assert forall|x: u64|
            v.has(x) && x != p && !(v.has(c) && v.node(c).parent == Some(x)) implies #[trigger] w.node(x).children
            == v.node(x).children by {
            let j = v.index_of(x);
            lemma_index_of(v, j);
            lemma_index_of(w, j);
        }
        if v.has(p) && v.node(c).parent is None && c != p {
            let j = v.index_of(p);
            lemma_index_of(v, j);
            lemma_index_of(w, j);
        }
    }
}

/// Placing `c` at a position among `p`'s children changes the children of `p` and of
/// `c`'s old parent only.
pub proof fn lemma_insert_child_at_children(v: WorldView, p: u64, i: int, c: u64)
    requires
        v.wf(),
    ensures
        forall|x: u64|
            v.has(x) && x != p && !(v.has(c) && v.node(c).parent == Some(x)) ==> #[trigger] v.insert_child_at(
                p,
                i,
                c,
            ).node(x).children == v.node(x).children,
{
    reveal(WorldView::insert_child_at);
    reveal(WorldView::detach);
    reveal(WorldView::set_parent_field);
    reveal(WorldView::remove_child);
    reveal(WorldView::insert_child);
    if v.has(c) {
        let w = v.insert_child_at(p, i, c);
        assert forall|j: int| 0 <= j < v.nodes.len() implies #[trigger] w.nodes[j].entity == v.nodes[j].entity by {}
        lemma_same_entities(v, w);
        assert forall|x: u64|
            v.has(x) && x != p && !(v.has(c) && v.node(c).parent == Some(x)) implies #[trigger] w.node(x).children
            == v.node(x).children by {
            let j = v.index_of(x);
            lemma_index_of(v, j);
            lemma_index_of(w, j);
        }
    }
}

/// Detaching `c` changes the children of its old parent only.
pub proof fn lemma_detach_children(v: WorldView, c: u64)
    requires
        v.wf(),
    ensures
        forall|x: u64|
            v.has(x) && !(v.has(c) && v.node(c).parent == Some(x)) ==> #[trigger] v.detach(c).node(x).children
                == v.node(x).children,
{
    reveal(WorldView::detach);
    reveal(WorldView::set_parent_field);
    reveal(WorldView::remove_child);
    if v.has(c) {
        let w = v.detach(c);
        assert forall|j: int| 0 <= j < v.nodes.len() implies #[trigger] w.nodes[j].entity == v.nodes[j].entity by {}
        lemma_same_entities(v, w);
        assert forall|x: u64|
            v.has(x) && !(v.has(c) && v.node(c).parent == Some(x)) implies #[trigger] w.node(x).children
            == v.node(x).children by {
            let j = v.index_of(x);
            lemma_index_of(v, j);
            lemma_index_of(w, j);
        }
    }
}

} // verus!
