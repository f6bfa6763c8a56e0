//! The strip of workspace tabs: which tabs to build, which tab looks active, and what a
//! click on a tab does.

use vstd::prelude::*;
use crate::panels::workspace::{text_opt, WorkspaceChanged, WorkspaceRegistry};

verus! {

/// The (old, new) ids that a change event carries.
pub open spec fn events_view(events: Seq<WorkspaceChanged>) -> Seq<(Option<Seq<char>>, Seq<char>)> {
    events.map_values(|e: WorkspaceChanged| (text_opt(e.old), e.new@))
}

pub open spec fn texts_view(ids: Seq<String>) -> Seq<Seq<char>> {
    ids.map_values(|s: String| s@)
}

/// The active id and the change events after clicks on tabs with the given workspace
/// ids, in order: a click on the active workspace's tab does nothing; any other click
/// sends a change event from the active id to the clicked id, and makes the clicked id
/// active when such a workspace is registered.
pub open spec fn clicks_spec(
    active: Option<Seq<char>>,
    ids: Seq<Seq<char>>,
    pressed: Seq<Seq<char>>,
) -> (Option<Seq<char>>, Seq<(Option<Seq<char>>, Seq<char>)>)
    decreases pressed.len(),
{
    if pressed.len() == 0 {
        (active, Seq::empty())
    } else {
        let (a, ev) = clicks_spec(active, ids, pressed.drop_last());
        let id = pressed.last();
        if a == Some(id) {
            (a, ev)
        } else {
            (if ids.contains(id) { Some(id) } else { a }, ev.push((a, id)))
        }
    }
}

/// Handles clicks on workspace tabs, given the workspace ids of the pressed tabs in
/// order, and returns the change events to send.
pub fn handle_workspace_tab_clicks<A, L>(registry: &mut WorkspaceRegistry<A, L>, pressed: &Vec<String>) -> (events: Vec<WorkspaceChanged>)
    ensures
        final(registry).workspaces@ == old(registry).workspaces@,
        (final(registry).active_id(), events_view(events@)) == clicks_spec(
            old(registry).active_id(),
            old(registry).ids(),
            texts_view(pressed@),
        ),
        old(registry).active_registered() ==> final(registry).active_registered(),
{
    let ghost ids = registry.ids();
    let mut events: Vec<WorkspaceChanged> = Vec::new();
    let mut i: usize = 0;
    while i < pressed.len()
        invariant
            0 <= i <= pressed.len(),
            registry.workspaces@ == old(registry).workspaces@,
            registry.ids() == ids,
            ids == old(registry).ids(),
            (registry.active_id(), events_view(events@)) == clicks_spec(
                old(registry).active_id(),
                ids,
                texts_view(pressed@).take(i as int),
            ),
            old(registry).active_registered() ==> registry.active_registered(),
        decreases pressed.len() - i,
    {
        proof {
            assert(texts_view(pressed@).take(i + 1).drop_last() =~= texts_view(pressed@).take(i as int));
        }
        let new_id = &pressed[i];
        if !registry.is_active(new_id) {
            let old = match &registry.active {
                Some(a) => Some(a.clone()),
                None => None,
            };
            registry.set_active(new_id.as_str());
            let ghost before = events_view(events@);
            events.push(WorkspaceChanged { old, new: new_id.clone() });
            assert(events_view(events@) =~= before.push((text_opt(old), new_id@)));
        }
        i += 1;
    }
    assert(texts_view(pressed@).take(pressed.len() as int) =~= texts_view(pressed@));
    events
}

/// For each tab, given by its workspace id, whether it shows as the active one.
pub fn update_workspace_tab_visuals<A, L>(registry: &WorkspaceRegistry<A, L>, tabs: &Vec<String>) -> (active: Vec<bool>)
    ensures
        active@.len() == tabs@.len(),
        forall|i: int| 0 <= i < tabs@.len() ==> active@[i] == (registry.active_id() == Some(tabs@[i]@)),
{
    let mut active: Vec<bool> = Vec::new();
    let mut i: usize = 0;
    while i < tabs.len()
        invariant
            0 <= i <= tabs.len(),
            active@.len() == i,
            forall|j: int| 0 <= j < i ==> active@[j] == (registry.active_id() == Some(tabs@[j]@)),
        decreases tabs.len() - i,
    {
        active.push(registry.is_active(&tabs[i]));
        i += 1;
    }
    active
}

/// A workspace tab strip as the world shows it: its entity, whether it is itself a
/// workspace tab, and how many children it has.
#[derive(Clone, Copy)]
pub struct StripCandidate {
    pub entity: u64,
    pub is_workspace_tab: bool,
    pub child_count: usize,
}

/// Whether a strip is still to be filled: it is no workspace tab and has no children.
pub open spec fn strip_to_fill(c: StripCandidate) -> bool {
    !c.is_workspace_tab && c.child_count == 0
}

/// The strips to fill, in query order.
pub open spec fn strips_to_fill_spec(cs: Seq<StripCandidate>) -> Seq<u64>
    decreases cs.len(),
{
    if cs.len() == 0 {
        Seq::empty()
    } else {
        let rest = strips_to_fill_spec(cs.drop_last());
        if strip_to_fill(cs.last()) {
            rest.push(cs.last().entity)
        } else {
            rest
        }
    }
}

/// Picks, in query order, the workspace tab strips that are still empty and are not
/// themselves workspace tabs: the strips that `populate_workspace_tabs` fills.
pub fn strips_to_fill(candidates: &Vec<StripCandidate>) -> (strips: Vec<u64>)
    ensures
        strips@ == strips_to_fill_spec(candidates@),
{
    let mut strips: Vec<u64> = Vec::new();
    let mut i: usize = 0;
    while i < candidates.len()
        invariant
            0 <= i <= candidates.len(),
            strips@ == strips_to_fill_spec(candidates@.take(i as int)),
        decreases candidates.len() - i,
    {
        assert(candidates@.take(i + 1).drop_last() =~= candidates@.take(i as int));
        let c = candidates[i];
        if !c.is_workspace_tab && c.child_count == 0 {
            strips.push(c.entity);
        }
        i += 1;
    }
    assert(candidates@.take(candidates.len() as int) =~= candidates@);
    strips
}

/// One tab to build: the strip it goes into, the position of its workspace in the
/// registry, and whether it shows as active.
pub struct WorkspaceTabPlan {
    pub strip: u64,
    pub workspace: usize,
    pub active: bool,
}

/// The tabs that `populate_workspace_tabs` builds: for each empty strip, in order, one tab
/// per registered workspace, in registration order.
pub open spec fn tab_plan_ok<A, L>(registry: &WorkspaceRegistry<A, L>, strips: Seq<u64>, plan: Seq<WorkspaceTabPlan>) -> bool {
    let n = registry.workspaces@.len();
    &&& plan.len() == strips.len() * n
    &&& forall|s: int, w: int|
        0 <= s < strips.len() && 0 <= w < n ==> {
            let p = #[trigger] plan[s * n + w];
            &&& p.strip == strips[s]
            &&& p.workspace == w
            &&& p.active == (registry.active_id() == Some(registry.ids()[w]))
        }
}

/// Plans the tabs of the given empty workspace strips.
pub fn populate_workspace_tabs<A, L>(registry: &WorkspaceRegistry<A, L>, strips: &Vec<u64>) -> (plan: Vec<WorkspaceTabPlan>)
    requires
        strips@.len() * registry.workspaces@.len() <= usize::MAX,
    ensures
        tab_plan_ok(registry, strips@, plan@),
{
    let n = registry.workspaces.len();
    let mut plan: Vec<WorkspaceTabPlan> = Vec::new();
    let mut s: usize = 0;
    while s < strips.len()
        invariant
            0 <= s <= strips.len(),
            n == registry.workspaces@.len(),
            strips@.len() * n <= usize::MAX,
            plan@.len() == s * n,
            forall|a: int, w: int|
                0 <= a < s && 0 <= w < n ==> {
                    let p = #[trigger] plan@[a * n + w];
                    &&& p.strip == strips@[a]
                    &&& p.workspace == w
                    &&& p.active == (registry.active_id() == Some(registry.ids()[w]))
                },
        decreases strips.len() - s,
    {
        let mut w: usize = 0;
        while w < n
            invariant
                0 <= s < strips.len(),
                0 <= w <= n,
                n == registry.workspaces@.len(),
                strips@.len() * n <= usize::MAX,
                plan@.len() == s * n + w,
                forall|a: int, x: int|
                    0 <= a < s && 0 <= x < n ==> {
                        let p = #[trigger] plan@[a * n + x];
                        &&& p.strip == strips@[a]
                        &&& p.workspace == x
                        &&& p.active == (registry.active_id() == Some(registry.ids()[x]))
                    },
                forall|x: int|
                    0 <= x < w ==> {
                        let p = #[trigger] plan@[s * n + x];
                        &&& p.strip == strips@[s as int]
                        &&& p.workspace == x
                        &&& p.active == (registry.active_id() == Some(registry.ids()[x]))
                    },
            decreases n - w,
        {
            proof {
                assert((s + 1) * n <= strips@.len() * n) by (nonlinear_arith)
                    requires s + 1 <= strips@.len();
                assert(s * n + w < (s + 1) * n) by (nonlinear_arith)
                    requires w < n;
            }
            let active = registry.is_active(&registry.workspaces[w].id);
            plan.push(WorkspaceTabPlan { strip: strips[s], workspace: w, active });
            proof {
                assert forall|a: int, x: int|
                    0 <= a < s && 0 <= x < n implies {
                        let p = #[trigger] plan@[a * n + x];
                        &&& p.strip == strips@[a]
                        &&& p.workspace == x
                        &&& p.active == (registry.active_id() == Some(registry.ids()[x]))
                    } by {
                    assert(a * n + x < s * n) by (nonlinear_arith)
                        requires a < s, x < n;
                }
            }
            w += 1;
        }
        proof {
            assert((s + 1) * n == s * n + n) by (nonlinear_arith);
            assert forall|a: int, x: int|
                0 <= a < s + 1 && 0 <= x < n implies {
                    let p = #[trigger] plan@[a * n + x];
                    &&& p.strip == strips@[a]
                    &&& p.workspace == x
                    &&& p.active == (registry.active_id() == Some(registry.ids()[x]))
                } by {
                if a == s {
                } else {
                }
            }
        }
        s += 1;
    }
    plan
}


/// Clicks keep the active id among the registered ones, and every change event goes from
/// one id to another.
pub proof fn law_clicks_keep_active_registered(
    active: Option<Seq<char>>,
    ids: Seq<Seq<char>>,
    pressed: Seq<Seq<char>>,
)
    requires
        match active {
            Some(a) => ids.contains(a),
            None => true,
        },
    ensures
        match clicks_spec(active, ids, pressed).0 {
            Some(a) => ids.contains(a),
            None => true,
        },
        forall|i: int| 0 <= i < clicks_spec(active, ids, pressed).1.len()
            ==> #[trigger] clicks_spec(active, ids, pressed).1[i].0 != Some(clicks_spec(active, ids, pressed).1[i].1),
    decreases pressed.len(),
{
    if pressed.len() > 0 {
        law_clicks_keep_active_registered(active, ids, pressed.drop_last());
    }
}
} // verus!
