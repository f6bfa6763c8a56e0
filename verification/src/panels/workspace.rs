//! Workspaces: named dock layouts, one of which is active, and the tabs that switch them.

use vstd::prelude::*;

verus! {

/// A workspace: an id, a name, an optional icon glyph, an accent colour and a layout.
/// The colour and the layout are carried as they come.
pub struct WorkspaceDescriptor<A, L> {
    pub id: String,
    pub name: String,
    pub icon: Option<String>,
    pub accent_color: A,
    pub layout: L,
}

/// The registered workspaces, in registration order, and the id of the active one.
pub struct WorkspaceRegistry<A, L> {
    pub workspaces: Vec<WorkspaceDescriptor<A, L>>,
    pub active: Option<String>,
}

/// Sent when the active workspace changes.
pub struct WorkspaceChanged {
    pub old: Option<String>,
    pub new: String,
}

/// The first position at or after `i` at which `x` occurs in `s`.
pub open spec fn first_pos<T>(s: Seq<T>, x: T, i: int) -> Option<int>
    decreases s.len() - i,
{
    if i < 0 || i >= s.len() {
        None
    } else if s[i] == x {
        Some(i)
    } else {
        first_pos(s, x, i + 1)
    }
}

pub proof fn lemma_first_pos<T>(s: Seq<T>, x: T, i: int)
    ensures
        match first_pos(s, x, i) {
            Some(k) => 0 <= i <= k < s.len() && s[k] == x && forall|j: int| i <= j < k ==> s[j] != x,
            None => forall|j: int| 0 <= i <= j < s.len() ==> s[j] != x,
        },
    decreases s.len() - i,
{
    if i < 0 || i >= s.len() {
    } else if s[i] == x {
    } else {
        lemma_first_pos(s, x, i + 1);
    }
}

pub open spec fn text_opt(o: Option<String>) -> Option<Seq<char>> {
    match o {
        Some(s) => Some(s@),
        None => None,
    }
}

impl<A, L> WorkspaceRegistry<A, L> {
    /// The ids of the registered workspaces, in order.
    pub open spec fn ids(&self) -> Seq<Seq<char>> {
        self.workspaces@.map_values(|w: WorkspaceDescriptor<A, L>| w.id@)
    }

    pub open spec fn active_id(&self) -> Option<Seq<char>> {
        text_opt(self.active)
    }

    /// The active id, when there is one, is that of a registered workspace.
    pub open spec fn active_registered(&self) -> bool {
        match self.active_id() {
            Some(a) => self.ids().contains(a),
            None => true,
        }
    }

    /// The position of the first workspace with id `id`.
    pub open spec fn position_of(&self, id: Seq<char>) -> Option<int> {
        first_pos(self.ids(), id, 0)
    }

    /// An empty registry.
    pub fn new() -> (r: Self)
        ensures
            r.workspaces@.len() == 0,
            r.active is None,
    {
        WorkspaceRegistry { workspaces: Vec::new(), active: None }
    }

    /// Adds a workspace at the end. The first workspace ever registered becomes active.
    pub fn register(&mut self, descriptor: WorkspaceDescriptor<A, L>)
        ensures
            final(self).workspaces@ == old(self).workspaces@.push(descriptor),
            final(self).active_id() == match old(self).active_id() {
                Some(a) => Some(a),
                None => Some(descriptor.id@),
            },
            old(self).active_registered() ==> final(self).active_registered(),
    {
        let ghost old_ids = self.ids();
        if self.active.is_none() {
            self.active = Some(descriptor.id.clone());
        }
        self.workspaces.push(descriptor);
        proof {
            assert(self.ids() =~= old_ids.push(descriptor.id@));
            if let Some(a) = old(self).active_id() {
                if old_ids.contains(a) {
                    let k = choose|k: int| 0 <= k < old_ids.len() && old_ids[k] == a;
                    assert(self.ids()[k] == a);
                }
            }
            assert(self.ids()[old_ids.len() as int] == descriptor.id@);
        }
    }

    /// Finds the position of the first workspace with the given id.
    pub fn find(&self, id: &str) -> (r: Option<usize>)
        ensures
            match r {
                Some(k) => self.position_of(id@) == Some(k as int),
                None => self.position_of(id@) is None,
            },
    {
        let key = id.to_owned();
        let mut i: usize = 0;
        while i < self.workspaces.len()
            invariant
                0 <= i <= self.workspaces.len(),
                key@ == id@,
                self.position_of(id@) == first_pos(self.ids(), id@, i as int),
            decreases self.workspaces.len() - i,
        {
            if self.workspaces[i].id == key {
                return Some(i);
            }
            i += 1;
        }
        None
    }

    /// The first workspace with the given id.
    pub fn get(&self, id: &str) -> (r: Option<&WorkspaceDescriptor<A, L>>)
        ensures
            r == match self.position_of(id@) {
                Some(k) => Some(&self.workspaces@[k]),
                None => None,
            },
    {
        proof {
            lemma_first_pos(self.ids(), id@, 0);
        }
        match self.find(id) {
            Some(k) => Some(&self.workspaces[k]),
            None => None,
        }
    }

    /// The active workspace: the first one whose id is the active id.
    pub fn active_workspace(&self) -> (r: Option<&WorkspaceDescriptor<A, L>>)
        ensures
            r == match self.active_id() {
                Some(a) => match self.position_of(a) {
                    Some(k) => Some(&self.workspaces@[k]),
                    None => None,
                },
                None => None,
            },
    {
        match &self.active {
            Some(id) => self.get(id.as_str()),
            None => None,
        }
    }

    /// Makes `id` active when a workspace with that id is registered; otherwise nothing
    /// changes.
    pub fn set_active(&mut self, id: &str)
        ensures
            final(self).workspaces@ == old(self).workspaces@,
            final(self).active_id() == if old(self).ids().contains(id@) {
                Some(id@)
            } else {
                old(self).active_id()
            },
            old(self).active_registered() ==> final(self).active_registered(),
    {
        proof {
            lemma_first_pos(self.ids(), id@, 0);
        }
        if self.find(id).is_some() {
            self.active = Some(id.to_owned());
        }
    }

    /// The registered workspaces, in registration order.
    pub fn iter(&self) -> (r: &Vec<WorkspaceDescriptor<A, L>>)
        ensures
            r == &self.workspaces,
    {
        &self.workspaces
    }

    /// Whether the workspace with id `id` is the active one.
    pub fn is_active(&self, id: &String) -> (r: bool)
        ensures
            r == (self.active_id() == Some(id@)),
    {
        match &self.active {
            Some(a) => *a == *id,
            None => false,
        }
    }
}

} // verus!
