//! Bookkeeping for hot-reloadable games: what a game's build registered, so that a
//! teardown can undo it before the game's new code is loaded.

use vstd::prelude::*;
use crate::keyed::KeyedVec;

verus! {

/// The system set that holds every system of the named game.
pub struct GameSystems(pub String);

/// Marks an entity that the named game spawned through its registration helpers.
pub struct GameRegistered(pub String);

/// What one game's build registered: schedules it added systems to, resources it
/// inserted and reflected types it registered, each by key, each once, in order.
pub struct GameBookkeeping {
    pub schedules: Vec<u64>,
    pub resources: Vec<u64>,
    pub reflect_types: Vec<u64>,
}

/// A list after recording `x`: unchanged when `x` is in it, `x` added last otherwise.
pub open spec fn with_key(s: Seq<u64>, x: u64) -> Seq<u64> {
    if s.contains(x) {
        s
    } else {
        s.push(x)
    }
}

fn track(v: &mut Vec<u64>, x: u64)
    ensures
        final(v)@ == with_key(old(v)@, x),
{
    let mut i: usize = 0;
    while i < v.len()
        invariant
            0 <= i <= v.len(),
            v@ == old(v)@,
            forall|j: int| 0 <= j < i ==> v@[j] != x,
        decreases v.len() - i,
    {
        if v[i] == x {
            return;
        }
        i += 1;
    }
    v.push(x);
}

/// The view of a game's bookkeeping: (schedules, resources, reflected types).
pub open spec fn book_view(b: GameBookkeeping) -> (Seq<u64>, Seq<u64>, Seq<u64>) {
    (b.schedules@, b.resources@, b.reflect_types@)
}

impl GameBookkeeping {
    pub fn new() -> (r: Self)
        ensures
            book_view(r) == (Seq::<u64>::empty(), Seq::<u64>::empty(), Seq::<u64>::empty()),
    {
        GameBookkeeping { schedules: Vec::new(), resources: Vec::new(), reflect_types: Vec::new() }
    }
}

/// The bookkeeping of every game, by game name.
pub struct GameRegistry {
    games: KeyedVec<GameBookkeeping>,
}

/// Which list of a game's bookkeeping a record goes to.
#[derive(Clone, Copy, PartialEq, Eq, Structural, Debug)]
pub enum BookList {
    Schedule,
    Resource,
    ReflectType,
}

/// A game's bookkeeping after recording `key` in one of its lists.
pub open spec fn record_spec(b: (Seq<u64>, Seq<u64>, Seq<u64>), kind: BookList, key: u64) -> (Seq<u64>, Seq<u64>, Seq<u64>) {
    match kind {
        BookList::Schedule => (with_key(b.0, key), b.1, b.2),
        BookList::Resource => (b.0, with_key(b.1, key), b.2),
        BookList::ReflectType => (b.0, b.1, with_key(b.2, key)),
    }
}

/// Every game's bookkeeping after recording `key` in one list of `game`'s, which starts
/// empty when the game had none.
pub open spec fn after_record(
    books: Map<Seq<char>, (Seq<u64>, Seq<u64>, Seq<u64>)>,
    game: Seq<char>,
    kind: BookList,
    key: u64,
) -> Map<Seq<char>, (Seq<u64>, Seq<u64>, Seq<u64>)> {
    books.insert(game, record_spec(book_of(books, game), kind, key))
}

/// The empty bookkeeping.
pub open spec fn no_book() -> (Seq<u64>, Seq<u64>, Seq<u64>) {
    (Seq::empty(), Seq::empty(), Seq::empty())
}

impl GameRegistry {
    /// Each game's bookkeeping.
    pub closed spec fn view(&self) -> Map<Seq<char>, (Seq<u64>, Seq<u64>, Seq<u64>)> {
        self.games.view().map_values(|b: GameBookkeeping| book_view(b))
    }

    pub fn new() -> (r: Self)
        ensures
            r.view() == Map::<Seq<char>, (Seq<u64>, Seq<u64>, Seq<u64>)>::empty(),
    {
        let r = GameRegistry { games: KeyedVec::new() };
        assert(r.view() =~= Map::<Seq<char>, (Seq<u64>, Seq<u64>, Seq<u64>)>::empty());
        r
    }

    /// Makes sure the named game has bookkeeping, empty when it had none.
    pub fn entry(&mut self, name: &str)
        ensures
            final(self).view() == if old(self).view().dom().contains(name@) {
                old(self).view()
            } else {
                old(self).view().insert(name@, no_book())
            },
    {
        if !self.games.contains(name) {
            self.games.insert(name.to_owned(), GameBookkeeping::new());
            assert(self.view() =~= old(self).view().insert(name@, no_book()));
        }
    }

    /// Records `key` in one list of the named game's bookkeeping, creating that
    /// bookkeeping when the game has none.
    pub fn record(&mut self, name: &str, kind: BookList, key: u64)
        ensures
            final(self).view() == old(self).view().insert(
                name@,
                record_spec(
                    if old(self).view().dom().contains(name@) {
                        old(self).view()[name@]
                    } else {
                        no_book()
                    },
                    kind,
                    key,
                ),
            ),
    {
        let mut book = match self.games.remove(name) {
            Some(b) => b,
            None => GameBookkeeping::new(),
        };
        match kind {
            BookList::Schedule => track(&mut book.schedules, key),
            BookList::Resource => track(&mut book.resources, key),
            BookList::ReflectType => track(&mut book.reflect_types, key),
        }
        self.games.insert(name.to_owned(), book);
        assert(self.view() =~= old(self).view().insert(
            name@,
            record_spec(
                if old(self).view().dom().contains(name@) {
                    old(self).view()[name@]
                } else {
                    no_book()
                },
                kind,
                key,
            ),
        ));
    }

    /// Takes the named game's bookkeeping out.
    pub fn take(&mut self, name: &str) -> (r: Option<GameBookkeeping>)
        ensures
            final(self).view() == old(self).view().remove(name@),
            match r {
                Some(b) => old(self).view().dom().contains(name@) && book_view(b) == old(self).view()[name@],
                None => !old(self).view().dom().contains(name@),
            },
    {
        let r = self.games.remove(name);
        assert(self.view() =~= old(self).view().remove(name@));
        r
    }

    /// Whether the named game has bookkeeping.
    pub fn contains(&self, name: &str) -> (r: bool)
        ensures
            r == self.view().dom().contains(name@),
    {
        self.games.contains(name)
    }
}

/// What a teardown undoes: the tagged entities to despawn, the resources to remove, the
/// schedules to evict the game's system set from, and the reflected types to drop.
pub struct TeardownPlan {
    pub despawn: Vec<u64>,
    pub resources: Vec<u64>,
    pub schedules: Vec<u64>,
    pub reflect_types: Vec<u64>,
}

/// The bookkeeping a teardown undoes: the game's, or none when it has none.
pub open spec fn book_of(books: Map<Seq<char>, (Seq<u64>, Seq<u64>, Seq<u64>)>, game: Seq<char>) -> (Seq<u64>, Seq<u64>, Seq<u64>) {
    if books.dom().contains(game) {
        books[game]
    } else {
        no_book()
    }
}

/// A teardown plan for a game: every entity tagged with its name, and what its
/// bookkeeping lists.
pub open spec fn plan_matches(plan: TeardownPlan, tagged: Seq<(u64, String)>, books: Map<Seq<char>, (Seq<u64>, Seq<u64>, Seq<u64>)>, game: Seq<char>) -> bool {
    &&& plan.despawn@ == tagged_with(tagged, game)
    &&& plan.schedules@ == book_of(books, game).0
    &&& plan.resources@ == book_of(books, game).1
    &&& plan.reflect_types@ == book_of(books, game).2
}

/// The entities, in query order, tagged with the game's name.
pub open spec fn tagged_with(tagged: Seq<(u64, String)>, name: Seq<char>) -> Seq<u64>
    decreases tagged.len(),
{
    if tagged.len() == 0 {
        Seq::empty()
    } else {
        let rest = tagged_with(tagged.drop_last(), name);
        if tagged.last().1@ == name {
            rest.push(tagged.last().0)
        } else {
            rest
        }
    }
}

/// The registration context of one game. Every registration it makes is recorded under
/// the game's name.
pub struct GameApp {
    name: String,
}

impl GameApp {
    pub closed spec fn game(&self) -> Seq<char> {
        self.name@
    }

    pub fn new(name: &str) -> (r: Self)
        ensures
            r.game() == name@,
    {
        GameApp { name: name.to_owned() }
    }

    /// The game's name.
    pub fn name(&self) -> (r: &String)
        ensures
            r@ == self.game(),
    {
        &self.name
    }

    /// The system set that the game's systems go into.
    pub fn system_set(&self) -> (r: GameSystems)
        ensures
            r.0@ == self.game(),
    {
        GameSystems(self.name.clone())
    }

    /// The tag that marks the game's entities.
    pub fn tag(&self) -> (r: GameRegistered)
        ensures
            r.0@ == self.game(),
    {
        GameRegistered(self.name.clone())
    }

    /// Records that the game added systems to a schedule.
    pub fn add_systems(&self, registry: &mut GameRegistry, schedule: u64) -> (r: &Self)
        ensures
            r == self,
            final(registry).view() == after_record(old(registry).view(), self.game(), BookList::Schedule, schedule),
    {
        registry.record(self.name.as_str(), BookList::Schedule, schedule);
        self
    }

    /// Records that the game inserted a resource.
    pub fn insert_resource(&self, registry: &mut GameRegistry, resource: u64) -> (r: &Self)
        ensures
            r == self,
            final(registry).view() == after_record(old(registry).view(), self.game(), BookList::Resource, resource),
    {
        registry.record(self.name.as_str(), BookList::Resource, resource);
        self
    }

    /// Records that the game initialised a resource from its default.
    pub fn init_resource(&self, registry: &mut GameRegistry, resource: u64) -> (r: &Self)
        ensures
            r == self,
            final(registry).view() == after_record(old(registry).view(), self.game(), BookList::Resource, resource),
    {
        registry.record(self.name.as_str(), BookList::Resource, resource);
        self
    }

    /// Records that the game registered a reflected type.
    pub fn register_type(&self, registry: &mut GameRegistry, ty: u64) -> (r: &Self)
        ensures
            r == self,
            final(registry).view() == after_record(old(registry).view(), self.game(), BookList::ReflectType, ty),
    {
        registry.record(self.name.as_str(), BookList::ReflectType, ty);
        self
    }

    /// Undoes what the game's build registered, given the tagged entities in query order:
    /// the game's bookkeeping leaves the registry; every entity tagged with the game's
    /// name is to be despawned, and what the bookkeeping lists (resources, schedules of
    /// its system set, reflected types) is to be removed. A game without bookkeeping
    /// still has its tagged entities despawned.
    pub fn teardown_tracked(&self, registry: &mut GameRegistry, tagged: &Vec<(u64, String)>) -> (r: TeardownPlan)
        ensures
            final(registry).view() == old(registry).view().remove(self.game()),
            plan_matches(r, tagged@, old(registry).view(), self.game()),
    {
        let book = match registry.take(self.name.as_str()) {
            Some(b) => b,
            None => GameBookkeeping::new(),
        };
        let mut despawn: Vec<u64> = Vec::new();
        let mut i: usize = 0;
        while i < tagged.len()
            invariant
                0 <= i <= tagged.len(),
                despawn@ == tagged_with(tagged@.take(i as int), self.game()),
            decreases tagged.len() - i,
        {
            assert(tagged@.take(i + 1).drop_last() =~= tagged@.take(i as int));
            if tagged[i].1 == self.name {
                despawn.push(tagged[i].0);
            }
            i += 1;
        }
        assert(tagged@.take(tagged.len() as int) =~= tagged@);
        TeardownPlan {
            despawn,
            resources: book.resources,
            schedules: book.schedules,
            reflect_types: book.reflect_types,
        }
    }
}

/// A game that the editor builds into the running world and tears down again.
pub trait GamePlugin {
    /// Registers the game's systems, resources and types through its context.
    fn build(&self, ctx: &GameApp, registry: &mut GameRegistry);

    /// Undoes the game's build; by default, what its context recorded.
    fn teardown(&self, ctx: &GameApp, registry: &mut GameRegistry, tagged: &Vec<(u64, String)>) -> (r: TeardownPlan)
        default_ensures
            final(registry).view() == old(registry).view().remove(ctx.game()),
            plan_matches(r, tagged@, old(registry).view(), ctx.game()),
    {
        ctx.teardown_tracked(registry, tagged)
    }
}

/// Adding systems to the same schedule twice leaves the bookkeeping as adding them once:
/// the schedule is listed for the game, and other games' bookkeeping is untouched.
pub proof fn law_add_systems_twice_records_once(
    books: Map<Seq<char>, (Seq<u64>, Seq<u64>, Seq<u64>)>,
    game: Seq<char>,
    schedule: u64,
    other: Seq<char>,
)
    requires
        other != game,
    ensures
        after_record(after_record(books, game, BookList::Schedule, schedule), game, BookList::Schedule, schedule)
            == after_record(books, game, BookList::Schedule, schedule),
        after_record(books, game, BookList::Schedule, schedule)[game].0.contains(schedule),
        after_record(books, game, BookList::Schedule, schedule).dom().contains(other) == books.dom().contains(other),
        books.dom().contains(other) ==> after_record(books, game, BookList::Schedule, schedule)[other] == books[other],
{
    let r = after_record(books, game, BookList::Schedule, schedule);
    let b = book_of(books, game);
    assert(book_of(r, game) == r[game]);
    law_tracking_idempotent(b.0, schedule);
    assert(after_record(r, game, BookList::Schedule, schedule) =~= r);
    if b.0.contains(schedule) {
        assert(r[game].0 == b.0);
        let k = choose|k: int| 0 <= k < b.0.len() && b.0[k] == schedule;
    } else {
        assert(r[game].0 == b.0.push(schedule));
        assert(r[game].0[b.0.len() as int] == schedule);
    }
}

/// Recording the same key twice is the same as recording it once.
pub proof fn law_tracking_idempotent(s: Seq<u64>, x: u64)
    ensures
        with_key(with_key(s, x), x) == with_key(s, x),
        with_key(s, x).contains(x),
{
    if !s.contains(x) {
        assert(s.push(x)[s.len() as int] == x);
    }
}

/// A list built by recording keeps each key once.
pub proof fn law_tracking_keeps_keys_distinct(s: Seq<u64>, x: u64)
    requires
        s.no_duplicates(),
    ensures
        with_key(s, x).no_duplicates(),
{
}

} // verus!
