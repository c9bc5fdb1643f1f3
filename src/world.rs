//! The actor lifecycle runtime. Scene objects and their components live in
//! the scene tree, outside this module; here they are named by ids, and the
//! runtime keeps only those ids, never the objects, so a component that is
//! dropped elsewhere simply stops being live. Each frame the driver drains
//! the newly registered actors and starts those still live, snapshots the
//! live actors and updates them, then prunes the actors whose component died.
use vstd::prelude::*;
use vstd::string::StringExecFns;

verus! {

/// An actor registration: the scene object and the component that
/// implements the actor capability.
#[derive(PartialEq, Eq, Structural, Clone, Copy, Debug)]
pub struct ActorPair {
    pub object: u64,
    pub component: u64,
}

/// The ids of the objects or components that are still alive.
#[derive(Debug)]
pub struct LiveSet {
    ids: Vec<u64>,
}

impl LiveSet {
    pub closed spec fn view(&self) -> Set<u64> {
        self.ids@.to_set()
    }

    pub fn new() -> (s: LiveSet)
        ensures
            s.view() == Set::<u64>::empty(),
    {
        let s = LiveSet { ids: Vec::new() };
        assert(s.ids@.to_set() =~= Set::<u64>::empty());
        s
    }

    pub fn insert(&mut self, id: u64)
        ensures
            final(self).view() == old(self).view().insert(id),
    {
        self.ids.push(id);
        assert(self.ids@ == old(self).ids@.push(id));
        assert(self.ids@.to_set() =~= old(self).ids@.to_set().insert(id)) by {
            assert forall|x: u64| self.ids@.contains(x) <==> old(self).ids@.contains(x) || x == id by {
                if old(self).ids@.contains(x) {
                    let j = choose|j: int| 0 <= j < old(self).ids@.len() && old(self).ids@[j] == x;
                    assert(self.ids@[j] == x);
                }
                if x == id {
                    assert(self.ids@[self.ids@.len() - 1] == x);
                }
            }
        }
    }

    pub fn contains(&self, id: u64) -> (r: bool)
        ensures
            r == self.view().contains(id),
    {
        let mut i: usize = 0;
        while i < self.ids.len()
            invariant
                i <= self.ids@.len(),
                forall|j: int| 0 <= j < i ==> self.ids@[j] != id,
            decreases self.ids@.len() - i,
        {
            if self.ids[i] == id {
                assert(self.ids@.contains(id));
                return true;
            }
            i = i + 1;
        }
        false
    }
}

/// Frame-rate counter: counts frames and, once more than a second has gone
/// by since the last reading, publishes the count. Times are in milliseconds.
#[derive(Debug)]
pub struct FPS {
    counter: u32,
    last: u64,
    pub fps: u32,
}

impl FPS {
    pub closed spec fn frames(&self) -> u32 {
        self.counter
    }

    /// The published frame rate.
    pub closed spec fn rate(&self) -> u32 {
        self.fps
    }

    pub closed spec fn last_reading(&self) -> u64 {
        self.last
    }

    /// Counting one frame at time `now` takes `before` to `after`: the frame
    /// count goes up by one (saturating), and once more than 1000 ms have
    /// passed since the last reading, the count is published and restarts.
    pub open spec fn stepped(before: FPS, now: u64, after: FPS) -> bool {
        let n = if before.frames() < u32::MAX {
            (before.frames() + 1) as u32
        } else {
            u32::MAX
        };
        if now > before.last_reading() && now - before.last_reading() > 1000 {
            &&& after.rate() == n
            &&& after.frames() == 0
            &&& after.last_reading() == now
        } else {
            &&& after.rate() == before.rate()
            &&& after.frames() == n
            &&& after.last_reading() == before.last_reading()
        }
    }

    pub fn new(now_ms: u64) -> (f: FPS)
        ensures
            f.frames() == 0,
            f.last_reading() == now_ms,
            f.rate() == 0,
    {
        FPS { counter: 0, last: now_ms, fps: 0 }
    }

    /// Counts one frame at time `now_ms`.
    pub fn step(&mut self, now_ms: u64)
        ensures
            FPS::stepped(*old(self), now_ms, *final(self)),
    {
        if self.counter < u32::MAX {
            self.counter = self.counter + 1;
        }
        if now_ms > self.last && now_ms - self.last > 1000 {
            self.last = now_ms;
            self.fps = self.counter;
            self.counter = 0;
        }
    }
}

/// The window width used when no size is configured.
pub const DEFAULT_WIDTH: u32 = 800;

/// The window height used when no size is configured.
pub const DEFAULT_HEIGHT: u32 = 600;

/// Configuration of a world: a window title, a size (800x600 unless set)
/// and whether the stats overlay is shown (off unless set).
#[derive(Debug)]
pub struct WorldBuilder {
    title: String,
    size: Option<(u32, u32)>,
    shown_stats: Option<bool>,
}

impl WorldBuilder {
    pub closed spec fn title_spec(&self) -> Seq<char> {
        self.title@
    }

    /// The configured size, if one was set.
    pub closed spec fn size_spec(&self) -> Option<(u32, u32)> {
        self.size
    }

    pub closed spec fn stats_spec(&self) -> Option<bool> {
        self.shown_stats
    }

    /// The size that a built world gets.
    pub open spec fn resolved_size(&self) -> (u32, u32) {
        match self.size_spec() {
            Some(s) => s,
            None => (DEFAULT_WIDTH, DEFAULT_HEIGHT),
        }
    }

    pub open spec fn resolved_stats(&self) -> bool {
        match self.stats_spec() {
            Some(b) => b,
            None => false,
        }
    }

    pub fn new(title: &str) -> (b: WorldBuilder)
        ensures
            b.title_spec() == title@,
            b.size_spec() is None,
            b.stats_spec() is None,
    {
        WorldBuilder { title: String::from_str(title), size: None, shown_stats: None }
    }

    pub fn with_size(self, size: (u32, u32)) -> (b: WorldBuilder)
        ensures
            b.title_spec() == self.title_spec(),
            b.size_spec() == Some(size),
            b.stats_spec() == self.stats_spec(),
    {
        let mut b = self;
        b.size = Some(size);
        b
    }

    pub fn with_stats(self, stats: bool) -> (b: WorldBuilder)
        ensures
            b.title_spec() == self.title_spec(),
            b.size_spec() == self.size_spec(),
            b.stats_spec() == Some(stats),
    {
        let mut b = self;
        b.shown_stats = Some(stats);
        b
    }

    pub fn title(&self) -> (r: &str)
        ensures
            r@ == self.title_spec(),
    {
        self.title.as_str()
    }

    pub fn size(&self) -> (r: (u32, u32))
        ensures
            r == self.resolved_size(),
    {
        match self.size {
            Some(s) => s,
            None => (DEFAULT_WIDTH, DEFAULT_HEIGHT),
        }
    }

    pub fn shown_stats(&self) -> (r: bool)
        ensures
            r == self.resolved_stats(),
    {
        match self.shown_stats {
            Some(b) => b,
            None => false,
        }
    }

    /// The runtime state of a new world, started at time `now_ms`: no actors,
    /// no objects, between frames, and the configured size and stats setting.
    pub fn build(self, now_ms: u64) -> (w: World)
        ensures
            w.wf(),
            w.phase() == FramePhase::Idle,
            w.pending() == Seq::<ActorPair>::empty(),
            w.live() == Seq::<ActorPair>::empty(),
            w.objects() == Seq::<u64>::empty(),
            w.log() == Seq::<FrameAction>::empty(),
            w.size_spec() == self.resolved_size(),
            w.stats_spec() == self.resolved_stats(),
            w.fps_spec().rate() == 0,
    {
        let size = self.size();
        let shown_stats = self.shown_stats();
        World {
            size,
            fps: FPS::new(now_ms),
            actors: Vec::new(),
            new_actors: Vec::new(),
            phase: FramePhase::Idle,
            batch: Vec::new(),
            updating: Vec::new(),
            cursor: 0,
            shown_stats,
            golist: Vec::new(),
            log: Ghost(Seq::empty()),
        }
    }
}

/// Where the world is in the per-frame protocol.
#[derive(PartialEq, Eq, Structural, Clone, Copy, Debug)]
pub enum FramePhase {
    /// Between frames.
    Idle,
    /// Starting the registrations drained at the beginning of the frame.
    Starting,
    /// Updating the actors of the frame's snapshot.
    Updating,
}

/// What the frame driver is to do next.
#[derive(PartialEq, Eq, Structural, Clone, Copy, Debug)]
pub enum FrameAction {
    /// Call the actor's `start` with its object.
    Start(ActorPair),
    /// Call the actor's `update` with its object.
    Update(ActorPair),
    /// Nothing to run for this step; ask again.
    Continue,
    /// The frame is over.
    Done,
}

/// The runtime state of a running scene.
pub struct World {
    size: (u32, u32),
    fps: FPS,
    actors: Vec<ActorPair>,
    new_actors: Vec<ActorPair>,
    phase: FramePhase,
    batch: Vec<ActorPair>,
    updating: Vec<ActorPair>,
    cursor: usize,
    shown_stats: bool,
    golist: Vec<u64>,
    /// Every start and update that the world has asked for, in order.
    log: Ghost<Seq<FrameAction>>,
}

pub open spec fn pair_resolves(p: ActorPair, objects: Set<u64>, components: Set<u64>) -> bool {
    objects.contains(p.object) && components.contains(p.component)
}

/// The actors updated in a frame: the live ones that still resolve, in order.
pub open spec fn snapshot_of(live: Seq<ActorPair>, objects: Set<u64>, components: Set<u64>) -> Seq<
    ActorPair,
> {
    live.filter(|p: ActorPair| pair_resolves(p, objects, components))
}

/// The live actors kept after the updates: those whose component is alive.
pub open spec fn pruned_of(live: Seq<ActorPair>, components: Set<u64>) -> Seq<ActorPair> {
    live.filter(|p: ActorPair| components.contains(p.component))
}

/// What the actor lists keep when `removed`, an actor component, leaves its
/// object: entries of other components that are still live. An entry whose
/// component is already dead might be the removed one and is dropped too.
pub open spec fn kept_after_removal(p: ActorPair, removed: u64, components: Set<u64>) -> bool {
    components.contains(p.component) && p.component != removed
}

/// `p` has been started at some point of `log`.
pub open spec fn has_start(log: Seq<FrameAction>, p: ActorPair) -> bool {
    exists|j: int| 0 <= j < log.len() && log[j] == FrameAction::Start(p)
}

/// Every update in `log` comes after a start of the same actor.
pub open spec fn starts_precede_updates(log: Seq<FrameAction>) -> bool {
    forall|i: int|
        0 <= i < log.len() && (#[trigger] log[i]) is Update ==> exists|j: int|
            0 <= j < i && log[j] == FrameAction::Start(log[i]->Update_0)
}

proof fn lemma_log_push(log: Seq<FrameAction>, a: FrameAction)
    requires
        starts_precede_updates(log),
        a matches FrameAction::Update(p) ==> has_start(log, p),
    ensures
        starts_precede_updates(log.push(a)),
        forall|p: ActorPair| has_start(log, p) ==> has_start(log.push(a), p),
        a matches FrameAction::Start(p) ==> has_start(log.push(a), p),
{
    let l2 = log.push(a);
    assert forall|p: ActorPair| has_start(log, p) implies has_start(l2, p) by {
        let j = choose|j: int| 0 <= j < log.len() && log[j] == FrameAction::Start(p);
        assert(l2[j] == FrameAction::Start(p));
    }
    assert forall|i: int| 0 <= i < l2.len() && (#[trigger] l2[i]) is Update implies exists|j: int|
        0 <= j < i && l2[j] == FrameAction::Start(l2[i]->Update_0) by {
        if i < log.len() {
            assert(log[i] == l2[i]);
            let j = choose|j: int| 0 <= j < i && log[j] == FrameAction::Start(log[i]->Update_0);
            assert(l2[j] == log[j]);
        } else {
            let p = l2[i]->Update_0;
            let j = choose|j: int| 0 <= j < log.len() && log[j] == FrameAction::Start(p);
            assert(l2[j] == log[j]);
        }
    }
    if let FrameAction::Start(p) = a {
        assert(l2[log.len() as int] == FrameAction::Start(p));
    }
}

/// No pair is in both `a` and `b`.
pub open spec fn disjoint(a: Seq<ActorPair>, b: Seq<ActorPair>) -> bool {
    forall|x: ActorPair| #[trigger] a.contains(x) ==> !b.contains(x)
}

proof fn lemma_push_facts(s: Seq<ActorPair>, p: ActorPair)
    ensures
        forall|x: ActorPair| #[trigger] s.push(p).contains(x) <==> (s.contains(x) || x == p),
        s.no_duplicates() && !s.contains(p) ==> s.push(p).no_duplicates(),
{
    let t = s.push(p);
    assert forall|x: ActorPair| #[trigger] t.contains(x) <==> (s.contains(x) || x == p) by {
        if s.contains(x) {
            let j = choose|j: int| 0 <= j < s.len() && s[j] == x;
            assert(t[j] == x);
        }
        if x == p {
            assert(t[s.len() as int] == x);
        }
        if t.contains(x) {
            let j = choose|j: int| 0 <= j < t.len() && t[j] == x;
            if j < s.len() {
                assert(s[j] == x);
            }
        }
    }
    if s.no_duplicates() && !s.contains(p) {
        assert forall|i: int, j: int| 0 <= i < t.len() && 0 <= j < t.len() && i != j implies t[i]
            != t[j] by {
            if i < s.len() && j == s.len() {
                assert(s.contains(s[i]));
            }
            if j < s.len() && i == s.len() {
                assert(s.contains(s[j]));
            }
        }
    }
}

proof fn lemma_drop_first_facts(s: Seq<ActorPair>)
    requires
        s.len() > 0,
        s.no_duplicates(),
    ensures
        s.drop_first().no_duplicates(),
        !s.drop_first().contains(s[0]),
        forall|x: ActorPair| #[trigger] s.drop_first().contains(x) ==> s.contains(x),
        s.contains(s[0]),
{
    let t = s.drop_first();
    assert forall|x: ActorPair| #[trigger] t.contains(x) implies s.contains(x) by {
        let j = choose|j: int| 0 <= j < t.len() && t[j] == x;
        assert(s[j + 1] == x);
    }
    if t.contains(s[0]) {
        let j = choose|j: int| 0 <= j < t.len() && t[j] == s[0];
        assert(s[j + 1] == s[0]);
    }
    assert(s[0] == s[0]);
}

/// A filter keeps no duplicates and only elements of what it filters.
proof fn lemma_filter_no_dups(s: Seq<ActorPair>, f: spec_fn(ActorPair) -> bool)
    requires
        s.no_duplicates(),
    ensures
        s.filter(f).no_duplicates(),
        forall|x: ActorPair| #[trigger] s.filter(f).contains(x) ==> s.contains(x),
    decreases s.len(),
{
    reveal(Seq::filter);
    assert forall|x: ActorPair| #[trigger] s.filter(f).contains(x) implies s.contains(x) by {
        s.lemma_filter_contains_rev(f, x);
    }
    if s.len() > 0 {
        let d = s.drop_last();
        assert forall|i: int, j: int| 0 <= i < d.len() && 0 <= j < d.len() && i != j implies d[i]
            != d[j] by {
            assert(s[i] == d[i] && s[j] == d[j]);
        }
        lemma_filter_no_dups(d, f);
        if f(s.last()) {
            if d.filter(f).contains(s.last()) {
                assert(d.contains(s.last()));
                let j = choose|j: int| 0 <= j < d.len() && d[j] == s.last();
                assert(s[j] == s[s.len() - 1]);
            }
            lemma_push_facts(d.filter(f), s.last());
        }
    }
}

/// A filter keeps only elements of the sequence it filters.
proof fn lemma_filter_subset(s: Seq<ActorPair>, f: spec_fn(ActorPair) -> bool, log: Seq<FrameAction>)
    requires
        forall|i: int| 0 <= i < s.len() ==> has_start(log, #[trigger] s[i]),
    ensures
        forall|i: int| 0 <= i < s.filter(f).len() ==> has_start(log, #[trigger] s.filter(f)[i]),
{
    assert forall|i: int| 0 <= i < s.filter(f).len() implies has_start(log, #[trigger] s.filter(f)[i]) by {
        let x = s.filter(f)[i];
        assert(s.filter(f).contains(x));
        s.lemma_filter_contains_rev(f, x);
        let k = choose|k: int| 0 <= k < s.len() && s[k] == x;
        assert(has_start(log, s[k]));
    }
}

/// Whether `p` is among the elements of `v` from index `from` on.
fn contains_from(v: &Vec<ActorPair>, from: usize, p: ActorPair) -> (r: bool)
    requires
        from <= v@.len(),
    ensures
        r == v@.subrange(from as int, v@.len() as int).contains(p),
{
    let mut i: usize = from;
    while i < v.len()
        invariant
            from <= i <= v@.len(),
            forall|j: int| from <= j < i ==> v@[j] != p,
        decreases v@.len() - i,
    {
        if v[i] == p {
            assert(v@.subrange(from as int, v@.len() as int)[i - from] == p);
            return true;
        }
        i = i + 1;
    }
    proof {
        let t = v@.subrange(from as int, v@.len() as int);
        if t.contains(p) {
            let j = choose|j: int| 0 <= j < t.len() && t[j] == p;
            assert(v@[from + j] == p);
        }
    }
    false
}

impl World {
    /// Registrations not yet started, oldest first.
    pub closed spec fn pending(&self) -> Seq<ActorPair> {
        self.new_actors@
    }

    /// Started registrations, updated every frame, in the order started.
    pub closed spec fn live(&self) -> Seq<ActorPair> {
        self.actors@
    }

    pub closed spec fn phase(&self) -> FramePhase {
        self.phase
    }

    /// The registrations drained at the beginning of the current frame.
    pub closed spec fn batch(&self) -> Seq<ActorPair> {
        self.batch@
    }

    /// The actors that the current frame updates.
    pub closed spec fn update_list(&self) -> Seq<ActorPair> {
        self.updating@
    }

    /// How far the current phase has gone through its list.
    pub closed spec fn cursor(&self) -> int {
        self.cursor as int
    }

    /// Every start and update asked for so far, in order.
    pub closed spec fn log(&self) -> Seq<FrameAction> {
        self.log@
    }

    /// The objects that the world keeps alive.
    pub closed spec fn objects(&self) -> Seq<u64> {
        self.golist@
    }

    pub closed spec fn size_spec(&self) -> (u32, u32) {
        self.size
    }

    pub closed spec fn stats_spec(&self) -> bool {
        self.shown_stats
    }

    pub closed spec fn fps_spec(&self) -> FPS {
        self.fps
    }

    /// Nothing is updated that was not started before, and the cursor stays
    /// within the list of its phase.
    pub closed spec fn wf(&self) -> bool {
        &&& starts_precede_updates(self.log@)
        &&& forall|i: int| 0 <= i < self.actors@.len() ==> has_start(self.log@, #[trigger] self.actors@[i])
        &&& forall|i: int|
            0 <= i < self.updating@.len() ==> has_start(self.log@, #[trigger] self.updating@[i])
        &&& self.phase == FramePhase::Starting ==> self.cursor <= self.batch@.len()
        &&& self.phase == FramePhase::Updating ==> self.cursor <= self.updating@.len()
        &&& self.new_actors@.no_duplicates()
        &&& self.actors@.no_duplicates()
        &&& disjoint(self.new_actors@, self.actors@)
        &&& self.phase == FramePhase::Starting ==> {
            let rest = self.batch@.subrange(self.cursor as int, self.batch@.len() as int);
            &&& rest.no_duplicates()
            &&& disjoint(rest, self.actors@)
            &&& disjoint(rest, self.new_actors@)
        }
    }

    /// The drained registrations that the current frame has yet to consider
    /// for starting; none outside the starting phase.
    pub open spec fn to_start(&self) -> Seq<ActorPair> {
        if self.phase() == FramePhase::Starting {
            self.batch().subrange(self.cursor(), self.batch().len() as int)
        } else {
            Seq::empty()
        }
    }

    /// `p` is registered already: pending, waiting to be started in this
    /// frame, or live.
    pub open spec fn is_known(&self, p: ActorPair) -> bool {
        self.pending().contains(p) || self.to_start().contains(p) || self.live().contains(p)
    }

    /// The parts of the world that the frame protocol does not touch are the
    /// same in `a` and `b`.
    pub open spec fn same_frame(a: World, b: World) -> bool {
        &&& a.phase() == b.phase()
        &&& a.batch() == b.batch()
        &&& a.update_list() == b.update_list()
        &&& a.cursor() == b.cursor()
        &&& a.log() == b.log()
    }

    /// What one call of `next_action` does to `before`, leaving `after` and
    /// returning `r`, when `objects` and `components` are alive.
    pub open spec fn frame_step(
        before: World,
        objects: Set<u64>,
        components: Set<u64>,
        after: World,
        r: FrameAction,
    ) -> bool {
        &&& after.pending() == before.pending()
        &&& after.objects() == before.objects()
        &&& match before.phase() {
            FramePhase::Idle => r == FrameAction::Done && after.live() == before.live()
                && World::same_frame(before, after),
            FramePhase::Starting => if before.cursor() < before.batch().len() {
                let p = before.batch()[before.cursor()];
                &&& after.phase() == FramePhase::Starting
                &&& after.batch() == before.batch()
                &&& after.update_list() == before.update_list()
                &&& after.cursor() == before.cursor() + 1
                &&& if pair_resolves(p, objects, components) {
                    &&& r == FrameAction::Start(p)
                    &&& after.live() == before.live().push(p)
                    &&& after.log() == before.log().push(r)
                } else {
                    &&& r == FrameAction::Continue
                    &&& after.live() == before.live()
                    &&& after.log() == before.log()
                }
            } else {
                &&& r == FrameAction::Continue
                &&& after.phase() == FramePhase::Updating
                &&& after.batch() == before.batch()
                &&& after.update_list() == snapshot_of(before.live(), objects, components)
                &&& after.cursor() == 0
                &&& after.live() == before.live()
                &&& after.log() == before.log()
            },
            FramePhase::Updating => if before.cursor() < before.update_list().len() {
                let p = before.update_list()[before.cursor()];
                &&& r == FrameAction::Update(p)
                &&& after.phase() == FramePhase::Updating
                &&& after.batch() == before.batch()
                &&& after.update_list() == before.update_list()
                &&& after.cursor() == before.cursor() + 1
                &&& after.live() == before.live()
                &&& after.log() == before.log().push(r)
            } else {
                &&& r == FrameAction::Done
                &&& after.phase() == FramePhase::Idle
                &&& after.batch() == before.batch()
                &&& after.update_list() == before.update_list()
                &&& after.cursor() == before.cursor()
                &&& after.live() == pruned_of(before.live(), components)
                &&& after.log() == before.log()
            },
        }
    }

    /// The registrations not yet started.
    pub fn pending_actors(&self) -> (r: &Vec<ActorPair>)
        ensures
            r@ == self.pending(),
    {
        &self.new_actors
    }

    /// The started actors, in the order started.
    pub fn live_actors(&self) -> (r: &Vec<ActorPair>)
        ensures
            r@ == self.live(),
    {
        &self.actors
    }

    /// The objects that the world keeps alive.
    pub fn game_objects(&self) -> (r: &Vec<u64>)
        ensures
            r@ == self.objects(),
    {
        &self.golist
    }

    pub fn size(&self) -> (r: (u32, u32))
        ensures
            r == self.size_spec(),
    {
        self.size
    }

    pub fn shown_stats(&self) -> (r: bool)
        ensures
            r == self.stats_spec(),
    {
        self.shown_stats
    }

    pub fn fps(&self) -> (r: &FPS)
        ensures
            *r == self.fps_spec(),
    {
        &self.fps
    }

    /// Counts one frame at time `now_ms`.
    pub fn count_frame(&mut self, now_ms: u64)
        requires
            old(self).wf(),
        ensures
            final(self).wf(),
            final(self).live() == old(self).live(),
            final(self).pending() == old(self).pending(),
            final(self).objects() == old(self).objects(),
            World::same_frame(*old(self), *final(self)),
            FPS::stepped(old(self).fps_spec(), now_ms, final(self).fps_spec()),
    {
        self.fps.step(now_ms);
    }

    /// Component watcher, on a component added to `object`: registers it if
    /// it is an actor and not registered already.
    pub fn on_component_added(&mut self, object: u64, component: u64, is_actor: bool)
        requires
            old(self).wf(),
        ensures
            final(self).wf(),
            World::registered(*old(self), object, component, is_actor, *final(self)),
    {
        if !is_actor {
            return;
        }
        let p = ActorPair { object, component };
        let rest_from: usize = if self.phase == FramePhase::Starting {
            self.cursor
        } else {
            self.batch.len()
        };
        let known = contains_from(&self.new_actors, 0, p) || contains_from(&self.batch, rest_from, p)
            || contains_from(&self.actors, 0, p);
        proof {
            assert(self.new_actors@.subrange(0, self.new_actors@.len() as int) =~= self.new_actors@);
            assert(self.actors@.subrange(0, self.actors@.len() as int) =~= self.actors@);
            if self.phase != FramePhase::Starting {
                assert(self.batch@.subrange(rest_from as int, self.batch@.len() as int).len() == 0);
            }
            assert(known == self.is_known(p));
        }
        if known {
            return;
        }
        proof {
            lemma_push_facts(self.new_actors@, p);
        }
        self.new_actors.push(p);
    }

    /// The watcher saw `component` added to `object` on `before`, leaving `after`.
    pub open spec fn registered(
        before: World,
        object: u64,
        component: u64,
        is_actor: bool,
        after: World,
    ) -> bool {
        &&& after.pending() == if is_actor && !before.is_known(ActorPair { object, component }) {
            before.pending().push(ActorPair { object, component })
        } else {
            before.pending()
        }
        &&& after.live() == before.live()
        &&& after.objects() == before.objects()
        &&& World::same_frame(before, after)
    }

    /// Component watcher, on an actor component `component` removed from its
    /// object: drops from the registrations not yet started those of that
    /// component and those whose component is no longer in `components`.
    pub fn on_component_removed(&mut self, component: u64, is_actor: bool, components: &LiveSet)
        requires
            old(self).wf(),
        ensures
            final(self).wf(),
            final(self).pending() == if is_actor {
                old(self).pending().filter(
                    |p: ActorPair| kept_after_removal(p, component, components.view()),
                )
            } else {
                old(self).pending()
            },
            final(self).live() == old(self).live(),
            final(self).objects() == old(self).objects(),
            World::same_frame(*old(self), *final(self)),
    {
        if !is_actor {
            return;
        }
        let ghost f = |p: ActorPair| kept_after_removal(p, component, components.view());
        let mut kept: Vec<ActorPair> = Vec::new();
        let mut i: usize = 0;
        while i < self.new_actors.len()
            invariant
                i <= self.new_actors@.len(),
                self.new_actors@ == old(self).new_actors@,
                f == (|p: ActorPair| kept_after_removal(p, component, components.view())),
                kept@ == self.new_actors@.take(i as int).filter(f),
            decreases self.new_actors@.len() - i,
        {
            let p = self.new_actors[i];
            proof {
                assert(self.new_actors@.take(i + 1).drop_last() =~= self.new_actors@.take(i as int));
                reveal(Seq::filter);
            }
            if p.component != component && components.contains(p.component) {
                kept.push(p);
            }
            i = i + 1;
        }
        assert(self.new_actors@.take(i as int) =~= self.new_actors@);
        proof {
            lemma_filter_no_dups(self.new_actors@, f);
        }
        self.new_actors = kept;
    }

    /// Begins a frame: drains every registration made since the last frame,
    /// in order, to be started in this frame. Between frames only; during a
    /// frame it changes nothing and returns false.
    pub fn begin_frame(&mut self) -> (began: bool)
        requires
            old(self).wf(),
        ensures
            final(self).wf(),
            began == (old(self).phase() == FramePhase::Idle),
            began ==> World::frame_begun(*old(self), *final(self)),
            !began ==> *final(self) == *old(self),
    {
        if self.phase != FramePhase::Idle {
            return false;
        }
        let mut batch: Vec<ActorPair> = Vec::new();
        std::mem::swap(&mut batch, &mut self.new_actors);
        self.batch = batch;
        self.cursor = 0;
        self.phase = FramePhase::Starting;
        assert(self.batch@.subrange(0, self.batch@.len() as int) =~= self.batch@);
        true
    }

    /// `begin_frame` on `before`, between frames, left `after`.
    pub open spec fn frame_begun(before: World, after: World) -> bool {
        &&& after.phase() == FramePhase::Starting
        &&& after.batch() == before.pending()
        &&& after.cursor() == 0
        &&& after.pending() == Seq::<ActorPair>::empty()
        &&& after.live() == before.live()
        &&& after.objects() == before.objects()
        &&& after.log() == before.log()
    }

    /// The next step of the frame, given the objects and components alive
    /// now. While starting: the next drained registration is started if its
    /// object and component are both alive, and then joins the live actors;
    /// a dead one is dropped silently. Then the live actors that resolve are
    /// snapshotted, so that what the updates change does not alter who is
    /// updated, and updated one by one in order. Last, the live actors whose
    /// component died are dropped, and the frame is done.
    pub fn next_action(&mut self, objects: &LiveSet, components: &LiveSet) -> (r: FrameAction)
        requires
            old(self).wf(),
        ensures
            final(self).wf(),
            World::frame_step(*old(self), objects.view(), components.view(), *final(self), r),
    {
        match self.phase {
            FramePhase::Idle => FrameAction::Done,
            FramePhase::Starting => {
                if self.cursor < self.batch.len() {
                    let p = self.batch[self.cursor];
                    proof {
                        let rest = self.batch@.subrange(self.cursor as int, self.batch@.len() as int);
                        lemma_drop_first_facts(rest);
                        assert(rest.drop_first() =~= self.batch@.subrange(
                            self.cursor + 1,
                            self.batch@.len() as int,
                        ));
                        assert(rest[0] == p);
                        lemma_push_facts(self.actors@, p);
                    }
                    self.cursor = self.cursor + 1;
                    if objects.contains(p.object) && components.contains(p.component) {
                        let r = FrameAction::Start(p);
                        proof {
                            lemma_log_push(self.log@, r);
                        }
                        self.actors.push(p);
                        self.log = Ghost(self.log@.push(r));
                        proof {
                            assert forall|i: int| 0 <= i < self.actors@.len() implies has_start(
                                self.log@,
                                #[trigger] self.actors@[i],
                            ) by {
                                if i < old(self).actors@.len() {
                                    assert(self.actors@[i] == old(self).actors@[i]);
                                }
                            }
                        }
                        r
                    } else {
                        FrameAction::Continue
                    }
                } else {
                    let snap = self.snapshot(objects, components);
                    proof {
                        lemma_filter_subset(
                            self.actors@,
                            |p: ActorPair| pair_resolves(p, objects.view(), components.view()),
                            self.log@,
                        );
                    }
                    self.updating = snap;
                    self.cursor = 0;
                    self.phase = FramePhase::Updating;
                    FrameAction::Continue
                }
            },
            FramePhase::Updating => {
                if self.cursor < self.updating.len() {
                    let p = self.updating[self.cursor];
                    let r = FrameAction::Update(p);
                    proof {
                        lemma_log_push(self.log@, r);
                    }
                    self.cursor = self.cursor + 1;
                    self.log = Ghost(self.log@.push(r));
                    r
                } else {
                    self.prune(components);
                    self.phase = FramePhase::Idle;
                    FrameAction::Done
                }
            },
        }
    }

    /// The live actors whose object and component both still resolve, in
    /// the order they were started.
    fn snapshot(&self, objects: &LiveSet, components: &LiveSet) -> (r: Vec<ActorPair>)
        ensures
            r@ == snapshot_of(self.live(), objects.view(), components.view()),
    {
        let ghost f = |p: ActorPair| pair_resolves(p, objects.view(), components.view());
        let mut r: Vec<ActorPair> = Vec::new();
        let mut i: usize = 0;
        while i < self.actors.len()
            invariant
                i <= self.actors@.len(),
                f == (|p: ActorPair| pair_resolves(p, objects.view(), components.view())),
                r@ == self.actors@.take(i as int).filter(f),
            decreases self.actors@.len() - i,
        {
            let p = self.actors[i];
            proof {
                assert(self.actors@.take(i + 1).drop_last() =~= self.actors@.take(i as int));
                reveal(Seq::filter);
            }
            if objects.contains(p.object) && components.contains(p.component) {
                r.push(p);
            }
            i = i + 1;
        }
        assert(self.actors@.take(i as int) =~= self.actors@);
        r
    }

    /// Keeps the live actors whose component is still alive, in order. A
    /// dead object alone does not drop its actor.
    fn prune(&mut self, components: &LiveSet)
        requires
            old(self).wf(),
        ensures
            final(self).wf(),
            final(self).live() == pruned_of(old(self).live(), components.view()),
            final(self).pending() == old(self).pending(),
            final(self).objects() == old(self).objects(),
            World::same_frame(*old(self), *final(self)),
    {
        let ghost f = |p: ActorPair| components.view().contains(p.component);
        let mut kept: Vec<ActorPair> = Vec::new();
        let mut i: usize = 0;
        while i < self.actors.len()
            invariant
                i <= self.actors@.len(),
                self.actors@ == old(self).actors@,
                self.wf(),
                f == (|p: ActorPair| components.view().contains(p.component)),
                kept@ == self.actors@.take(i as int).filter(f),
            decreases self.actors@.len() - i,
        {
            let p = self.actors[i];
            proof {
                assert(self.actors@.take(i + 1).drop_last() =~= self.actors@.take(i as int));
                reveal(Seq::filter);
            }
            if components.contains(p.component) {
                kept.push(p);
            }
            i = i + 1;
        }
        assert(self.actors@.take(i as int) =~= self.actors@);
        proof {
            lemma_filter_subset(self.actors@, f, self.log@);
            lemma_filter_no_dups(self.actors@, f);
        }
        self.actors = kept;
    }

    /// Forgets every live actor and every object the world kept, as a restart
    /// of the scene does.
    pub fn reset(&mut self)
        requires
            old(self).wf(),
        ensures
            final(self).wf(),
            final(self).live() == Seq::<ActorPair>::empty(),
            final(self).objects() == Seq::<u64>::empty(),
            final(self).pending() == old(self).pending(),
            World::same_frame(*old(self), *final(self)),
    {
        self.actors.clear();
        self.golist.clear();
    }

    /// Keeps the new object `object` alive for the world's lifetime.
    pub fn new_game_object(&mut self, object: u64)
        requires
            old(self).wf(),
        ensures
            final(self).wf(),
            final(self).objects() == old(self).objects().push(object),
            final(self).live() == old(self).live(),
            final(self).pending() == old(self).pending(),
            World::same_frame(*old(self), *final(self)),
    {
        self.golist.push(object);
    }

    /// Stops keeping `object` alive.
    pub fn remove_game_object(&mut self, object: u64)
        requires
            old(self).wf(),
        ensures
            final(self).wf(),
            final(self).objects() == old(self).objects().filter(|o: u64| o != object),
            final(self).live() == old(self).live(),
            final(self).pending() == old(self).pending(),
            World::same_frame(*old(self), *final(self)),
    {
        let ghost f = |o: u64| o != object;
        let mut kept: Vec<u64> = Vec::new();
        let mut i: usize = 0;
        while i < self.golist.len()
            invariant
                i <= self.golist@.len(),
                self.golist@ == old(self).golist@,
                f == (|o: u64| o != object),
                kept@ == self.golist@.take(i as int).filter(f),
            decreases self.golist@.len() - i,
        {
            let o = self.golist[i];
            proof {
                assert(self.golist@.take(i + 1).drop_last() =~= self.golist@.take(i as int));
                reveal(Seq::filter);
            }
            if o != object {
                kept.push(o);
            }
            i = i + 1;
        }
        assert(self.golist@.take(i as int) =~= self.golist@);
        self.golist = kept;
    }
}

/// Updates never come before starts: in every well-formed world (and every
/// operation keeps the world well formed), each update of an actor that the
/// world has asked for follows a start of that same actor.
pub proof fn lemma_start_before_update(w: World)
    requires
        w.wf(),
    ensures
        starts_precede_updates(w.log()),
{
}

/// Within a frame each drained registration is considered for starting
/// exactly once: every starting step moves past one registration of the
/// batch, and a start names the registration it moved past.
pub proof fn lemma_start_once_per_registration(
    before: World,
    objects: Set<u64>,
    components: Set<u64>,
    after: World,
    r: FrameAction,
)
    requires
        before.phase() == FramePhase::Starting,
        before.cursor() < before.batch().len(),
        World::frame_step(before, objects, components, after, r),
    ensures
        after.cursor() == before.cursor() + 1,
        after.batch() == before.batch(),
        r is Start ==> r == FrameAction::Start(before.batch()[before.cursor()]),
{
}

/// A live actor is never started again: in a well-formed world the live
/// actors, the pending registrations and those still to be started in this
/// frame hold no pair twice and share none, and a starting step starts only
/// a registration that is not live yet, which then joins the live actors once.
pub proof fn lemma_start_joins_once(
    before: World,
    objects: Set<u64>,
    components: Set<u64>,
    after: World,
    r: FrameAction,
)
    requires
        before.wf(),
        World::frame_step(before, objects, components, after, r),
    ensures
        before.live().no_duplicates(),
        before.pending().no_duplicates(),
        before.to_start().no_duplicates(),
        disjoint(before.pending(), before.live()),
        disjoint(before.to_start(), before.live()),
        disjoint(before.to_start(), before.pending()),
        r matches FrameAction::Start(p) ==> !before.live().contains(p) && after.live()
            == before.live().push(p),
{
    if let FrameAction::Start(p) = r {
        let rest = before.to_start();
        assert(rest[0] == p);
        assert(rest.contains(p));
    }
}

/// A dead component gets no more updates: when component `c` is not alive as
/// a frame takes its snapshot, no update of it is in that snapshot; when it
/// is not alive as the frame ends, it is left among no live actors; and it
/// is never started.
pub proof fn lemma_dead_component_pruned(
    before: World,
    objects: Set<u64>,
    components: Set<u64>,
    after: World,
    r: FrameAction,
    c: u64,
)
    requires
        World::frame_step(before, objects, components, after, r),
        !components.contains(c),
    ensures
        before.phase() == FramePhase::Starting && before.cursor() >= before.batch().len()
            ==> forall|i: int|
            0 <= i < after.update_list().len() ==> (#[trigger] after.update_list()[i]).component
                != c,
        before.phase() == FramePhase::Updating && before.cursor() >= before.update_list().len()
            ==> forall|i: int| 0 <= i < after.live().len() ==> (#[trigger] after.live()[i]).component != c,
        r matches FrameAction::Start(p) ==> p.component != c,
{
    broadcast use vstd::seq_lib::group_filter_ensures;

}

/// An actor registered during a frame's update pass is not started in that
/// frame: no step of the update pass starts anything, and the registration
/// stays pending through it.
pub proof fn lemma_late_registration(
    w0: World,
    object: u64,
    component: u64,
    w1: World,
    objects: Set<u64>,
    components: Set<u64>,
    w2: World,
    r: FrameAction,
)
    requires
        w0.phase() == FramePhase::Updating,
        World::registered(w0, object, component, true, w1),
        World::frame_step(w1, objects, components, w2, r),
    ensures
        !(r is Start),
        w2.pending() == w1.pending(),
        !w0.is_known(ActorPair { object, component }) ==> w1.pending() == w0.pending().push(
            ActorPair { object, component },
        ),
        w0.is_known(ActorPair { object, component }) ==> w1.pending() == w0.pending(),
        w2.phase() == FramePhase::Updating || w2.phase() == FramePhase::Idle,
{
}

/// The next frame starts what registered late: beginning a frame hands out,
/// in order, every registration pending at its start, and leaves none.
pub proof fn lemma_next_frame_drains(w0: World, w1: World, p: ActorPair)
    requires
        World::frame_begun(w0, w1),
        w0.pending().contains(p),
    ensures
        w1.batch().contains(p),
        w1.cursor() == 0,
        w1.pending().len() == 0,
{
}

/// A run of frame steps: before step `i` the world is `vs[i]`, which step
/// `i` takes to `ws[i + 1]` with `rs[i]`, given the objects `os[i]` and
/// components `cs[i]` alive then. Between steps, from `ws[i]` to `vs[i]`, the
/// world may change in any way that leaves the frame and the live actors as
/// they were, as registering and removing components do.
pub open spec fn frame_run(
    ws: Seq<World>,
    vs: Seq<World>,
    os: Seq<Set<u64>>,
    cs: Seq<Set<u64>>,
    rs: Seq<FrameAction>,
) -> bool {
    &&& ws.len() == rs.len() + 1
    &&& vs.len() == rs.len()
    &&& os.len() == rs.len()
    &&& cs.len() == rs.len()
    &&& forall|i: int|
        0 <= i < rs.len() ==> World::same_frame(ws[i], #[trigger] vs[i]) && vs[i].live()
            == ws[i].live()
    &&& forall|i: int|
        0 <= i < rs.len() ==> #[trigger] World::frame_step(vs[i], os[i], cs[i], ws[i + 1], rs[i])
}

pub open spec fn no_pair_of(s: Seq<ActorPair>, c: u64) -> bool {
    forall|k: int| 0 <= k < s.len() ==> (#[trigger] s[k]).component != c
}

proof fn lemma_run_update_lists(
    ws: Seq<World>,
    vs: Seq<World>,
    os: Seq<Set<u64>>,
    cs: Seq<Set<u64>>,
    rs: Seq<FrameAction>,
    c: u64,
    i: int,
)
    requires
        frame_run(ws, vs, os, cs, rs),
        forall|j: int| 0 <= j < cs.len() ==> !(#[trigger] cs[j]).contains(c),
        ws[0].phase() == FramePhase::Updating ==> no_pair_of(ws[0].update_list(), c),
        0 <= i < ws.len(),
    ensures
        ws[i].phase() == FramePhase::Updating ==> no_pair_of(ws[i].update_list(), c),
    decreases i,
{
    broadcast use vstd::seq_lib::group_filter_ensures;

    if i > 0 {
        lemma_run_update_lists(ws, vs, os, cs, rs, c, i - 1);
        let j = i - 1;
        assert(World::same_frame(ws[j], vs[j]));
        assert(World::frame_step(vs[j], os[j], cs[j], ws[j + 1], rs[j]));
        assert(!cs[j].contains(c));
    }
}

/// A component that stays dead through a run of frame steps gets no start
/// and no update anywhere in it, whether it was started before or not; every
/// update pass of the run takes none of its actors, and every frame that
/// ends in the run leaves none of them live.
pub proof fn lemma_dead_component_run(
    ws: Seq<World>,
    vs: Seq<World>,
    os: Seq<Set<u64>>,
    cs: Seq<Set<u64>>,
    rs: Seq<FrameAction>,
    c: u64,
)
    requires
        frame_run(ws, vs, os, cs, rs),
        forall|j: int| 0 <= j < cs.len() ==> !(#[trigger] cs[j]).contains(c),
        ws[0].phase() != FramePhase::Updating,
    ensures
        forall|i: int|
            0 <= i < rs.len() ==> ((#[trigger] rs[i]) matches FrameAction::Update(p) ==> p.component
                != c),
        forall|i: int|
            0 <= i < rs.len() ==> ((#[trigger] rs[i]) matches FrameAction::Start(p) ==> p.component
                != c),
        forall|i: int|
            0 <= i < rs.len() && #[trigger] rs[i] == FrameAction::Done && vs[i].phase()
                == FramePhase::Updating ==> no_pair_of(ws[i + 1].live(), c),
{
    broadcast use vstd::seq_lib::group_filter_ensures;

    assert forall|i: int| 0 <= i < rs.len() implies ((#[trigger] rs[i]) matches FrameAction::Update(
        p,
    ) ==> p.component != c) && (rs[i] matches FrameAction::Start(p) ==> p.component != c) && (
    rs[i] == FrameAction::Done && vs[i].phase() == FramePhase::Updating ==> no_pair_of(
        ws[i + 1].live(),
        c,
    )) by {
        lemma_run_update_lists(ws, vs, os, cs, rs, c, i);
        assert(World::same_frame(ws[i], vs[i]));
        assert(World::frame_step(vs[i], os[i], cs[i], ws[i + 1], rs[i]));
        assert(!cs[i].contains(c));
    }
}

/// A run of frame steps that begins in the update pass, or between frames,
/// starts nothing: only a new frame starts registrations, so an actor
/// registered during an update pass waits for the next frame.
pub proof fn lemma_update_pass_starts_nothing(
    ws: Seq<World>,
    vs: Seq<World>,
    os: Seq<Set<u64>>,
    cs: Seq<Set<u64>>,
    rs: Seq<FrameAction>,
)
    requires
        frame_run(ws, vs, os, cs, rs),
        ws[0].phase() != FramePhase::Starting,
    ensures
        forall|i: int| 0 <= i < rs.len() ==> !((#[trigger] rs[i]) is Start),
        forall|i: int| 0 <= i < ws.len() ==> (#[trigger] ws[i]).phase() != FramePhase::Starting,
{
    assert forall|i: int| 0 <= i < ws.len() implies (#[trigger] ws[i]).phase()
        != FramePhase::Starting by {
        lemma_run_not_starting(ws, vs, os, cs, rs, i);
    }
    assert forall|i: int| 0 <= i < rs.len() implies !((#[trigger] rs[i]) is Start) by {
        lemma_run_not_starting(ws, vs, os, cs, rs, i);
        assert(World::same_frame(ws[i], vs[i]));
        assert(World::frame_step(vs[i], os[i], cs[i], ws[i + 1], rs[i]));
    }
}

proof fn lemma_run_not_starting(
    ws: Seq<World>,
    vs: Seq<World>,
    os: Seq<Set<u64>>,
    cs: Seq<Set<u64>>,
    rs: Seq<FrameAction>,
    i: int,
)
    requires
        frame_run(ws, vs, os, cs, rs),
        ws[0].phase() != FramePhase::Starting,
        0 <= i < ws.len(),
    ensures
        ws[i].phase() != FramePhase::Starting,
    decreases i,
{
    if i > 0 {
        lemma_run_not_starting(ws, vs, os, cs, rs, i - 1);
        let j = i - 1;
        assert(World::same_frame(ws[j], vs[j]));
        assert(World::frame_step(vs[j], os[j], cs[j], ws[j + 1], rs[j]));
    }
}

} // verus!
