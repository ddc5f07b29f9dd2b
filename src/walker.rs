use vstd::prelude::*;

use crate::matcher::{MatcherTable, manifests_for};

verus! {

/// Counts accumulated over one walk.
#[derive(Clone, Copy, Debug, PartialEq, Eq, Structural)]
pub struct Stats {
    /// Dependency folders found with a writable manifest.
    pub matched: u64,
    /// Matched folders that the backend already reported as excluded.
    pub skipped: u64,
    /// Matched folders that the backend excluded during this walk.
    pub added: u64,
    /// Folders left alone because their manifest is read-only.
    pub immutable: u64,
}

impl Stats {
    /// All counts at zero.
    pub fn new() -> (r: Self)
        ensures
            r == (Stats { matched: 0, skipped: 0, added: 0, immutable: 0 }),
    {
        Stats { matched: 0, skipped: 0, added: 0, immutable: 0 }
    }

    /// No count is at its largest value, so any one of them can grow by one.
    pub open spec fn has_room(self) -> bool {
        &&& self.matched < u64::MAX
        &&& self.skipped < u64::MAX
        &&& self.added < u64::MAX
        &&& self.immutable < u64::MAX
    }
}

/// What the environment reports to the walker.
pub enum Event {
    /// The traversal reached an entry of the tree.
    Entry { is_dir: bool, name: String },
    /// Whether the probed manifest exists beside the directory.
    Exists(bool),
    /// Whether the found manifest is writable by the current user.
    Writable(bool),
    /// Whether the backend reports the directory as already excluded.
    Excluded(bool),
    /// Whether the backend managed to exclude the directory.
    Applied(bool),
}

/// What the walker asks the environment to do next.
pub enum Action {
    /// Go on with the traversal, descending into the entry if it is a directory.
    Next,
    /// Go on with the traversal without descending into the current directory.
    Prune,
    /// Test whether the named manifest exists beside the current directory.
    Probe(String),
    /// Test whether the named manifest beside the current directory is writable.
    CheckWritable(String),
    /// Ask the backend whether the current directory is excluded.
    Query,
    /// Ask the backend to exclude the current directory.
    Apply,
}

/// The mathematical form of an [`Event`].
pub enum Happening {
    Entry(bool, Seq<char>),
    Exists(bool),
    Writable(bool),
    Excluded(bool),
    Applied(bool),
}

/// The mathematical form of an [`Action`].
pub enum Step {
    Next,
    Prune,
    Probe(Seq<char>),
    CheckWritable(Seq<char>),
    Query,
    Apply,
}

/// Where the walker stands in the handling of the current entry.
pub enum Stage {
    /// Waiting for the next entry.
    Idle,
    /// Probing the candidate manifests; the index is that of the one asked for.
    Probing(Seq<Seq<char>>, int),
    /// Waiting to learn whether the found manifest is writable.
    CheckingWritable,
    /// Waiting for the backend's answer on the directory.
    Querying,
    /// Waiting for the backend to exclude the directory.
    Applying,
}

/// The fixed inputs of a walk: pruned basenames and the matcher rules.
pub struct WalkConfig {
    pub exclusions: Seq<Seq<char>>,
    pub rules: Seq<(Seq<char>, Seq<char>)>,
}

/// The mathematical state of a walker.
pub struct WalkState {
    pub stage: Stage,
    pub stats: Stats,
}

impl Event {
    pub open spec fn view(&self) -> Happening {
        match self {
            Event::Entry { is_dir, name } => Happening::Entry(*is_dir, name@),
            Event::Exists(b) => Happening::Exists(*b),
            Event::Writable(b) => Happening::Writable(*b),
            Event::Excluded(b) => Happening::Excluded(*b),
            Event::Applied(b) => Happening::Applied(*b),
        }
    }
}

impl Action {
    pub open spec fn view(&self) -> Step {
        match self {
            Action::Next => Step::Next,
            Action::Prune => Step::Prune,
            Action::Probe(m) => Step::Probe(m@),
            Action::CheckWritable(m) => Step::CheckWritable(m@),
            Action::Query => Step::Query,
            Action::Apply => Step::Apply,
        }
    }
}

/// Whether a walker at stage `st` takes the happening `h`: an entry when idle,
/// otherwise the answer to the action it last asked for.
pub open spec fn fits(st: Stage, h: Happening) -> bool {
    match st {
        Stage::Idle => h is Entry,
        Stage::Probing(_, _) => h is Exists,
        Stage::CheckingWritable => h is Writable,
        Stage::Querying => h is Excluded,
        Stage::Applying => h is Applied,
    }
}

/// The state after one happening, and the action asked for.
pub open spec fn step_spec(cfg: WalkConfig, s: WalkState, h: Happening) -> (WalkState, Step) {
    let st = s.stats;
    match s.stage {
        Stage::Idle => match h {
            Happening::Entry(is_dir, name) => {
                let c = manifests_for(cfg.rules, name);
                if !is_dir {
                    (s, Step::Next)
                } else if cfg.exclusions.contains(name) {
                    (s, Step::Prune)
                } else if c.len() > 0 {
                    (WalkState { stage: Stage::Probing(c, 0), stats: st }, Step::Probe(c[0]))
                } else {
                    (s, Step::Next)
                }
            },
            _ => (s, Step::Next),
        },
        Stage::Probing(c, i) => match h {
            Happening::Exists(true) => (
                WalkState { stage: Stage::CheckingWritable, stats: st },
                Step::CheckWritable(c[i]),
            ),
            Happening::Exists(false) => if i + 1 < c.len() {
                (WalkState { stage: Stage::Probing(c, i + 1), stats: st }, Step::Probe(c[i + 1]))
            } else {
                (WalkState { stage: Stage::Idle, stats: st }, Step::Next)
            },
            _ => (s, Step::Next),
        },
        Stage::CheckingWritable => match h {
            Happening::Writable(true) => (
                WalkState {
                    stage: Stage::Querying,
                    stats: Stats { matched: (st.matched + 1) as u64, ..st },
                },
                Step::Query,
            ),
            Happening::Writable(false) => (
                WalkState {
                    stage: Stage::Idle,
                    stats: Stats { immutable: (st.immutable + 1) as u64, ..st },
                },
                Step::Prune,
            ),
            _ => (s, Step::Next),
        },
        Stage::Querying => match h {
            Happening::Excluded(true) => (
                WalkState {
                    stage: Stage::Idle,
                    stats: Stats { skipped: (st.skipped + 1) as u64, ..st },
                },
                Step::Prune,
            ),
            Happening::Excluded(false) => (
                WalkState { stage: Stage::Applying, stats: st },
                Step::Apply,
            ),
            _ => (s, Step::Next),
        },
        Stage::Applying => match h {
            Happening::Applied(true) => (
                WalkState {
                    stage: Stage::Idle,
                    stats: Stats { added: (st.added + 1) as u64, ..st },
                },
                Step::Prune,
            ),
            Happening::Applied(false) => (WalkState { stage: Stage::Idle, stats: st }, Step::Prune),
            _ => (s, Step::Next),
        },
    }
}

enum Phase {
    Idle,
    Probing { candidates: Vec<String>, next: usize },
    CheckingWritable,
    Querying,
    Applying,
}

impl Phase {
    spec fn view(&self) -> Stage {
        match self {
            Phase::Idle => Stage::Idle,
            Phase::Probing { candidates, next } => Stage::Probing(
                candidates.deep_view(),
                *next as int,
            ),
            Phase::CheckingWritable => Stage::CheckingWritable,
            Phase::Querying => Stage::Querying,
            Phase::Applying => Stage::Applying,
        }
    }
}

/// Decides, entry by entry, which directories of a tree are dependency
/// folders to exclude and which subtrees to skip, while the caller performs
/// the traversal, the file tests and the backend calls that it asks for.
pub struct Walker {
    exclusions: Vec<String>,
    table: MatcherTable,
    stats: Stats,
    phase: Phase,
}

impl Walker {
    pub closed spec fn config(&self) -> WalkConfig {
        WalkConfig { exclusions: self.exclusions.deep_view(), rules: self.table.pairs() }
    }

    pub closed spec fn view(&self) -> WalkState {
        WalkState { stage: self.phase@, stats: self.stats }
    }

    /// The walker's internal consistency: a probe index lies within its
    /// candidates.
    pub closed spec fn wf(&self) -> bool {
        match self.phase {
            Phase::Probing { candidates, next } => next < candidates.len(),
            _ => true,
        }
    }

    /// Whether the walker can take `e`: it fits the current stage and no
    /// count is at its largest value.
    pub open spec fn ready(&self, e: Happening) -> bool {
        fits(self@.stage, e) && self@.stats.has_room()
    }

    /// A walker for one walk, pruning the basenames in `exclusions` and
    /// matching by `table`, with all counts at zero.
    pub fn new(exclusions: Vec<String>, table: MatcherTable) -> (r: Self)
        ensures
            r.wf(),
            r.config() == (WalkConfig {
                exclusions: exclusions.deep_view(),
                rules: table.pairs(),
            }),
            r@ == (WalkState { stage: Stage::Idle, stats: Stats { matched: 0, skipped: 0, added: 0, immutable: 0 } }),
    {
        Walker { exclusions, table, stats: Stats::new(), phase: Phase::Idle }
    }

    /// The counts so far.
    pub fn stats(&self) -> (r: Stats)
        ensures
            r == self@.stats,
    {
        self.stats
    }

    /// Whether the walker waits for the next entry.
    pub fn is_idle(&self) -> (r: bool)
        ensures
            r == (self@.stage is Idle),
    {
        match self.phase {
            Phase::Idle => true,
            _ => false,
        }
    }

    /// Executable form of [`Walker::ready`].
    pub fn can_take(&self, e: &Event) -> (r: bool)
        ensures
            r == self.ready(e@),
    {
        let fit = match (&self.phase, e) {
            (Phase::Idle, Event::Entry { .. }) => true,
            (Phase::Probing { .. }, Event::Exists(_)) => true,
            (Phase::CheckingWritable, Event::Writable(_)) => true,
            (Phase::Querying, Event::Excluded(_)) => true,
            (Phase::Applying, Event::Applied(_)) => true,
            _ => false,
        };
        fit && self.stats.matched < u64::MAX && self.stats.skipped < u64::MAX
            && self.stats.added < u64::MAX && self.stats.immutable < u64::MAX
    }

    fn is_excluded_name(&self, name: &String) -> (r: bool)
        ensures
            r == self.config().exclusions.contains(name@),
    {
        let mut i: usize = 0;
        while i < self.exclusions.len()
            invariant
                i <= self.exclusions.len(),
                forall|k: int| 0 <= k < i ==> self.exclusions@[k]@ != name@,
            decreases self.exclusions.len() - i,
        {
            if self.exclusions[i] == *name {
                assert(self.config().exclusions[i as int] == name@);
                return true;
            }
            i += 1;
        }
        assert(!self.config().exclusions.contains(name@)) by {
            if self.config().exclusions.contains(name@) {
                let k = choose|k: int|
                    0 <= k < self.config().exclusions.len() && self.config().exclusions[k]
                        == name@;
                assert(self.exclusions@[k]@ == name@);
            }
        }
        false
    }

    /// Takes one event and returns the action that the caller must perform.
    pub fn step(&mut self, event: Event) -> (r: Action)
        requires
            old(self).wf(),
            old(self).ready(event@),
        ensures
            final(self).wf(),
            final(self).config() == old(self).config(),
            (final(self)@, r@) == step_spec(old(self).config(), old(self)@, event@),
    {
        let mut phase = Phase::Idle;
        std::mem::swap(&mut phase, &mut self.phase);
        match phase {
            Phase::Idle => match event {
                Event::Entry { is_dir, name } => {
                    if !is_dir {
                        Action::Next
                    } else if self.is_excluded_name(&name) {
                        Action::Prune
                    } else {
                        let c = self.table.lookup(name.as_str());
                        if c.len() > 0 {
                            let first = c[0].clone();
                            self.phase = Phase::Probing { candidates: c, next: 0 };
                            Action::Probe(first)
                        } else {
                            Action::Next
                        }
                    }
                },
                _ => Action::Next,
            },
            Phase::Probing { candidates, next } => match event {
                Event::Exists(true) => {
                    let m = candidates[next].clone();
                    self.phase = Phase::CheckingWritable;
                    Action::CheckWritable(m)
                },
                Event::Exists(false) => {
                    if next + 1 < candidates.len() {
                        let m = candidates[next + 1].clone();
                        self.phase = Phase::Probing { candidates, next: next + 1 };
                        Action::Probe(m)
                    } else {
                        Action::Next
                    }
                },
                _ => Action::Next,
            },
            Phase::CheckingWritable => match event {
                Event::Writable(true) => {
                    self.stats.matched = self.stats.matched + 1;
                    self.phase = Phase::Querying;
                    Action::Query
                },
                Event::Writable(false) => {
                    self.stats.immutable = self.stats.immutable + 1;
                    Action::Prune
                },
                _ => Action::Next,
            },
            Phase::Querying => match event {
                Event::Excluded(true) => {
                    self.stats.skipped = self.stats.skipped + 1;
                    Action::Prune
                },
                Event::Excluded(false) => {
                    self.phase = Phase::Applying;
                    Action::Apply
                },
                _ => Action::Next,
            },
            Phase::Applying => match event {
                Event::Applied(true) => {
                    self.stats.added = self.stats.added + 1;
                    Action::Prune
                },
                Event::Applied(false) => Action::Prune,
                _ => Action::Next,
            },
        }
    }
}

} // verus!
