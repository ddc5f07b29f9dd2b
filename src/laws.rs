use vstd::prelude::*;

use crate::matcher::manifests_for;
use crate::walker::{Happening, Stage, Stats, Step, WalkConfig, WalkState, step_spec};

verus! {

/// What the file tree and the backend hold about one entry of the tree.
pub struct Scene {
    pub is_dir: bool,
    /// The entry's basename.
    pub name: Seq<char>,
    /// Names of the regular files beside the entry.
    pub siblings: Set<Seq<char>>,
    /// Names of the files beside the entry that the current user may write.
    pub writable: Set<Seq<char>>,
    /// Whether the backend holds the entry as excluded before the visit.
    pub excluded: bool,
    /// Whether the backend succeeds when asked to exclude the entry.
    pub apply_ok: bool,
}

/// The answer that the tree and the backend give to an action.
pub open spec fn answer(sc: Scene, a: Step) -> Happening {
    match a {
        Step::Probe(m) => Happening::Exists(sc.siblings.contains(m)),
        Step::CheckWritable(m) => Happening::Writable(sc.writable.contains(m)),
        Step::Query => Happening::Excluded(sc.excluded),
        Step::Apply => Happening::Applied(sc.apply_ok),
        _ => Happening::Entry(sc.is_dir, sc.name),
    }
}

/// Whether an action waits for an answer before the traversal goes on.
pub open spec fn awaits(a: Step) -> bool {
    a is Probe || a is CheckWritable || a is Query || a is Apply
}

/// Answers the walker's actions from the scene until it lets the traversal
/// go on; returns the final state and every action asked for.
pub open spec fn settle(cfg: WalkConfig, s: WalkState, a: Step, sc: Scene, fuel: nat) -> (
    WalkState,
    Seq<Step>,
)
    decreases fuel,
{
    if fuel == 0 || !awaits(a) {
        (s, seq![a])
    } else {
        let (s2, a2) = step_spec(cfg, s, answer(sc, a));
        let (s3, rest) = settle(cfg, s2, a2, sc, (fuel - 1) as nat);
        (s3, seq![a] + rest)
    }
}

/// One visit of an entry: the walker takes the entry, then every answer it
/// asks for.
pub open spec fn visit(cfg: WalkConfig, s: WalkState, sc: Scene) -> (WalkState, Seq<Step>) {
    let (s1, a1) = step_spec(cfg, s, Happening::Entry(sc.is_dir, sc.name));
    settle(cfg, s1, a1, sc, manifests_for(cfg.rules, sc.name).len() + 3)
}

/// The index of the first candidate, from `i` on, that exists among `sibs`.
pub open spec fn first_hit(c: Seq<Seq<char>>, sibs: Set<Seq<char>>, i: int) -> Option<int>
    decreases c.len() - i,
{
    if i < 0 || i >= c.len() {
        None
    } else if sibs.contains(c[i]) {
        Some(i)
    } else {
        first_hit(c, sibs, i + 1)
    }
}

/// The manifest that confirms a scene's directory, if any.
pub open spec fn hit(cfg: WalkConfig, sc: Scene) -> Option<Seq<char>> {
    let c = manifests_for(cfg.rules, sc.name);
    match first_hit(c, sc.siblings, 0) {
        Some(j) => Some(c[j]),
        None => None,
    }
}

/// Whether the backend holds the entry as excluded after a visit that asked
/// for `acts`.
pub open spec fn excluded_after(sc: Scene, acts: Seq<Step>) -> bool {
    sc.excluded || (acts.contains(Step::Apply) && sc.apply_ok)
}

/// The outcome of a visit, stated directly.
pub open spec fn outcome(cfg: WalkConfig, st: Stats, sc: Scene) -> (Stats, Step, bool, bool) {
    // (counts after, last action, backend queried, exclusion applied)
    if !sc.is_dir {
        (st, Step::Next, false, false)
    } else if cfg.exclusions.contains(sc.name) {
        (st, Step::Prune, false, false)
    } else {
        match hit(cfg, sc) {
            None => (st, Step::Next, false, false),
            Some(m) => outcome_checking(st, m, sc),
        }
    }
}

/// The outcome once a manifest `m` was found, stated directly.
pub open spec fn outcome_checking(st: Stats, m: Seq<char>, sc: Scene) -> (Stats, Step, bool, bool) {
    if !sc.writable.contains(m) {
        (Stats { immutable: (st.immutable + 1) as u64, ..st }, Step::Prune, false, false)
    } else if sc.excluded {
        (
            Stats { matched: (st.matched + 1) as u64, skipped: (st.skipped + 1) as u64, ..st },
            Step::Prune,
            true,
            false,
        )
    } else if sc.apply_ok {
        (
            Stats { matched: (st.matched + 1) as u64, added: (st.added + 1) as u64, ..st },
            Step::Prune,
            true,
            true,
        )
    } else {
        (Stats { matched: (st.matched + 1) as u64, ..st }, Step::Prune, true, true)
    }
}

proof fn lemma_settle_checking(cfg: WalkConfig, st: Stats, m: Seq<char>, sc: Scene, fuel: nat)
    requires
        fuel >= 3,
        st.has_room(),
    ensures
        ({
            let (s3, acts) = settle(
                cfg,
                WalkState { stage: Stage::CheckingWritable, stats: st },
                Step::CheckWritable(m),
                sc,
                fuel,
            );
            let o = outcome_checking(st, m, sc);
            &&& s3 == (WalkState { stage: Stage::Idle, stats: o.0 })
            &&& acts.last() == o.1
            &&& acts.contains(Step::Query) == o.2
            &&& acts.contains(Step::Apply) == o.3
        }),
{
    let s0 = WalkState { stage: Stage::CheckingWritable, stats: st };
    reveal_with_fuel(settle, 4);
    let (s1, a1) = step_spec(cfg, s0, answer(sc, Step::CheckWritable(m)));
    let (s2, a2) = step_spec(cfg, s1, answer(sc, a1));
    let (s3, a3) = step_spec(cfg, s2, answer(sc, a2));
    let acts = settle(cfg, s0, Step::CheckWritable(m), sc, fuel).1;
    if !sc.writable.contains(m) {
        assert(acts =~= seq![Step::CheckWritable(m), Step::Prune]);
        assert(!acts.contains(Step::Query)) by {
            if acts.contains(Step::Query) {
                let k = choose|k: int| 0 <= k < acts.len() && acts[k] == Step::Query;
            }
        }
        assert(!acts.contains(Step::Apply)) by {
            if acts.contains(Step::Apply) {
                let k = choose|k: int| 0 <= k < acts.len() && acts[k] == Step::Apply;
            }
        }
    } else if sc.excluded {
        assert(acts =~= seq![Step::CheckWritable(m), Step::Query, Step::Prune]);
        assert(acts[1] == Step::Query);
        assert(!acts.contains(Step::Apply)) by {
            if acts.contains(Step::Apply) {
                let k = choose|k: int| 0 <= k < acts.len() && acts[k] == Step::Apply;
            }
        }
    } else {
        assert(acts =~= seq![Step::CheckWritable(m), Step::Query, Step::Apply, Step::Prune]);
        assert(acts[1] == Step::Query);
        assert(acts[2] == Step::Apply);
    }
}

proof fn lemma_contains_cons(a: Step, rest: Seq<Step>, x: Step)
    ensures
        (seq![a] + rest).contains(x) == (a == x || rest.contains(x)),
        rest.len() > 0 ==> (seq![a] + rest).last() == rest.last(),
{
    let all = seq![a] + rest;
    assert(all[0] == a);
    if rest.contains(x) {
        let k = choose|k: int| 0 <= k < rest.len() && rest[k] == x;
        assert(all[k + 1] == x);
    }
    if all.contains(x) {
        let k = choose|k: int| 0 <= k < all.len() && all[k] == x;
        if k > 0 {
            assert(rest[k - 1] == x);
        }
    }
}

proof fn lemma_settle_probing(
    cfg: WalkConfig,
    st: Stats,
    c: Seq<Seq<char>>,
    i: int,
    sc: Scene,
    fuel: nat,
)
    requires
        0 <= i < c.len(),
        fuel >= c.len() - i + 3,
        st.has_room(),
    ensures
        ({
            let (s3, acts) = settle(
                cfg,
                WalkState { stage: Stage::Probing(c, i), stats: st },
                Step::Probe(c[i]),
                sc,
                fuel,
            );
            match first_hit(c, sc.siblings, i) {
                None => {
                    &&& s3 == (WalkState { stage: Stage::Idle, stats: st })
                    &&& acts.last() == Step::Next
                    &&& !acts.contains(Step::Query)
                    &&& !acts.contains(Step::Apply)
                },
                Some(j) => {
                    let o = outcome_checking(st, c[j], sc);
                    &&& s3 == (WalkState { stage: Stage::Idle, stats: o.0 })
                    &&& acts.last() == o.1
                    &&& acts.contains(Step::Query) == o.2
                    &&& acts.contains(Step::Apply) == o.3
                },
            }
        }),
    decreases c.len() - i,
{
    let s0 = WalkState { stage: Stage::Probing(c, i), stats: st };
    let (s2, a2) = step_spec(cfg, s0, answer(sc, Step::Probe(c[i])));
    let (s3, rest) = settle(cfg, s2, a2, sc, (fuel - 1) as nat);
    assert(settle(cfg, s0, Step::Probe(c[i]), sc, fuel) == (s3, seq![Step::Probe(c[i])] + rest));
    lemma_contains_cons(Step::Probe(c[i]), rest, Step::Query);
    lemma_contains_cons(Step::Probe(c[i]), rest, Step::Apply);
    if sc.siblings.contains(c[i]) {
        lemma_settle_checking(cfg, st, c[i], sc, (fuel - 1) as nat);
    } else if i + 1 < c.len() {
        lemma_settle_probing(cfg, st, c, i + 1, sc, (fuel - 1) as nat);
    } else {
        assert(rest == seq![Step::Next]);
        assert(!rest.contains(Step::Query)) by {
            if rest.contains(Step::Query) {
                let k = choose|k: int| 0 <= k < rest.len() && rest[k] == Step::Query;
            }
        }
        assert(!rest.contains(Step::Apply)) by {
            if rest.contains(Step::Apply) {
                let k = choose|k: int| 0 <= k < rest.len() && rest[k] == Step::Apply;
            }
        }
    }
}

/// A visit from an idle state ends idle, with the counts, the last action,
/// and the backend calls that [`outcome`] states.
pub proof fn lemma_visit(cfg: WalkConfig, s: WalkState, sc: Scene)
    requires
        s.stage is Idle,
        s.stats.has_room(),
    ensures
        ({
            let (s2, acts) = visit(cfg, s, sc);
            let o = outcome(cfg, s.stats, sc);
            &&& s2 == (WalkState { stage: Stage::Idle, stats: o.0 })
            &&& acts.last() == o.1
            &&& acts.contains(Step::Query) == o.2
            &&& acts.contains(Step::Apply) == o.3
        }),
{
    let c = manifests_for(cfg.rules, sc.name);
    let fuel = c.len() + 3;
    let (s1, a1) = step_spec(cfg, s, Happening::Entry(sc.is_dir, sc.name));
    let acts = visit(cfg, s, sc).1;
    if !sc.is_dir || cfg.exclusions.contains(sc.name) || c.len() == 0 {
        assert(acts == seq![a1]);
        assert(!acts.contains(Step::Query)) by {
            if acts.contains(Step::Query) {
                let k = choose|k: int| 0 <= k < acts.len() && acts[k] == Step::Query;
            }
        }
        assert(!acts.contains(Step::Apply)) by {
            if acts.contains(Step::Apply) {
                let k = choose|k: int| 0 <= k < acts.len() && acts[k] == Step::Apply;
            }
        }
        if c.len() == 0 {
            assert(first_hit(c, sc.siblings, 0) is None);
        }
    } else {
        lemma_settle_probing(cfg, s.stats, c, 0, sc, fuel);
    }
}

/// The scene as it stands after a visit: the backend holds the entry as
/// excluded if it did before or the visit had it excluded successfully.
pub open spec fn after(cfg: WalkConfig, sc: Scene) -> Scene {
    let applied = outcome(cfg, Stats { matched: 0, skipped: 0, added: 0, immutable: 0 }, sc).3;
    Scene { excluded: sc.excluded || (applied && sc.apply_ok), ..sc }
}

/// The state after visiting the entries of `scenes` in order.
pub open spec fn walk_run(cfg: WalkConfig, s: WalkState, scenes: Seq<Scene>) -> WalkState
    decreases scenes.len(),
{
    if scenes.len() == 0 {
        s
    } else {
        walk_run(cfg, visit(cfg, s, scenes[0]).0, scenes.drop_first())
    }
}

/// Every count of `st` can grow by `n` and stay below its largest value.
pub open spec fn room_for(st: Stats, n: int) -> bool {
    &&& st.matched + n < u64::MAX
    &&& st.skipped + n < u64::MAX
    &&& st.added + n < u64::MAX
    &&& st.immutable + n < u64::MAX
}

/// A directory confirmed by a writable manifest, whose name is not pruned
/// by the exclusion list, is excluded after its visit when the backend
/// works.
pub proof fn law_match_is_excluded(cfg: WalkConfig, s: WalkState, sc: Scene)
    requires
        s.stage is Idle,
        s.stats.has_room(),
        sc.is_dir,
        !cfg.exclusions.contains(sc.name),
        hit(cfg, sc) is Some,
        sc.writable.contains(hit(cfg, sc)->Some_0),
        sc.apply_ok,
    ensures
        excluded_after(sc, visit(cfg, s, sc).1),
{
    lemma_visit(cfg, s, sc);
}

/// Visiting an entry again once the backend holds what the first visit
/// left excludes nothing new: a match counts as already excluded.
pub proof fn law_second_visit_adds_nothing(cfg: WalkConfig, st: Stats, sc: Scene)
    requires
        st.has_room(),
        sc.apply_ok,
    ensures
        ({
            let o = outcome(cfg, st, after(cfg, sc));
            &&& o.0.added == st.added
            &&& o.0.skipped - st.skipped == o.0.matched - st.matched
            &&& !o.3
        }),
{
}

/// Walking the same entries a second time, after a first walk over them in
/// which the backend worked, excludes nothing and counts every match as
/// already excluded.
pub proof fn law_second_walk_adds_nothing(cfg: WalkConfig, s: WalkState, scenes: Seq<Scene>)
    requires
        s.stage is Idle,
        room_for(s.stats, scenes.len() as int),
        forall|k: int| 0 <= k < scenes.len() ==> (#[trigger] scenes[k]).apply_ok,
    ensures
        ({
            let s2 = walk_run(cfg, s, scenes.map_values(|sc: Scene| after(cfg, sc)));
            &&& s2.stage is Idle
            &&& s2.stats.added == s.stats.added
            &&& s2.stats.skipped - s.stats.skipped == s2.stats.matched - s.stats.matched
        }),
    decreases scenes.len(),
{
    let again = scenes.map_values(|sc: Scene| after(cfg, sc));
    if scenes.len() > 0 {
        let sc = again[0];
        lemma_visit(cfg, s, sc);
        law_second_visit_adds_nothing(cfg, s.stats, scenes[0]);
        let s1 = visit(cfg, s, sc).0;
        let tail = scenes.drop_first();
        assert forall|k: int| 0 <= k < tail.len() implies (#[trigger] tail[k]).apply_ok by {
            assert(tail[k] == scenes[k + 1]);
        }
        law_second_walk_adds_nothing(cfg, s1, tail);
        assert(again.drop_first() =~= tail.map_values(|sc: Scene| after(cfg, sc)));
    }
}

/// A directory confirmed by one of its candidate manifests is never
/// descended into: its visit ends by pruning it, whatever the manifest's
/// mode and the backend's answers.
pub proof fn law_match_prunes(cfg: WalkConfig, s: WalkState, sc: Scene)
    requires
        s.stage is Idle,
        s.stats.has_room(),
        sc.is_dir,
        hit(cfg, sc) is Some,
    ensures
        visit(cfg, s, sc).1.last() == Step::Prune,
{
    lemma_visit(cfg, s, sc);
}

/// A directory whose name is on the exclusion list is pruned at once: it is
/// neither matched nor asked about, whatever the matcher table holds.
pub proof fn law_exclusion_list_first(cfg: WalkConfig, s: WalkState, sc: Scene)
    requires
        s.stage is Idle,
        sc.is_dir,
        cfg.exclusions.contains(sc.name),
    ensures
        visit(cfg, s, sc) == (s, seq![Step::Prune]),
{
    reveal_with_fuel(settle, 1);
}

/// A directory whose confirming manifest is read-only counts as immutable,
/// is neither matched nor asked about, and is pruned.
pub proof fn law_read_only_manifest(cfg: WalkConfig, s: WalkState, sc: Scene)
    requires
        s.stage is Idle,
        s.stats.has_room(),
        sc.is_dir,
        !cfg.exclusions.contains(sc.name),
        hit(cfg, sc) is Some,
        !sc.writable.contains(hit(cfg, sc)->Some_0),
    ensures
        ({
            let (s2, acts) = visit(cfg, s, sc);
            &&& s2.stats == (Stats { immutable: (s.stats.immutable + 1) as u64, ..s.stats })
            &&& !acts.contains(Step::Query)
            &&& !acts.contains(Step::Apply)
            &&& acts.last() == Step::Prune
        }),
{
    lemma_visit(cfg, s, sc);
}

/// A directory with a matching name but none of its candidate manifests is
/// walked into like any other, and nothing is counted.
pub proof fn law_name_alone_descends(cfg: WalkConfig, s: WalkState, sc: Scene)
    requires
        s.stage is Idle,
        s.stats.has_room(),
        hit(cfg, sc) is None,
    ensures
        visit(cfg, s, sc).0 == s,
        visit(cfg, s, sc).1.last() == (if sc.is_dir && cfg.exclusions.contains(sc.name) {
            Step::Prune
        } else {
            Step::Next
        }),
{
    lemma_visit(cfg, s, sc);
}

} // verus!
