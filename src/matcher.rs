use vstd::prelude::*;

verus! {

/// The manifests recorded for `name` in a list of `(directory name, manifest)`
/// pairs, in the order the pairs were added.
pub open spec fn manifests_for(pairs: Seq<(Seq<char>, Seq<char>)>, name: Seq<char>) -> Seq<
    Seq<char>,
>
    decreases pairs.len(),
{
    if pairs.len() == 0 {
        Seq::empty()
    } else {
        let rest = manifests_for(pairs.drop_last(), name);
        if pairs.last().0 == name {
            rest.push(pairs.last().1)
        } else {
            rest
        }
    }
}

/// Maps a directory basename to the manifest files whose presence beside the
/// directory confirms that it is a dependency folder.
///
/// Adding a second rule for a basename appends to that basename's manifests.
pub struct MatcherTable {
    rules: Vec<(String, String)>,
}

impl MatcherTable {
    /// The rules as `(directory name, manifest)` pairs, oldest first.
    pub closed spec fn pairs(&self) -> Seq<(Seq<char>, Seq<char>)> {
        self.rules@.map_values(|r: (String, String)| (r.0@, r.1@))
    }

    /// The candidate manifests for a directory basename, in table order.
    pub open spec fn candidates(&self, name: Seq<char>) -> Seq<Seq<char>> {
        manifests_for(self.pairs(), name)
    }

    /// A table with no rules.
    pub fn new() -> (r: Self)
        ensures
            forall|n: Seq<char>| #[trigger] r.candidates(n) == Seq::<Seq<char>>::empty(),
    {
        let r = MatcherTable { rules: Vec::new() };
        assert(r.pairs().len() == 0);
        r
    }

    /// Adds `manifest` as a further candidate for directories named `name`.
    pub fn add(&mut self, name: &str, manifest: &str)
        ensures
            final(self).candidates(name@) == old(self).candidates(name@).push(manifest@),
            forall|n: Seq<char>|
                n != name@ ==> #[trigger] final(self).candidates(n) == old(self).candidates(n),
    {
        let ghost before = self.pairs();
        self.rules.push((name.to_owned(), manifest.to_owned()));
        assert(self.pairs().drop_last() =~= before);
        assert(self.pairs().last() == (name@, manifest@));
    }

    /// The default table of package-manager conventions.
    pub fn with_defaults() -> (r: Self)
        ensures
            r.candidates("bower_components"@) == seq!["bower.json"@],
            r.candidates("node_modules"@) == seq!["package.json"@],
            r.candidates("target"@) == seq!["Cargo.toml"@, "pom.xml"@],
            r.candidates("Pods"@) == seq!["Podfile"@],
            r.candidates("vendor"@) == seq!["go.mod"@],
            forall|n: Seq<char>|
                n != "bower_components"@ && n != "node_modules"@ && n != "target"@ && n != "Pods"@
                    && n != "vendor"@ ==> #[trigger] r.candidates(n) == Seq::<Seq<char>>::empty(),
    {
        proof {
            reveal_strlit("bower_components");
            reveal_strlit("node_modules");
            reveal_strlit("target");
            reveal_strlit("Pods");
            reveal_strlit("vendor");
        }
        let mut r = MatcherTable::new();
        r.add("bower_components", "bower.json");
        r.add("node_modules", "package.json");
        assert("bower_components"@.len() != "node_modules"@.len());
        r.add("target", "Cargo.toml");
        r.add("target", "pom.xml");
        assert("bower_components"@.len() != "target"@.len());
        assert("node_modules"@.len() != "target"@.len());
        r.add("Pods", "Podfile");
        assert("bower_components"@.len() != "Pods"@.len());
        assert("node_modules"@.len() != "Pods"@.len());
        assert("target"@.len() != "Pods"@.len());
        r.add("vendor", "go.mod");
        assert("bower_components"@.len() != "vendor"@.len());
        assert("node_modules"@.len() != "vendor"@.len());
        assert("target"@[0] != "vendor"@[0]);
        assert("Pods"@.len() != "vendor"@.len());
        r
    }

    /// The candidate manifests for directories named `name`, in table order;
    /// empty when the name has no rule.
    pub fn lookup(&self, name: &str) -> (r: Vec<String>)
        ensures
            r.deep_view() == self.candidates(name@),
    {
        let key = name.to_owned();
        let mut out: Vec<String> = Vec::new();
        let mut i: usize = 0;
        while i < self.rules.len()
            invariant
                i <= self.rules.len(),
                key@ == name@,
                out.deep_view() == manifests_for(self.pairs().take(i as int), name@),
            decreases self.rules.len() - i,
        {
            assert(self.pairs().take(i + 1).drop_last() =~= self.pairs().take(i as int));
            if self.rules[i].0 == key {
                out.push(self.rules[i].1.clone());
            }
            i += 1;
        }
        assert(self.pairs().take(i as int) =~= self.pairs());
        out
    }
}

} // verus!
