use depexclude::{Action, Event, MatcherTable, Stats, Walker};
use std::collections::HashSet;

struct Dir {
    name: &'static str,
    dirs: Vec<Dir>,
    files: Vec<(&'static str, bool)>,
}

fn dir(name: &'static str, dirs: Vec<Dir>, files: Vec<(&'static str, bool)>) -> Dir {
    Dir { name, dirs, files }
}

struct Backend {
    excluded: HashSet<String>,
    queried: Vec<String>,
    works: bool,
}

impl Backend {
    fn new() -> Backend {
        Backend { excluded: HashSet::new(), queried: Vec::new(), works: true }
    }
}

fn answer(w: &mut Walker, ev: Event) -> Action {
    assert!(w.can_take(&ev));
    w.step(ev)
}

fn visit(w: &mut Walker, d: &Dir, parent: Option<&Dir>, path: &str, b: &mut Backend) {
    let mut action = answer(w, Event::Entry { is_dir: true, name: d.name.to_string() });
    loop {
        action = match action {
            Action::Next => break,
            Action::Prune => return,
            Action::Probe(m) => {
                let found = parent.map_or(false, |p| p.files.iter().any(|f| f.0 == m));
                answer(w, Event::Exists(found))
            }
            Action::CheckWritable(m) => {
                let p = parent.unwrap();
                let writable = p.files.iter().any(|f| f.0 == m && f.1);
                answer(w, Event::Writable(writable))
            }
            Action::Query => {
                b.queried.push(path.to_string());
                let already = b.excluded.contains(path);
                answer(w, Event::Excluded(already))
            }
            Action::Apply => {
                if b.works {
                    b.excluded.insert(path.to_string());
                }
                answer(w, Event::Applied(b.works))
            }
        };
    }
    for f in &d.files {
        let a = answer(w, Event::Entry { is_dir: false, name: f.0.to_string() });
        assert!(matches!(a, Action::Next));
    }
    for c in &d.dirs {
        let child = format!("{}/{}", path, c.name);
        visit(w, c, Some(d), &child, b);
    }
}

fn walk(root: &Dir, exclusions: &[&str], b: &mut Backend) -> Stats {
    let ex: Vec<String> = exclusions.iter().map(|s| s.to_string()).collect();
    let mut w = Walker::new(ex, MatcherTable::with_defaults());
    visit(&mut w, root, None, root.name, b);
    assert!(w.is_idle());
    w.stats()
}

fn node_project(manifest_writable: bool) -> Dir {
    dir(
        "root",
        vec![dir(
            "project",
            vec![dir("node_modules", vec![dir("left-pad", vec![], vec![])], vec![])],
            vec![("package.json", manifest_writable)],
        )],
        vec![],
    )
}

#[test]
fn node_modules_is_excluded_on_first_walk() {
    let tree = node_project(true);
    let mut b = Backend::new();
    let s = walk(&tree, &[], &mut b);
    assert_eq!(s.matched, 1);
    assert_eq!(s.added, 1);
    assert_eq!(s.skipped, 0);
    assert_eq!(s.immutable, 0);
    assert!(b.excluded.contains("root/project/node_modules"));
}

#[test]
fn second_walk_finds_it_already_excluded() {
    let tree = node_project(true);
    let mut b = Backend::new();
    walk(&tree, &[], &mut b);
    let s = walk(&tree, &[], &mut b);
    assert_eq!(s.matched, 1);
    assert_eq!(s.skipped, 1);
    assert_eq!(s.added, 0);
}

#[test]
fn target_matches_through_second_candidate() {
    let tree = dir(
        "root",
        vec![dir("project", vec![dir("target", vec![], vec![])], vec![("pom.xml", true)])],
        vec![],
    );
    let mut b = Backend::new();
    let s = walk(&tree, &[], &mut b);
    assert_eq!(s.matched, 1);
    assert_eq!(s.added, 1);
    assert!(b.excluded.contains("root/project/target"));
}

#[test]
fn excluded_library_is_pruned_before_node_modules() {
    let tree = dir(
        "root",
        vec![dir(
            "Library",
            vec![dir("node_modules", vec![], vec![])],
            vec![("package.json", true)],
        )],
        vec![],
    );
    let mut b = Backend::new();
    let s = walk(&tree, &["Library"], &mut b);
    assert_eq!(s.matched, 0);
    assert!(b.queried.is_empty());
}

#[test]
fn nested_match_is_never_counted() {
    let tree = dir(
        "root",
        vec![dir(
            "app",
            vec![dir(
                "node_modules",
                vec![dir("dep", vec![dir("node_modules", vec![], vec![])], vec![("package.json", true)])],
                vec![],
            )],
            vec![("package.json", true)],
        )],
        vec![],
    );
    let mut b = Backend::new();
    let s = walk(&tree, &[], &mut b);
    assert_eq!(s.matched, 1);
    assert_eq!(b.queried, vec!["root/app/node_modules".to_string()]);
}

#[test]
fn listed_name_that_also_matches_is_not_queried() {
    let tree = dir(
        "root",
        vec![dir("p", vec![dir("node_modules", vec![], vec![])], vec![("package.json", true)])],
        vec![],
    );
    let mut b = Backend::new();
    let s = walk(&tree, &["node_modules"], &mut b);
    assert_eq!(s, Stats { matched: 0, skipped: 0, added: 0, immutable: 0 });
    assert!(b.queried.is_empty());
}

#[test]
fn read_only_manifest_counts_as_immutable() {
    let tree = node_project(false);
    let mut b = Backend::new();
    let s = walk(&tree, &[], &mut b);
    assert_eq!(s, Stats { matched: 0, skipped: 0, added: 0, immutable: 1 });
    assert!(b.queried.is_empty());
    assert!(b.excluded.is_empty());
}

#[test]
fn name_without_manifest_is_walked_into() {
    let tree = dir(
        "root",
        vec![dir(
            "target",
            vec![dir("x", vec![dir("node_modules", vec![], vec![])], vec![("package.json", true)])],
            vec![],
        )],
        vec![],
    );
    let mut b = Backend::new();
    let s = walk(&tree, &[], &mut b);
    assert_eq!(s.matched, 1);
    assert!(b.excluded.contains("root/target/x/node_modules"));
}

#[test]
fn failing_backend_counts_match_only() {
    let tree = node_project(true);
    let mut b = Backend::new();
    b.works = false;
    let s = walk(&tree, &[], &mut b);
    assert_eq!(s, Stats { matched: 1, skipped: 0, added: 0, immutable: 0 });
    assert!(b.excluded.is_empty());
}

#[test]
fn walker_rejects_event_out_of_turn() {
    let w = Walker::new(vec![], MatcherTable::with_defaults());
    assert!(!w.can_take(&Event::Exists(true)));
    assert!(w.can_take(&Event::Entry { is_dir: false, name: "a".to_string() }));
}

#[test]
fn table_accumulates_manifests_per_name() {
    let mut t = MatcherTable::new();
    t.add("target", "Cargo.toml");
    t.add("vendor", "go.mod");
    t.add("target", "pom.xml");
    assert_eq!(t.lookup("target"), vec!["Cargo.toml".to_string(), "pom.xml".to_string()]);
    assert_eq!(t.lookup("vendor"), vec!["go.mod".to_string()]);
    assert!(t.lookup("Target").is_empty());
    assert!(t.lookup("").is_empty());
}

#[test]
fn default_table() {
    let t = MatcherTable::with_defaults();
    assert_eq!(t.lookup("node_modules"), vec!["package.json".to_string()]);
    assert_eq!(t.lookup("Pods"), vec!["Podfile".to_string()]);
    assert_eq!(t.lookup("bower_components"), vec!["bower.json".to_string()]);
    assert!(t.lookup("src").is_empty());
}
