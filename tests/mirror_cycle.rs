use repo_mirror::{
    branch_heads, is_branch_head, push_refspecs, Action, Event, SyncRepository, SyncResult, Tick,
    TickAction,
};

fn strings(xs: &[&str]) -> Vec<String> {
    xs.iter().map(|x| x.to_string()).collect()
}

fn repo(source: &str, mirror: &str) -> SyncRepository {
    SyncRepository { source: source.to_string(), mirror: mirror.to_string() }
}

fn step(t: &Tick) -> Action {
    match t.action() {
        TickAction::Step(a) => a,
        _ => panic!("expected a transport action"),
    }
}

/// Runs one repository's cycle with a transport that succeeds and advertises `refs`.
fn run_ok(t: &mut Tick, cache_exists: bool, refs: &[&str]) -> Vec<Action> {
    let mut seen = Vec::new();
    let start = t.index;
    while t.index == start && !t.is_done() {
        let a = step(t);
        let ev = match &a {
            Action::CheckCache(_) => Event::Exists(cache_exists),
            Action::ListOrigin => Event::Refs(strings(refs)),
            _ => Event::Done,
        };
        seen.push(a);
        t.advance(ev);
    }
    seen
}

#[test]
fn heads_filter() {
    assert!(is_branch_head("refs/heads/main"));
    assert!(!is_branch_head("refs/tags/v1"));
    assert!(!is_branch_head("HEAD"));
    assert!(!is_branch_head("refs/heads"));
    let refs = strings(&["HEAD", "refs/heads/main", "refs/tags/v1", "refs/heads/dev", "refs/pull/1/head"]);
    assert_eq!(branch_heads(&refs), strings(&["refs/heads/main", "refs/heads/dev"]));
    assert_eq!(branch_heads(&vec![]), Vec::<String>::new());
}

#[test]
fn refspecs_map_heads_onto_themselves() {
    assert_eq!(
        push_refspecs(&strings(&["refs/heads/main", "refs/heads/dev"])),
        strings(&["+refs/heads/main:refs/heads/main", "+refs/heads/dev:refs/heads/dev"])
    );
}

#[test]
fn empty_target_list_is_refused() {
    assert!(Tick::new(vec![], "/m".to_string(), 0).is_err());
}

#[test]
fn first_and_second_tick_scenario() {
    let config = vec![repo("https://example.test/repo-a.git", "ssh://mirror.test/repo-a.git")];
    let refs = ["HEAD", "refs/heads/main"];
    let mut t = Tick::new(config, "/var/mirrors".to_string(), 0).ok().unwrap();
    let first = run_ok(&mut t, false, &refs);
    assert!(matches!(&first[0], Action::CheckCache(d) if d == "/var/mirrors/repo-a"));
    assert!(matches!(&first[1], Action::Clone { source, dir }
        if source == "https://example.test/repo-a.git" && dir == "/var/mirrors/repo-a"));
    assert!(matches!(&first[2], Action::Fetch(f) if f == "+refs/heads/*:refs/heads/*"));
    assert!(matches!(&first[3], Action::ListOrigin));
    assert!(matches!(&first[4], Action::AddMirror(u) if u == "ssh://mirror.test/repo-a.git"));
    assert!(matches!(&first[5], Action::Push(p) if *p == strings(&["+refs/heads/main:refs/heads/main"])));
    assert!(matches!(&first[6], Action::DeleteMirror));
    assert_eq!(first.len(), 7);
    assert!(t.is_done());
    assert!(matches!(t.action(), TickAction::Done));
    assert!(matches!(&t.results[0], SyncResult::Synced(h) if *h == strings(&["refs/heads/main"])));

    let config = vec![repo("https://example.test/repo-a.git", "ssh://mirror.test/repo-a.git")];
    let mut t = Tick::new(config, "/var/mirrors".to_string(), 0).ok().unwrap();
    let second = run_ok(&mut t, true, &refs);
    assert!(matches!(&second[1], Action::Open(d) if d == "/var/mirrors/repo-a"));
    assert!(matches!(&second[5], Action::Push(p) if *p == strings(&["+refs/heads/main:refs/heads/main"])));
    assert!(matches!(&second[6], Action::DeleteMirror));
    assert!(matches!(&t.results[0], SyncResult::Synced(h) if *h == strings(&["refs/heads/main"])));
}

#[test]
fn main_and_dev_mirrored_and_idempotent() {
    let refs = ["HEAD", "refs/heads/main", "refs/heads/dev", "refs/tags/v1"];
    let mut pushes = Vec::new();
    for exists in [false, true] {
        let mut t = Tick::new(vec![repo("git@src.test:o/r.git", "git@dst.test:o/r.git")], "/m".to_string(), 0)
            .ok()
            .unwrap();
        let acts = run_ok(&mut t, exists, &refs);
        for a in acts {
            if let Action::Push(p) = a {
                pushes.push(p);
            }
        }
        assert!(matches!(&t.results[0], SyncResult::Synced(h) if *h == strings(&["refs/heads/main", "refs/heads/dev"])));
    }
    assert_eq!(pushes.len(), 2);
    assert_eq!(pushes[0], strings(&["+refs/heads/main:refs/heads/main", "+refs/heads/dev:refs/heads/dev"]));
    assert_eq!(pushes[0], pushes[1]);
}

#[test]
fn removed_branch_no_longer_mirrored() {
    let mut t = Tick::new(vec![repo("git@src.test:o/r.git", "git@dst.test:o/r.git")], "/m".to_string(), 0)
        .ok()
        .unwrap();
    run_ok(&mut t, true, &["refs/heads/main", "refs/heads/dev"]);
    let mut t2 = Tick::new(vec![repo("git@src.test:o/r.git", "git@dst.test:o/r.git")], "/m".to_string(), 0)
        .ok()
        .unwrap();
    let acts = run_ok(&mut t2, true, &["refs/heads/main"]);
    assert!(matches!(&acts[5], Action::Push(p) if *p == strings(&["+refs/heads/main:refs/heads/main"])));
    assert!(matches!(&t2.results[0], SyncResult::Synced(h) if *h == strings(&["refs/heads/main"])));
}

#[test]
fn unreachable_mirror_fails_that_target_only() {
    let config = vec![
        repo("git@src.test:o/a.git", "git@down.test:o/a.git"),
        repo("git@src.test:o/b.git", "git@dst.test:o/b.git"),
    ];
    let mut t = Tick::new(config, "/m".to_string(), 0).ok().unwrap();
    loop {
        let a = step(&t);
        match a {
            Action::CheckCache(_) => t.advance(Event::Exists(true)),
            Action::ListOrigin => t.advance(Event::Refs(strings(&["refs/heads/main"]))),
            Action::Push(_) => t.advance(Event::Failed("mirror unreachable".to_string())),
            _ => t.advance(Event::Done),
        }
        if t.index == 1 {
            break;
        }
    }
    assert!(matches!(&t.results[0], SyncResult::Failed(e) if e == "mirror unreachable"));
    let rest = run_ok(&mut t, true, &["refs/heads/main"]);
    assert_eq!(rest.len(), 7);
    assert!(t.is_done());
    assert!(matches!(&t.results[1], SyncResult::Synced(_)));
}

#[test]
fn failed_push_still_deletes_mirror_remote() {
    let mut t = Tick::new(vec![repo("git@s.test:o/a.git", "git@d.test:o/a.git")], "/m".to_string(), 0)
        .ok()
        .unwrap();
    for ev in [Event::Exists(true), Event::Done, Event::Done, Event::Refs(strings(&["refs/heads/x"])), Event::Done] {
        t.advance(ev);
    }
    assert!(matches!(step(&t), Action::Push(_)));
    t.advance(Event::Failed("rejected".to_string()));
    assert!(matches!(step(&t), Action::DeleteMirror));
    t.advance(Event::Failed("cannot delete".to_string()));
    assert!(t.is_done());
    assert!(matches!(&t.results[0], SyncResult::Failed(e) if e == "rejected"));
}

#[test]
fn failed_cleanup_after_push_fails_target() {
    let mut t = Tick::new(vec![repo("git@s.test:o/a.git", "git@d.test:o/a.git")], "/m".to_string(), 0)
        .ok()
        .unwrap();
    for ev in [Event::Exists(true), Event::Done, Event::Done, Event::Refs(vec![]), Event::Done, Event::Done] {
        t.advance(ev);
    }
    assert!(matches!(step(&t), Action::DeleteMirror));
    t.advance(Event::Failed("io".to_string()));
    assert!(matches!(&t.results[0], SyncResult::Failed(e) if e == "io"));
}

#[test]
fn clone_failure_skips_rest_of_cycle() {
    let mut t = Tick::new(vec![repo("git@s.test:o/a.git", "git@d.test:o/a.git")], "/m".to_string(), 0)
        .ok()
        .unwrap();
    t.advance(Event::Exists(false));
    assert!(matches!(step(&t), Action::Clone { .. }));
    t.advance(Event::Failed("auth".to_string()));
    assert!(t.is_done());
    assert!(matches!(&t.results[0], SyncResult::Failed(e) if e == "auth"));
}

#[test]
fn unexpected_event_fails_target() {
    let mut t = Tick::new(vec![repo("git@s.test:o/a.git", "git@d.test:o/a.git")], "/m".to_string(), 0)
        .ok()
        .unwrap();
    t.advance(Event::Done);
    assert!(matches!(&t.results[0], SyncResult::Failed(e) if e == "unexpected transport event"));
}

#[test]
fn no_mirror_is_skipped_after_fetch() {
    let mut t = Tick::new(vec![repo("git@s.test:o/a.git", "")], "/m".to_string(), 0).ok().unwrap();
    let acts = run_ok(&mut t, true, &["refs/heads/main"]);
    assert_eq!(acts.len(), 4);
    assert!(matches!(&t.results[0], SyncResult::Skipped(r) if r == "no mirror configured"));
}

#[test]
fn bad_source_fails_and_next_target_runs() {
    let config = vec![repo("https://x.test/", "git@d.test:o/a.git"), repo("git@s.test:o/b.git", "")];
    let mut t = Tick::new(config, "/m".to_string(), 0).ok().unwrap();
    assert_eq!(t.index, 1);
    assert!(matches!(&t.results[0], SyncResult::Failed(e) if e == "source URL names no repository"));
    assert!(matches!(step(&t), Action::CheckCache(d) if d == "/m/b"));
}

#[test]
fn delay_between_targets() {
    let config = vec![repo("git@s.test:o/a.git", ""), repo("git@s.test:o/b.git", "")];
    let mut t = Tick::new(config, "/m".to_string(), 30).ok().unwrap();
    assert!(matches!(t.action(), TickAction::Step(Action::CheckCache(_))));
    run_ok(&mut t, true, &[]);
    assert!(matches!(t.action(), TickAction::Pause(30)));
    t.advance(Event::Done);
    assert!(matches!(t.action(), TickAction::Step(Action::CheckCache(d)) if d == "/m/b"));
    run_ok(&mut t, true, &[]);
    assert!(t.is_done());
    assert_eq!(t.results.len(), 2);
}
