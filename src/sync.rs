use vstd::prelude::*;
use vstd::string::{StrSliceExecFns, StringExecFns};
use crate::repos::{dir_name_of, repo_dir_name, strs, ConfigError, SyncRepository};

verus! {

/// Whether a ref name lies in the branch-heads namespace `refs/heads/`.
pub open spec fn is_head(r: Seq<char>) -> bool {
    r.len() >= 11 && r.subrange(0, 11) == "refs/heads/"@
}

/// The branch heads among advertised refs, in the order advertised.
pub open spec fn heads_of(refs: Seq<Seq<char>>) -> Seq<Seq<char>>
    decreases refs.len(),
{
    if refs.len() == 0 {
        Seq::empty()
    } else if is_head(refs.last()) {
        heads_of(refs.drop_last()).push(refs.last())
    } else {
        heads_of(refs.drop_last())
    }
}

/// The force ref-spec that overwrites head `h` of the destination with head `h`
/// of the source.
pub open spec fn refspec_of(h: Seq<char>) -> Seq<char> {
    "+"@ + h + ":"@ + h
}

/// Whether a ref name lies in the branch-heads namespace.
pub fn is_branch_head(r: &str) -> (b: bool)
    ensures
        b == is_head(r@),
{
    let n = r.unicode_len();
    n >= 11 && String::from_str(r.substring_char(0, 11)) == String::from_str("refs/heads/")
}

/// The branch heads among the refs that origin advertised, in order.
pub fn branch_heads(refs: &Vec<String>) -> (r: Vec<String>)
    ensures
        strs(r@) == heads_of(strs(refs@)),
{
    let mut out: Vec<String> = Vec::new();
    let mut i: usize = 0;
    while i < refs.len()
        invariant
            i <= refs@.len(),
            strs(out@) == heads_of(strs(refs@.take(i as int))),
        decreases refs@.len() - i,
    {
        let ghost prev = out@;
        assert(strs(refs@.take(i + 1)).drop_last() =~= strs(refs@.take(i as int)));
        if is_branch_head(refs[i].as_str()) {
            out.push(refs[i].clone());
            assert(strs(out@) =~= strs(prev).push(refs@[i as int]@));
        }
        i = i + 1;
    }
    assert(refs@.take(i as int) =~= refs@);
    out
}

/// The force ref-specs that mirror each head onto the head of the same name.
pub fn push_refspecs(heads: &Vec<String>) -> (r: Vec<String>)
    ensures
        strs(r@) == strs(heads@).map_values(|h: Seq<char>| refspec_of(h)),
{
    let mut out: Vec<String> = Vec::new();
    let mut i: usize = 0;
    while i < heads.len()
        invariant
            i <= heads@.len(),
            strs(out@) == strs(heads@.take(i as int)).map_values(|h: Seq<char>| refspec_of(h)),
        decreases heads@.len() - i,
    {
        let ghost prev = out@;
        assert(strs(prev).len() == prev.len());
        assert(strs(heads@.take(i as int)).len() == i);
        let mut spec = String::from_str("+");
        spec.append(heads[i].as_str());
        spec.append(":");
        spec.append(heads[i].as_str());
        assert(spec@ =~= refspec_of(heads@[i as int]@));
        out.push(spec);
        let ghost want = strs(heads@.take(i + 1)).map_values(|h: Seq<char>| refspec_of(h));
        assert forall|j: int| 0 <= j < i + 1 implies #[trigger] strs(out@)[j] == want[j] by {
            if j < i {
                assert(out@[j] == prev[j]);
                assert(strs(prev)[j] == strs(heads@.take(i as int)).map_values(|h: Seq<char>| refspec_of(h))[j]);
            }
        }
        assert(strs(out@) =~= want);
        i = i + 1;
    }
    assert(heads@.take(i as int) =~= heads@);
    out
}

/// The ref-spec that fetches every branch head of origin over the local one.
pub open spec fn fetch_refspec() -> Seq<char> {
    "+refs/heads/*:refs/heads/*"@
}

/// The outcome of one repository's cycle.
pub enum SyncResult {
    /// The listed heads were force-pushed to the mirror.
    Synced(Vec<String>),
    /// The repository was fetched but has no mirror to push to.
    Skipped(String),
    /// A step failed; the text says why.
    Failed(String),
}

/// What the transport reports after performing an action.
pub enum Event {
    /// The action succeeded.
    Done,
    /// Whether the local cache directory exists.
    Exists(bool),
    /// The refs that origin advertised.
    Refs(Vec<String>),
    /// The action failed; the text says why.
    Failed(String),
}

/// Where a repository's cycle stands.
pub enum Stage {
    /// Find out whether the local cache exists.
    Locate,
    /// Clone the source into a new bare cache.
    Clone,
    /// Open the existing cache.
    Open,
    /// Fetch the branch heads from origin.
    Fetch,
    /// List the refs that origin advertises.
    List,
    /// Create the transient mirror remote; the heads to push are held.
    AddMirror(Vec<String>),
    /// Force-push the held heads to the mirror.
    Push(Vec<String>),
    /// Delete the transient mirror remote; the outcome so far is held.
    Cleanup(SyncResult),
    /// The cycle is over.
    Finished(SyncResult),
}

/// The next thing for the transport to do.
pub enum Action {
    /// Report with `Exists` whether this directory exists.
    CheckCache(String),
    /// Clone `source` as a bare repository into `dir`, with `origin` pointing at it.
    Clone { source: String, dir: String },
    /// Open the repository in this directory.
    Open(String),
    /// Fetch from `origin` with this ref-spec.
    Fetch(String),
    /// Report with `Refs` the refs that `origin` advertises.
    ListOrigin,
    /// Create the remote `mirror` with this URL.
    AddMirror(String),
    /// Push to `mirror` with these ref-specs.
    Push(Vec<String>),
    /// Delete the remote `mirror`.
    DeleteMirror,
    /// Nothing: the cycle is over.
    Finish,
}

/// The reason given for a repository that has no mirror.
pub open spec fn no_mirror_reason() -> Seq<char> {
    "no mirror configured"@
}

/// The reason given for an event that the stage does not expect.
pub open spec fn unexpected_reason() -> Seq<char> {
    "unexpected transport event"@
}

/// The reason given for a source URL whose cache directory name is empty.
pub open spec fn bad_source_reason() -> Seq<char> {
    "source URL names no repository"@
}

/// `post` is what a failure with reason `e` makes of stage `pre`: the cycle
/// ends Failed, except that a failed push still deletes the mirror remote,
/// and a failed cleanup keeps the failure that came before it.
pub open spec fn fails_to(pre: Stage, post: Stage, e: Seq<char>) -> bool {
    match pre {
        Stage::Push(_) => post matches Stage::Cleanup(SyncResult::Failed(m)) && m@ == e,
        Stage::Cleanup(r) => if r is Synced {
            post matches Stage::Finished(SyncResult::Failed(m)) && m@ == e
        } else {
            post == Stage::Finished(r)
        },
        Stage::Finished(r) => post == Stage::Finished(r),
        _ => post matches Stage::Finished(SyncResult::Failed(m)) && m@ == e,
    }
}

/// One step of the cycle: `post` follows `pre` on event `ev`, for a
/// repository whose mirror URL is `mirror` (empty when it has none).
pub open spec fn steps_to(pre: Stage, ev: Event, mirror: Seq<char>, post: Stage) -> bool {
    match (pre, ev) {
        (Stage::Finished(r), _) => post == Stage::Finished(r),
        (_, Event::Failed(e)) => fails_to(pre, post, e@),
        (Stage::Locate, Event::Exists(true)) => post == Stage::Open,
        (Stage::Locate, Event::Exists(false)) => post == Stage::Clone,
        (Stage::Clone, Event::Done) => post == Stage::Fetch,
        (Stage::Open, Event::Done) => post == Stage::Fetch,
        (Stage::Fetch, Event::Done) => post == Stage::List,
        (Stage::List, Event::Refs(refs)) => if mirror.len() > 0 {
            post matches Stage::AddMirror(h) && strs(h@) == heads_of(strs(refs@))
        } else {
            post matches Stage::Finished(SyncResult::Skipped(m)) && m@ == no_mirror_reason()
        },
        (Stage::AddMirror(h), Event::Done) => post == Stage::Push(h),
        (Stage::Push(h), Event::Done) => post == Stage::Cleanup(SyncResult::Synced(h)),
        (Stage::Cleanup(r), Event::Done) => post == Stage::Finished(r),
        _ => fails_to(pre, post, unexpected_reason()),
    }
}

/// What the transport is asked to do at a stage of the cycle of `c`.
pub open spec fn action_fits(c: Cycle, a: Action) -> bool {
    match c.stage {
        Stage::Locate => a == Action::CheckCache(c.dir),
        Stage::Clone => a == (Action::Clone { source: c.source, dir: c.dir }),
        Stage::Open => a == Action::Open(c.dir),
        Stage::Fetch => a matches Action::Fetch(f) && f@ == fetch_refspec(),
        Stage::List => a == Action::ListOrigin,
        Stage::AddMirror(_) => a == Action::AddMirror(c.mirror),
        Stage::Push(h) => a matches Action::Push(specs)
            && strs(specs@) == strs(h@).map_values(|x: Seq<char>| refspec_of(x)),
        Stage::Cleanup(_) => a == Action::DeleteMirror,
        Stage::Finished(_) => a == Action::Finish,
    }
}

/// `c` is the cycle that starts for `repo` with caches under `root`: it
/// locates the cache `root/<name>`, or fails at once when the source URL
/// names no repository.
pub open spec fn starts(c: Cycle, repo: SyncRepository, root: Seq<char>) -> bool {
    &&& c.source == repo.source
    &&& c.mirror == repo.mirror
    &&& dir_name_of(repo.source@).len() > 0 ==> c.stage == Stage::Locate
        && c.dir@ == root + "/"@ + dir_name_of(repo.source@)
    &&& dir_name_of(repo.source@).len() == 0 ==> (c.stage matches Stage::Finished(
        SyncResult::Failed(m),
    ) && m@ == bad_source_reason())
}

/// One repository's mirror cycle: materialize the cache, fetch, pick the
/// heads, push them, and delete the transient mirror remote.
pub struct Cycle {
    pub source: String,
    pub mirror: String,
    pub dir: String,
    pub stage: Stage,
}

impl Cycle {
    /// Starts the cycle of `repo`, whose cache lies in `mirrors_root`.
    pub fn start(repo: &SyncRepository, mirrors_root: &str) -> (c: Cycle)
        ensures
            c.source == repo.source,
            c.mirror == repo.mirror,
            starts(c, *repo, mirrors_root@),
    {
        match repo_dir_name(repo.source.as_str()) {
            Some(name) => {
                let mut dir = String::from_str(mirrors_root);
                dir.append("/");
                dir.append(name.as_str());
                Cycle {
                    source: repo.source.clone(),
                    mirror: repo.mirror.clone(),
                    dir,
                    stage: Stage::Locate,
                }
            },
            None => Cycle {
                source: repo.source.clone(),
                mirror: repo.mirror.clone(),
                dir: String::new(),
                stage: Stage::Finished(SyncResult::Failed(String::from_str("source URL names no repository"))),
            },
        }
    }

    /// Whether the cycle is over.
    pub fn is_finished(&self) -> (b: bool)
        ensures
            b == (self.stage is Finished),
    {
        match self.stage {
            Stage::Finished(_) => true,
            _ => false,
        }
    }

    /// The next thing for the transport to do.
    pub fn action(&self) -> (a: Action)
        ensures
            action_fits(*self, a),
    {
        match &self.stage {
            Stage::Locate => Action::CheckCache(self.dir.clone()),
            Stage::Clone => Action::Clone { source: self.source.clone(), dir: self.dir.clone() },
            Stage::Open => Action::Open(self.dir.clone()),
            Stage::Fetch => Action::Fetch(String::from_str("+refs/heads/*:refs/heads/*")),
            Stage::List => Action::ListOrigin,
            Stage::AddMirror(_) => Action::AddMirror(self.mirror.clone()),
            Stage::Push(h) => Action::Push(push_refspecs(h)),
            Stage::Cleanup(_) => Action::DeleteMirror,
            Stage::Finished(_) => Action::Finish,
        }
    }

    /// The stage that a failure with reason `e` leads to.
    fn fail(stage: Stage, e: String) -> (post: Stage)
        ensures
            fails_to(stage, post, e@),
    {
        match stage {
            Stage::Push(_) => Stage::Cleanup(SyncResult::Failed(e)),
            Stage::Cleanup(r) => match r {
                SyncResult::Synced(_) => Stage::Finished(SyncResult::Failed(e)),
                _ => Stage::Finished(r),
            },
            Stage::Finished(r) => Stage::Finished(r),
            _ => Stage::Finished(SyncResult::Failed(e)),
        }
    }

    /// Takes the transport's report on the last action into account.
    pub fn advance(self, ev: Event) -> (c: Cycle)
        ensures
            c.source == self.source,
            c.mirror == self.mirror,
            c.dir == self.dir,
            steps_to(self.stage, ev, self.mirror@, c.stage),
    {
        let has_mirror = self.mirror.unicode_len() > 0;
        let Cycle { source, mirror, dir, stage } = self;
        let next = match (stage, ev) {
            (Stage::Finished(r), _) => Stage::Finished(r),
            (stage, Event::Failed(e)) => Cycle::fail(stage, e),
            (Stage::Locate, Event::Exists(true)) => Stage::Open,
            (Stage::Locate, Event::Exists(false)) => Stage::Clone,
            (Stage::Clone, Event::Done) => Stage::Fetch,
            (Stage::Open, Event::Done) => Stage::Fetch,
            (Stage::Fetch, Event::Done) => Stage::List,
            (Stage::List, Event::Refs(refs)) => if has_mirror {
                Stage::AddMirror(branch_heads(&refs))
            } else {
                Stage::Finished(SyncResult::Skipped(String::from_str("no mirror configured")))
            },
            (Stage::AddMirror(h), Event::Done) => Stage::Push(h),
            (Stage::Push(h), Event::Done) => Stage::Cleanup(SyncResult::Synced(h)),
            (Stage::Cleanup(r), Event::Done) => Stage::Finished(r),
            (stage, _) => Cycle::fail(stage, String::from_str("unexpected transport event")),
        };
        Cycle { source, mirror, dir, stage: next }
    }
}

/// The result that a finished cycle holds.
fn into_result(c: Cycle) -> (r: SyncResult)
    requires
        c.stage is Finished,
    ensures
        c.stage == Stage::Finished(r),
{
    match c.stage {
        Stage::Finished(r) => r,
        _ => {
            proof {
                assert(false);
            }
            SyncResult::Skipped(String::new())
        },
    }
}

/// What the program around the engine is asked to do next in a tick.
pub enum TickAction {
    /// Perform this action for the current repository, and report the event.
    Step(Action),
    /// Wait this many seconds before the next repository, then report `Done`.
    Pause(u64),
    /// Every repository has been handled.
    Done,
}

/// One pass of the engine over the configured repositories, in order: each
/// one gets its own cycle, whose outcome is recorded at its index whatever
/// became of the others.
pub struct Tick {
    pub targets: Vec<SyncRepository>,
    pub mirrors_root: String,
    /// Seconds to wait between two repositories; zero disables the wait.
    pub delay_secs: u64,
    /// The repository being handled; all before it are done.
    pub index: usize,
    /// Its cycle, while one is under way.
    pub current: Option<Cycle>,
    /// The outcome of each repository before `index`.
    pub results: Vec<SyncResult>,
    /// Whether a wait comes before the current cycle goes on.
    pub pause_due: bool,
}

impl Tick {
    pub open spec fn wf(&self) -> bool {
        &&& self.index <= self.targets@.len()
        &&& self.results@.len() == self.index
        &&& (self.index < self.targets@.len()) == (self.current is Some)
        &&& self.current is Some ==> {
            let c = self.current->0;
            &&& !(c.stage is Finished)
            &&& c.source == self.targets@[self.index as int].source
            &&& c.mirror == self.targets@[self.index as int].mirror
        }
    }

    /// From `pre` to `post`, the repositories from `pre.index` on whose source
    /// names no repository were passed over as Failed, and the next one, if
    /// any, has just started; a wait comes first when `pause` asks for one.
    pub open spec fn moved_on(pre: Tick, post: Tick, pause: bool) -> bool {
        &&& post.targets == pre.targets
        &&& post.mirrors_root == pre.mirrors_root
        &&& post.delay_secs == pre.delay_secs
        &&& pre.index <= post.index
        &&& post.results@.take(pre.index as int) == pre.results@.take(pre.index as int)
        &&& forall|k: int| pre.index <= k < post.index ==> {
            &&& dir_name_of(#[trigger] post.targets@[k].source@).len() == 0
            &&& post.results@[k] matches SyncResult::Failed(m) && m@ == bad_source_reason()
        }
        &&& post.current is Some ==> starts(
            post.current->0,
            post.targets@[post.index as int],
            post.mirrors_root@,
        ) && post.pause_due == (pause && post.delay_secs > 0)
    }

    /// Starts the cycle of the repository at `index`, passing over those whose
    /// source names no repository.
    fn start_next(&mut self, pause: bool)
        requires
            old(self).index <= old(self).targets@.len(),
            old(self).results@.len() == old(self).index,
        ensures
            final(self).wf(),
            Tick::moved_on(*old(self), *final(self), pause),
    {
        let ghost pre = *self;
        while self.index < self.targets.len()
            invariant
                pre == *old(self),
                self.index <= self.targets@.len(),
                self.results@.len() == self.index,
                self.targets == pre.targets,
                self.mirrors_root == pre.mirrors_root,
                self.delay_secs == pre.delay_secs,
                pre.index <= self.index,
                self.results@.take(pre.index as int) == pre.results@.take(pre.index as int),
                forall|k: int| pre.index <= k < self.index ==> {
                    &&& dir_name_of(#[trigger] self.targets@[k].source@).len() == 0
                    &&& self.results@[k] matches SyncResult::Failed(m) && m@ == bad_source_reason()
                },
            decreases self.targets@.len() - self.index,
        {
            let c = Cycle::start(&self.targets[self.index], self.mirrors_root.as_str());
            if c.is_finished() {
                let ghost before = self.results@;
                self.results.push(into_result(c));
                assert(self.results@.take(pre.index as int) =~= before.take(pre.index as int));
                self.index = self.index + 1;
            } else {
                self.current = Some(c);
                self.pause_due = pause && self.delay_secs > 0;
                return;
            }
        }
        self.current = None;
    }

    /// Begins a tick over `targets`; an empty list is refused.
    pub fn new(targets: Vec<SyncRepository>, mirrors_root: String, delay_secs: u64) -> (r: Result<Tick, ConfigError>)
        ensures
            targets@.len() == 0 <==> r is Err,
            r is Err ==> r == Err::<Tick, ConfigError>(ConfigError::Empty),
            r matches Ok(t) ==> t.wf() && t.targets == targets && t.mirrors_root == mirrors_root
                && t.delay_secs == delay_secs && Tick::moved_on(
                (Tick {
                    targets,
                    mirrors_root,
                    delay_secs,
                    index: 0,
                    current: None,
                    results: t.results,
                    pause_due: false,
                }),
                t,
                false,
            ),
    {
        if targets.len() == 0 {
            return Err(ConfigError::Empty);
        }
        let mut t = Tick {
            targets,
            mirrors_root,
            delay_secs,
            index: 0,
            current: None,
            results: Vec::new(),
            pause_due: false,
        };
        t.start_next(false);
        Ok(t)
    }

    /// Whether every repository has been handled.
    pub fn is_done(&self) -> (b: bool)
        requires
            self.wf(),
        ensures
            b == (self.index == self.targets@.len()),
    {
        self.current.is_none()
    }

    /// The next thing to do.
    pub fn action(&self) -> (a: TickAction)
        requires
            self.wf(),
        ensures
            self.current is None ==> a == TickAction::Done,
            self.current is Some && self.pause_due ==> a == TickAction::Pause(self.delay_secs),
            self.current is Some && !self.pause_due ==> (a matches TickAction::Step(x) && action_fits(
                self.current->0,
                x,
            )),
    {
        match &self.current {
            None => TickAction::Done,
            Some(c) => if self.pause_due {
                TickAction::Pause(self.delay_secs)
            } else {
                TickAction::Step(c.action())
            },
        }
    }

    /// Takes the report on the last action into account. A finished cycle
    /// has its outcome recorded at its index, and the next repository starts.
    pub fn advance(&mut self, ev: Event)
        requires
            old(self).wf(),
        ensures
            final(self).wf(),
            Tick::ticks_to(*old(self), ev, *final(self)),
    {
        if self.current.is_none() {
            return;
        }
        if self.pause_due {
            self.pause_due = false;
            return;
        }
        let ghost start = *self;
        let c = self.current.take().unwrap();
        let ghost c0 = c;
        let c = c.advance(ev);
        assert(steps_to(c0.stage, ev, c0.mirror@, c.stage));
        if !c.is_finished() {
            self.current = Some(c);
            assert(*self == Tick { current: Some(Cycle { stage: c.stage, ..c0 }), ..start });
            return;
        }
        let ghost pre = *self;
        let n = self.targets.len();
        self.results.push(into_result(c));
        assert(self.index < n);
        self.index = self.index + 1;
        let ghost mid = *self;
        self.start_next(true);
        assert(Tick::moved_on(
            Tick { index: (pre.index + 1) as usize, current: None, results: self.results, ..start },
            *self,
            true,
        )) by {
            assert(self.results@.take(mid.index as int) == mid.results@.take(mid.index as int));
        }
        assert(self.results@.take(pre.index as int) =~= pre.results@) by {
            assert(mid.results@.take(pre.index as int) =~= pre.results@);
            assert(self.results@.take(pre.index as int) =~= self.results@.take(mid.index as int).take(pre.index as int));
        }
        assert(self.results@[pre.index as int] == mid.results@[pre.index as int]) by {
            assert(self.results@.take(mid.index as int)[pre.index as int] == self.results@[pre.index as int]);
        }
    }

    /// One step of a tick: `post` follows `pre` on event `ev`.
    pub open spec fn ticks_to(pre: Tick, ev: Event, post: Tick) -> bool {
        if pre.current is None {
            post == pre
        } else if pre.pause_due {
            post == Tick { pause_due: false, ..pre }
        } else {
            let c = pre.current->0;
            exists|s: Stage| #![trigger steps_to(c.stage, ev, c.mirror@, s)]
                steps_to(c.stage, ev, c.mirror@, s) && if s is Finished {
                    &&& Stage::Finished(post.results@[pre.index as int]) == s
                    &&& post.results@.take(pre.index as int) == pre.results@
                    &&& Tick::moved_on(
                        Tick { index: (pre.index + 1) as usize, current: None, results: post.results, ..pre },
                        post,
                        true,
                    )
                } else {
                    post == Tick { current: Some(Cycle { stage: s, ..c }), ..pre }
                }
        }
    }
}

/// The heads mirrored from a list of advertised refs are exactly the
/// advertised refs that lie in the branch-heads namespace.
pub proof fn lemma_heads_exactly(refs: Seq<Seq<char>>, x: Seq<char>)
    ensures
        heads_of(refs).contains(x) <==> (refs.contains(x) && is_head(x)),
    decreases refs.len(),
{
    if refs.len() > 0 {
        let p = refs.drop_last();
        lemma_heads_exactly(p, x);
        assert(refs =~= p.push(refs.last()));
        if is_head(refs.last()) {
            assert(heads_of(refs) == heads_of(p).push(refs.last()));
            if heads_of(p).contains(x) {
                let i = choose|i: int| 0 <= i < heads_of(p).len() && heads_of(p)[i] == x;
                assert(heads_of(refs)[i] == x);
            }
            if heads_of(refs).contains(x) && x != refs.last() {
                let i = choose|i: int| 0 <= i < heads_of(refs).len() && heads_of(refs)[i] == x;
                assert(heads_of(p)[i] == x);
            }
            if x == refs.last() {
                assert(heads_of(refs)[heads_of(refs).len() - 1] == x);
            }
        }
        if refs.contains(x) && x != refs.last() {
            let i = choose|i: int| 0 <= i < refs.len() && refs[i] == x;
            assert(p[i] == x);
        }
        if p.contains(x) {
            let i = choose|i: int| 0 <= i < p.len() && p[i] == x;
            assert(refs[i] == x);
        }
        if x == refs.last() {
            assert(refs[refs.len() - 1] == x);
        }
    }
}

/// A listing of origin's refs in a cycle of a repository with a mirror leads
/// to pushing exactly its branch heads, each onto the head of the same name;
/// so two cycles over the same refs push the same ref-specs.
pub proof fn lemma_cycle_mirrors_heads(refs: Vec<String>, c: Cycle, pushed: Vec<String>, x: Seq<char>)
    requires
        c.mirror@.len() > 0,
        steps_to(Stage::List, Event::Refs(refs), c.mirror@, c.stage),
        action_fits(Cycle { stage: Stage::Push(c.stage->AddMirror_0), ..c }, Action::Push(pushed)),
    ensures
        strs(pushed@) == heads_of(strs(refs@)).map_values(|h: Seq<char>| refspec_of(h)),
        heads_of(strs(refs@)).contains(x) <==> (strs(refs@).contains(x) && is_head(x)),
{
    lemma_heads_exactly(strs(refs@), x);
}

/// A branch that origin no longer advertises is not among the heads that
/// the next cycle mirrors.
pub proof fn lemma_removed_branch_not_mirrored(refs: Seq<Seq<char>>, branch: Seq<char>)
    requires
        !refs.contains(branch),
    ensures
        !heads_of(refs).contains(branch),
{
    lemma_heads_exactly(refs, branch);
}

/// A failure ends the cycle as Failed: at once, or, for a failed push, once
/// the mirror remote has been deleted, whatever that deletion reports.
pub proof fn lemma_failure_ends_cycle(
    pre: Stage,
    e: String,
    mirror: Seq<char>,
    post: Stage,
    ev: Event,
    last: Stage,
)
    requires
        !(pre is Finished),
        !(pre is Cleanup),
        steps_to(pre, Event::Failed(e), mirror, post),
        post is Cleanup ==> steps_to(post, ev, mirror, last),
    ensures
        post matches Stage::Finished(SyncResult::Failed(m)) && m@ == e@ || (pre is Push && (
        last matches Stage::Finished(SyncResult::Failed(m)) && m@ == e@)),
{
}

/// The first index from `i` on of a repository whose source names one, or
/// the length of the list.
pub open spec fn next_valid(targets: Seq<SyncRepository>, i: int) -> int
    decreases targets.len() - i,
{
    if i < 0 || i >= targets.len() {
        targets.len() as int
    } else if dir_name_of(targets[i].source@).len() > 0 {
        i
    } else {
        next_valid(targets, i + 1)
    }
}

proof fn lemma_next_valid(targets: Seq<SyncRepository>, i: int, j: int)
    requires
        0 <= i <= j <= targets.len(),
        forall|k: int| i <= k < j ==> dir_name_of(#[trigger] targets[k].source@).len() == 0,
        j < targets.len() ==> dir_name_of(targets[j].source@).len() > 0,
    ensures
        next_valid(targets, i) == j,
    decreases j - i,
{
    if i < j {
        lemma_next_valid(targets, i + 1, j);
    }
}

/// The tick that follows a finished cycle goes on with the next repository
/// whose source names one.
proof fn lemma_finished_moves_on(pre: Tick, ev: Event, post: Tick)
    requires
        pre.wf(),
        post.wf(),
        pre.current is Some,
        !pre.pause_due,
        Tick::ticks_to(pre, ev, post),
        pre.index < post.index,
    ensures
        post.index == next_valid(pre.targets@, pre.index + 1),
        post.targets == pre.targets,
        post.results@.take(pre.index as int) == pre.results@,
        forall|k: int| pre.index < k < post.index ==> (#[trigger] post.results@[k] matches SyncResult::Failed(m)
            && m@ == bad_source_reason()),
        post.current is Some ==> post.current->0.stage == Stage::Locate
            && post.current->0.source == pre.targets@[post.index as int].source
            && post.current->0.mirror == pre.targets@[post.index as int].mirror
            && post.pause_due == (pre.delay_secs > 0),
{
    let c = pre.current->0;
    let s = choose|s: Stage| #[trigger] steps_to(c.stage, ev, c.mirror@, s) && if s is Finished {
        &&& Stage::Finished(post.results@[pre.index as int]) == s
        &&& post.results@.take(pre.index as int) == pre.results@
        &&& Tick::moved_on(
            Tick { index: (pre.index + 1) as usize, current: None, results: post.results, ..pre },
            post,
            true,
        )
    } else {
        post == Tick { current: Some(Cycle { stage: s, ..c }), ..pre }
    };
    if !(s is Finished) {
        assert(post.index == pre.index);
    }
    assert(post.index == post.targets@.len() || dir_name_of(post.targets@[post.index as int].source@).len() > 0);
    assert forall|k: int| pre.index < k < post.index implies (#[trigger] post.results@[k] matches SyncResult::Failed(m)
        && m@ == bad_source_reason()) by {
        assert(dir_name_of(post.targets@[k].source@).len() == 0);
    }
    lemma_next_valid(pre.targets@, pre.index + 1, post.index as int);
}

/// A repository whose cycle fails is reported Failed with the failure's
/// reason, and the tick then goes on exactly as after a cycle that
/// succeeded: with the same next repository, started afresh, and with the
/// outcomes of the earlier repositories untouched.
pub proof fn lemma_failure_isolated(pre: Tick, e: String, failed: Tick, ev: Event, succeeded: Tick)
    requires
        pre.wf(),
        failed.wf(),
        succeeded.wf(),
        pre.current is Some,
        !pre.pause_due,
        !(pre.current->0.stage is Push),
        !(pre.current->0.stage is Cleanup),
        Tick::ticks_to(pre, Event::Failed(e), failed),
        Tick::ticks_to(pre, ev, succeeded),
        pre.index < succeeded.index,
    ensures
        failed.results@[pre.index as int] matches SyncResult::Failed(m) && m@ == e@,
        failed.results@.take(pre.index as int) == pre.results@,
        succeeded.results@.take(pre.index as int) == pre.results@,
        failed.index == succeeded.index,
        failed.current is Some <==> succeeded.current is Some,
        failed.current is Some ==> failed.current->0.stage == succeeded.current->0.stage
            && failed.current->0.source == succeeded.current->0.source
            && failed.current->0.mirror == succeeded.current->0.mirror
            && failed.pause_due == succeeded.pause_due,
{
    let c = pre.current->0;
    let s = choose|s: Stage| #[trigger] steps_to(c.stage, Event::Failed(e), c.mirror@, s) && if s is Finished {
        &&& Stage::Finished(failed.results@[pre.index as int]) == s
        &&& failed.results@.take(pre.index as int) == pre.results@
        &&& Tick::moved_on(
            Tick { index: (pre.index + 1) as usize, current: None, results: failed.results, ..pre },
            failed,
            true,
        )
    } else {
        failed == Tick { current: Some(Cycle { stage: s, ..c }), ..pre }
    };
    assert(s is Finished);
    lemma_finished_moves_on(pre, Event::Failed(e), failed);
    lemma_finished_moves_on(pre, ev, succeeded);
}

} // verus!
