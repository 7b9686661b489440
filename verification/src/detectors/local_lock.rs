//! Local standard locks whose every use is a lock call in the execution scope
//! that created them.
use vstd::prelude::*;
use crate::detectors::{finding, findings_are, lemma_findings_push, Hit};
use crate::detectors::perf::{macro_tokens_mention_ident, spec_mentions_word};
use crate::domain::{FindingConfidence, Severity, Smell, SmellCategory};
use crate::evidence::{spec_ident, ident, string_clone, Context, ExprList, ExprModel, Kind};
use crate::text::{chars_of, extend, extend_str, str_eq, string_of};
use crate::walk::{all_shown_wf, copied, observations, picked, walked, ScanNode};

verus! {

#[derive(Clone, Copy, PartialEq, Eq, Structural, Debug)]
pub enum LockKind {
    Mutex,
    RwLock,
}

pub open spec fn lock_kind_name(k: LockKind) -> Seq<char> {
    match k {
        LockKind::Mutex => "Mutex"@,
        LockKind::RwLock => "RwLock"@,
    }
}

/// The lock a constructor path builds.
pub open spec fn spec_lock_ctor(path: Seq<char>) -> Option<LockKind> {
    if path == "std::sync::Mutex::new"@ {
        Some(LockKind::Mutex)
    } else if path == "std::sync::RwLock::new"@ {
        Some(LockKind::RwLock)
    } else {
        None
    }
}

/// What is known of one local lock binding so far.
#[derive(Debug)]
pub struct LockState {
    pub origin: (usize, usize),
    pub name: String,
    pub kind: LockKind,
    pub execution: (usize, usize),
    pub uses: usize,
    pub locking_uses: usize,
    pub escaped: bool,
    pub line: Option<usize>,
}

/// A counter that stops at `usize::MAX`.
pub open spec fn inc(x: usize) -> usize {
    if x < usize::MAX {
        (x + 1) as usize
    } else {
        x
    }
}

pub open spec fn find_origin(locks: Seq<LockState>, o: (usize, usize)) -> Option<int> {
    if exists|i: int| 0 <= i < locks.len() && locks[i].origin == o {
        Some(choose|i: int| 0 <= i < locks.len() && locks[i].origin == o)
    } else {
        None
    }
}

/// The origin of the binding an expression names.
pub open spec fn origin_of(ctx: Context, e: ExprModel) -> Option<(usize, usize)> {
    match spec_ident(e) {
        Some(n) => if ctx.origins@.contains_key(n) {
            Some(ctx.origins@[n])
        } else {
            None
        },
        None => None,
    }
}

pub open spec fn is_lock_method(m: Seq<char>) -> bool {
    m == "lock"@ || m == "read"@ || m == "write"@
}

/// The lock states after one more expression, in traversal order. `local`
/// is the binding that a `let` with this expression as initializer
/// introduces, `method_line` the line of a method call's name, `tokens` the
/// token text of a macro.
pub open spec fn observed(
    locks: Seq<LockState>,
    ctx: Context,
    e: ExprModel,
    local: Option<((usize, usize), String)>,
    method_line: usize,
    tokens: Seq<char>,
) -> Seq<LockState> {
    match e {
        ExprModel::Call { func, .. } => match (local, *func) {
            (Some((o, name)), ExprModel::Path(p)) => match spec_lock_ctor(ctx.spec_path(p)) {
                Some(k) => {
                    let st = LockState {
                        origin: o,
                        name,
                        kind: k,
                        execution: ctx.execution,
                        uses: 0,
                        locking_uses: 0,
                        escaped: false,
                        line: None,
                    };
                    match find_origin(locks, o) {
                        Some(i) => locks.update(i, st),
                        None => locks.push(st),
                    }
                },
                None => locks,
            },
            _ => locks,
        },
        ExprModel::Path(_) => match origin_of(ctx, e) {
            Some(o) => match find_origin(locks, o) {
                Some(i) => locks.update(
                    i,
                    LockState {
                        uses: inc(locks[i].uses),
                        escaped: locks[i].escaped || ctx.execution != locks[i].execution,
                        ..locks[i]
                    },
                ),
                None => locks,
            },
            None => locks,
        },
        ExprModel::MethodCall { receiver, method, args, .. } => if is_lock_method(method@)
            && args is Nil && ctx.spec_expr(*receiver) == Kind::SyncLock {
            match origin_of(ctx, *receiver) {
                Some(o) => match find_origin(locks, o) {
                    Some(i) => locks.update(
                        i,
                        LockState {
                            locking_uses: inc(locks[i].locking_uses),
                            line: match locks[i].line {
                                Some(l) => Some(l),
                                None => Some(method_line),
                            },
                            ..locks[i]
                        },
                    ),
                    None => locks,
                },
                None => locks,
            }
        } else {
            locks
        },
        ExprModel::Macro(_) => locks.map_values(
            |st: LockState|
                if ctx.origins@.contains_key(st.name@) && ctx.origins@[st.name@] == st.origin
                    && spec_mentions_word(tokens, st.name@) {
                    LockState { escaped: true, ..st }
                } else {
                    st
                },
        ),
        _ => locks,
    }
}

/// One expression shown to the tracker, with what `observe` takes beside it.
pub struct Observation {
    pub ctx: Context,
    pub e: ExprModel,
    pub local: Option<((usize, usize), String)>,
    pub method_line: usize,
    pub tokens: Seq<char>,
}

/// The lock states after a run of observations, taken in order.
pub open spec fn observed_all(locks: Seq<LockState>, run: Seq<Observation>) -> Seq<LockState>
    decreases run.len(),
{
    if run.len() == 0 {
        locks
    } else {
        let ob = run.last();
        observed(observed_all(locks, run.drop_last()), ob.ctx, ob.e, ob.local, ob.method_line, ob.tokens)
    }
}

/// Whether an observation is a `let` that binds `st`'s origin and name to a
/// call of a path that resolves to the standard constructor of `st`'s kind.
pub open spec fn builds_lock(ob: Observation, st: LockState) -> bool {
    match ob.e {
        ExprModel::Call { func, .. } => match *func {
            ExprModel::Path(p) => spec_lock_ctor(ob.ctx.spec_path(p)) == Some(st.kind) && ob.local == Some(
                (st.origin, st.name),
            ),
            _ => false,
        },
        _ => false,
    }
}

/// Two states of the same lock binding.
pub open spec fn same_lock(a: LockState, b: LockState) -> bool {
    a.origin == b.origin && a.name == b.name && a.kind == b.kind
}

/// The lock bindings of a file met so far, with the observations that
/// produced them.
pub struct LocalLockTracker {
    locks: Vec<LockState>,
    history: Ghost<Seq<Observation>>,
}

pub open spec fn unique_origins(locks: Seq<LockState>) -> bool {
    forall|i: int, j: int| 0 <= i < j < locks.len() ==> locks[i].origin != locks[j].origin
}

fn find_origin_exec(locks: &Vec<LockState>, o: (usize, usize)) -> (r: Option<usize>)
    requires
        unique_origins(locks@),
    ensures
        match r {
            Some(i) => find_origin(locks@, o) == Some(i as int) && i < locks@.len(),
            None => find_origin(locks@, o) is None,
        },
{
    let mut i: usize = 0;
    while i < locks.len()
        invariant
            i <= locks@.len(),
            unique_origins(locks@),
            forall|j: int| 0 <= j < i ==> locks@[j].origin != o,
        decreases locks@.len() - i,
    {
        if locks[i].origin.0 == o.0 && locks[i].origin.1 == o.1 {
            assert(locks@[i as int].origin == o);
            proof {
                let c = choose|c: int| 0 <= c < locks@.len() && locks@[c].origin == o;
                if c != i {
                    if c < i {
                        assert(locks@[c].origin != locks@[i as int].origin);
                    } else {
                        assert(locks@[i as int].origin != locks@[c].origin);
                    }
                }
            }
            return Some(i);
        }
        i = i + 1;
    }
    None
}

fn lock_ctor(path: &str) -> (r: Option<LockKind>)
    ensures
        r == spec_lock_ctor(path@),
{
    if str_eq(path, "std::sync::Mutex::new") {
        Some(LockKind::Mutex)
    } else if str_eq(path, "std::sync::RwLock::new") {
        Some(LockKind::RwLock)
    } else {
        None
    }
}

impl LocalLockTracker {
    /// The lock states held, one per tracked binding, in the order the
    /// bindings were met.
    pub closed spec fn states(&self) -> Seq<LockState> {
        self.locks@
    }

    /// The observations shown to the tracker so far, in order.
    pub closed spec fn shown(&self) -> Seq<Observation> {
        self.history@
    }

    /// The states are those the observations shown so far leave, one per
    /// binding origin.
    pub closed spec fn wf(&self) -> bool {
        &&& unique_origins(self.locks@)
        &&& self.locks@ == observed_all(seq![], self.history@)
    }

    pub proof fn lemma_wf(&self)
        requires
            self.wf(),
        ensures
            self.states() == observed_all(seq![], self.shown()),
            unique_origins(self.states()),
    {
    }

    pub fn new() -> (r: Self)
        ensures
            r.wf(),
            r.states().len() == 0,
            r.shown().len() == 0,
    {
        LocalLockTracker { locks: Vec::new(), history: Ghost(Seq::empty()) }
    }

    /// The lock states held.
    pub fn locks(&self) -> (r: &Vec<LockState>)
        ensures
            r@ == self.states(),
    {
        &self.locks
    }

    fn replace_at(&mut self, i: usize, st: LockState)
        requires
            unique_origins(old(self).locks@),
            i < old(self).locks@.len(),
            st.origin == old(self).locks@[i as int].origin,
        ensures
            unique_origins(final(self).locks@),
            final(self).locks@ == old(self).locks@.update(i as int, st),
            final(self).history == old(self).history,
    {
        let ghost before = self.locks@;
        let _ = self.locks.remove(i);
        self.locks.insert(i, st);
        assert(self.locks@ =~= before.update(i as int, st));
    }

    /// Takes one more expression into account; see `observed`.
    pub fn observe(
        &mut self,
        ctx: &Context,
        e: &ExprModel,
        local: Option<((usize, usize), String)>,
        method_line: usize,
        tokens: &str,
    )
        requires
            old(self).wf(),
            ctx.wf(),
        ensures
            final(self).wf(),
            final(self).states() == observed(old(self).states(), *ctx, *e, local, method_line, tokens@),
            final(self).shown() == old(self).shown().push(
                (Observation { ctx: *ctx, e: *e, local, method_line, tokens: tokens@ }),
            ),
    {
        let ghost ob = Observation { ctx: *ctx, e: *e, local, method_line, tokens: tokens@ };
        self.observe_locks(ctx, e, local, method_line, tokens);
        proof {
            let run = old(self).history@.push(ob);
            assert(run.drop_last() =~= old(self).history@);
        }
        self.history = Ghost(old(self).history@.push(ob));
    }

    fn observe_locks(
        &mut self,
        ctx: &Context,
        e: &ExprModel,
        local: Option<((usize, usize), String)>,
        method_line: usize,
        tokens: &str,
    )
        requires
            unique_origins(old(self).locks@),
            ctx.wf(),
        ensures
            unique_origins(final(self).locks@),
            final(self).locks@ == observed(old(self).locks@, *ctx, *e, local, method_line, tokens@),
            final(self).history == old(self).history,
    {
        proof {
            reveal_strlit("lock");
            reveal_strlit("read");
            reveal_strlit("write");
        }
        match e {
            ExprModel::Call { func, .. } => {
                if let Some((o, name)) = local {
                    if let ExprModel::Path(p) = &**func {
                        let path = ctx.path(p);
                        if let Some(k) = lock_ctor(path.as_str()) {
                            let st = LockState {
                                origin: o,
                                name,
                                kind: k,
                                execution: ctx.execution,
                                uses: 0,
                                locking_uses: 0,
                                escaped: false,
                                line: None,
                            };
                            match find_origin_exec(&self.locks, o) {
                                Some(i) => self.replace_at(i, st),
                                None => {
                                    let ghost before = self.locks@;
                                    self.locks.push(st);
                                    assert forall|a: int, b: int| 0 <= a < b < self.locks@.len() implies self.locks@[a].origin != self.locks@[b].origin by {
                                        if b == before.len() {
                                            assert(before[a].origin != o);
                                        }
                                    }
                                },
                            }
                        }
                    }
                }
            },
            ExprModel::Path(_) => {
                let origin = ctx.binding_origin(e);
                if let Some(o) = origin {
                    if let Some(i) = find_origin_exec(&self.locks, o) {
                        let old_st = self.locks.remove(i);
                        let ghost removed = self.locks@;
                        let escaped = old_st.escaped || old_st.execution.0 != ctx.execution.0
                            || old_st.execution.1 != ctx.execution.1;
                        let st = LockState {
                            uses: if old_st.uses < usize::MAX { old_st.uses + 1 } else { old_st.uses },
                            escaped,
                            ..old_st
                        };
                        self.locks.insert(i, st);
                        assert(self.locks@ =~= old(self).locks@.update(i as int, st));
                        assert forall|a: int, b: int| 0 <= a < b < self.locks@.len() implies self.locks@[a].origin != self.locks@[b].origin by {
                            assert(old(self).locks@[a].origin != old(self).locks@[b].origin);
                        }
                    }
                }
            },
            ExprModel::MethodCall { receiver, method, args, .. } => {
                let m = method.as_str();
                if (str_eq(m, "lock") || str_eq(m, "read") || str_eq(m, "write")) && matches!(
                    args,
                    ExprList::Nil
                ) && matches!(ctx.expr(receiver), Kind::SyncLock) {
                    if let Some(o) = ctx.binding_origin(receiver) {
                        if let Some(i) = find_origin_exec(&self.locks, o) {
                            let old_st = self.locks.remove(i);
                            let line = match old_st.line {
                                Some(l) => Some(l),
                                None => Some(method_line),
                            };
                            let st = LockState {
                                locking_uses: if old_st.locking_uses < usize::MAX {
                                    old_st.locking_uses + 1
                                } else {
                                    old_st.locking_uses
                                },
                                line,
                                ..old_st
                            };
                            self.locks.insert(i, st);
                            assert(self.locks@ =~= old(self).locks@.update(i as int, st));
                            assert forall|a: int, b: int| 0 <= a < b < self.locks@.len() implies self.locks@[a].origin != self.locks@[b].origin by {
                                assert(old(self).locks@[a].origin != old(self).locks@[b].origin);
                            }
                        }
                    }
                }
            },
            ExprModel::Macro(_) => {
                let n = self.locks.len();
                let mut i: usize = 0;
                while i < n
                    invariant
                        n == self.locks@.len(),
                        n == old(self).locks@.len(),
                        self.history == old(self).history,
                        i <= n,
                        ctx.wf(),
                        *e is Macro,
                        forall|j: int| i <= j < n ==> self.locks@[j] == old(self).locks@[j],
                        forall|j: int| 0 <= j < i ==> self.locks@[j] == observed(
                            old(self).locks@,
                            *ctx,
                            *e,
                            local,
                            method_line,
                            tokens@,
                        )[j],
                        forall|j: int| 0 <= j < n ==> self.locks@[j].origin == old(self).locks@[j].origin,
                    decreases n - i,
                {
                    let ghost before = self.locks@;
                    let mark = match ctx.origins.get(self.locks[i].name.as_str()) {
                        Some(o) => o.0 == self.locks[i].origin.0 && o.1 == self.locks[i].origin.1
                            && macro_tokens_mention_ident(tokens, self.locks[i].name.as_str()),
                        None => false,
                    };
                    if mark {
                        let old_st = self.locks.remove(i);
                        let st = LockState { escaped: true, ..old_st };
                        self.locks.insert(i, st);
                        assert(self.locks@ =~= before.update(i as int, st));
                    }
                    i = i + 1;
                }
                assert(self.locks@ =~= observed(old(self).locks@, *ctx, *e, local, method_line, tokens@));
                assert forall|a: int, b: int| 0 <= a < b < self.locks@.len() implies self.locks@[a].origin != self.locks@[b].origin by {
                    assert(old(self).locks@[a].origin != old(self).locks@[b].origin);
                }
            },
            _ => {},
        }
    }
}

/// A lock is reported when nothing but lock calls used it, none of its uses
/// left its execution scope, and it was locked at least once.
pub open spec fn reported(st: LockState) -> bool {
    !st.escaped && st.uses == st.locking_uses && st.line is Some
}

pub open spec fn lock_message(st: LockState) -> Seq<char> {
    "Local standard "@ + lock_kind_name(st.kind) + " binding '"@ + st.name@
        + "' is used only for locking in one execution scope"@
}

pub open spec fn lock_suggestion() -> Seq<char> {
    "Consider plain mutable state when synchronization and poisoning semantics are unnecessary."@
}

/// Inserts a hit after every hit on the same or an earlier line.
pub open spec fn insert_by_line(s: Seq<Hit>, h: Hit) -> Seq<Hit>
    decreases s.len(),
{
    if s.len() == 0 {
        seq![h]
    } else if s[0].0 <= h.0 {
        seq![s[0]] + insert_by_line(s.drop_first(), h)
    } else {
        seq![h] + s
    }
}

/// The hits of the reported locks, stably sorted by line.
pub open spec fn lock_hits(locks: Seq<LockState>) -> Seq<Hit>
    decreases locks.len(),
{
    if locks.len() == 0 {
        Seq::empty()
    } else if reported(locks.last()) {
        insert_by_line(
            lock_hits(locks.drop_last()),
            (locks.last().line->0, FindingConfidence::High, lock_message(locks.last())),
        )
    } else {
        lock_hits(locks.drop_last())
    }
}

proof fn lemma_insert_at(s: Seq<Hit>, h: Hit, i: int)
    requires
        0 <= i <= s.len(),
        forall|j: int| 0 <= j < i ==> s[j].0 <= h.0,
        i == s.len() || s[i].0 > h.0,
    ensures
        insert_by_line(s, h) == s.insert(i, h),
    decreases s.len(),
{
    if s.len() == 0 {
        assert(s.insert(i, h) =~= seq![h]);
    } else if i == 0 {
        assert(s.insert(0, h) =~= seq![h] + s);
    } else {
        lemma_insert_at(s.drop_first(), h, i - 1);
        assert(s.insert(i, h) =~= seq![s[0]] + s.drop_first().insert(i - 1, h));
    }
}

/// Inserts `s` after every finding on the same or an earlier line.
fn insert_finding(out: &mut Vec<Smell>, s: Smell, line: usize, ghost_hits: Ghost<Seq<Hit>>, h: Ghost<Hit>, path: &str)
    requires
        findings_are(old(out)@, ghost_hits@, SmellCategory::Performance,
            "Local Lock in Single-Threaded Scope"@, Severity::Info, path@, lock_suggestion()),
        h@.0 == line,
        crate::detectors::smell_is(s, SmellCategory::Performance, "Local Lock in Single-Threaded Scope"@,
            Severity::Info, h@.1, path@, line, line, h@.2, lock_suggestion()),
    ensures
        findings_are(final(out)@, insert_by_line(ghost_hits@, h@), SmellCategory::Performance,
            "Local Lock in Single-Threaded Scope"@, Severity::Info, path@, lock_suggestion()),
{
    let mut i: usize = 0;
    while i < out.len() && out[i].location.line_start <= line
        invariant
            i <= out@.len(),
            out@ == old(out)@,
            h@.0 == line,
            findings_are(out@, ghost_hits@, SmellCategory::Performance,
                "Local Lock in Single-Threaded Scope"@, Severity::Info, path@, lock_suggestion()),
            forall|j: int| 0 <= j < i ==> ghost_hits@[j].0 <= line,
        decreases out@.len() - i,
    {
        assert(crate::detectors::smell_is(
            out@[i as int],
            SmellCategory::Performance,
            "Local Lock in Single-Threaded Scope"@,
            Severity::Info,
            ghost_hits@[i as int].1,
            path@,
            ghost_hits@[i as int].0,
            ghost_hits@[i as int].0,
            ghost_hits@[i as int].2,
            lock_suggestion(),
        ));
        i = i + 1;
    }
    if i < out.len() {
        assert(crate::detectors::smell_is(
            out@[i as int],
            SmellCategory::Performance,
            "Local Lock in Single-Threaded Scope"@,
            Severity::Info,
            ghost_hits@[i as int].1,
            path@,
            ghost_hits@[i as int].0,
            ghost_hits@[i as int].0,
            ghost_hits@[i as int].2,
            lock_suggestion(),
        ));
    }
    proof {
        lemma_insert_at(ghost_hits@, h@, i as int);
    }
    let ghost before = out@;
    out.insert(i, s);
    proof {
        let hs = ghost_hits@.insert(i as int, h@);
        assert forall|j: int| 0 <= j < out@.len() implies #[trigger] crate::detectors::smell_is(
            out@[j],
            SmellCategory::Performance,
            "Local Lock in Single-Threaded Scope"@,
            Severity::Info,
            hs[j].1,
            path@,
            hs[j].0,
            hs[j].0,
            hs[j].2,
            lock_suggestion(),
        ) by {
            if j < i {
                assert(out@[j] == before[j]);
                assert(hs[j] == ghost_hits@[j]);
            } else if j > i {
                assert(out@[j] == before[j - 1]);
                assert(hs[j] == ghost_hits@[j - 1]);
            }
        }
    }
}

/// An expression a walk shows, with what the tracker takes beside it: the
/// binding a `let` with it as initializer introduces, the line of a method
/// call's name, and a macro's token text.
pub struct LockShown {
    pub model: ExprModel,
    pub local: Option<((usize, usize), String)>,
    pub method_line: usize,
    pub tokens: String,
}

/// The observations a walk's expressions make, in the walk's order; an id
/// that `shown` does not describe is passed over.
pub open spec fn lock_run(obs: Seq<(usize, Context)>, shown: Seq<LockShown>) -> Seq<Observation>
    decreases obs.len(),
{
    if obs.len() == 0 {
        Seq::empty()
    } else {
        let rest = lock_run(obs.drop_last(), shown);
        let id = obs.last().0;
        if id < shown.len() {
            let s = shown[id as int];
            rest.push(
                Observation { ctx: obs.last().1, e: s.model, local: s.local, method_line: s.method_line, tokens: s.tokens@ },
            )
        } else {
            rest
        }
    }
}

fn local_clone(l: &Option<((usize, usize), String)>) -> (r: Option<((usize, usize), String)>)
    ensures
        r == *l,
{
    match l {
        Some((o, name)) => Some((*o, name.clone())),
        None => None,
    }
}

/// A tracker that has seen every expression of a walk of `root`, in order,
/// each with its context; `shown[id]` describes the expression with that id.
pub fn track_locks(ctx: &Context, root: &ScanNode, shown: &Vec<LockShown>) -> (r: LocalLockTracker)
    requires
        ctx.wf(),
    ensures
        r.wf(),
        exists|c: Context, d: Context, obs: Seq<(usize, Context)>|
            #[trigger] picked((c, d, obs)) && copied(*ctx, c) && walked(c, *root, obs, d) && r.shown() == lock_run(
                obs,
                shown@,
            ),
{
    let obs = observations(ctx, root);
    let mut tracker = LocalLockTracker::new();
    let mut i: usize = 0;
    while i < obs.len()
        invariant
            i <= obs.len(),
            all_shown_wf(obs@),
            tracker.wf(),
            tracker.shown() == lock_run(obs@.take(i as int), shown@),
        decreases obs.len() - i,
    {
        let ghost pre = obs@.take(i as int);
        let ghost now = obs@.take(i + 1);
        proof {
            assert(now.drop_last() =~= pre);
            assert(now.last() == obs@[i as int]);
            assert(obs@[i as int].1.wf());
        }
        let id = obs[i].0;
        if id < shown.len() {
            let s = &shown[id];
            tracker.observe(&obs[i].1, &s.model, local_clone(&s.local), s.method_line, s.tokens.as_str());
        }
        i = i + 1;
    }
    proof {
        assert(obs@.take(obs@.len() as int) =~= obs@);
        let (c, d) = choose|c: Context, d: Context| #[trigger] picked((c, d)) && copied(*ctx, c) && walked(c, *root, obs@, d);
        assert(picked((c, d, obs@)));
    }
    tracker
}

/// Locally constructed standard locks whose uses stay in one execution scope.
pub struct LocalLockInSingleThreadedScopeDetector;

impl LocalLockInSingleThreadedScopeDetector {
    pub fn name(&self) -> (r: &'static str)
        ensures
            r@ == "Local Lock in Single-Threaded Scope"@,
    {
        "Local Lock in Single-Threaded Scope"
    }

    /// One finding per reported lock, ordered by line.
    pub fn detect(&self, path: &str, tracker: &LocalLockTracker) -> (r: Vec<Smell>)
        ensures
            findings_are(
                r@,
                lock_hits(tracker.states()),
                SmellCategory::Performance,
                "Local Lock in Single-Threaded Scope"@,
                Severity::Info,
                path@,
                lock_suggestion(),
            ),
    {
        let mut out: Vec<Smell> = Vec::new();
        let mut i: usize = 0;
        while i < tracker.locks.len()
            invariant
                i <= tracker.locks@.len(),
                findings_are(
                    out@,
                    lock_hits(tracker.locks@.take(i as int)),
                    SmellCategory::Performance,
                    "Local Lock in Single-Threaded Scope"@,
                    Severity::Info,
                    path@,
                    lock_suggestion(),
                ),
            decreases tracker.locks@.len() - i,
        {
            assert(tracker.locks@.take(i + 1).drop_last() =~= tracker.locks@.take(i as int));
            let st = &tracker.locks[i];
            if !st.escaped && st.uses == st.locking_uses {
                if let Some(line) = st.line {
                    let mut msg: Vec<char> = Vec::new();
                    extend_str(&mut msg, "Local standard ");
                    match st.kind {
                        LockKind::Mutex => extend_str(&mut msg, "Mutex"),
                        LockKind::RwLock => extend_str(&mut msg, "RwLock"),
                    }
                    extend_str(&mut msg, " binding '");
                    extend(&mut msg, &chars_of(st.name.as_str()));
                    extend_str(&mut msg, "' is used only for locking in one execution scope");
                    let message = string_of(msg.as_slice());
                    let s = finding(
                        SmellCategory::Performance,
                        self.name(),
                        Severity::Info,
                        FindingConfidence::High,
                        path,
                        line,
                        line,
                        message.as_str(),
                        "Consider plain mutable state when synchronization and poisoning semantics are unnecessary.",
                    );
                    let ghost h: Hit = (line, FindingConfidence::High, lock_message(*st));
                    insert_finding(&mut out, s, line, Ghost(lock_hits(tracker.locks@.take(i as int))), Ghost(h), path);
                }
            }
            i = i + 1;
        }
        assert(tracker.locks@.take(tracker.locks@.len() as int) =~= tracker.locks@);
        out
    }
}

} // verus!
