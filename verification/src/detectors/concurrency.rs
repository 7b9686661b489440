//! Concurrency detectors: blocking work in async code, lock guards that stay
//! in scope, destructors that block, and discarded join handles. Each
//! decides on one inspected expression and the scope context at that point.
use vstd::prelude::*;
use crate::detectors::{appended, finding, push_hit, smell_is, FullHit};
use crate::detectors::implementation::{line_findings, line_hits};
use crate::detectors::{findings_are};
use crate::domain::{FindingConfidence, Severity, Smell, SmellCategory};
use crate::evidence::{
    has_prefix, ident, is_fs_result, is_spawn, spec_ident, spec_is_fs_result, spec_is_spawn,
    spec_value, starts_with, Context, ExprList, ExprModel, Kind, MemberModel, TypeModel,
};
use crate::text::{chars_of, extend, extend_str, str_eq, string_of};
use crate::walk::{all_shown_wf, copied, observations, picked, walked, ScanNode};

verus! {

/// A receive on a synchronous channel inside async code.
pub struct BlockingChannelInAsyncDetector;

pub open spec fn channel_hit(ctx: Context, e: ExprModel, method_line: usize) -> Option<FullHit> {
    match e {
        ExprModel::MethodCall { receiver, method, .. } => if ctx.in_async && spec_value(
            ctx.spec_expr(*receiver),
        ) == Kind::SyncReceiver && (method@ == "recv"@ || method@ == "recv_timeout"@) {
            Some(
                (
                    method_line,
                    Severity::Warning,
                    FindingConfidence::High,
                    "Synchronous channel receive blocks async execution"@,
                    "Use an async channel or move the receive into a blocking worker."@,
                ),
            )
        } else {
            None
        },
        _ => None,
    }
}

impl BlockingChannelInAsyncDetector {
    pub fn name(&self) -> (r: &'static str)
        ensures
            r@ == "Blocking Channel in Async"@,
    {
        "Blocking Channel in Async"
    }

    /// Inspects one expression; `method_line` is the line of a method call's
    /// name.
    pub fn observe(&self, path: &str, ctx: &Context, e: &ExprModel, method_line: usize, out: &mut Vec<Smell>)
        requires
            ctx.wf(),
        ensures
            appended(old(out)@, final(out)@, channel_hit(*ctx, *e, method_line),
                SmellCategory::Concurrency, "Blocking Channel in Async"@, path@),
    {
        if !ctx.in_async {
            return;
        }
        if let ExprModel::MethodCall { receiver, method, .. } = e {
            let k = ctx.expr(receiver);
            if matches!(k.value(), Kind::SyncReceiver) && (str_eq(method.as_str(), "recv") || str_eq(
                method.as_str(),
                "recv_timeout",
            )) {
                let s = finding(
                    SmellCategory::Concurrency,
                    self.name(),
                    Severity::Warning,
                    FindingConfidence::High,
                    path,
                    method_line,
                    method_line,
                    "Synchronous channel receive blocks async execution",
                    "Use an async channel or move the receive into a blocking worker.",
                );
                push_hit(out, Ghost(channel_hit(*ctx, *e, method_line)), s, SmellCategory::Concurrency,
                    Ghost("Blocking Channel in Async"@), Ghost(path@));
            }
        }
    }
}

pub open spec fn blocking_std_call(path: Seq<char>) -> bool {
    ||| starts_with(path, "std::"@) && spec_is_fs_result(path)
    ||| path == "std::thread::sleep"@
    ||| path == "std::thread::park"@
    ||| path == "std::thread::park_timeout"@
    ||| path == "std::net::TcpStream::connect"@
    ||| path == "std::net::TcpListener::bind"@
    ||| path == "std::net::UdpSocket::bind"@
}

fn is_blocking_std_call(path: &str) -> (r: bool)
    ensures
        r == blocking_std_call(path@),
{
    let p = chars_of(path);
    let pre = chars_of("std::");
    (has_prefix(&p, &pre) && is_fs_result(path)) || str_eq(path, "std::thread::sleep") || str_eq(
        path,
        "std::thread::park",
    ) || str_eq(path, "std::thread::park_timeout") || str_eq(path, "std::net::TcpStream::connect")
        || str_eq(path, "std::net::TcpListener::bind") || str_eq(path, "std::net::UdpSocket::bind")
}

/// A known blocking standard call inside async code.
pub struct BlockingInAsyncDetector;

pub open spec fn blocking_hit(ctx: Context, e: ExprModel, line: usize) -> Option<FullHit> {
    match e {
        ExprModel::Call { func, .. } => match *func {
            ExprModel::Path(p) => if ctx.in_async && blocking_std_call(ctx.spec_path(p)) {
                Some(
                    (
                        line,
                        Severity::Warning,
                        FindingConfidence::High,
                        "Blocking call in async execution: "@ + ctx.spec_path(p),
                        "Use an async alternative or execute blocking work with spawn_blocking."@,
                    ),
                )
            } else {
                None
            },
            _ => None,
        },
        _ => None,
    }
}

impl BlockingInAsyncDetector {
    pub fn name(&self) -> (r: &'static str)
        ensures
            r@ == "Blocking in Async"@,
    {
        "Blocking in Async"
    }

    /// Inspects one expression starting on `line`.
    pub fn observe(&self, path: &str, ctx: &Context, e: &ExprModel, line: usize, out: &mut Vec<Smell>)
        requires
            ctx.wf(),
        ensures
            appended(old(out)@, final(out)@, blocking_hit(*ctx, *e, line), SmellCategory::Concurrency,
                "Blocking in Async"@, path@),
    {
        if !ctx.in_async {
            return;
        }
        if let ExprModel::Call { func, .. } = e {
            if let ExprModel::Path(p) = &**func {
                let resolved = ctx.path(p);
                if is_blocking_std_call(resolved.as_str()) {
                    let mut msg: Vec<char> = Vec::new();
                    extend_str(&mut msg, "Blocking call in async execution: ");
                    extend(&mut msg, &chars_of(resolved.as_str()));
                    let message = string_of(msg.as_slice());
                    let s = finding(
                        SmellCategory::Concurrency,
                        self.name(),
                        Severity::Warning,
                        FindingConfidence::High,
                        path,
                        line,
                        line,
                        message.as_str(),
                        "Use an async alternative or execute blocking work with spawn_blocking.",
                    );
                    push_hit(out, Ghost(blocking_hit(*ctx, *e, line)), s, SmellCategory::Concurrency,
                        Ghost("Blocking in Async"@), Ghost(path@));
                }
            }
        }
    }
}

pub open spec fn is_lock_call(m: Seq<char>) -> bool {
    m == "lock"@ || m == "read"@ || m == "write"@
}

fn lock_call(m: &str) -> (r: bool)
    ensures
        r == is_lock_call(m@),
{
    str_eq(m, "lock") || str_eq(m, "read") || str_eq(m, "write")
}

pub open spec fn deadlock_message(receiver: Seq<char>) -> Seq<char> {
    "Synchronous lock `"@ + receiver
        + "` is acquired while a synchronous guard remains in scope; a deadlock cycle is unproven"@
}

pub open spec fn deadlock_suggestion() -> Seq<char> {
    "Review whether these guards must overlap and whether all callers use a consistent lock order."@
}

/// A synchronous lock acquired on a plain binding while a guard is in scope.
pub open spec fn deadlock_hit(ctx: Context, e: ExprModel, method_line: usize) -> Option<FullHit> {
    match e {
        ExprModel::MethodCall { receiver, method, args, .. } => if is_lock_call(method@) && args is Nil
            && spec_value(ctx.spec_expr(*receiver)) == Kind::SyncLock && ctx.spec_has_guard() {
            match spec_ident(*receiver) {
                Some(n) => Some(
                    (
                        method_line,
                        Severity::Critical,
                        FindingConfidence::Low,
                        deadlock_message(n),
                        deadlock_suggestion(),
                    ),
                ),
                None => None,
            }
        } else {
            None
        },
        _ => None,
    }
}

/// The finding for a synchronous lock `receiver` acquired on `line` while
/// another guard is in scope.
pub fn overlapping_lock_hint(path: &str, receiver: &str, line: usize) -> (r: Smell)
    ensures
        smell_is(r, SmellCategory::Concurrency, "Deadlock Risk"@, Severity::Critical,
            FindingConfidence::Low, path@, line, line, deadlock_message(receiver@), deadlock_suggestion()),
{
    let mut msg: Vec<char> = Vec::new();
    extend_str(&mut msg, "Synchronous lock `");
    extend(&mut msg, &chars_of(receiver));
    extend_str(&mut msg, "` is acquired while a synchronous guard remains in scope; a deadlock cycle is unproven");
    let message = string_of(msg.as_slice());
    finding(
        SmellCategory::Concurrency,
        "Deadlock Risk",
        Severity::Critical,
        FindingConfidence::Low,
        path,
        line,
        line,
        message.as_str(),
        "Review whether these guards must overlap and whether all callers use a consistent lock order.",
    )
}

/// Overlapping synchronous lock acquisitions: a review hint, not proof of a
/// deadlock.
pub struct DeadlockRiskDetector;

impl DeadlockRiskDetector {
    pub fn name(&self) -> (r: &'static str)
        ensures
            r@ == "Deadlock Risk"@,
    {
        "Deadlock Risk"
    }

    /// Inspects one expression; `method_line` is the line of a method call's
    /// name.
    pub fn observe(&self, path: &str, ctx: &Context, e: &ExprModel, method_line: usize, out: &mut Vec<Smell>)
        requires
            ctx.wf(),
        ensures
            appended(old(out)@, final(out)@, deadlock_hit(*ctx, *e, method_line),
                SmellCategory::Concurrency, "Deadlock Risk"@, path@),
    {
        if let ExprModel::MethodCall { receiver, method, args, .. } = e {
            if !lock_call(method.as_str()) || !matches!(args, ExprList::Nil) {
                return;
            }
            let k = ctx.expr(receiver);
            if !matches!(k.value(), Kind::SyncLock) || !ctx.has_guard() {
                return;
            }
            if let Some(n) = ident(receiver) {
                let s = overlapping_lock_hint(path, n.as_str(), method_line);
                push_hit(out, Ghost(deadlock_hit(*ctx, *e, method_line)), s, SmellCategory::Concurrency,
                    Ghost("Deadlock Risk"@), Ghost(path@));
            }
        }
    }
}

/// A synchronous guard in scope at an await.
pub struct HoldingLockAcrossAwaitDetector;

pub open spec fn await_hit(ctx: Context, e: ExprModel, line: usize) -> Option<FullHit> {
    if ctx.in_async && e is Await && ctx.spec_has_guard() {
        Some(
            (
                line,
                Severity::Critical,
                FindingConfidence::High,
                "A synchronous lock guard remains in scope at this await"@,
                "Release the synchronous guard before awaiting."@,
            ),
        )
    } else {
        None
    }
}

impl HoldingLockAcrossAwaitDetector {
    pub fn name(&self) -> (r: &'static str)
        ensures
            r@ == "Holding Lock Across Await"@,
    {
        "Holding Lock Across Await"
    }

    /// Inspects one expression starting on `line`.
    pub fn observe(&self, path: &str, ctx: &Context, e: &ExprModel, line: usize, out: &mut Vec<Smell>)
        requires
            ctx.wf(),
        ensures
            appended(old(out)@, final(out)@, await_hit(*ctx, *e, line), SmellCategory::Concurrency,
                "Holding Lock Across Await"@, path@),
    {
        if ctx.in_async && matches!(e, ExprModel::Await(_)) && ctx.has_guard() {
            let s = finding(
                SmellCategory::Concurrency,
                self.name(),
                Severity::Critical,
                FindingConfidence::High,
                path,
                line,
                line,
                "A synchronous lock guard remains in scope at this await",
                "Release the synchronous guard before awaiting.",
            );
            push_hit(out, Ghost(await_hit(*ctx, *e, line)), s, SmellCategory::Concurrency,
                Ghost("Holding Lock Across Await"@), Ghost(path@));
        }
    }
}

/// Strictly increasing.
pub open spec fn increasing(s: Seq<usize>) -> bool {
    forall|i: int, j: int| 0 <= i < j < s.len() ==> s[i] < s[j]
}

/// Adds a line to a strictly increasing list of lines, once.
pub fn insert_line(lines: &mut Vec<usize>, line: usize)
    requires
        increasing(old(lines)@),
    ensures
        increasing(final(lines)@),
        final(lines)@.to_set() == old(lines)@.to_set().insert(line),
{
    let mut i: usize = 0;
    while i < lines.len() && lines[i] < line
        invariant
            i <= lines@.len(),
            increasing(lines@),
            forall|j: int| 0 <= j < i ==> lines@[j] < line,
        decreases lines@.len() - i,
    {
        i = i + 1;
    }
    if i < lines.len() && lines[i] == line {
        assert(lines@.to_set() =~= lines@.to_set().insert(line)) by {
            assert(lines@.contains(line));
        }
        return;
    }
    let ghost before = lines@;
    lines.insert(i, line);
    assert(lines@ =~= before.insert(i as int, line));
    assert forall|a: int, b: int| 0 <= a < b < lines@.len() implies lines@[a] < lines@[b] by {
        if a < i && b == i {
        } else if a < i && b > i {
            assert(lines@[b] == before[b - 1]);
            assert(before[a] < line);
            assert(line < before[i as int] || i == before.len());
        } else if a == i {
            assert(lines@[b] == before[b - 1]);
            assert(before[i as int] <= before[b - 1]);
        } else {
        }
    }
    assert forall|x: usize| lines@.to_set().contains(x) <==> before.to_set().insert(line).contains(x) by {
        if lines@.contains(x) {
            let k = choose|k: int| 0 <= k < lines@.len() && lines@[k] == x;
            if k < i {
                assert(before[k] == x);
            } else if k > i {
                assert(before[k - 1] == x);
            }
        }
        if before.contains(x) {
            let k = choose|k: int| 0 <= k < before.len() && before[k] == x;
            if k < i {
                assert(lines@[k] == x);
            } else {
                assert(lines@[k + 1] == x);
            }
        }
        if x == line {
            assert(lines@[i as int] == x);
        }
    }
    assert(lines@.to_set() =~= before.to_set().insert(line));
}

/// A standard synchronous lock used in async code.
pub struct StdMutexInAsyncDetector;

pub open spec fn std_mutex_use(ctx: Context, e: ExprModel) -> bool {
    ctx.in_async && spec_value(ctx.spec_expr(e)) == Kind::SyncLock
}

impl StdMutexInAsyncDetector {
    pub fn name(&self) -> (r: &'static str)
        ensures
            r@ == "Std Mutex in Async"@,
    {
        "Std Mutex in Async"
    }

    /// Inspects one expression starting on `line`: its line joins the set of
    /// reported lines when it is a synchronous lock in async code.
    pub fn observe(&self, ctx: &Context, e: &ExprModel, line: usize, lines: &mut Vec<usize>)
        requires
            ctx.wf(),
            increasing(old(lines)@),
        ensures
            increasing(final(lines)@),
            final(lines)@.to_set() == if std_mutex_use(*ctx, *e) {
                old(lines)@.to_set().insert(line)
            } else {
                old(lines)@.to_set()
            },
    {
        if ctx.in_async {
            let k = ctx.expr(e);
            if matches!(k.value(), Kind::SyncLock) {
                insert_line(lines, line);
            }
        }
    }

    /// One finding per reported line, in increasing order.
    pub fn detect(&self, path: &str, lines: &Vec<usize>) -> (r: Vec<Smell>)
        ensures
            findings_are(
                r@,
                line_hits(lines@, FindingConfidence::Low, "A standard synchronous lock is used in async code"@),
                SmellCategory::Concurrency,
                "Std Mutex in Async"@,
                Severity::Info,
                path@,
                "Review contention and guard lifetime. Short synchronous critical sections can be appropriate."@,
            ),
    {
        line_findings(
            lines,
            SmellCategory::Concurrency,
            self.name(),
            Severity::Info,
            FindingConfidence::Low,
            path,
            "A standard synchronous lock is used in async code",
            "Review contention and guard lifetime. Short synchronous critical sections can be appropriate.",
        )
    }
}

/// Whether a resolved trait path names `Drop`.
pub open spec fn spec_is_drop_trait(p: Seq<char>) -> bool {
    p == "Drop"@ || p == "std::ops::Drop"@ || p == "core::ops::Drop"@
}

pub fn is_drop_trait(p: &str) -> (r: bool)
    ensures
        r == spec_is_drop_trait(p@),
{
    str_eq(p, "Drop") || str_eq(p, "std::ops::Drop") || str_eq(p, "core::ops::Drop")
}

pub open spec fn writer_method(m: Seq<char>) -> bool {
    ||| m == "read"@
    ||| m == "read_to_end"@
    ||| m == "read_to_string"@
    ||| m == "write"@
    ||| m == "write_all"@
    ||| m == "flush"@
    ||| m == "sync_all"@
    ||| m == "sync_data"@
}

pub open spec fn possibly_blocking_method(m: Seq<char>) -> bool {
    ||| m == "read"@
    ||| m == "read_to_end"@
    ||| m == "read_to_string"@
    ||| m == "write"@
    ||| m == "write_all"@
    ||| m == "flush"@
    ||| m == "lock"@
    ||| m == "recv"@
    ||| m == "send"@
}

/// How surely a method call blocks: high for known blocking methods of
/// writers and synchronous receivers, low for other methods with blocking
/// names.
pub open spec fn spec_blocking_method_confidence(k: Kind, m: Seq<char>) -> Option<FindingConfidence> {
    if (spec_value(k) == Kind::Writer && writer_method(m)) || (spec_value(k) == Kind::SyncReceiver && (
    m == "recv"@ || m == "recv_timeout"@)) {
        Some(FindingConfidence::High)
    } else if possibly_blocking_method(m) {
        Some(FindingConfidence::Low)
    } else {
        None
    }
}

pub fn blocking_method_confidence(k: &Kind, m: &str) -> (r: Option<FindingConfidence>)
    ensures
        r == spec_blocking_method_confidence(*k, m@),
{
    let v = k.value();
    let writer = str_eq(m, "read") || str_eq(m, "read_to_end") || str_eq(m, "read_to_string")
        || str_eq(m, "write") || str_eq(m, "write_all") || str_eq(m, "flush") || str_eq(m, "sync_all")
        || str_eq(m, "sync_data");
    let known = (matches!(v, Kind::Writer) && writer) || (matches!(v, Kind::SyncReceiver) && (str_eq(
        m,
        "recv",
    ) || str_eq(m, "recv_timeout")));
    if known {
        Some(FindingConfidence::High)
    } else if str_eq(m, "read") || str_eq(m, "read_to_end") || str_eq(m, "read_to_string") || str_eq(
        m,
        "write",
    ) || str_eq(m, "write_all") || str_eq(m, "flush") || str_eq(m, "lock") || str_eq(m, "recv")
        || str_eq(m, "send") {
        Some(FindingConfidence::Low)
    } else {
        None
    }
}

pub open spec fn owned_lock_path(p: Seq<char>) -> bool {
    p == "std::sync::Mutex"@ || p == "std::sync::RwLock"@ || p == "parking_lot::Mutex"@
        || p == "parking_lot::RwLock"@
}

/// Locking a mutex the destructor's value owns: exclusive during `Drop`.
pub open spec fn spec_owned_lock_acquisition(ctx: Context, field: Option<TypeModel>, k: Kind, m: Seq<char>) -> bool {
    ||| field is Some && k == Kind::SyncLock && is_lock_call(m)
    ||| match field {
        Some(TypeModel::Path { path, .. }) => owned_lock_path(ctx.spec_path(path)) && is_lock_call(m),
        _ => false,
    }
}

pub fn owned_lock_acquisition(ctx: &Context, field: Option<&TypeModel>, k: &Kind, m: &str) -> (r: bool)
    requires
        ctx.wf(),
    ensures
        r == spec_owned_lock_acquisition(*ctx, match field {
            Some(t) => Some(*t),
            None => None,
        }, *k, m@),
{
    if field.is_some() && matches!(k, Kind::SyncLock) && lock_call(m) {
        return true;
    }
    match field {
        Some(TypeModel::Path { path, .. }) => {
            let p = ctx.path(path);
            let t = p.as_str();
            (str_eq(t, "std::sync::Mutex") || str_eq(t, "std::sync::RwLock") || str_eq(
                t,
                "parking_lot::Mutex",
            ) || str_eq(t, "parking_lot::RwLock")) && lock_call(m)
        },
        _ => false,
    }
}

pub open spec fn member_eq(a: MemberModel, b: MemberModel) -> bool {
    match (a, b) {
        (MemberModel::Named(x), MemberModel::Named(y)) => x@ == y@,
        (MemberModel::Unnamed(x), MemberModel::Unnamed(y)) => x == y,
        _ => false,
    }
}

fn member_eq_exec(a: &MemberModel, b: &MemberModel) -> (r: bool)
    ensures
        r == member_eq(*a, *b),
{
    match (a, b) {
        (MemberModel::Named(x), MemberModel::Named(y)) => str_eq(x.as_str(), y.as_str()),
        (MemberModel::Unnamed(x), MemberModel::Unnamed(y)) => *x == *y,
        _ => false,
    }
}

/// The type of the first field of the destructor's struct with this member.
pub open spec fn field_type(fields: Seq<(MemberModel, TypeModel)>, m: MemberModel) -> Option<TypeModel>
    decreases fields.len(),
{
    if fields.len() == 0 {
        None
    } else if member_eq(fields[0].0, m) {
        Some(fields[0].1)
    } else {
        field_type(fields.drop_first(), m)
    }
}

fn field_type_exec<'a>(fields: &'a Vec<(MemberModel, TypeModel)>, m: &MemberModel) -> (r: Option<&'a TypeModel>)
    ensures
        match r {
            Some(t) => field_type(fields@, *m) == Some(*t),
            None => field_type(fields@, *m) is None,
        },
{
    let mut i: usize = 0;
    assert(fields@.skip(0) =~= fields@);
    while i < fields.len()
        invariant
            i <= fields@.len(),
            field_type(fields@, *m) == field_type(fields@.skip(i as int), *m),
        decreases fields@.len() - i,
    {
        assert(fields@.skip(i as int).drop_first() =~= fields@.skip(i + 1));
        assert(fields@.skip(i as int)[0] == fields@[i as int]);
        if member_eq_exec(&fields[i].0, m) {
            return Some(&fields[i].1);
        }
        i = i + 1;
    }
    assert(fields@.skip(i as int) =~= Seq::<(MemberModel, TypeModel)>::empty());
    None
}

/// The field of `self` a receiver names, with its declared type.
pub open spec fn self_field(fields: Seq<(MemberModel, TypeModel)>, receiver: ExprModel) -> Option<TypeModel> {
    match receiver {
        ExprModel::Field { base, member } => match *base {
            ExprModel::Path(p) => if crate::evidence::spec_get_ident(p) == Some("self"@) {
                field_type(fields, member)
            } else {
                None
            },
            _ => None,
        },
        _ => None,
    }
}

/// A blocking method call in a destructor: its confidence and method name.
pub open spec fn spec_blocking_method(
    ctx: Context,
    fields: Seq<(MemberModel, TypeModel)>,
    receiver: ExprModel,
    m: Seq<char>,
) -> Option<(FindingConfidence, Seq<char>)> {
    let field = self_field(fields, receiver);
    let k = match field {
        Some(t) => ctx.spec_kind(t),
        None => ctx.spec_expr(receiver),
    };
    if spec_value(k) == Kind::AsyncLock || spec_owned_lock_acquisition(ctx, field, k, m) {
        None
    } else {
        match spec_blocking_method_confidence(k, m) {
            Some(c) => Some((c, m)),
            None => None,
        }
    }
}

/// A blocking operation in a destructor: a known blocking standard call
/// (high confidence) or a blocking method call.
pub open spec fn spec_blocking_operation(ctx: Context, fields: Seq<(MemberModel, TypeModel)>, e: ExprModel) -> Option<
    (FindingConfidence, Seq<char>),
> {
    match e {
        ExprModel::Call { func, .. } => match *func {
            ExprModel::Path(p) => {
                let path = ctx.spec_path(p);
                if path == "std::thread::sleep"@ || path == "std::thread::park"@ || path
                    == "std::thread::park_timeout"@ || (starts_with(path, "std::fs::"@)
                    && spec_is_fs_result(path)) {
                    Some((FindingConfidence::High, path))
                } else {
                    None
                }
            },
            _ => None,
        },
        ExprModel::MethodCall { receiver, method, .. } => spec_blocking_method(ctx, fields, *receiver, method@),
        _ => None,
    }
}

pub fn blocking_operation(ctx: &Context, fields: &Vec<(MemberModel, TypeModel)>, e: &ExprModel) -> (r: Option<(FindingConfidence, String)>)
    requires
        ctx.wf(),
    ensures
        match r {
            Some((c, op)) => spec_blocking_operation(*ctx, fields@, *e) == Some((c, op@)),
            None => spec_blocking_operation(*ctx, fields@, *e) is None,
        },
{
    match e {
        ExprModel::Call { func, .. } => match &**func {
            ExprModel::Path(p) => {
                let path = ctx.path(p);
                let t = path.as_str();
                let pv = chars_of(t);
                let pre = chars_of("std::fs::");
                if str_eq(t, "std::thread::sleep") || str_eq(t, "std::thread::park") || str_eq(
                    t,
                    "std::thread::park_timeout",
                ) || (has_prefix(&pv, &pre) && is_fs_result(t)) {
                    Some((FindingConfidence::High, path))
                } else {
                    None
                }
            },
            _ => None,
        },
        ExprModel::MethodCall { receiver, method, .. } => {
            proof {
                reveal_strlit("self");
            }
            let field: Option<&TypeModel> = match &**receiver {
                ExprModel::Field { base, member } => match &**base {
                    ExprModel::Path(p) => match crate::evidence::get_ident(p) {
                        Some(n) => if str_eq(n.as_str(), "self") {
                            field_type_exec(fields, member)
                        } else {
                            None
                        },
                        None => None,
                    },
                    _ => None,
                },
                _ => None,
            };
            let k = match field {
                Some(t) => ctx.kind(t),
                None => ctx.expr(receiver),
            };
            if matches!(k.value(), Kind::AsyncLock) {
                return None;
            }
            if owned_lock_acquisition(ctx, field, &k, method.as_str()) {
                return None;
            }
            match blocking_method_confidence(&k, method.as_str()) {
                Some(c) => Some((c, crate::evidence::string_clone(method))),
                None => None,
            }
        },
        _ => None,
    }
}

/// A `drop` method of a `Drop` impl: where its name is, which is the
/// execution scope of its body, and the fields of the dropped struct.
pub struct DropScope {
    pub position: (usize, usize),
    pub fields: Vec<(MemberModel, TypeModel)>,
}

/// The fields of the first destructor whose body is the current execution
/// scope.
pub open spec fn drop_fields(scopes: Seq<DropScope>, execution: (usize, usize)) -> Option<Seq<(MemberModel, TypeModel)>>
    decreases scopes.len(),
{
    if scopes.len() == 0 {
        None
    } else if scopes[0].position == execution {
        Some(scopes[0].fields@)
    } else {
        drop_fields(scopes.drop_first(), execution)
    }
}

fn drop_fields_exec<'a>(scopes: &'a Vec<DropScope>, execution: (usize, usize)) -> (r: Option<&'a Vec<(MemberModel, TypeModel)>>)
    ensures
        match r {
            Some(f) => drop_fields(scopes@, execution) == Some(f@),
            None => drop_fields(scopes@, execution) is None,
        },
{
    let mut i: usize = 0;
    assert(scopes@.skip(0) =~= scopes@);
    while i < scopes.len()
        invariant
            i <= scopes@.len(),
            drop_fields(scopes@, execution) == drop_fields(scopes@.skip(i as int), execution),
        decreases scopes@.len() - i,
    {
        assert(scopes@.skip(i as int).drop_first() =~= scopes@.skip(i + 1));
        assert(scopes@.skip(i as int)[0] == scopes@[i as int]);
        if scopes[i].position.0 == execution.0 && scopes[i].position.1 == execution.1 {
            return Some(&scopes[i].fields);
        }
        i = i + 1;
    }
    assert(scopes@.skip(i as int) =~= Seq::<DropScope>::empty());
    None
}

pub open spec fn drop_message(c: FindingConfidence, op: Seq<char>) -> Seq<char> {
    if c == FindingConfidence::High {
        "Drop executes synchronous blocking operation `"@ + op + "`"@
    } else {
        "Drop calls `"@ + op + "`; blocking behavior and async execution are unproven"@
    }
}

pub open spec fn drop_suggestion() -> Seq<char> {
    "Review destructor latency. If cleanup can block or fail, consider explicit shutdown before dropping; background cleanup requires an owned lifetime and an available runtime."@
}

pub open spec fn drop_hit(ctx: Context, scopes: Seq<DropScope>, e: ExprModel, line: usize) -> Option<FullHit> {
    match drop_fields(scopes, ctx.execution) {
        Some(fields) => match spec_blocking_operation(ctx, fields, e) {
            Some((c, op)) => Some((line, Severity::Warning, c, drop_message(c, op), drop_suggestion())),
            None => None,
        },
        None => None,
    }
}

/// Blocking work in a destructor: not by itself proof of an async hazard.
pub struct SyncDropBlockingDetector;

impl SyncDropBlockingDetector {
    pub fn name(&self) -> (r: &'static str)
        ensures
            r@ == "Sync Drop Blocking (Async Hazard)"@,
    {
        "Sync Drop Blocking (Async Hazard)"
    }

    /// Inspects one expression starting on `line`, given the file's
    /// destructors.
    pub fn observe(&self, path: &str, ctx: &Context, scopes: &Vec<DropScope>, e: &ExprModel, line: usize, out: &mut Vec<Smell>)
        requires
            ctx.wf(),
        ensures
            appended(old(out)@, final(out)@, drop_hit(*ctx, scopes@, *e, line), SmellCategory::Concurrency,
                "Sync Drop Blocking (Async Hazard)"@, path@),
    {
        let fields = match drop_fields_exec(scopes, ctx.execution) {
            Some(f) => f,
            None => return,
        };
        if let Some((c, op)) = blocking_operation(ctx, fields, e) {
            let mut msg: Vec<char> = Vec::new();
            if matches!(c, FindingConfidence::High) {
                extend_str(&mut msg, "Drop executes synchronous blocking operation `");
                extend(&mut msg, &chars_of(op.as_str()));
                extend_str(&mut msg, "`");
            } else {
                extend_str(&mut msg, "Drop calls `");
                extend(&mut msg, &chars_of(op.as_str()));
                extend_str(&mut msg, "`; blocking behavior and async execution are unproven");
            }
            let message = string_of(msg.as_slice());
            let s = finding(
                SmellCategory::Concurrency,
                self.name(),
                Severity::Warning,
                c,
                path,
                line,
                line,
                message.as_str(),
                "Review destructor latency. If cleanup can block or fail, consider explicit shutdown before dropping; background cleanup requires an owned lifetime and an available runtime.",
            );
            push_hit(out, Ghost(drop_hit(*ctx, scopes@, *e, line)), s, SmellCategory::Concurrency,
                Ghost("Sync Drop Blocking (Async Hazard)"@), Ghost(path@));
        }
    }
}

/// How many parenthesis or group layers wrap a discarded call.
pub open spec fn discarded_call_depth(e: ExprModel) -> Option<nat>
    decreases e,
{
    match e {
        ExprModel::Paren(x) | ExprModel::Group(x) => match discarded_call_depth(*x) {
            Some(d) => Some(d + 1),
            None => None,
        },
        ExprModel::Call { .. } => Some(0),
        _ => None,
    }
}

/// The call a discarded expression (`expr;` or `let _ = expr;`) is, found
/// below `depth` parenthesis or group layers.
pub fn discarded_call(e: &ExprModel) -> (r: Option<usize>)
    ensures
        match r {
            Some(d) => discarded_call_depth(*e) == Some(d as nat),
            None => discarded_call_depth(*e) is None || discarded_call_depth(*e)->0 > usize::MAX,
        },
    decreases e,
{
    match e {
        ExprModel::Paren(x) | ExprModel::Group(x) => match discarded_call(x) {
            Some(d) => if d < usize::MAX { Some(d + 1) } else { None },
            None => None,
        },
        ExprModel::Call { .. } => Some(0),
        _ => None,
    }
}

/// A discarded call confirmed as a known task or thread spawn.
pub open spec fn spec_spawn_call(ctx: Context, e: ExprModel) -> bool {
    match e {
        ExprModel::Call { func, .. } => match *func {
            ExprModel::Path(p) => spec_is_spawn(ctx.spec_path(p)),
            _ => false,
        },
        _ => false,
    }
}

pub fn spawn_call(ctx: &Context, e: &ExprModel) -> (r: bool)
    requires
        ctx.wf(),
    ensures
        r == spec_spawn_call(*ctx, *e),
{
    match e {
        ExprModel::Call { func, .. } => match &**func {
            ExprModel::Path(p) => {
                let path = ctx.path(p);
                is_spawn(path.as_str())
            },
            _ => false,
        },
        _ => false,
    }
}

/// How a call is thrown away.
pub enum Discard {
    /// By a statement `expr;` whose expression is the call, below any
    /// parentheses or groups.
    Statement,
    /// By `let _ = expr;`, likewise.
    Wildcard,
}

/// An expression a walk shows: its model, the line it starts on, and how it
/// is thrown away, if it is.
pub struct ShownExpr {
    pub model: ExprModel,
    pub line: usize,
    pub discard: Option<Discard>,
}

/// Whether a discard is looked at: `let _` always, statements when asked.
pub open spec fn discard_counts(d: Option<Discard>, statements: bool) -> bool {
    match d {
        Some(Discard::Wildcard) => true,
        Some(Discard::Statement) => statements,
        None => false,
    }
}

/// Whether the observation at `i` is a looked-at discarded call that is a
/// known spawn in its context.
pub open spec fn spawn_seen(obs: Seq<(usize, Context)>, shown: Seq<ShownExpr>, statements: bool, i: int) -> bool {
    let id = obs[i].0;
    &&& id < shown.len()
    &&& discard_counts(shown[id as int].discard, statements)
    &&& spec_spawn_call(obs[i].1, shown[id as int].model)
}

/// The lines of the discarded spawn calls among a walk's observations, in
/// the order the walk shows them.
pub open spec fn spawn_lines(obs: Seq<(usize, Context)>, shown: Seq<ShownExpr>, statements: bool) -> Seq<usize>
    decreases obs.len(),
{
    if obs.len() == 0 {
        Seq::empty()
    } else {
        let rest = spawn_lines(obs.drop_last(), shown, statements);
        if spawn_seen(obs, shown, statements, obs.len() - 1) {
            rest.push(shown[obs.last().0 as int].line)
        } else {
            rest
        }
    }
}

/// The lines of the discarded spawn calls among given observations.
pub fn spawn_lines_of(obs: &Vec<(usize, Context)>, shown: &Vec<ShownExpr>, statements: bool) -> (r: Vec<usize>)
    requires
        all_shown_wf(obs@),
    ensures
        r@ == spawn_lines(obs@, shown@, statements),
{
    let mut out: Vec<usize> = Vec::new();
    let mut i: usize = 0;
    while i < obs.len()
        invariant
            i <= obs.len(),
            all_shown_wf(obs@),
            out@ == spawn_lines(obs@.take(i as int), shown@, statements),
        decreases obs.len() - i,
    {
        let ghost pre = obs@.take(i as int);
        let ghost now = obs@.take(i + 1);
        proof {
            assert(now.drop_last() =~= pre);
            assert(now.last() == obs@[i as int]);
            assert(obs@[i as int].1.wf());
        }
        let id = obs[i].0;
        if id < shown.len() {
            let counts = match &shown[id].discard {
                Some(Discard::Wildcard) => true,
                Some(Discard::Statement) => statements,
                None => false,
            };
            if counts && spawn_call(&obs[i].1, &shown[id].model) {
                out.push(shown[id].line);
            }
        }
        i = i + 1;
    }
    proof {
        assert(obs@.take(obs@.len() as int) =~= obs@);
    }
    out
}

/// The lines of the known spawn calls that a walk of `root` meets thrown
/// away: by `let _` always, by a statement when `statements` holds.
/// `shown[id]` describes the expression with that id.
pub fn discarded_spawns(ctx: &Context, root: &ScanNode, shown: &Vec<ShownExpr>, statements: bool) -> (r: Vec<usize>)
    requires
        ctx.wf(),
    ensures
        exists|c: Context, d: Context, obs: Seq<(usize, Context)>|
            #[trigger] picked((c, d, obs)) && copied(*ctx, c) && walked(c, *root, obs, d) && r@ == spawn_lines(
                obs,
                shown@,
                statements,
            ),
{
    let obs = observations(ctx, root);
    let r = spawn_lines_of(&obs, shown, statements);
    proof {
        let (c, d) = choose|c: Context, d: Context| #[trigger] picked((c, d)) && copied(*ctx, c) && walked(c, *root, obs@, d);
        assert(picked((c, d, obs@)));
    }
    r
}

/// Known spawn calls whose `JoinHandle` is discarded.
pub struct SpawnWithoutJoinDetector;

impl SpawnWithoutJoinDetector {
    pub fn name(&self) -> (r: &'static str)
        ensures
            r@ == "Spawn Without Join"@,
    {
        "Spawn Without Join"
    }

    /// `lines` are the lines of the confirmed discarded spawn calls.
    pub fn detect(&self, path: &str, lines: &Vec<usize>) -> (r: Vec<Smell>)
        ensures
            findings_are(
                r@,
                line_hits(lines@, FindingConfidence::High, "A known task/thread spawn call discards its JoinHandle"@),
                SmellCategory::Concurrency,
                "Spawn Without Join"@,
                Severity::Warning,
                path@,
                "Keep and join/await the handle, or document intentional detachment."@,
            ),
    {
        line_findings(
            lines,
            SmellCategory::Concurrency,
            self.name(),
            Severity::Warning,
            FindingConfidence::High,
            path,
            "A known task/thread spawn call discards its JoinHandle",
            "Keep and join/await the handle, or document intentional detachment.",
        )
    }
}

} // verus!
