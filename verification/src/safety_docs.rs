//! Which unsafe keywords of a file a written safety explanation covers: a
//! walk over the file's syntax, as far as explanations attach to it.
use vstd::prelude::*;
use crate::evidence::{names_of, ExprModel};
use crate::source_notes::{
    attribute_comment_list, closure_call_documented, code_token_ends, gap_start, join_lines, line_starts,
    mentions_safety, opt_view, pure_binding, spec_closure_call_documented, spec_leading, spec_mentions_safety,
    spec_offset, spec_pure_binding, BlockDocs, SafetyDocs, SourceNotes,
};
use crate::text::{chars_of, extend_str, str_eq, string_of};

verus! {

/// Where a syntax node starts, with what can explain it besides the gap
/// before it: its doc lines and the ends of its attributes.
pub struct NoteSite {
    pub at: (usize, usize),
    pub docs: Vec<String>,
    pub attr_ends: Vec<(usize, usize)>,
}

/// The syntax nodes that explanations attach to, in the order a visit
/// reaches them.
pub enum NoteNode {
    /// Other syntax: its parts are walked with the state unchanged.
    Plain(NoteList),
    /// An item. For an impl block, `impl_site` is where it starts; `marker`
    /// the text of its self type when it is an `unsafe impl Send` or `Sync`
    /// with no items; `unsafe_impl` where its `unsafe` keyword is.
    Item { impl_site: Option<NoteSite>, marker: Option<String>, unsafe_impl: Option<(usize, usize)>, parts: NoteList },
    /// A function or method with a body. For an `unsafe fn`, `unsafe_fn` is
    /// where its `unsafe` keyword is; `preamble` holds the start of each
    /// statement of its body and whether it is a `use` item.
    Function {
        site: NoteSite,
        unsafe_fn: Option<(usize, usize)>,
        preamble: Vec<((usize, usize), bool)>,
        parts: NoteList,
    },
    /// A block's statements.
    Block(StmtList),
    /// A `let` statement.
    Local { site: NoteSite, parts: NoteList },
    /// An `unsafe` block; `at` is where its keyword is.
    Unsafe { site: NoteSite, at: (usize, usize), parts: NoteList },
    /// A `match` arm.
    Arm { site: NoteSite, parts: NoteList },
    /// A closure or async block: it runs later, without the surrounding
    /// explanation.
    Deferred(NoteList),
}

pub enum NoteList {
    Nil,
    Cons(Box<NoteNode>, Box<NoteList>),
}

/// A call whose callee is a path: how many segments the path has, its last
/// segment, the path's text and the text of the first argument, if any.
pub struct PathCall {
    pub segments: usize,
    pub last: String,
    pub path: String,
    pub first_arg: Option<String>,
}

/// What a statement holds that bears on its unsafe calls, in the order a
/// visit reaches it.
pub enum UnsafeSite {
    /// An `unsafe` block at its keyword; `call` when its body is a single
    /// call by a path. Nothing inside the block is listed.
    Block { at: (usize, usize), call: Option<PathCall> },
    /// A closure and what its body holds.
    Closure { is_async: bool, body: UnsafeSites },
    /// An async block or a nested item: neither is looked into.
    Skipped,
}

pub enum UnsafeSites {
    Nil,
    Cons(Box<UnsafeSite>, Box<UnsafeSites>),
}

/// The text `path:argument` of a call by a path of more than one segment
/// with at least one argument.
pub open spec fn qualified_call(c: PathCall) -> Option<Seq<char>> {
    match c.first_arg {
        Some(arg) => if c.segments > 1 {
            Some(c.path@ + seq![':'] + arg@)
        } else {
            None
        },
        None => None,
    }
}

/// The qualified calls of the unsafe blocks outside closures, in order.
pub open spec fn direct_unsafe_calls(l: UnsafeSites) -> Seq<Seq<char>>
    decreases l,
{
    match l {
        UnsafeSites::Nil => Seq::empty(),
        UnsafeSites::Cons(s, rest) => {
            let here: Seq<Seq<char>> = match *s {
                UnsafeSite::Block { at, call } => match call {
                    Some(c) => match qualified_call(c) {
                        Some(t) => seq![t],
                        None => Seq::empty(),
                    },
                    None => Seq::empty(),
                },
                _ => Seq::empty(),
            };
            here + direct_unsafe_calls(*rest)
        },
    }
}

/// A statement's one unsafe call by a qualified path: present when exactly
/// one unsafe block outside closures, async blocks and items is such a call.
pub open spec fn spec_unsafe_call(l: UnsafeSites) -> Option<Seq<char>> {
    let calls = direct_unsafe_calls(l);
    if calls.len() == 1 {
        Some(calls[0])
    } else {
        None
    }
}

/// The unsafe blocks a statement holds outside async blocks, items, async
/// closures and closures inside closures.
pub open spec fn unsafe_block_count(l: UnsafeSites, in_closure: bool) -> nat
    decreases l,
{
    match l {
        UnsafeSites::Nil => 0,
        UnsafeSites::Cons(s, rest) => {
            let here: nat = match *s {
                UnsafeSite::Block { .. } => 1,
                UnsafeSite::Closure { is_async, body } => if in_closure || is_async {
                    0
                } else {
                    unsafe_block_count(body, true)
                },
                UnsafeSite::Skipped => 0,
            };
            here + unsafe_block_count(*rest, in_closure)
        },
    }
}

/// The last unsafe block inside a synchronous closure (not one in a closure
/// in a closure) whose body is a call by a path: the path's last segment and
/// where the block's keyword is.
pub open spec fn closure_unsafe_call(l: UnsafeSites, in_closure: bool) -> Option<(Seq<char>, (usize, usize))>
    decreases l,
{
    match l {
        UnsafeSites::Nil => None,
        UnsafeSites::Cons(s, rest) => {
            let later = closure_unsafe_call(*rest, in_closure);
            if later is Some {
                later
            } else {
                match *s {
                    UnsafeSite::Block { at, call } => match call {
                        Some(c) => if in_closure {
                            Some((c.last@, at))
                        } else {
                            None
                        },
                        None => None,
                    },
                    UnsafeSite::Closure { is_async, body } => if in_closure || is_async {
                        None
                    } else {
                        closure_unsafe_call(body, true)
                    },
                    UnsafeSite::Skipped => None,
                }
            }
        },
    }
}

/// A count held in a `usize`, stopping at its largest value.
pub open spec fn saturated(n: nat) -> usize {
    if n <= usize::MAX {
        n as usize
    } else {
        usize::MAX
    }
}

/// The text of a call by a qualified path, as `path:argument`.
fn qualified_call_text(c: &PathCall) -> (r: Option<String>)
    ensures
        opt_view(r) == qualified_call(*c),
{
    match &c.first_arg {
        Some(arg) => if c.segments > 1 {
            let mut v = chars_of(c.path.as_str());
            v.push(':');
            extend_str(&mut v, arg.as_str());
            Some(string_of(v.as_slice()))
        } else {
            None
        },
        None => None,
    }
}

/// How many qualified calls (counting up to two) the unsafe blocks outside
/// closures hold, and the first of them.
fn direct_calls(l: &UnsafeSites) -> (r: (usize, Option<String>))
    ensures
        r.0 == if direct_unsafe_calls(*l).len() < 2 { direct_unsafe_calls(*l).len() } else { 2 },
        direct_unsafe_calls(*l).len() > 0 ==> opt_view(r.1) == Some(direct_unsafe_calls(*l)[0]),
    decreases l,
{
    match l {
        UnsafeSites::Nil => (0, None),
        UnsafeSites::Cons(s, rest) => {
            let (n, first) = direct_calls(rest);
            let here = match &**s {
                UnsafeSite::Block { at, call } => match call {
                    Some(c) => qualified_call_text(c),
                    None => None,
                },
                _ => None,
            };
            match here {
                Some(t) => {
                    let n2: usize = if n < 1 { 1 } else { 2 };
                    (n2, Some(t))
                },
                None => (n, first),
            }
        },
    }
}

/// A statement's one unsafe call by a qualified path, as path and first
/// argument: present when exactly one unsafe block outside closures, async
/// blocks and nested items is a single call by a path of more than one
/// segment with an argument.
pub fn unsafe_call(sites: &UnsafeSites) -> (r: Option<String>)
    ensures
        opt_view(r) == spec_unsafe_call(*sites),
{
    let (n, first) = direct_calls(sites);
    if n == 1 {
        first
    } else {
        None
    }
}

/// The unsafe blocks of a statement, counted as `unsafe_block_count` does,
/// and the call of the last block in a synchronous closure that is one call
/// by a path.
pub struct ClosureUnsafe {
    pub unsafe_blocks: usize,
    pub call: Option<(String, (usize, usize))>,
}

/// A named position by the view of its name.
pub open spec fn named_at(o: Option<(String, (usize, usize))>) -> Option<(Seq<char>, (usize, usize))> {
    match o {
        Some((s, at)) => Some((s@, at)),
        None => None,
    }
}

/// `closure_unsafe_calls` over a list of sites, inside a closure or not.
fn closure_sites(l: &UnsafeSites, in_closure: bool) -> (r: ClosureUnsafe)
    ensures
        r.unsafe_blocks == saturated(unsafe_block_count(*l, in_closure)),
        named_at(r.call) == closure_unsafe_call(*l, in_closure),
    decreases l,
{
    match l {
        UnsafeSites::Nil => ClosureUnsafe { unsafe_blocks: 0, call: None },
        UnsafeSites::Cons(s, rest) => {
            let later = closure_sites(rest, in_closure);
            let (n, here): (usize, Option<(String, (usize, usize))>) = match &**s {
                UnsafeSite::Block { at, call } => match call {
                    Some(c) => if in_closure {
                        (1, Some((c.last.clone(), *at)))
                    } else {
                        (1, None)
                    },
                    None => (1, None),
                },
                UnsafeSite::Closure { is_async, body } => if in_closure || *is_async {
                    (0, None)
                } else {
                    let inner = closure_sites(body, true);
                    (inner.unsafe_blocks, inner.call)
                },
                UnsafeSite::Skipped => (0, None),
            };
            let call = match later.call {
                Some(c) => Some(c),
                None => here,
            };
            ClosureUnsafe { unsafe_blocks: n.saturating_add(later.unsafe_blocks), call }
        },
    }
}

/// The unsafe blocks of a statement outside async blocks, items, async
/// closures and closures in closures, and the function that the last of them
/// inside a synchronous closure calls by a path, with where its keyword is.
pub fn closure_unsafe_calls(sites: &UnsafeSites) -> (r: ClosureUnsafe)
    ensures
        r.unsafe_blocks == saturated(unsafe_block_count(*sites, false)),
        named_at(r.call) == closure_unsafe_call(*sites, false),
{
    closure_sites(sites, false)
}

/// A statement of a block, with what its block needs to know of it.
pub struct NoteStmt {
    pub at: (usize, usize),
    /// What the statement holds that bears on its unsafe calls.
    pub unsafe_sites: UnsafeSites,
    /// For a `let`, its initializer and whether it has an `else`.
    pub local_init: Option<(Option<ExprModel>, bool)>,
    pub node: NoteNode,
}

pub enum StmtList {
    Nil,
    Cons(Box<NoteStmt>, Box<StmtList>),
}

/// The text a walk reads: the characters, where its lines start, and where
/// its tokens end.
pub struct NotesView {
    pub chars: Seq<char>,
    pub starts: Seq<usize>,
    pub ends: Seq<usize>,
}

/// The text of a source file as its notes see it.
pub open spec fn code_view(code: Seq<char>) -> NotesView {
    let starts = line_starts(code);
    let toks = code_token_ends(code);
    NotesView {
        chars: code,
        starts,
        ends: Seq::new(toks.len(), |i: int| spec_offset(code, starts, toks[i].0, toks[i].1)),
    }
}

pub open spec fn notes_view(n: SourceNotes) -> NotesView {
    NotesView { chars: n.chars@, starts: n.starts@, ends: n.ends@ }
}

/// The comment gap before a node starting at `at`.
pub open spec fn gap_at(v: NotesView, at: (usize, usize)) -> Seq<char> {
    let end = spec_offset(v.chars, v.starts, at.0, at.1);
    spec_leading(v.chars, gap_start(v.ends, end), end)
}

/// A node explains its own safety: by the gap before it, its doc lines, or
/// comments trailing its attributes.
pub open spec fn own_note(v: NotesView, site: NoteSite) -> bool {
    ||| spec_mentions_safety(gap_at(v, site.at))
    ||| spec_mentions_safety(join_lines(names_of(site.docs@)))
    ||| spec_mentions_safety(join_lines(attribute_comment_list(v.chars, v.starts, site.attr_ends@)))
}

/// The state of a walk: whether the current position is explained, the
/// preceding marker impl (its self type and whether it was explained), and
/// the explained unsafe keywords so far.
pub struct WalkState {
    pub documented: bool,
    pub previous_impl: Option<(Seq<char>, bool)>,
    pub found: Seq<(usize, usize)>,
}

/// The state a walk of a file starts from.
pub open spec fn empty_walk() -> WalkState {
    WalkState { documented: false, previous_impl: None, found: Seq::empty() }
}

pub open spec fn with_doc(st: WalkState, d: bool) -> WalkState {
    WalkState { documented: d, previous_impl: st.previous_impl, found: st.found }
}

/// An `unsafe` keyword at `at` is recorded when the position is explained.
pub open spec fn recorded(st: WalkState, at: (usize, usize)) -> WalkState {
    if st.documented {
        WalkState { documented: st.documented, previous_impl: st.previous_impl, found: st.found.push(at) }
    } else {
        st
    }
}

/// An unsafe function documents its body when a comment before one of its
/// leading `use` items, or before its first other statement, explains it.
pub open spec fn preamble_documented(v: NotesView, pre: Seq<((usize, usize), bool)>, d: bool) -> bool
    decreases pre.len(),
{
    if pre.len() == 0 {
        d
    } else if spec_mentions_safety(gap_at(v, pre[0].0)) {
        true
    } else if !pre[0].1 {
        d
    } else {
        preamble_documented(v, pre.drop_first(), d)
    }
}

pub open spec fn walk_node(v: NotesView, n: NoteNode, st: WalkState) -> WalkState
    decreases n,
{
    match n {
        NoteNode::Plain(l) => walk_list(v, l, st),
        NoteNode::Deferred(l) => with_doc(walk_list(v, l, with_doc(st, false)), st.documented),
        NoteNode::Local { site, parts } => with_doc(
            walk_list(v, parts, with_doc(st, st.documented || own_note(v, site))),
            st.documented,
        ),
        NoteNode::Arm { site, parts } => with_doc(
            walk_list(v, parts, with_doc(st, st.documented || own_note(v, site))),
            st.documented,
        ),
        NoteNode::Unsafe { site, at, parts } => with_doc(
            walk_list(v, parts, recorded(with_doc(st, st.documented || own_note(v, site)), at)),
            st.documented,
        ),
        NoteNode::Function { site, unsafe_fn, preamble, parts } => {
                let d0 = own_note(v, site);
                let s1 = match unsafe_fn {
                    Some(tok) => recorded(with_doc(st, preamble_documented(v, preamble@, d0)), tok),
                    None => with_doc(st, d0),
                };
                let d1 = spec_mentions_safety(join_lines(names_of(site.docs@)));
                with_doc(walk_list(v, parts, with_doc(s1, d1)), st.documented)
            },
            NoteNode::Item { impl_site, marker, unsafe_impl, parts } => {
                    let d = match impl_site {
                        Some(site) => own_note(v, site) || (marker matches Some(name) && st.previous_impl == Some(
                            (name@, true),
                        )),
                        None => false,
                    };
                    let pair = match (impl_site, marker) {
                        (Some(_), Some(name)) => Some((name@, d)),
                        _ => None,
                    };
                    let s1 = WalkState { documented: d, previous_impl: None, found: st.found };
                    let s2 = match unsafe_impl {
                        Some(at) => recorded(s1, at),
                        None => s1,
                    };
                    let r = walk_list(v, parts, s2);
                    WalkState { documented: st.documented, previous_impl: pair, found: r.found }
                },
                NoteNode::Block(stmts) => with_doc(
                    walk_stmts(v, stmts, st, (st.documented, false, None)),
                    st.documented,
                ),
            }
        }

        pub open spec fn walk_list(v: NotesView, l: NoteList, st: WalkState) -> WalkState
            decreases l,
        {
            match l {
                NoteList::Nil => st,
                NoteList::Cons(n, rest) => walk_list(v, *rest, walk_node(v, *n, st)),
            }
        }

        /// Whether a statement is explained, given the block's state: inherited,
        /// pending after an explained pure binding, and the previous explained call.
        pub open spec fn stmt_documented(
            bd: (bool, bool, Option<Seq<char>>),
            gap: Seq<char>,
            call: Option<Seq<char>>,
        ) -> bool {
            let related = crate::source_notes::blank_after_first(crate::source_notes::text_lines(gap)) <= 1
                && call is Some && call == bd.2;
            bd.0 || bd.1 || spec_mentions_safety(gap) || related
        }

        pub open spec fn stmt_pure(s: NoteStmt) -> bool {
            match s.local_init {
                Some((init, diverges)) => spec_pure_binding(init, diverges),
                None => false,
            }
        }

        pub open spec fn walk_stmts(
            v: NotesView,
            l: StmtList,
            st: WalkState,
            bd: (bool, bool, Option<Seq<char>>),
        ) -> WalkState
            decreases l,
        {
            match l {
                StmtList::Nil => st,
                StmtList::Cons(s, rest) => {
                    let gap = gap_at(v, s.at);
                    let st1 = match closure_unsafe_call(s.unsafe_sites, false) {
                        Some((name, at)) => if spec_closure_call_documented(
                            gap,
                            saturated(unsafe_block_count(s.unsafe_sites, false)) as nat,
                            Some(name),
                        ) {
                            WalkState { documented: st.documented, previous_impl: st.previous_impl, found: st.found.push(at) }
                        } else {
                            st
                        },
                        None => st,
                    };
                    let call = spec_unsafe_call(s.unsafe_sites);
                    let doc = stmt_documented(bd, gap, call);
                    let pure = stmt_pure(*s);
                    let bd2 = (bd.0, pure && doc, if pure {
                        bd.2
                    } else if doc {
                        call
                    } else {
                        None
                    });
                    walk_stmts(v, *rest, walk_node(v, s.node, with_doc(st1, doc)), bd2)
                },
            }
        }

        /// `at` is the keyword of an unsafe block among a statement's sites.
        pub open spec fn block_keyword_in(l: UnsafeSites, at: (usize, usize)) -> bool
            decreases l,
        {
            match l {
                UnsafeSites::Nil => false,
                UnsafeSites::Cons(s, rest) => {
                    let here = match *s {
                        UnsafeSite::Block { at: a, .. } => a == at,
                        UnsafeSite::Closure { body, .. } => block_keyword_in(body, at),
                        UnsafeSite::Skipped => false,
                    };
                    here || block_keyword_in(*rest, at)
                },
            }
        }

        /// `at` is an `unsafe` keyword of the syntax: of an unsafe block, an unsafe
        /// function or an unsafe impl, or of an unsafe block a statement holds.
        pub open spec fn keyword_in(n: NoteNode, at: (usize, usize)) -> bool
            decreases n,
        {
            match n {
                NoteNode::Plain(l) => keyword_in_list(l, at),
                NoteNode::Deferred(l) => keyword_in_list(l, at),
                NoteNode::Local { parts, .. } => keyword_in_list(parts, at),
                NoteNode::Arm { parts, .. } => keyword_in_list(parts, at),
                NoteNode::Unsafe { at: a, parts, .. } => a == at || keyword_in_list(parts, at),
                NoteNode::Function { unsafe_fn, parts, .. } => unsafe_fn == Some(at) || keyword_in_list(parts, at),
                NoteNode::Item { unsafe_impl, parts, .. } => unsafe_impl == Some(at) || keyword_in_list(parts, at),
                NoteNode::Block(stmts) => keyword_in_stmts(stmts, at),
            }
        }

        pub open spec fn keyword_in_list(l: NoteList, at: (usize, usize)) -> bool
            decreases l,
        {
            match l {
                NoteList::Nil => false,
                NoteList::Cons(n, rest) => keyword_in(*n, at) || keyword_in_list(*rest, at),
            }
        }

        pub open spec fn keyword_in_stmts(l: StmtList, at: (usize, usize)) -> bool
            decreases l,
        {
            match l {
                StmtList::Nil => false,
                StmtList::Cons(s, rest) => block_keyword_in(s.unsafe_sites, at) || keyword_in(s.node, at)
                    || keyword_in_stmts(*rest, at),
            }
        }

        /// The closure call a statement names is one of its unsafe blocks.
proof fn lemma_closure_call_is_a_block(l: UnsafeSites, in_closure: bool)
            ensures
                closure_unsafe_call(l, in_closure) matches Some((n, at)) ==> block_keyword_in(l, at),
            decreases l,
        {
            match l {
                UnsafeSites::Nil => {},
                UnsafeSites::Cons(s, rest) => {
                    lemma_closure_call_is_a_block(*rest, in_closure);
                    match *s {
                        UnsafeSite::Closure { body, .. } => lemma_closure_call_is_a_block(body, true),
                        _ => {},
                    }
                },
            }
        }

        proof fn lemma_push_contains(a: Seq<(usize, usize)>, x: (usize, usize), y: (usize, usize))
            ensures
                a.push(x).contains(y) ==> a.contains(y) || y == x,
        {
            if a.push(x).contains(y) && y != x {
                let j = choose|j: int| 0 <= j < a.push(x).len() && a.push(x)[j] == y;
                assert(j < a.len());
                assert(a[j] == y);
            }
        }

        /// The positions after `recorded` are those before, or `at`.
        proof fn lemma_recorded_contains(st: WalkState, at: (usize, usize), y: (usize, usize))
            ensures
                recorded(st, at).found.contains(y) ==> st.found.contains(y) || y == at,
        {
            lemma_push_contains(st.found, at, y);
        }

        proof fn lemma_unsafe_records_keywords(v: NotesView, n: NoteNode, st: WalkState)
            requires
                n is Unsafe,
            ensures
                forall|k: int| 0 <= k < walk_node(v, n, st).found.len() ==> st.found.contains(
                    #[trigger] walk_node(v, n, st).found[k],
                ) || keyword_in(n, walk_node(v, n, st).found[k]),
            decreases n, 0int,
        {
            match n {
                NoteNode::Unsafe { site, at, parts } => {
                    let s0 = recorded(with_doc(st, st.documented || own_note(v, site)), at);
                    lemma_walk_list_records_keywords(v, parts, s0);
                    let r = walk_list(v, parts, s0).found;
                    assert(walk_node(v, n, st).found == r);
                    assert forall|k: int| 0 <= k < r.len() implies st.found.contains(#[trigger] r[k]) || keyword_in(n, r[k]) by {
                        lemma_recorded_contains(with_doc(st, st.documented || own_note(v, site)), at, r[k]);
                    }
        },
        _ => {},
    }
}

proof fn lemma_function_records_keywords(v: NotesView, n: NoteNode, st: WalkState)
    requires
        n is Function,
    ensures
        forall|k: int| 0 <= k < walk_node(v, n, st).found.len() ==> st.found.contains(
            #[trigger] walk_node(v, n, st).found[k],
        ) || keyword_in(n, walk_node(v, n, st).found[k]),
    decreases n, 0int,
{
    match n {
        NoteNode::Function { site, unsafe_fn, preamble, parts } => {
        let d0 = own_note(v, site);
        let s1 = match unsafe_fn {
            Some(tok) => recorded(with_doc(st, preamble_documented(v, preamble@, d0)), tok),
            None => with_doc(st, d0),
        };
        let d1 = spec_mentions_safety(join_lines(names_of(site.docs@)));
        lemma_walk_list_records_keywords(v, parts, with_doc(s1, d1));
        let r = walk_list(v, parts, with_doc(s1, d1)).found;
        assert(walk_node(v, n, st).found == r);
        assert forall|k: int| 0 <= k < r.len() implies st.found.contains(#[trigger] r[k]) || keyword_in(n, r[k]) by {
            if let Some(tok) = unsafe_fn {
                lemma_recorded_contains(with_doc(st, preamble_documented(v, preamble@, d0)), tok, r[k]);
            }
        }
        },
        _ => {},
    }
}

proof fn lemma_item_records_keywords(v: NotesView, n: NoteNode, st: WalkState)
    requires
        n is Item,
    ensures
        forall|k: int| 0 <= k < walk_node(v, n, st).found.len() ==> st.found.contains(
            #[trigger] walk_node(v, n, st).found[k],
        ) || keyword_in(n, walk_node(v, n, st).found[k]),
    decreases n, 0int,
{
    match n {
        NoteNode::Item { impl_site, marker, unsafe_impl, parts } => {
        let d = match impl_site {
            Some(site) => own_note(v, site) || (marker matches Some(name) && st.previous_impl == Some((name@, true))),
            None => false,
        };
        let s1 = WalkState { documented: d, previous_impl: None, found: st.found };
        let s2 = match unsafe_impl {
            Some(at) => recorded(s1, at),
            None => s1,
        };
        lemma_walk_list_records_keywords(v, parts, s2);
        let r = walk_list(v, parts, s2).found;
        assert(walk_node(v, n, st).found == r);
        assert forall|k: int| 0 <= k < r.len() implies st.found.contains(#[trigger] r[k]) || keyword_in(n, r[k]) by {
            if let Some(at) = unsafe_impl {
                lemma_recorded_contains(s1, at, r[k]);
            }
        }
        },
        _ => {},
    }
}

/// What a walk adds to the recorded positions are `unsafe` keywords of the
/// node it walks.
pub proof fn lemma_walk_node_records_keywords(v: NotesView, n: NoteNode, st: WalkState)
    ensures
        forall|k: int| 0 <= k < walk_node(v, n, st).found.len() ==> st.found.contains(
            #[trigger] walk_node(v, n, st).found[k],
        ) || keyword_in(n, walk_node(v, n, st).found[k]),
    decreases n, 1int,
{
    match n {
        NoteNode::Plain(l) => lemma_walk_list_records_keywords(v, l, st),
        NoteNode::Deferred(l) => lemma_walk_list_records_keywords(v, l, with_doc(st, false)),
        NoteNode::Local { site, parts } => lemma_walk_list_records_keywords(
            v,
            parts,
            with_doc(st, st.documented || own_note(v, site)),
        ),
        NoteNode::Arm { site, parts } => lemma_walk_list_records_keywords(
            v,
            parts,
            with_doc(st, st.documented || own_note(v, site)),
        ),
        NoteNode::Unsafe { .. } => lemma_unsafe_records_keywords(v, n, st),
        NoteNode::Function { .. } => lemma_function_records_keywords(v, n, st),
        NoteNode::Item { .. } => lemma_item_records_keywords(v, n, st),
        NoteNode::Block(stmts) => lemma_walk_stmts_records_keywords(v, stmts, st, (st.documented, false, None)),
    }
}

pub proof fn lemma_walk_list_records_keywords(v: NotesView, l: NoteList, st: WalkState)
    ensures
        forall|k: int| 0 <= k < walk_list(v, l, st).found.len() ==> st.found.contains(
            #[trigger] walk_list(v, l, st).found[k],
        ) || keyword_in_list(l, walk_list(v, l, st).found[k]),
    decreases l, 0int,
{
    match l {
        NoteList::Nil => {},
        NoteList::Cons(n, rest) => {
            let s1 = walk_node(v, *n, st);
            lemma_walk_node_records_keywords(v, *n, st);
            lemma_walk_list_records_keywords(v, *rest, s1);
            let r = walk_list(v, l, st).found;
            assert forall|k: int| 0 <= k < r.len() implies st.found.contains(#[trigger] r[k]) || keyword_in_list(l, r[k]) by {
                if s1.found.contains(r[k]) {
                    let j = choose|j: int| 0 <= j < s1.found.len() && s1.found[j] == r[k];
                    assert(st.found.contains(s1.found[j]) || keyword_in(*n, s1.found[j]));
                }
            }
        },
    }
}

#[verifier::spinoff_prover]
#[verifier::rlimit(60)]
pub proof fn lemma_walk_stmts_records_keywords(
    v: NotesView,
    l: StmtList,
    st: WalkState,
    bd: (bool, bool, Option<Seq<char>>),
)
    ensures
        forall|k: int| 0 <= k < walk_stmts(v, l, st, bd).found.len() ==> st.found.contains(
            #[trigger] walk_stmts(v, l, st, bd).found[k],
        ) || keyword_in_stmts(l, walk_stmts(v, l, st, bd).found[k]),
    decreases l, 0int,
{
    match l {
        StmtList::Nil => {},
        StmtList::Cons(s, rest) => {
            let gap = gap_at(v, s.at);
            let st1 = match closure_unsafe_call(s.unsafe_sites, false) {
                Some((name, at)) => if spec_closure_call_documented(
                    gap,
                    saturated(unsafe_block_count(s.unsafe_sites, false)) as nat,
                    Some(name),
                ) {
                    WalkState { documented: st.documented, previous_impl: st.previous_impl, found: st.found.push(at) }
                } else {
                    st
                },
                None => st,
            };
            lemma_closure_call_is_a_block(s.unsafe_sites, false);
            let call = spec_unsafe_call(s.unsafe_sites);
            let doc = stmt_documented(bd, gap, call);
            let pure = stmt_pure(*s);
            let bd2 = (bd.0, pure && doc, if pure {
                bd.2
            } else if doc {
                call
            } else {
                None
            });
            let s2 = walk_node(v, s.node, with_doc(st1, doc));
            lemma_walk_node_records_keywords(v, s.node, with_doc(st1, doc));
            lemma_walk_stmts_records_keywords(v, *rest, s2, bd2);
            let r = walk_stmts(v, l, st, bd).found;
            assert forall|k: int| 0 <= k < r.len() implies st.found.contains(#[trigger] r[k]) || keyword_in_stmts(l, r[k]) by {
                if s2.found.contains(r[k]) {
                    let j = choose|j: int| 0 <= j < s2.found.len() && s2.found[j] == r[k];
                    assert(with_doc(st1, doc).found.contains(s2.found[j]) || keyword_in(s.node, s2.found[j]));
                    if let Some((name, at)) = closure_unsafe_call(s.unsafe_sites, false) {
                        lemma_push_contains(st.found, at, r[k]);
                    }
                }
            }
        },
    }
}

/// A walk in progress.
pub struct SafetyWalk {
    pub documented: bool,
    pub previous_impl: Option<(String, bool)>,
    pub found: SafetyDocs,
}

pub open spec fn walk_view(w: SafetyWalk) -> WalkState {
    WalkState {
        documented: w.documented,
        previous_impl: match w.previous_impl {
            Some((s, b)) => Some((s@, b)),
            None => None,
        },
        found: w.found.found@,
    }
}

fn copy_string(s: &String) -> (r: String)
    ensures
        r@ == s@,
{
    s.clone()
}

fn site_note(notes: &SourceNotes, site: &NoteSite) -> (r: bool)
    requires
        notes.wf(),
    ensures
        r == own_note(notes_view(*notes), *site),
{
    notes.own(site.at.0, site.at.1, &site.docs, &site.attr_ends)
}

fn gap_of(notes: &SourceNotes, at: (usize, usize)) -> (r: String)
    requires
        notes.wf(),
    ensures
        r@ == gap_at(notes_view(*notes), at),
{
    notes.leading(at.0, at.1)
}

fn record_at(w: &mut SafetyWalk, at: (usize, usize))
    ensures
        walk_view(*final(w)) == recorded(walk_view(*old(w)), at),
{
    let d = w.documented;
    w.found.record(d, at);
}


fn preamble_exec(notes: &SourceNotes, pre: &Vec<((usize, usize), bool)>, d0: bool) -> (r: bool)
    requires
        notes.wf(),
    ensures
        r == preamble_documented(notes_view(*notes), pre@, d0),
{
    let ghost v = notes_view(*notes);
    let mut i: usize = 0;
    assert(pre@.skip(0) =~= pre@);
    while i < pre.len()
        invariant
            notes.wf(),
            v == notes_view(*notes),
            i <= pre@.len(),
            preamble_documented(v, pre@, d0) == preamble_documented(v, pre@.skip(i as int), d0),
        decreases pre@.len() - i,
    {
        let ghost rest = pre@.skip(i as int);
        assert(rest[0] == pre@[i as int]);
        assert(rest.drop_first() =~= pre@.skip(i + 1));
        let gap = gap_of(notes, pre[i].0);
        if mentions_safety(gap.as_str()) {
            return true;
        }
        if !pre[i].1 {
            return d0;
        }
        i = i + 1;
    }
    assert(pre@.skip(i as int).len() == 0);
    d0
}

#[verifier::rlimit(40)]
fn walk_function(notes: &SourceNotes, n: &NoteNode, w: &mut SafetyWalk)
    requires
        notes.wf(),
        n is Function,
    ensures
        walk_view(*final(w)) == walk_node(notes_view(*notes), *n, walk_view(*old(w))),
    decreases n, 0int,
{
    let saved = w.documented;
    match n {
        NoteNode::Function { site, unsafe_fn, preamble, parts } => {
            let d0 = site_note(notes, site);
            w.documented = d0;
            match unsafe_fn {
                Some(tok) => {
                    w.documented = preamble_exec(notes, preamble, d0);
                    record_at(w, *tok);
                },
                None => {},
            }
            let docs = crate::source_notes::doc_text(&site.docs);
            w.documented = mentions_safety(docs.as_str());
            walk_list_exec(notes, parts, w);
            w.documented = saved;
        },
        _ => {},
    }
}

#[verifier::rlimit(40)]
fn walk_item(notes: &SourceNotes, n: &NoteNode, w: &mut SafetyWalk)
    requires
        notes.wf(),
        n is Item,
    ensures
        walk_view(*final(w)) == walk_node(notes_view(*notes), *n, walk_view(*old(w))),
    decreases n, 0int,
{
    let saved = w.documented;
    match n {
        NoteNode::Item { impl_site, marker, unsafe_impl, parts } => {
            let d = match impl_site {
                Some(site) => site_note(notes, site) || match (marker, &w.previous_impl) {
                    (Some(name), Some((prev, docs))) => *docs && str_eq(prev.as_str(), name.as_str()),
                    _ => false,
                },
                None => false,
            };
            let pair = match (impl_site, marker) {
                (Some(_), Some(name)) => Some((copy_string(name), d)),
                _ => None,
            };
            w.documented = d;
            w.previous_impl = None;
            match unsafe_impl {
                Some(at) => record_at(w, *at),
                None => {},
            }
            walk_list_exec(notes, parts, w);
            w.previous_impl = pair;
            w.documented = saved;
        },
        _ => {},
    }
}

fn walk_node_exec(notes: &SourceNotes, n: &NoteNode, w: &mut SafetyWalk)
    requires
        notes.wf(),
    ensures
        walk_view(*final(w)) == walk_node(notes_view(*notes), *n, walk_view(*old(w))),
    decreases n, 1int,
{
    let ghost v = notes_view(*notes);
    let saved = w.documented;
    match n {
        NoteNode::Plain(l) => {
            walk_list_exec(notes, l, w);
        },
        NoteNode::Deferred(l) => {
            w.documented = false;
            walk_list_exec(notes, l, w);
            w.documented = saved;
        },
        NoteNode::Local { site, parts } => {
            w.documented = saved || site_note(notes, site);
            walk_list_exec(notes, parts, w);
            w.documented = saved;
        },
        NoteNode::Arm { site, parts } => {
            w.documented = saved || site_note(notes, site);
            walk_list_exec(notes, parts, w);
            w.documented = saved;
        },
        NoteNode::Unsafe { site, at, parts } => {
            w.documented = saved || site_note(notes, site);
            record_at(w, *at);
            walk_list_exec(notes, parts, w);
            w.documented = saved;
        },
        NoteNode::Function { .. } => {
            walk_function(notes, n, w);
        },
        NoteNode::Item { .. } => {
            walk_item(notes, n, w);
        },
        NoteNode::Block(stmts) => {
            let mut bd = BlockDocs::new(saved);
            walk_stmts_exec(notes, stmts, w, &mut bd);
            w.documented = saved;
        },
    }
}

fn walk_list_exec(notes: &SourceNotes, l: &NoteList, w: &mut SafetyWalk)
    requires
        notes.wf(),
    ensures
        walk_view(*final(w)) == walk_list(notes_view(*notes), *l, walk_view(*old(w))),
    decreases l, 0int,
{
    match l {
        NoteList::Nil => {},
        NoteList::Cons(n, rest) => {
            walk_node_exec(notes, n, w);
            walk_list_exec(notes, rest, w);
        },
    }
}

fn walk_stmts_exec(notes: &SourceNotes, l: &StmtList, w: &mut SafetyWalk, bd: &mut BlockDocs)
    requires
        notes.wf(),
    ensures
        walk_view(*final(w)) == walk_stmts(
            notes_view(*notes),
            *l,
            walk_view(*old(w)),
            (old(bd).inherited, old(bd).pending, opt_view(old(bd).previous_call)),
        ),
    decreases l, 0int,
{
    match l {
        StmtList::Nil => {},
        StmtList::Cons(s, rest) => {
            let gap = gap_of(notes, s.at);
            let closure = closure_unsafe_calls(&s.unsafe_sites);
            match &closure.call {
                Some((name, at)) => {
                    if closure_call_documented(gap.as_str(), closure.unsafe_blocks, Some(name.as_str())) {
                        w.found.record(true, *at);
                    }
                },
                None => {},
            }
            let pure = match &s.local_init {
                Some((init, diverges)) => pure_binding(
                    match init {
                        Some(e) => Some(e),
                        None => None,
                    },
                    *diverges,
                ),
                None => false,
            };
            let call = unsafe_call(&s.unsafe_sites);
            let doc = bd.statement(gap.as_str(), call, pure);
            w.documented = doc;
            walk_node_exec(notes, &s.node, w);
            walk_stmts_exec(notes, rest, w, bd);
        },
    }
}

impl SafetyDocs {
    /// The unsafe keywords of a file that a written explanation covers,
    /// given the file's text and the syntax nodes explanations attach to.
    pub fn new(code: &str, file: &NoteNode) -> (r: SafetyDocs)
        ensures
            r.found@ == walk_node(code_view(code@), *file, empty_walk()).found,
    {
        let notes = SourceNotes::from_code(code);
        assert(notes.chars@ =~= code_view(code@).chars);
        assert(notes.starts@ =~= code_view(code@).starts);
        assert(notes.ends@ =~= code_view(code@).ends);
        assert(notes_view(notes) == code_view(code@));
        let mut w = SafetyWalk { documented: false, previous_impl: None, found: SafetyDocs::empty() };
        assert(w.found.found@ =~= Seq::<(usize, usize)>::empty());
        assert(walk_view(w) == WalkState { documented: false, previous_impl: None, found: Seq::<(usize, usize)>::empty() });
        walk_node_exec(&notes, file, &mut w);
        w.found
    }
}

} // verus!
