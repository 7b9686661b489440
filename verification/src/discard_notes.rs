//! Which discarded results a written note calls intentional: a walk over
//! the syntax that notes attach to.
use vstd::prelude::*;
use crate::evidence::names_of;
use crate::safety_docs::{code_view, gap_at, notes_view, NotesView};
use crate::source_notes::{doc_text, intentional_note, join_lines, spec_intentional_note, SourceNotes};

verus! {

/// The syntax nodes that notes of intent attach to, in the order a visit
/// reaches them.
pub enum DiscardNode {
    /// Other syntax: its parts keep the surrounding note.
    Plain(DiscardList),
    /// A function; its doc lines decide whether its body is noted.
    Function { docs: Vec<String>, parts: DiscardList },
    /// A block's statements.
    Block(DiscardStmts),
    /// A closure or async block: it starts without a note.
    Deferred(DiscardList),
    /// The initializer of a `let _ = ..;`, by its number.
    Discard { id: usize, parts: DiscardList },
}

pub enum DiscardList {
    Nil,
    Cons(Box<DiscardNode>, Box<DiscardList>),
}

/// Statements, each with where it starts.
pub enum DiscardStmts {
    Nil,
    Cons((usize, usize), Box<DiscardNode>, Box<DiscardStmts>),
}

/// The discards under a node that a note covers, in order, given whether
/// the node's position is noted.
pub open spec fn noted_in(v: NotesView, n: DiscardNode, noted: bool) -> Seq<usize>
    decreases n,
{
    match n {
        DiscardNode::Plain(l) => noted_list(v, l, noted),
        DiscardNode::Function { docs, parts } => noted_list(
            v,
            parts,
            spec_intentional_note(join_lines(names_of(docs@))),
        ),
        DiscardNode::Block(stmts) => noted_stmts(v, stmts, noted),
        DiscardNode::Deferred(l) => noted_list(v, l, false),
        DiscardNode::Discard { id, parts } => (if noted {
            seq![id]
        } else {
            Seq::empty()
        }) + noted_list(v, parts, noted),
    }
}

pub open spec fn noted_list(v: NotesView, l: DiscardList, noted: bool) -> Seq<usize>
    decreases l,
{
    match l {
        DiscardList::Nil => Seq::empty(),
        DiscardList::Cons(n, rest) => noted_in(v, *n, noted) + noted_list(v, *rest, noted),
    }
}

/// Each statement of a block is noted when the block is, or when the comment
/// gap before it says discarding is intentional.
pub open spec fn noted_stmts(v: NotesView, l: DiscardStmts, inherited: bool) -> Seq<usize>
    decreases l,
{
    match l {
        DiscardStmts::Nil => Seq::empty(),
        DiscardStmts::Cons(at, n, rest) => noted_in(
            v,
            *n,
            inherited || spec_intentional_note(gap_at(v, at)),
        ) + noted_stmts(v, *rest, inherited),
    }
}

fn append_ids(out: &mut Vec<usize>, more: Vec<usize>)
    ensures
        final(out)@ == old(out)@ + more@,
{
    let mut more = more;
    out.append(&mut more);
}

fn noted_in_exec(notes: &SourceNotes, n: &DiscardNode, noted: bool) -> (r: Vec<usize>)
    requires
        notes.wf(),
    ensures
        r@ == noted_in(notes_view(*notes), *n, noted),
    decreases n, 1int,
{
    match n {
        DiscardNode::Plain(l) => noted_list_exec(notes, l, noted),
        DiscardNode::Function { docs, parts } => {
            let d = doc_text(docs);
            noted_list_exec(notes, parts, intentional_note(d.as_str()))
        },
        DiscardNode::Block(stmts) => noted_stmts_exec(notes, stmts, noted),
        DiscardNode::Deferred(l) => noted_list_exec(notes, l, false),
        DiscardNode::Discard { id, parts } => {
            let mut out: Vec<usize> = Vec::new();
            if noted {
                out.push(*id);
            }
            let rest = noted_list_exec(notes, parts, noted);
            append_ids(&mut out, rest);
            assert(out@ =~= (if noted { seq![*id] } else { Seq::empty() }) + noted_list(
                notes_view(*notes),
                *parts,
                noted,
            ));
            out
        },
    }
}

fn noted_list_exec(notes: &SourceNotes, l: &DiscardList, noted: bool) -> (r: Vec<usize>)
    requires
        notes.wf(),
    ensures
        r@ == noted_list(notes_view(*notes), *l, noted),
    decreases l, 0int,
{
    match l {
        DiscardList::Nil => Vec::new(),
        DiscardList::Cons(n, rest) => {
            let mut out = noted_in_exec(notes, n, noted);
            let more = noted_list_exec(notes, rest, noted);
            append_ids(&mut out, more);
            out
        },
    }
}

fn noted_stmts_exec(notes: &SourceNotes, l: &DiscardStmts, inherited: bool) -> (r: Vec<usize>)
    requires
        notes.wf(),
    ensures
        r@ == noted_stmts(notes_view(*notes), *l, inherited),
    decreases l, 0int,
{
    match l {
        DiscardStmts::Nil => Vec::new(),
        DiscardStmts::Cons(at, n, rest) => {
            let gap = notes.leading(at.0, at.1);
            let noted = inherited || intentional_note(gap.as_str());
            let mut out = noted_in_exec(notes, n, noted);
            let more = noted_stmts_exec(notes, rest, inherited);
            append_ids(&mut out, more);
            out
        },
    }
}

/// The numbers of the discards in a file that a note calls intentional,
/// given the file's text and the syntax nodes notes attach to.
pub fn noted_discards(code: &str, file: &DiscardNode) -> (r: Vec<usize>)
    ensures
        r@ == noted_in(code_view(code@), *file, false),
{
    let notes = SourceNotes::from_code(code);
    assert(notes.chars@ =~= code_view(code@).chars);
    assert(notes.starts@ =~= code_view(code@).starts);
    assert(notes.ends@ =~= code_view(code@).ends);
    assert(notes_view(notes) == code_view(code@));
    noted_in_exec(&notes, file, false)
}

} // verus!
