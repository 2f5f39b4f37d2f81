//! Putting the pieces of the command line back together.
//!
//! The text of a piece is appended to the argument in progress. A piece that
//! is marked incomplete leaves the argument open for the next piece; any
//! other piece completes it. An argument left open at the end is kept rather
//! than dropped, unless it is empty.

use vstd::prelude::*;
use crate::text::texts;

verus! {

/// A piece of text and whether the argument goes on after it.
pub struct TextPiece {
    pub text: Seq<char>,
    pub incomplete: bool,
}

/// The state of the assembly: the arguments completed so far and the text of
/// the argument in progress.
pub struct AssemblyView {
    pub args: Seq<Seq<char>>,
    pub pending: Seq<char>,
}

/// The assembly before any piece.
pub open spec fn empty_assembly() -> AssemblyView {
    AssemblyView { args: Seq::empty(), pending: Seq::empty() }
}

/// The assembly after one more piece.
pub open spec fn with_piece(a: AssemblyView, text: Seq<char>, incomplete: bool) -> AssemblyView {
    if incomplete {
        AssemblyView { args: a.args, pending: a.pending + text }
    } else {
        AssemblyView { args: a.args.push(a.pending + text), pending: Seq::empty() }
    }
}

/// The assembly after all of `pieces`, taken in order.
pub open spec fn assembly_of(pieces: Seq<TextPiece>) -> AssemblyView
    decreases pieces.len(),
{
    if pieces.len() == 0 {
        empty_assembly()
    } else {
        with_piece(assembly_of(pieces.drop_last()), pieces.last().text, pieces.last().incomplete)
    }
}

/// The arguments of an assembly once no piece is left: an argument still in
/// progress is completed, unless it is empty.
pub open spec fn finished(a: AssemblyView) -> Seq<Seq<char>> {
    if a.pending.len() > 0 {
        a.args.push(a.pending)
    } else {
        a.args
    }
}

/// The arguments that `pieces` make up.
pub open spec fn assembled(pieces: Seq<TextPiece>) -> Seq<Seq<char>> {
    finished(assembly_of(pieces))
}

/// Pieces of which none is incomplete are one argument each.
pub proof fn lemma_complete_pieces(pieces: Seq<TextPiece>)
    requires
        forall|i: int| 0 <= i < pieces.len() ==> !(#[trigger] pieces[i]).incomplete,
    ensures
        assembly_of(pieces).pending.len() == 0,
        assembled(pieces) == pieces.map_values(|p: TextPiece| p.text),
    decreases pieces.len(),
{
    if pieces.len() > 0 {
        let front = pieces.drop_last();
        assert forall|i: int| 0 <= i < front.len() implies !(#[trigger] front[i]).incomplete by {
            assert(front[i] == pieces[i]);
        }
        lemma_complete_pieces(front);
        assert(Seq::<char>::empty() + pieces.last().text =~= pieces.last().text);
        assert(assembled(pieces) =~= pieces.map_values(|p: TextPiece| p.text));
    } else {
        assert(assembled(pieces) =~= pieces.map_values(|p: TextPiece| p.text));
    }
}

/// An incomplete piece followed by a complete one is a single argument: the
/// two texts with nothing between them.
pub proof fn lemma_two_pieces_join(first: Seq<char>, second: Seq<char>)
    ensures
        assembled(
            seq![
                TextPiece { text: first, incomplete: true },
                TextPiece { text: second, incomplete: false },
            ],
        ) == seq![first + second],
{
    let a = TextPiece { text: first, incomplete: true };
    let b = TextPiece { text: second, incomplete: false };
    let both = seq![a, b];
    assert(both.drop_last() =~= seq![a]);
    assert(seq![a].drop_last() =~= Seq::<TextPiece>::empty());
    reveal_with_fuel(assembly_of, 3);
    assert(Seq::<char>::empty() + first =~= first);
    assert(assembled(both) =~= seq![first + second]);
}

/// Where the last piece is incomplete, the text gathered since the last
/// completed argument is kept as the final argument, unless it is empty.
pub proof fn lemma_trailing_piece_is_kept(pieces: Seq<TextPiece>)
    requires
        pieces.len() > 0,
        pieces.last().incomplete,
    ensures
        assembly_of(pieces).pending == assembly_of(pieces.drop_last()).pending + pieces.last().text,
        assembly_of(pieces).args == assembly_of(pieces.drop_last()).args,
        assembly_of(pieces).pending.len() > 0 ==> assembled(pieces) == assembly_of(
            pieces.drop_last(),
        ).args.push(assembly_of(pieces.drop_last()).pending + pieces.last().text),
        pieces.last().text.len() > 0 ==> assembly_of(pieces).pending.len() > 0,
{
}

/// The texts of `parts` written one after the other, with nothing between
/// them.
pub open spec fn run_together(parts: Seq<Seq<char>>) -> Seq<char>
    decreases parts.len(),
{
    if parts.len() == 0 {
        Seq::empty()
    } else {
        run_together(parts.drop_last()) + parts.last()
    }
}

/// Assembling neither drops nor adds a character: the arguments written one
/// after the other are the texts of the pieces written one after the other.
pub proof fn lemma_assembly_keeps_all_text(pieces: Seq<TextPiece>)
    ensures
        run_together(assembly_of(pieces).args) + assembly_of(pieces).pending == run_together(
            pieces.map_values(|p: TextPiece| p.text),
        ),
        run_together(assembled(pieces)) == run_together(pieces.map_values(|p: TextPiece| p.text)),
    decreases pieces.len(),
{
    let texts = pieces.map_values(|p: TextPiece| p.text);
    if pieces.len() == 0 {
        assert(run_together(assembly_of(pieces).args) + assembly_of(pieces).pending =~= run_together(
            texts,
        ));
    } else {
        let front = pieces.drop_last();
        let before = assembly_of(front);
        let last = pieces.last();
        lemma_assembly_keeps_all_text(front);
        assert(texts.drop_last() =~= front.map_values(|p: TextPiece| p.text));
        assert(texts.last() == last.text);
        if last.incomplete {
            assert(run_together(before.args) + (before.pending + last.text) =~= (run_together(
                before.args,
            ) + before.pending) + last.text);
        } else {
            let done = before.args.push(before.pending + last.text);
            assert(done.drop_last() =~= before.args);
            assert(run_together(done) + Seq::<char>::empty() =~= (run_together(before.args)
                + before.pending) + last.text);
        }
    }
    let a = assembly_of(pieces);
    if a.pending.len() > 0 {
        assert(a.args.push(a.pending).drop_last() =~= a.args);
    } else {
        assert(run_together(a.args) + a.pending =~= run_together(a.args));
    }
}

/// Collects the forwarded arguments piece by piece.
#[derive(Debug)]
pub struct ArgAssembler {
    args: Vec<String>,
    pending: String,
}

impl View for ArgAssembler {
    type V = AssemblyView;

    closed spec fn view(&self) -> AssemblyView {
        AssemblyView { args: texts(self.args@), pending: self.pending@ }
    }
}

impl ArgAssembler {
    /// An assembler that has seen no piece.
    pub fn new() -> (assembler: Self)
        ensures
            assembler@ == empty_assembly(),
    {
        let assembler = ArgAssembler { args: Vec::new(), pending: String::new() };
        assert(assembler@.args =~= Seq::<Seq<char>>::empty());
        assembler
    }

    /// Takes the next piece.
    pub fn push(&mut self, text: &str, incomplete: bool)
        ensures
            final(self)@ == with_piece(old(self)@, text@, incomplete),
    {
        self.pending.append(text);
        if !incomplete {
            let mut done = String::new();
            std::mem::swap(&mut self.pending, &mut done);
            self.args.push(done);
            assert(texts(self.args@) =~= texts(old(self).args@).push(old(self).pending@ + text@));
        }
    }

    /// The arguments, once every piece has been taken.
    pub fn finish(self) -> (args: Vec<String>)
        ensures
            texts(args@) == finished(self@),
    {
        let mut args = self.args;
        let pending = self.pending;
        if !pending.as_str().is_empty() {
            args.push(pending);
            assert(texts(args@) =~= texts(self.args@).push(self.pending@));
        }
        args
    }
}

} // verus!
