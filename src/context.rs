//! The cursor that the parser walks tokens with.
use vstd::prelude::*;

use crate::lexer::Token;

verus! {

/// The position after `next`: it advances by one, also past the end.
pub open spec fn advanced(pos: nat) -> nat {
    pos + 1
}

/// The position after `step_back`: one earlier, but never before the start.
pub open spec fn stepped_back(pos: nat) -> nat {
    if pos > 0 {
        (pos - 1) as nat
    } else {
        0
    }
}

/// The position after a run of moves, `true` standing for `next` and `false` for `step_back`.
pub open spec fn moved(pos: nat, moves: Seq<bool>) -> nat
    decreases moves.len(),
{
    if moves.len() == 0 {
        pos
    } else {
        let p = moved(pos, moves.drop_last());
        if moves.last() {
            advanced(p)
        } else {
            stepped_back(p)
        }
    }
}

/// A cursor over a token sequence: it hands out tokens one by one, can step back one
/// position, and can save and restore its position. Only one cursor walks a given sequence.
#[derive(Debug)]
pub struct Context {
    tokens: Vec<Token>,
    pos: usize,
}

/// A saved cursor position, used once by `restore`.
pub struct Checkpoint {
    pos: usize,
}

impl Checkpoint {
    /// The saved position.
    pub closed spec fn pos(&self) -> nat {
        self.pos as nat
    }

    /// The cursor `context` once this checkpoint is restored on it.
    pub closed spec fn restored(&self, context: Context) -> Context {
        Context { tokens: context.tokens, pos: self.pos }
    }

    /// Moves the cursor back to the saved position.
    pub fn restore(self, context: &mut Context)
        ensures
            *final(context) == self.restored(*old(context)),
            final(context).tokens() == old(context).tokens(),
            final(context).pos() == self.pos(),
    {
        context.pos = self.pos;
    }
}

impl Context {
    /// The tokens walked over.
    pub closed spec fn tokens(&self) -> Seq<Token> {
        self.tokens@
    }

    /// The current position; it may lie past the end.
    pub closed spec fn pos(&self) -> nat {
        self.pos as nat
    }

    /// The token at the current position, if any.
    pub open spec fn current(&self) -> Option<Token> {
        if self.pos() < self.tokens().len() {
            Some(self.tokens()[self.pos() as int])
        } else {
            None
        }
    }

    /// The position and the number of tokens both fit in `usize`.
    pub proof fn lemma_bounds(&self)
        ensures
            self.pos() <= usize::MAX,
            self.tokens().len() <= usize::MAX,
    {
        assert(self.tokens.len() == self.tokens@.len());
    }

    /// Starts at the first token.
    pub fn new(tokens: Vec<Token>) -> (r: Context)
        ensures
            r.tokens() == tokens@,
            r.pos() == 0,
    {
        Context { tokens, pos: 0 }
    }

    /// Returns the token at the current position, or `None` past the end, and advances.
    pub fn next(&mut self) -> (r: Option<Token>)
        requires
            old(self).pos() < old(self).tokens().len() || old(self).pos() < usize::MAX,
        ensures
            final(self).tokens() == old(self).tokens(),
            final(self).pos() == advanced(old(self).pos()),
            r == old(self).current(),
    {
        if self.pos >= self.tokens.len() {
            self.pos = self.pos + 1;
            None
        } else {
            let t = self.tokens[self.pos].clone();
            self.pos = self.pos + 1;
            Some(t)
        }
    }

    /// Moves one position back; does nothing at the start.
    pub fn step_back(&mut self)
        ensures
            final(self).tokens() == old(self).tokens(),
            final(self).pos() == stepped_back(old(self).pos()),
    {
        if self.pos > 0 {
            self.pos = self.pos - 1;
        }
    }

    /// Returns the token at the current position without moving.
    pub fn peek(&self) -> (r: Option<Token>)
        ensures
            r == self.current(),
    {
        if self.pos >= self.tokens.len() {
            None
        } else {
            Some(self.tokens[self.pos].clone())
        }
    }

    /// Whether the position is at or past the end.
    pub fn is_exhausted(&self) -> (r: bool)
        ensures
            r == (self.pos() >= self.tokens().len()),
    {
        self.pos >= self.tokens.len()
    }

    /// Saves the current position.
    pub fn make_checkpoint(&self) -> (r: Checkpoint)
        ensures
            r.pos() == self.pos(),
    {
        Checkpoint { pos: self.pos }
    }
}

/// A step back undoes a `next`, wherever the cursor stands, and a `next` undoes a step back
/// except at the start.
pub proof fn step_back_undoes_next(pos: nat)
    ensures
        stepped_back(advanced(pos)) == pos,
        pos > 0 ==> advanced(stepped_back(pos)) == pos,
{
}

/// Restoring a checkpoint taken on a cursor brings the cursor back to the position it had
/// then, whatever run of `next` and `step_back` calls came in between.
pub proof fn restore_after_moves(context: Context, cp: Checkpoint, moves: Seq<bool>, after: Context)
    requires
        cp.pos() == context.pos(),
        after.tokens() == context.tokens(),
        after.pos() == moved(context.pos(), moves),
    ensures
        cp.restored(after).pos() == context.pos(),
        cp.restored(after).tokens() == context.tokens(),
{
}

} // verus!
