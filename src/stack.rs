//! The call stack seen as a sequence of words, and the laws of push and pop.
use vstd::prelude::*;

use crate::error::Chip8Error;
use crate::memory::{word_at, with_word};
use crate::semantics::{pop_spec, push_spec};
use crate::state::{MachineState, STACK_BOTTOM, STACK_CAPACITY};

verus! {

/// Address of the `j`-th stack slot counted from the bottom.
pub open spec fn slot_address(j: int) -> int {
    STACK_BOTTOM - 2 - 2 * j
}

/// The words on the stack, bottom first.
pub open spec fn stack_contents(s: MachineState) -> Seq<u16> {
    Seq::new(s.stack_depth() as nat, |j: int| word_at(s.memory, slot_address(j)))
}

/// Pushing the words of `ws` in order.
pub open spec fn push_all(s: MachineState, ws: Seq<u16>) -> Result<MachineState, Chip8Error>
    decreases ws.len(),
{
    if ws.len() == 0 {
        Ok(s)
    } else {
        match push_all(s, ws.drop_last()) {
            Ok(t) => push_spec(t, ws.last()),
            Err(e) => Err(e),
        }
    }
}

/// Popping `n` times: the words in the order they come off, and the state after.
pub open spec fn pop_n(s: MachineState, n: nat) -> Result<(Seq<u16>, MachineState), Chip8Error>
    decreases n,
{
    if n == 0 {
        Ok((Seq::empty(), s))
    } else {
        match pop_spec(s) {
            Ok((w, t)) => match pop_n(t, (n - 1) as nat) {
                Ok((ws, u)) => Ok((seq![w] + ws, u)),
                Err(e) => Err(e),
            },
            Err(e) => Err(e),
        }
    }
}

/// A push onto a stack with a free slot appends the word to the contents.
pub proof fn lemma_push_contents(s: MachineState, w: u16)
    requires
        s.wf(),
        s.stack_depth() < STACK_CAPACITY,
    ensures
        push_spec(s, w) is Ok,
        push_spec(s, w)->Ok_0.wf(),
        push_spec(s, w)->Ok_0.stack_depth() == s.stack_depth() + 1,
        stack_contents(push_spec(s, w)->Ok_0) == stack_contents(s).push(w),
{
    let t = push_spec(s, w)->Ok_0;
    let a = s.stack_pointer - 2;
    assert(t.memory == with_word(s.memory, a, w));
    assert forall|j: int| 0 <= j < s.stack_depth() implies word_at(t.memory, slot_address(j))
        == word_at(s.memory, slot_address(j)) by {
        assert(slot_address(j) >= s.stack_pointer);
    };
    assert(slot_address(s.stack_depth()) == a);
    assert(word_at(t.memory, a) == w);
    assert(stack_contents(t) =~= stack_contents(s).push(w));
}

/// A pop from a non-empty stack returns its last word and removes it.
pub proof fn lemma_pop_contents(s: MachineState)
    requires
        s.wf(),
        s.stack_depth() > 0,
    ensures
        pop_spec(s) is Ok,
        pop_spec(s)->Ok_0.0 == stack_contents(s).last(),
        pop_spec(s)->Ok_0.1.wf(),
        pop_spec(s)->Ok_0.1.stack_depth() == s.stack_depth() - 1,
        stack_contents(pop_spec(s)->Ok_0.1) == stack_contents(s).drop_last(),
{
    let t = pop_spec(s)->Ok_0.1;
    assert(slot_address(s.stack_depth() - 1) == s.stack_pointer);
    assert(stack_contents(t) =~= stack_contents(s).drop_last());
}

/// Pushing `ws` onto a stack with room for them appends them to the contents.
pub proof fn lemma_push_all(s: MachineState, ws: Seq<u16>)
    requires
        s.wf(),
        s.stack_depth() + ws.len() <= STACK_CAPACITY,
    ensures
        push_all(s, ws) is Ok,
        push_all(s, ws)->Ok_0.wf(),
        push_all(s, ws)->Ok_0.stack_depth() == s.stack_depth() + ws.len(),
        stack_contents(push_all(s, ws)->Ok_0) == stack_contents(s) + ws,
    decreases ws.len(),
{
    if ws.len() > 0 {
        lemma_push_all(s, ws.drop_last());
        let t = push_all(s, ws.drop_last())->Ok_0;
        lemma_push_contents(t, ws.last());
        assert(stack_contents(s) + ws =~= (stack_contents(s) + ws.drop_last()).push(ws.last()));
    } else {
        assert(stack_contents(s) + ws =~= stack_contents(s));
    }
}

/// Popping `n` words returns the top `n` words of the contents, topmost
/// first, and leaves the rest.
pub proof fn lemma_pop_n(s: MachineState, n: nat)
    requires
        s.wf(),
        n <= s.stack_depth(),
    ensures
        pop_n(s, n) is Ok,
        pop_n(s, n)->Ok_0.0 == Seq::new(
            n,
            |j: int| stack_contents(s)[s.stack_depth() - 1 - j],
        ),
        pop_n(s, n)->Ok_0.1.wf(),
        pop_n(s, n)->Ok_0.1.stack_pointer == s.stack_pointer + 2 * n,
        stack_contents(pop_n(s, n)->Ok_0.1) == stack_contents(s).take(s.stack_depth() - n),
    decreases n,
{
    if n == 0 {
        assert(stack_contents(s).take(s.stack_depth()) =~= stack_contents(s));
        assert(pop_n(s, n)->Ok_0.0 =~= Seq::new(
            n,
            |j: int| stack_contents(s)[s.stack_depth() - 1 - j],
        ));
    } else {
        lemma_pop_contents(s);
        let (w, t) = pop_spec(s)->Ok_0;
        lemma_pop_n(t, (n - 1) as nat);
        assert(pop_n(s, n)->Ok_0.0 =~= Seq::new(
            n,
            |j: int| stack_contents(s)[s.stack_depth() - 1 - j],
        ));
        assert(stack_contents(s).drop_last().take(t.stack_depth() - (n - 1)) =~= stack_contents(
            s,
        ).take(s.stack_depth() - n));
    }
}

/// Last in, first out: after the words of `ws` are pushed, popping as many
/// words returns them in reverse order and leaves the stack as it was.
pub proof fn lemma_stack_lifo(s: MachineState, ws: Seq<u16>)
    requires
        s.wf(),
        s.stack_depth() + ws.len() <= STACK_CAPACITY,
    ensures
        push_all(s, ws) is Ok,
        pop_n(push_all(s, ws)->Ok_0, ws.len()) is Ok,
        pop_n(push_all(s, ws)->Ok_0, ws.len())->Ok_0.0 == ws.reverse(),
        pop_n(push_all(s, ws)->Ok_0, ws.len())->Ok_0.1.stack_pointer == s.stack_pointer,
        stack_contents(pop_n(push_all(s, ws)->Ok_0, ws.len())->Ok_0.1) == stack_contents(s),
{
    lemma_push_all(s, ws);
    let t = push_all(s, ws)->Ok_0;
    lemma_pop_n(t, ws.len());
    assert(pop_n(t, ws.len())->Ok_0.0 =~= ws.reverse());
    assert((stack_contents(s) + ws).take(t.stack_depth() - ws.len()) =~= stack_contents(s));
}

/// The stack holds [`STACK_CAPACITY`] words: from an empty stack that many
/// pushes succeed and the next one fails with a stack overflow, while a pop
/// from an empty stack fails with a stack underflow.
pub proof fn lemma_stack_capacity(s: MachineState, ws: Seq<u16>, w: u16)
    requires
        s.wf(),
        s.stack_depth() == 0,
        ws.len() == STACK_CAPACITY,
    ensures
        push_all(s, ws) is Ok,
        push_spec(push_all(s, ws)->Ok_0, w) == Err::<MachineState, Chip8Error>(
            Chip8Error::StackOverflow,
        ),
        pop_spec(s) == Err::<(u16, MachineState), Chip8Error>(Chip8Error::StackUnderflow),
{
    lemma_push_all(s, ws);
}

} // verus!
