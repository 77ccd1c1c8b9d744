//! The length stack: a bounded LIFO of pending byte counts that rides beside
//! every pointer handed across the sandbox boundary.

use vstd::prelude::*;

verus! {

/// Number of entries the length stack can hold.
pub const STACK_CAPACITY: usize = 256;

/// Why the transfer layer refused to touch the stack. Both are protocol violations of the caller.
#[derive(Debug, Clone, Copy, PartialEq, Eq, Structural)]
pub enum StackError {
    /// A push found all entries in use.
    Full,
    /// A pop found no entry.
    Empty,
}

/// Pending lengths, oldest first.
pub struct LengthStack {
    entries: Vec<i32>,
}

impl View for LengthStack {
    type V = Seq<i32>;

    closed spec fn view(&self) -> Seq<i32> {
        self.entries@
    }
}

impl LengthStack {
    /// The stack holds no more entries than its capacity.
    pub closed spec fn wf(&self) -> bool {
        self.entries@.len() <= STACK_CAPACITY
    }

    /// An empty stack.
    pub fn new() -> (r: LengthStack)
        ensures
            r.wf(),
            r@ == Seq::<i32>::empty(),
    {
        LengthStack { entries: Vec::new() }
    }

    /// Number of pending entries.
    pub fn len(&self) -> (r: usize)
        requires
            self.wf(),
        ensures
            r == self@.len(),
            r <= STACK_CAPACITY,
    {
        self.entries.len()
    }

    /// Whether no entry is pending.
    pub fn is_empty(&self) -> (r: bool)
        ensures
            r == (self@.len() == 0),
    {
        self.entries.len() == 0
    }
}

/// Puts `value` on top of the stack. Pushing onto a full stack is a protocol
/// violation of the caller, so the stack must have room.
pub fn stack_push(stack: &mut LengthStack, value: i32)
    requires
        old(stack).wf(),
        old(stack)@.len() < STACK_CAPACITY,
    ensures
        final(stack).wf(),
        final(stack)@ == old(stack)@.push(value),
{
    stack.entries.push(value);
}

/// Takes the top entry off the stack. Popping an empty stack is a protocol
/// violation of the caller, so the stack must hold an entry.
pub fn stack_pop(stack: &mut LengthStack) -> (r: i32)
    requires
        old(stack).wf(),
        old(stack)@.len() > 0,
    ensures
        final(stack).wf(),
        r == old(stack)@.last(),
        final(stack)@ == old(stack)@.drop_last(),
{
    stack.entries.pop().unwrap()
}

/// Contents after pushing each of `values` in turn onto a stack holding `s`,
/// one `stack_push` at a time.
pub open spec fn push_each(s: Seq<i32>, values: Seq<i32>) -> Seq<i32>
    decreases values.len(),
{
    if values.len() == 0 {
        s
    } else {
        push_each(s.push(values[0]), values.drop_first())
    }
}

/// What `n` successive `stack_pop` calls on a stack holding `s` return, in call
/// order, and what the stack holds afterwards.
pub open spec fn pop_each(s: Seq<i32>, n: nat) -> (Seq<i32>, Seq<i32>)
    decreases n,
{
    if n == 0 || s.len() == 0 {
        (Seq::empty(), s)
    } else {
        let rest = pop_each(s.drop_last(), (n - 1) as nat);
        (seq![s.last()] + rest.0, rest.1)
    }
}

proof fn lemma_push_each_appends(s: Seq<i32>, values: Seq<i32>)
    ensures
        push_each(s, values) == s + values,
    decreases values.len(),
{
    if values.len() > 0 {
        lemma_push_each_appends(s.push(values[0]), values.drop_first());
        assert(s.push(values[0]) + values.drop_first() =~= s + values);
    }
}

proof fn lemma_pop_each_of_append(s: Seq<i32>, values: Seq<i32>)
    ensures
        pop_each(s + values, values.len()) == (values.reverse(), s),
    decreases values.len(),
{
    if values.len() == 0 {
        assert(s + values =~= s);
        assert(values.reverse() =~= Seq::<i32>::empty());
    } else {
        let front = values.drop_last();
        assert((s + values).drop_last() =~= s + front);
        lemma_pop_each_of_append(s, front);
        assert(seq![values.last()] + front.reverse() =~= values.reverse());
    }
}

/// Lengths come back in strict LIFO order: pushing `values` onto a stack and then
/// popping as many times returns them last first and leaves the stack as it was.
/// Every push fits when the values fit in the room left, and each further value is
/// one more `stack_push` on what came before; `pop_each` unfolds one `stack_pop`
/// at a time by its definition.
pub proof fn lemma_lifo(s: Seq<i32>, values: Seq<i32>)
    requires
        s.len() + values.len() <= STACK_CAPACITY,
    ensures
        push_each(s, values).len() <= STACK_CAPACITY,
        values.len() > 0 ==> push_each(s, values) == push_each(s, values.drop_last()).push(
            values.last(),
        ),
        pop_each(push_each(s, values), values.len()) == (values.reverse(), s),
        forall|i: int|
            0 <= i < values.len() ==> #[trigger] pop_each(push_each(s, values), values.len()).0[i]
                == values[values.len() - 1 - i],
{
    lemma_push_each_appends(s, values);
    lemma_pop_each_of_append(s, values);
    if values.len() > 0 {
        lemma_push_each_appends(s, values.drop_last());
        assert(s + values =~= (s + values.drop_last()).push(values.last()));
    }
}

} // verus!
