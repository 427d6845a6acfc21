use vstd::prelude::*;

verus! {

/// A singly linked list, the list type that expressions are built from.
#[derive(Debug)]
pub enum Cons<T> {
    Cons(T, Box<Cons<T>>),
    Nil,
}

impl<T> Cons<T> {
    /// The elements of the list, front first.
    pub open spec fn elems(self) -> Seq<T>
        decreases self,
    {
        match self {
            Cons::Cons(x, rest) => seq![x].add(rest.elems()),
            Cons::Nil => Seq::empty(),
        }
    }
}

/// Puts `x` in front of `rest`.
pub fn cons<T>(x: T, rest: Cons<T>) -> (r: Cons<T>)
    ensures
        r == Cons::Cons(x, Box::new(rest)),
        r.elems() == seq![x].add(rest.elems()),
{
    Cons::Cons(x, Box::new(rest))
}

} // verus!
