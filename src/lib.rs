use vstd::prelude::*;

verus! {

/// A singly-linked list: each node holds one element and owns the rest of the
/// sequence.
#[derive(Debug, PartialEq)]
pub enum List<T> {
    Cons(T, Box<List<T>>),
    Nil,
}

impl<T> List<T> {
    /// The elements of the list, from head to tail.
    pub open spec fn elems(self) -> Seq<T>
        decreases self,
    {
        match self {
            List::Cons(value, rest) => seq![value] + rest.elems(),
            List::Nil => Seq::empty(),
        }
    }
}

/// The sequence that `prepend` leaves: `element` followed by `s`.
pub open spec fn prepended<T>(s: Seq<T>, element: T) -> Seq<T> {
    seq![element] + s
}

/// `b` holds, position by position, a clone of each element of `a`.
pub open spec fn copies<T: Clone>(a: Seq<T>, b: Seq<T>) -> bool {
    &&& a.len() == b.len()
    &&& forall|i: int| 0 <= i < a.len() ==> #[trigger] cloned(a[i], b[i])
}

/// The sequence left by prepending `es[0]`, then `es[1]`, and so on, onto `acc`.
pub open spec fn prepend_all<T>(acc: Seq<T>, es: Seq<T>) -> Seq<T>
    decreases es.len(),
{
    if es.len() == 0 {
        acc
    } else {
        prepend_all(prepended(acc, es[0]), es.drop_first())
    }
}

/// Cloning an element of `T` always yields an equal element.
pub open spec fn clones_are_equal<T: Clone>() -> bool {
    forall|a: T, b: T| #[trigger] cloned(a, b) ==> a == b
}

impl<T> View for List<T> {
    type V = Seq<T>;

    open spec fn view(&self) -> Seq<T> {
        self.elems()
    }
}

impl<T> List<T> {
    /// The empty list.
    pub fn new() -> (r: Self)
        ensures
            r == List::<T>::Nil,
            r@ == Seq::<T>::empty(),
    {
        List::Nil
    }

    /// Whether the list has no elements.
    pub fn is_empty(&self) -> (r: bool)
        ensures
            r == (self@.len() == 0),
            r == (*self is Nil),
    {
        match self {
            List::Nil => true,
            _ => false,
        }
    }

    /// Puts `element` in front; the old contents become its tail.
    pub fn prepend(&mut self, element: T)
        ensures
            *final(self) == List::Cons(element, Box::new(*old(self))),
            final(self)@ == prepended(old(self)@, element),
    {
        let mut rest = List::Nil;
        std::mem::swap(self, &mut rest);
        *self = List::Cons(element, Box::new(rest));
    }

    /// The number of nodes, counted from head to tail.
    pub fn len(&self) -> (r: usize)
        requires
            self@.len() <= usize::MAX,
        ensures
            r == self@.len(),
    {
        let mut n: usize = 0;
        let mut cur: &List<T> = self;
        loop
            invariant
                n + cur@.len() == self@.len(),
                self@.len() <= usize::MAX,
            decreases cur@.len(),
        {
            match cur {
                List::Cons(_, next) => {
                    n = n + 1;
                    cur = &**next;
                },
                List::Nil => {
                    return n;
                },
            }
        }
    }

    /// The first element, if any.
    pub fn head(&self) -> (r: Option<&T>)
        ensures
            self@.len() == 0 ==> r is None,
            self@.len() > 0 ==> (r matches Some(v) && *v == self@[0]),
    {
        match self {
            List::Cons(value, _) => Some(value),
            List::Nil => None,
        }
    }

    /// The list after the first element, if any.
    pub fn tail(&self) -> (r: Option<&List<T>>)
        ensures
            self@.len() == 0 ==> r is None,
            self@.len() > 0 ==> (r matches Some(t) && t@ == self@.drop_first()),
    {
        match self {
            List::Cons(_, next) => Some(&**next),
            List::Nil => None,
        }
    }

    /// Takes the first element off; the list becomes its former tail.
    pub fn pop(&mut self) -> (r: Option<T>)
        ensures
            old(self)@.len() == 0 ==> r is None && *final(self) == List::<T>::Nil,
            old(self)@.len() > 0 ==> r == Some(old(self)@[0]) && final(self)@
                == old(self)@.drop_first(),
            old(self)@.len() > 0 ==> final(self)@.len() == old(self)@.len() - 1,
            *old(self) matches List::Cons(_, rest) ==> *final(self) == *rest,
    {
        let mut cur = List::Nil;
        std::mem::swap(self, &mut cur);
        match cur {
            List::Cons(value, next) => {
                *self = *next;
                Some(value)
            },
            List::Nil => None,
        }
    }
}

impl<T: Clone> List<T> {
    /// The elements from head to tail, each cloned into a vector.
    pub fn to_vec(&self) -> (r: Vec<T>)
        ensures
            copies(self@, r@),
    {
        let mut vec_from_list = Vec::new();
        self.traverse_through_list(&mut vec_from_list);
        proof {
            assert forall|i: int| 0 <= i < self@.len() implies #[trigger] cloned(
                self@[i],
                vec_from_list@[i],
            ) by {
                assert(cloned(self@[i], vec_from_list@[0 + i]));
            }
        }
        vec_from_list
    }

    /// Returns a list holding clones of the elements in reverse order; the
    /// receiver keeps its contents.
    pub fn reverse(&mut self) -> (r: List<T>)
        ensures
            *final(self) == *old(self),
            copies(old(self)@.reverse(), r@),
    {
        let mut new_list = List::new();
        let mut cur: &List<T> = self;
        let ghost n: int = self@.len() as int;
        loop
            invariant
                0 <= n - cur@.len() == new_list@.len(),
                n == self@.len(),
                cur@ == self@.subrange(n - cur@.len(), n),
                forall|i: int|
                    0 <= i < new_list@.len() ==> #[trigger] cloned(
                        self@[i],
                        new_list@[new_list@.len() - 1 - i],
                    ),
            ensures
                cur@.len() == 0,
            decreases cur@.len(),
        {
            match cur {
                List::Cons(value, next) => {
                    let ghost k = n - cur@.len();
                    proof {
                        assert(cur@ == seq![*value] + next@);
                        assert(cur@[0] == self@.subrange(k, n)[0]);
                        assert(*value == self@[k]);
                        assert forall|i: int| 0 <= i < next@.len() implies #[trigger] next@[i]
                            == self@[k + 1 + i] by {
                            assert(next@[i] == cur@[i + 1]);
                            assert(cur@[i + 1] == self@.subrange(k, n)[i + 1]);
                        }
                        assert(next@ =~= self@.subrange(k + 1, n));
                    }
                    let c = value.clone();
                    let ghost prev = new_list@;
                    new_list.prepend(c);
                    proof {
                        assert forall|i: int| 0 <= i < new_list@.len() implies #[trigger] cloned(
                            self@[i],
                            new_list@[new_list@.len() - 1 - i],
                        ) by {
                            if i < k {
                                assert(new_list@[new_list@.len() - 1 - i] == prev[prev.len() - 1 - i]);
                            }
                        }
                    }
                    cur = &**next;
                },
                List::Nil => {
                    break ;
                },
            }
        }
        proof {
            assert forall|i: int| 0 <= i < n implies #[trigger] cloned(
                self@.reverse()[i],
                new_list@[i],
            ) by {
                assert(cloned(self@[n - 1 - i], new_list@[n - 1 - (n - 1 - i)]));
            }
        }
        new_list
    }

    /// Yields the list as it stands, then advances it by one node; `None` once
    /// the list is empty.
    pub fn next(&mut self) -> (r: Option<List<T>>)
        ensures
            old(self)@.len() == 0 ==> r is None && *final(self) == List::<T>::Nil,
            old(self)@.len() > 0 ==> (r matches Some(item) && copies(old(self)@, item@)),
            old(self)@.len() > 0 ==> final(self)@ == old(self)@.drop_first(),
            *old(self) matches List::Cons(_, rest) ==> *final(self) == *rest,
    {
        if self.is_empty() {
            None
        } else {
            let item = self.clone();
            self.pop();
            Some(item)
        }
    }

    /// Appends a clone of each element, head first, to `value_vec`.
    fn traverse_through_list(&self, value_vec: &mut Vec<T>)
        ensures
            final(value_vec)@.len() == old(value_vec)@.len() + self@.len(),
            final(value_vec)@.subrange(0, old(value_vec)@.len() as int) == old(value_vec)@,
            forall|i: int|
                0 <= i < self@.len() ==> #[trigger] cloned(
                    self@[i],
                    final(value_vec)@[old(value_vec)@.len() + i],
                ),
    {
        let ghost before = value_vec@;
        let ghost n: int = self@.len() as int;
        let mut cur: &List<T> = self;
        loop
            invariant
                value_vec@.len() + cur@.len() == before.len() + n,
                before.len() <= value_vec@.len(),
                n == self@.len(),
                value_vec@.subrange(0, before.len() as int) == before,
                cur@ == self@.subrange(value_vec@.len() - before.len(), n),
                forall|i: int|
                    0 <= i < value_vec@.len() - before.len() ==> #[trigger] cloned(
                        self@[i],
                        value_vec@[before.len() + i],
                    ),
            ensures
                cur@.len() == 0,
            decreases cur@.len(),
        {
            match cur {
                List::Cons(value, next) => {
                    let ghost k = value_vec@.len() - before.len();
                    proof {
                        assert(cur@ == seq![*value] + next@);
                        assert(cur@[0] == self@.subrange(k, n)[0]);
                        assert(*value == self@[k]);
                        assert forall|i: int| 0 <= i < next@.len() implies #[trigger] next@[i]
                            == self@[k + 1 + i] by {
                            assert(next@[i] == cur@[i + 1]);
                            assert(cur@[i + 1] == self@.subrange(k, n)[i + 1]);
                        }
                        assert(next@ =~= self@.subrange(k + 1, n));
                    }
                    let c = value.clone();
                    let ghost prev = value_vec@;
                    value_vec.push(c);
                    proof {
                        assert(value_vec@.subrange(0, before.len() as int) =~= before);
                        assert forall|i: int| 0 <= i < value_vec@.len() - before.len() implies #[trigger] cloned(
                            self@[i],
                            value_vec@[before.len() + i],
                        ) by {
                            if i < k {
                                assert(value_vec@[before.len() + i] == prev[before.len() + i]);
                            }
                        }
                    }
                    cur = &**next;
                },
                List::Nil => {
                    break ;
                },
            }
        }
    }

    /// Builds the list whose elements are those of `v`, in the same order, by
    /// prepending them from the back.
    fn rebuild(v: Vec<T>) -> (r: List<T>)
        ensures
            r@ == v@,
    {
        let ghost all = v@;
        let mut rest = v;
        let mut list = List::new();
        while rest.len() > 0
            invariant
                rest@.len() <= all.len(),
                rest@ == all.subrange(0, rest@.len() as int),
                list@ == all.subrange(rest@.len() as int, all.len() as int),
            decreases rest@.len(),
        {
            let ghost k = rest@.len() as int;
            match rest.pop() {
                Some(e) => {
                    proof {
                        assert(all.subrange(0, k)[k - 1] == all[k - 1]);
                        assert(e == all[k - 1]);
                        assert(rest@ =~= all.subrange(0, k - 1));
                    }
                    list.prepend(e);
                    proof {
                        assert(list@ =~= all.subrange(k - 1, all.len() as int));
                    }
                },
                None => {},
            }
        }
        proof {
            assert(list@ =~= all);
        }
        list
    }
}

impl<T: Clone> Clone for List<T> {
    fn clone(&self) -> (r: Self)
        ensures
            copies(self@, r@),
    {
        List::rebuild(self.to_vec())
    }
}

/// The new list is empty: its sequence of elements has length zero.
pub proof fn lemma_new_is_empty<T>()
    ensures
        List::<T>::Nil@ == Seq::<T>::empty(),
        List::<T>::Nil@.len() == 0,
{
}

/// Prepending `es` one after the other onto `acc` puts them in front of `acc`
/// in reverse order.
pub proof fn lemma_prepend_all_onto<T>(acc: Seq<T>, es: Seq<T>)
    ensures
        prepend_all(acc, es) == es.reverse() + acc,
    decreases es.len(),
{
    if es.len() > 0 {
        let rest = es.drop_first();
        lemma_prepend_all_onto(prepended(acc, es[0]), rest);
        assert(rest.reverse() + (seq![es[0]] + acc) =~= es.reverse() + acc);
    }
}

/// Prepending `e1, ..., en` in that order onto an empty list gives the list
/// `en, ..., e1`: its head is `en` and its length is `n`.
pub proof fn lemma_prepend_sequence<T>(es: Seq<T>)
    ensures
        prepend_all(Seq::empty(), es) == es.reverse(),
        prepend_all(Seq::empty(), es).len() == es.len(),
        es.len() > 0 ==> prepend_all(Seq::empty(), es)[0] == es.last(),
{
    lemma_prepend_all_onto(Seq::empty(), es);
    assert(es.reverse() + Seq::empty() =~= es.reverse());
}

/// Reversing a sequence twice gives it back.
pub proof fn lemma_reverse_reverse<T>(s: Seq<T>)
    ensures
        s.reverse().reverse() == s,
{
    assert(s.reverse().reverse() =~= s);
}

/// Where cloning keeps elements equal, a sequence of clones is the sequence
/// itself.
pub proof fn lemma_copies_equal<T: Clone>(a: Seq<T>, b: Seq<T>)
    requires
        clones_are_equal::<T>(),
        copies(a, b),
    ensures
        a == b,
{
    assert forall|i: int| 0 <= i < a.len() implies a[i] == b[i] by {
        assert(cloned(a[i], b[i]));
    }
    assert(a =~= b);
}

/// Reversing a list, then reversing the result, gives back the original
/// sequence, wherever cloning an element yields an equal element.
pub proof fn lemma_reverse_twice<T: Clone>(l: List<T>, once: List<T>, twice: List<T>)
    requires
        clones_are_equal::<T>(),
        copies(l@.reverse(), once@),
        copies(once@.reverse(), twice@),
    ensures
        twice@ == l@,
{
    lemma_copies_equal(l@.reverse(), once@);
    lemma_copies_equal(once@.reverse(), twice@);
    lemma_reverse_reverse(l@);
}

/// Taking the elements of a list into a vector and prepending them back from
/// the last to the first rebuilds the list, element by element a clone of the
/// original, and the original itself where cloning keeps elements equal.
pub proof fn lemma_to_vec_round_trip<T: Clone>(l: List<T>, v: Seq<T>)
    requires
        copies(l@, v),
    ensures
        copies(l@, prepend_all(Seq::empty(), v.reverse())),
        clones_are_equal::<T>() ==> prepend_all(Seq::empty(), v.reverse()) == l@,
{
    lemma_prepend_sequence(v.reverse());
    lemma_reverse_reverse(v);
    if clones_are_equal::<T>() {
        lemma_copies_equal(l@, v);
    }
}

} // verus!
