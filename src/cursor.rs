use vstd::prelude::*;

verus! {

/// A position in the input: lines count from 1, columns from 0 at the start of a line.
#[derive(Debug, Clone, Copy, PartialEq, Eq, Structural)]
pub struct Location {
    pub line: usize,
    pub column: usize,
}

impl Location {
    /// The position before anything has been read.
    pub open spec fn spec_start() -> Location {
        Location { line: 1, column: 0 }
    }

    /// The position before anything has been read.
    pub fn start() -> (r: Location)
        ensures
            r == Location::spec_start(),
    {
        Location { line: 1, column: 0 }
    }
}

/// An item that moves a cursor's position when it is consumed.
pub trait CursorTrackable: Sized {
    /// The position after this item, given the position before it.
    spec fn spec_next_location(&self, location: Location) -> Location;

    fn next_location(&self, location: Location) -> (r: Location)
        ensures
            r == self.spec_next_location(location),
    ;
}

/// The position after consuming `items` in order, starting from `location`.
pub open spec fn advance<T: CursorTrackable>(location: Location, items: Seq<T>) -> Location
    decreases items.len(),
{
    if items.len() == 0 {
        location
    } else {
        advance(items[0].spec_next_location(location), items.drop_first())
    }
}

/// The run of leading items of `items` on which `predicate` answers `true`.
pub open spec fn leading_run_len<T>(items: Seq<T>, predicate: spec_fn(T) -> bool) -> nat
    decreases items.len(),
{
    if items.len() == 0 || !predicate(items[0]) {
        0
    } else {
        1 + leading_run_len(items.drop_first(), predicate)
    }
}

pub proof fn lemma_advance_append<T: CursorTrackable>(location: Location, a: Seq<T>, b: Seq<T>)
    ensures
        advance(location, a + b) == advance(advance(location, a), b),
    decreases a.len(),
{
    if a.len() > 0 {
        assert((a + b).drop_first() =~= a.drop_first() + b);
        lemma_advance_append(a[0].spec_next_location(location), a.drop_first(), b);
    } else {
        assert(a + b =~= b);
    }
}

pub proof fn lemma_leading_run_len<T>(items: Seq<T>, predicate: spec_fn(T) -> bool)
    ensures
        leading_run_len(items, predicate) <= items.len(),
        forall|i: int| 0 <= i < leading_run_len(items, predicate) ==> predicate(#[trigger] items[i]),
        leading_run_len(items, predicate) < items.len() ==> !predicate(
            items[leading_run_len(items, predicate) as int],
        ),
    decreases items.len(),
{
    if items.len() > 0 && predicate(items[0]) {
        lemma_leading_run_len(items.drop_first(), predicate);
        assert forall|i: int| 0 <= i < leading_run_len(items, predicate) implies predicate(
            #[trigger] items[i],
        ) by {
            if i > 0 {
                assert(items[i] == items.drop_first()[i - 1]);
            }
        }
    }
}

pub proof fn lemma_leading_run_len_unique<T>(items: Seq<T>, predicate: spec_fn(T) -> bool, k: int)
    requires
        0 <= k <= items.len(),
        forall|i: int| 0 <= i < k ==> predicate(#[trigger] items[i]),
        k < items.len() ==> !predicate(items[k]),
    ensures
        leading_run_len(items, predicate) == k,
    decreases k,
{
    if k > 0 {
        assert(predicate(items[0]));
        assert forall|i: int| 0 <= i < k - 1 implies predicate(#[trigger] items.drop_first()[i]) by {
            assert(items.drop_first()[i] == items[i + 1]);
        }
        lemma_leading_run_len_unique(items.drop_first(), predicate, k - 1);
    }
}

/// A cursor over a sequence of items with one item of lookahead, which keeps the
/// position reached by the items consumed so far.
pub struct PeekingCursor<T> {
    /// The items not consumed yet, the next one last.
    pending: Vec<T>,
    location: Location,
}

impl<T: CursorTrackable> View for PeekingCursor<T> {
    type V = Seq<T>;

    /// The items not consumed yet, in order.
    closed spec fn view(&self) -> Seq<T> {
        Seq::new(self.pending@.len(), |i: int| self.pending@[self.pending@.len() - 1 - i])
    }
}

impl<T: CursorTrackable> PeekingCursor<T> {
    /// The position after the items consumed so far.
    pub closed spec fn spec_loc(&self) -> Location {
        self.location
    }

    /// `after` is this cursor once it has consumed some of its items, in order.
    pub open spec fn moved_to(&self, after: &Self) -> bool {
        let consumed = (self@.len() - after@.len()) as int;
        &&& after@.len() <= self@.len()
        &&& after@ == self@.skip(consumed)
        &&& after.spec_loc() == advance(self.spec_loc(), self@.take(consumed))
    }

    pub proof fn lemma_moved_to_trans(a: &Self, b: &Self, c: &Self)
        requires
            a.moved_to(b),
            b.moved_to(c),
        ensures
            a.moved_to(c),
    {
        let ab = (a@.len() - b@.len()) as int;
        let bc = (b@.len() - c@.len()) as int;
        assert(a@.take(ab + bc) =~= a@.take(ab) + b@.take(bc));
        assert(c@ =~= a@.skip(ab + bc));
        lemma_advance_append(a.spec_loc(), a@.take(ab), b@.take(bc));
    }

    pub open spec fn unmoved(&self, after: &Self) -> bool {
        &&& after@ == self@
        &&& after.spec_loc() == self.spec_loc()
    }

    pub proof fn lemma_unmoved(a: &Self, b: &Self)
        requires
            a.unmoved(b),
        ensures
            a.moved_to(b),
    {
        assert(a@.take(0) =~= Seq::<T>::empty());
        assert(a@.skip(0) =~= a@);
    }

    pub fn new(input: Vec<T>) -> (r: Self)
        ensures
            r@ == input@,
            r.spec_loc() == Location::spec_start(),
    {
        let ghost items = input@;
        let mut input = input;
        let mut pending: Vec<T> = Vec::new();
        while input.len() > 0
            invariant
                input@ == items.take(input@.len() as int),
                pending@.len() + input@.len() == items.len(),
                forall|i: int|
                    0 <= i < pending@.len() ==> #[trigger] pending@[i] == items[items.len() - 1 - i],
            decreases input.len(),
        {
            let item = input.pop().unwrap();
            pending.push(item);
        }
        let r = PeekingCursor { pending, location: Location::start() };
        assert(r@ =~= items);
        r
    }

    pub fn loc(&self) -> (r: Location)
        ensures
            r == self.spec_loc(),
    {
        self.location
    }

    pub fn peek(&self) -> (r: Option<&T>)
        ensures
            self@.len() == 0 ==> r is None,
            self@.len() > 0 ==> r == Some(&self@[0]),
    {
        let n = self.pending.len();
        if n == 0 {
            None
        } else {
            Some(&self.pending[n - 1])
        }
    }

    pub fn next(&mut self) -> (r: Option<T>)
        ensures
            old(self)@.len() == 0 ==> r is None && final(self)@ == old(self)@,
            old(self)@.len() > 0 ==> r == Some(old(self)@[0]) && final(self)@ == old(self)@.drop_first()
                && final(self).spec_loc() == old(self)@[0].spec_next_location(old(self).spec_loc()),
            old(self).moved_to(&*final(self)),
    {
        let ghost before = *self;
        match self.pending.pop() {
            Some(item) => {
                self.location = item.next_location(self.location);
                proof {
                    assert(self@ =~= before@.drop_first());
                    assert(before@.take(1).drop_first() =~= Seq::<T>::empty());
                    assert(self@ =~= before@.skip(1));
                    let one = before@.take(1);
                    assert(one[0] == item);
                    assert(advance(item.spec_next_location(before.spec_loc()), one.drop_first())
                        == item.spec_next_location(before.spec_loc()));
                }
                Some(item)
            },
            None => {
                proof {
                    assert(before@.take(0) =~= Seq::<T>::empty());
                    assert(before@.skip(0) =~= before@);
                    assert(advance(before.spec_loc(), before@.take(0)) == before.spec_loc());
                }
                None
            },
        }
    }

    /// Consumes the longest run of leading items that `predicate` accepts, and
    /// returns it in order.
    pub fn peek_and_take_while<P>(&mut self, predicate: P) -> (r: Vec<T>)
        where
            P: Fn(&T) -> bool,
        requires
            forall|t: &T| #[trigger] predicate.requires((t,)),
        ensures
            old(self).moved_to(&*final(self)),
            r@.len() + final(self)@.len() == old(self)@.len(),
            r@ == old(self)@.take(r@.len() as int),
            forall|i: int| 0 <= i < r@.len() ==> predicate.ensures((&old(self)@[i],), true),
            r@.len() < old(self)@.len() ==> predicate.ensures((&old(self)@[r@.len() as int],), false),
    {
        let ghost start = *self;
        let mut matches: Vec<T> = Vec::new();
        loop
            invariant
                forall|t: &T| #[trigger] predicate.requires((t,)),
                matches@.len() + self@.len() == start@.len(),
                matches@ == start@.take(matches@.len() as int),
                self@ == start@.skip(matches@.len() as int),
                self.spec_loc() == advance(start.spec_loc(), matches@),
                forall|i: int| 0 <= i < matches@.len() ==> predicate.ensures((&start@[i],), true),
            ensures
                matches@.len() + self@.len() == start@.len(),
                matches@ == start@.take(matches@.len() as int),
                self@ == start@.skip(matches@.len() as int),
                self.spec_loc() == advance(start.spec_loc(), matches@),
                forall|i: int| 0 <= i < matches@.len() ==> predicate.ensures((&start@[i],), true),
                matches@.len() < start@.len() ==> predicate.ensures(
                    (&start@[matches@.len() as int],),
                    false,
                ),
            decreases self@.len(),
        {
            let taken = match self.peek() {
                Some(next) => predicate(next),
                None => false,
            };
            if !taken {
                break;
            }
            let ghost before = *self;
            let item = self.next().unwrap();
            proof {
                lemma_advance_append(start.spec_loc(), matches@, seq![item]);
                assert(matches@.push(item) =~= matches@ + seq![item]);
                let here = advance(start.spec_loc(), matches@);
                assert(seq![item].drop_first() =~= Seq::<T>::empty());
                assert(advance(item.spec_next_location(here), Seq::<T>::empty()) == item.spec_next_location(here));
                assert(advance(here, seq![item]) == item.spec_next_location(here));
            }
            matches.push(item);
            proof {
                assert(matches@ =~= start@.take(matches@.len() as int));
                assert(self@ =~= start@.skip(matches@.len() as int));
            }
        }
        matches
    }
}

} // verus!
