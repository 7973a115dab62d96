use vstd::prelude::*;

use crate::cell::MyCell;

verus! {

/// The borrow mode of a [`MyRefCell`]: no view, `n` shared views, or one
/// exclusive view.
#[derive(Clone, Copy, PartialEq, Eq, Structural, Debug)]
pub enum RefState {
    Unshared,
    Shared(usize),
    Exclusive,
}

impl RefState {
    /// The state after a shared borrow is asked for: a shared view is added
    /// unless an exclusive view is outstanding.
    pub open spec fn after_borrow(self) -> RefState {
        match self {
            RefState::Unshared => RefState::Shared(1),
            RefState::Shared(n) => RefState::Shared((n + 1) as usize),
            RefState::Exclusive => RefState::Exclusive,
        }
    }

    /// The state after an exclusive borrow is asked for: granted only when
    /// no view at all is outstanding.
    pub open spec fn after_borrow_mut(self) -> RefState {
        match self {
            RefState::Unshared => RefState::Exclusive,
            _ => self,
        }
    }

    /// The state after one shared view is released.
    pub open spec fn after_release(self) -> RefState {
        match self {
            RefState::Shared(n) => if n <= 1 {
                RefState::Unshared
            } else {
                RefState::Shared((n - 1) as usize)
            },
            _ => self,
        }
    }

    /// The state after the exclusive view is released.
    pub open spec fn after_release_mut(self) -> RefState {
        match self {
            RefState::Exclusive => RefState::Unshared,
            _ => self,
        }
    }

    /// The number of outstanding shared views.
    pub open spec fn shared_views(self) -> nat {
        match self {
            RefState::Shared(n) => n as nat,
            _ => 0,
        }
    }

    /// A shared count is never zero.
    pub open spec fn is_valid(self) -> bool {
        self != RefState::Shared(0)
    }

    /// A shared borrow can be counted without overflow.
    pub open spec fn has_room(self) -> bool {
        self != RefState::Shared(usize::MAX)
    }
}

/// What a [`MyRefCell`] holds: its value and its borrow mode.
pub struct RefCellModel<T> {
    pub value: T,
    pub state: RefState,
}

impl<T> RefCellModel<T> {
    /// The cell after a shared borrow is asked for.
    pub open spec fn borrowed(self) -> RefCellModel<T> {
        RefCellModel { value: self.value, state: self.state.after_borrow() }
    }

    /// The cell after an exclusive borrow is asked for.
    pub open spec fn mut_borrowed(self) -> RefCellModel<T> {
        RefCellModel { value: self.value, state: self.state.after_borrow_mut() }
    }

    /// The cell after one shared view is released.
    pub open spec fn released(self) -> RefCellModel<T> {
        RefCellModel { value: self.value, state: self.state.after_release() }
    }

    /// The cell after the exclusive view is released.
    pub open spec fn mut_released(self) -> RefCellModel<T> {
        RefCellModel { value: self.value, state: self.state.after_release_mut() }
    }

    /// The cell with its value overwritten.
    pub open spec fn with_value(self, value: T) -> RefCellModel<T> {
        RefCellModel { value, state: self.state }
    }

    /// The cell after `n` shared borrows are asked for in a row.
    pub open spec fn borrowed_times(self, n: nat) -> RefCellModel<T>
        decreases n,
    {
        if n == 0 {
            self
        } else {
            self.borrowed_times((n - 1) as nat).borrowed()
        }
    }

    /// The cell after `n` shared views are released in a row.
    pub open spec fn released_times(self, n: nat) -> RefCellModel<T>
        decreases n,
    {
        if n == 0 {
            self
        } else {
            self.released_times((n - 1) as nat).released()
        }
    }
}

/// Every transition of the borrow state keeps a shared count above zero.
pub proof fn lemma_transitions_keep_valid(s: RefState)
    requires
        s.is_valid(),
        s.has_room(),
    ensures
        s.after_borrow().is_valid(),
        s.after_borrow_mut().is_valid(),
        s.after_release().is_valid(),
        s.after_release_mut().is_valid(),
{
}

/// While no exclusive view is outstanding, any number of shared borrows in a
/// row are all granted, and they all see the same value.
pub proof fn lemma_shared_borrows_succeed<T>(c: RefCellModel<T>, n: nat)
    requires
        c.state != RefState::Exclusive,
        c.state.is_valid(),
        c.state.shared_views() + n <= usize::MAX,
    ensures
        forall|i: nat|
            i < n ==> {
                let s = (#[trigger] c.borrowed_times(i)).state;
                s != RefState::Exclusive && s.has_room()
            },
        c.borrowed_times(n).value == c.value,
        n > 0 ==> c.borrowed_times(n).state == RefState::Shared(
            (c.state.shared_views() + n) as usize,
        ),
    decreases n,
{
    if n > 0 {
        lemma_shared_borrows_succeed(c, (n - 1) as nat);
        assert forall|i: nat| i < n implies {
            let s = (#[trigger] c.borrowed_times(i)).state;
            s != RefState::Exclusive && s.has_room()
        } by {
            if i == n - 1 {
                if i > 0 {
                    lemma_shared_borrows_succeed(c, i);
                }
            }
        }
    }
}

/// Releasing every outstanding view brings the cell back to no view at all,
/// each release finding the kind of view it gives back; after that both
/// kinds of borrow are granted again.
pub proof fn lemma_release_all<T>(c: RefCellModel<T>)
    requires
        c.state.is_valid(),
    ensures
        forall|i: nat|
            i < c.state.shared_views() ==> (#[trigger] c.released_times(i)).state is Shared,
        c.state is Shared ==> c.released_times(c.state.shared_views()).state
            == RefState::Unshared,
        c.released_times(c.state.shared_views()).value == c.value,
        c.state == RefState::Exclusive ==> c.mut_released().state == RefState::Unshared,
        c.mut_released().value == c.value,
        c.state != RefState::Exclusive ==> c.released_times(
            c.state.shared_views(),
        ).borrowed().state == RefState::Shared(1),
        c.state != RefState::Exclusive ==> c.released_times(
            c.state.shared_views(),
        ).mut_borrowed().state == RefState::Exclusive,
        c.state == RefState::Exclusive ==> c.mut_released().borrowed().state
            == RefState::Shared(1),
        c.state == RefState::Exclusive ==> c.mut_released().mut_borrowed().state
            == RefState::Exclusive,
{
    lemma_release_steps(c, c.state.shared_views());
}

proof fn lemma_release_steps<T>(c: RefCellModel<T>, k: nat)
    requires
        c.state.is_valid(),
        k <= c.state.shared_views(),
    ensures
        c.released_times(k).value == c.value,
        c.state is Shared ==> c.released_times(k).state == (if k == c.state.shared_views() {
            RefState::Unshared
        } else {
            RefState::Shared((c.state.shared_views() - k) as usize)
        }),
        !(c.state is Shared) ==> c.released_times(k) == c,
        forall|i: nat| i < k ==> (#[trigger] c.released_times(i)).state is Shared,
    decreases k,
{
    if k > 0 {
        lemma_release_steps(c, (k - 1) as nat);
    }
}

/// A replace on a cell with no view outstanding leaves the new value there,
/// and the next shared borrow is granted and sees it.
pub proof fn lemma_replace_then_borrow<T>(c: RefCellModel<T>, x: T)
    requires
        c.state == RefState::Unshared,
    ensures
        c.with_value(x).state != RefState::Exclusive,
        c.with_value(x).borrowed().value == x,
        c.with_value(x).borrowed().state == RefState::Shared(1),
{
}

/// A cell whose value is reached through shared or exclusive views, with the
/// rule "many readers xor one writer" checked at run time.
pub struct MyRefCell<T> {
    value: T,
    state: MyCell<RefState>,
}

impl<T> View for MyRefCell<T> {
    type V = RefCellModel<T>;

    closed spec fn view(&self) -> RefCellModel<T> {
        RefCellModel { value: self.value, state: self.state@ }
    }
}

impl<T> MyRefCell<T> {
    /// A cell holding `value`, with no view outstanding.
    pub fn new(value: T) -> (r: MyRefCell<T>)
        ensures
            r@ == (RefCellModel { value, state: RefState::Unshared }),
    {
        MyRefCell { value, state: MyCell::new(RefState::Unshared) }
    }

    /// The current borrow mode.
    pub fn state(&self) -> (r: RefState)
        ensures
            r == self@.state,
    {
        self.state.get()
    }

    /// Swaps the stored value for `value` and returns the previous one,
    /// through an exclusive view that is released before returning. Calling
    /// it while any view is outstanding is a logic error.
    pub fn replace(&mut self, value: T) -> (r: T)
        requires
            old(self)@.state == RefState::Unshared,
        ensures
            r == old(self)@.value,
            final(self)@ == old(self)@.with_value(value),
    {
        let guard = self.borrow_mut();
        let guard = guard.unwrap();
        let mut prev = value;
        std::mem::swap(guard.get_mut(self), &mut prev);
        guard.release(self);
        prev
    }

    /// Hands out a shared view, unless an exclusive view is outstanding.
    pub fn borrow(&mut self) -> (r: Option<MyRef>)
        requires
            old(self)@.state.has_room(),
        ensures
            r is Some <==> old(self)@.state != RefState::Exclusive,
            final(self)@ == old(self)@.borrowed(),
    {
        match self.state.get() {
            RefState::Unshared => {
                self.state.set(RefState::Shared(1));
                Some(MyRef::new())
            },
            RefState::Shared(n) => {
                self.state.set(RefState::Shared(n + 1));
                Some(MyRef::new())
            },
            RefState::Exclusive => None,
        }
    }

    /// Hands out an exclusive view, unless any view is outstanding.
    pub fn borrow_mut(&mut self) -> (r: Option<MyRefMut>)
        ensures
            r is Some <==> old(self)@.state == RefState::Unshared,
            final(self)@ == old(self)@.mut_borrowed(),
    {
        match self.state.get() {
            RefState::Unshared => {
                self.state.set(RefState::Exclusive);
                Some(MyRefMut::new())
            },
            _ => None,
        }
    }
}

/// A shared view of a [`MyRefCell`]: read access for as long as it is held.
/// It is given back with `release`; a view that is never released keeps the
/// cell counted as borrowed, which blocks writers but never admits one.
pub struct MyRef {
    held: (),
}

impl MyRef {
    /// A view token; the borrow it stands for is counted by `borrow`.
    pub fn new() -> (r: MyRef) {
        MyRef { held: () }
    }

    /// The value of the cell that this view was taken from.
    pub fn get<'a, T>(&self, cell: &'a MyRefCell<T>) -> (r: &'a T)
        requires
            cell@.state is Shared,
        ensures
            *r == cell@.value,
    {
        &cell.value
    }

    /// Gives the view back: one shared view fewer.
    pub fn release<T>(self, cell: &mut MyRefCell<T>)
        requires
            old(cell)@.state is Shared,
        ensures
            final(cell)@ == old(cell)@.released(),
    {
        match cell.state.get() {
            RefState::Shared(n) => {
                if n <= 1 {
                    cell.state.set(RefState::Unshared);
                } else {
                    cell.state.set(RefState::Shared(n - 1));
                }
            },
            _ => {},
        }
    }
}

/// The exclusive view of a [`MyRefCell`]: read and write access for as long
/// as it is held. It is given back with `release`; until then every other
/// borrow of the cell is refused.
pub struct MyRefMut {
    held: (),
}

impl MyRefMut {
    /// A view token; the borrow it stands for is counted by `borrow_mut`.
    pub fn new() -> (r: MyRefMut) {
        MyRefMut { held: () }
    }

    /// The value of the cell that this view was taken from.
    pub fn get<'a, T>(&self, cell: &'a MyRefCell<T>) -> (r: &'a T)
        requires
            cell@.state == RefState::Exclusive,
        ensures
            *r == cell@.value,
    {
        &cell.value
    }

    /// Write access to the value of the cell that this view was taken from.
    pub fn get_mut<'a, T>(&self, cell: &'a mut MyRefCell<T>) -> (r: &'a mut T)
        requires
            old(cell)@.state == RefState::Exclusive,
        ensures
            *r == old(cell)@.value,
            final(cell)@ == old(cell)@.with_value(*final(r)),
    {
        &mut cell.value
    }

    /// Gives the view back: no view remains.
    pub fn release<T>(self, cell: &mut MyRefCell<T>)
        requires
            old(cell)@.state == RefState::Exclusive,
        ensures
            final(cell)@ == old(cell)@.mut_released(),
    {
        cell.state.set(RefState::Unshared);
    }
}

} // verus!
