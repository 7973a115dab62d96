use vstd::prelude::*;

use crate::cell::MyCell;

verus! {

/// The heap block behind a set of counted handles: the payload and the
/// number of live handles.
pub struct MyRcInner<T> {
    value: T,
    refcount: MyCell<usize>,
}

impl<T> MyRcInner<T> {
    pub closed spec fn value(&self) -> T {
        self.value
    }

    pub closed spec fn refcount(&self) -> nat {
        self.refcount@ as nat
    }

    /// A block holding `value`, owned by one handle.
    pub fn new(value: T) -> (r: MyRcInner<T>)
        ensures
            r.value() == value,
            r.refcount() == 1,
    {
        MyRcInner { value, refcount: MyCell::new(1) }
    }
}

/// Shared ownership of a heap-allocated value by a set of handles, counted
/// explicitly. Handles are added by `clone_handle` and destroyed by
/// `drop_handle`; the block, and with it the payload, is freed exactly when
/// the last handle is destroyed.
pub struct MyRc<T> {
    inner: Option<Box<MyRcInner<T>>>,
}

impl<T> MyRc<T> {
    /// The number of live handles; zero once the block is freed.
    pub closed spec fn handles(&self) -> nat {
        match self.inner {
            Some(b) => b.refcount(),
            None => 0,
        }
    }

    /// The payload, while the block is alive.
    pub closed spec fn value(&self) -> T {
        self.inner->Some_0.value()
    }

    /// Allocates a block holding `value`, with one handle.
    pub fn new(value: T) -> (r: MyRc<T>)
        ensures
            r.handles() == 1,
            r.value() == value,
    {
        MyRc { inner: Some(Box::new(MyRcInner::new(value))) }
    }

    /// The number of live handles.
    pub fn count(&self) -> (r: usize)
        ensures
            r == self.handles(),
    {
        match &self.inner {
            Some(b) => b.refcount.get(),
            None => 0,
        }
    }

    /// Read-only access to the payload.
    pub fn get(&self) -> (r: &T)
        requires
            self.handles() > 0,
        ensures
            *r == self.value(),
    {
        &self.inner.as_ref().unwrap().value
    }

    /// Adds a handle to the same block; nothing is allocated.
    pub fn clone_handle(&mut self)
        requires
            0 < old(self).handles() < usize::MAX,
        ensures
            final(self).handles() == old(self).handles() + 1,
            final(self).value() == old(self).value(),
    {
        match &mut self.inner {
            Some(b) => {
                let refcount = b.refcount.get();
                b.refcount.set(refcount + 1);
            },
            None => {},
        }
    }

    /// Destroys one handle. When it was the last one, the block is freed,
    /// which runs the payload's cleanup, and `true` is returned.
    pub fn drop_handle(&mut self) -> (freed: bool)
        requires
            old(self).handles() > 0,
        ensures
            freed == (old(self).handles() == 1),
            final(self).handles() == old(self).handles() - 1,
            !freed ==> final(self).value() == old(self).value(),
    {
        let refcount = self.count();
        if refcount == 1 {
            self.inner = None;
            true
        } else {
            match &mut self.inner {
                Some(b) => {
                    b.refcount.set(refcount - 1);
                },
                None => {},
            }
            false
        }
    }
}

/// One operation on a set of counted handles.
pub enum HandleOp {
    Clone,
    Drop,
}

impl HandleOp {
    /// The number of live handles after this operation, from `n`.
    pub open spec fn apply(self, n: int) -> int {
        match self {
            HandleOp::Clone => n + 1,
            HandleOp::Drop => n - 1,
        }
    }

    /// Whether this operation frees the block, from `n` live handles.
    pub open spec fn frees(self, n: int) -> bool {
        self is Drop && n == 1
    }
}

/// Every operation of `ops`, run from `n` live handles, finds a live handle
/// to act through.
pub open spec fn valid_run(n: int, ops: Seq<HandleOp>) -> bool
    decreases ops.len(),
{
    ops.len() == 0 || (n > 0 && valid_run(ops[0].apply(n), ops.drop_first()))
}

/// The number of live handles after running `ops` from `n`.
pub open spec fn handles_after(n: int, ops: Seq<HandleOp>) -> int
    decreases ops.len(),
{
    if ops.len() == 0 {
        n
    } else {
        handles_after(ops[0].apply(n), ops.drop_first())
    }
}

/// How many times the block is freed while `ops` runs from `n`.
pub open spec fn frees_during(n: int, ops: Seq<HandleOp>) -> nat
    decreases ops.len(),
{
    if ops.len() == 0 {
        0
    } else {
        (if ops[0].frees(n) {
            1nat
        } else {
            0nat
        }) + frees_during(ops[0].apply(n), ops.drop_first())
    }
}

/// The number of clones in `ops`.
pub open spec fn clones(ops: Seq<HandleOp>) -> nat
    decreases ops.len(),
{
    if ops.len() == 0 {
        0
    } else {
        (if ops[0] is Clone {
            1nat
        } else {
            0nat
        }) + clones(ops.drop_first())
    }
}

/// For any run of clones and drops through live handles, the count equals
/// the handles made minus the handles destroyed, and the block is freed
/// exactly once when no handle remains and never otherwise; a free is always
/// the last operation of the run.
pub proof fn lemma_counting_protocol(n: int, ops: Seq<HandleOp>)
    requires
        n > 0,
        valid_run(n, ops),
    ensures
        handles_after(n, ops) == n + clones(ops) - (ops.len() - clones(ops)),
        handles_after(n, ops) >= 0,
        frees_during(n, ops) == (if handles_after(n, ops) == 0 {
            1nat
        } else {
            0nat
        }),
        forall|i: int|
            0 <= i < ops.len() - 1 ==> !(#[trigger] ops[i]).frees(
                handles_after(n, ops.take(i)),
            ),
    decreases ops.len(),
{
    if ops.len() > 0 {
        let m = ops[0].apply(n);
        let rest = ops.drop_first();
        assert(valid_run(m, rest));
        if m == 0 {
            assert(rest.len() == 0);
            assert(handles_after(m, rest) == 0);
            assert(clones(rest) == 0);
            assert(frees_during(m, rest) == 0);
        } else {
            lemma_counting_protocol(m, rest);
            assert forall|i: int| 0 <= i < ops.len() - 1 implies !(#[trigger] ops[i]).frees(
                handles_after(n, ops.take(i)),
            ) by {
                if i == 0 {
                    assert(ops.take(0).len() == 0);
                } else {
                    assert(ops.take(i).drop_first() =~= rest.take(i - 1));
                    assert(ops[i] == rest[i - 1]);
                }
            }
        }
    }
}

} // verus!
