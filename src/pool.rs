use vstd::prelude::*;

use crate::item::PoolItem;

verus! {

/// Every state in `idle` is the canonical state `c`.
pub open spec fn all_canonical<V>(idle: Seq<V>, c: V) -> bool {
    forall|i: int| 0 <= i < idle.len() ==> #[trigger] idle[i] == c
}

/// What a checkout does to the idle states: it takes the most recently
/// returned one, or, when there is none, a fresh instance in state `fresh`.
/// Gives the idle states left and the state handed out.
pub open spec fn checkout<V>(idle: Seq<V>, fresh: V) -> (Seq<V>, V) {
    if idle.len() == 0 {
        (idle, fresh)
    } else {
        (idle.drop_last(), idle.last())
    }
}

/// What a release does to the idle states: the instance, reset to `c`,
/// is added once.
pub open spec fn checkin<V>(idle: Seq<V>, c: V) -> Seq<V> {
    idle.push(c)
}

/// A pool of idle instances of `T`, all of them in the canonical state.
/// Checking out takes the pool by `&mut`, and giving back is an explicit
/// `PoolGuard::release`: a guard that is dropped without it takes its
/// instance with it, and the pool makes a new one when it runs out.
pub struct Pool<T> {
    items: Vec<T>,
}

/// Exclusive access to one instance checked out of a pool. The instance goes
/// back to a pool through `release`, which consumes the guard, so that it can
/// be returned only once and not used afterwards.
pub struct PoolGuard<T> {
    inner: T,
}

impl<T: PoolItem> View for Pool<T> {
    type V = Seq<T::V>;

    /// The states of the idle instances, oldest first.
    closed spec fn view(&self) -> Seq<T::V> {
        self.items@.map_values(|x: T| x@)
    }
}

impl<T: PoolItem> Pool<T> {
    /// Every idle instance is in the canonical state.
    pub open spec fn wf(&self) -> bool {
        all_canonical(self@, T::initial())
    }

    /// Creates a pool with no idle instance.
    pub fn new() -> (r: Self)
        ensures
            r.wf(),
            r@ == Seq::<T::V>::empty(),
    {
        let r = Pool { items: Vec::new() };
        assert(r@ =~= Seq::<T::V>::empty());
        r
    }

    /// Checks out an instance: the most recently returned idle one, or a new
    /// one when none is idle. Either way it is in the canonical state.
    pub fn get(&mut self) -> (g: PoolGuard<T>)
        requires
            old(self).wf(),
        ensures
            final(self).wf(),
            (final(self)@, g.item()@) == checkout(old(self)@, T::initial()),
            g.item()@ == T::initial(),
    {
        let ghost before = self@;
        let item = match self.items.pop() {
            Some(item) => item,
            None => T::new(),
        };
        proof {
            if before.len() > 0 {
                assert(self@ =~= before.drop_last());
                assert(item@ == before[before.len() - 1]);
            }
        }
        PoolGuard { inner: item }
    }

    /// The number of idle instances.
    pub fn idle_len(&self) -> (r: usize)
        ensures
            r == self@.len(),
    {
        self.items.len()
    }
}

impl<T: PoolItem> PoolGuard<T> {
    /// The instance this guard holds.
    pub closed spec fn item(&self) -> T {
        self.inner
    }

    /// Ends the checkout: resets the instance, exactly once, and adds it,
    /// exactly once, to the idle instances of `pool`.
    pub fn release(self, pool: &mut Pool<T>)
        requires
            old(pool).wf(),
        ensures
            final(pool).wf(),
            final(pool)@ == checkin(old(pool)@, T::initial()),
    {
        let mut item = self.inner;
        item.reset();
        pool.items.push(item);
        assert(pool@ =~= checkin(old(pool)@, T::initial()));
    }
}

impl<T: PoolItem> core::ops::Deref for PoolGuard<T> {
    type Target = T;

    fn deref(&self) -> (r: &T)
        ensures
            *r == self.item(),
    {
        &self.inner
    }
}

impl<T: PoolItem> core::ops::DerefMut for PoolGuard<T> {
    fn deref_mut(&mut self) -> (r: &mut T)
        ensures
            *r == old(self).item(),
            final(self).item() == *final(r),
    {
        &mut self.inner
    }
}

/// The idle states after `n` checkouts in a row, none of them released, and
/// the states handed out, in the order of the checkouts.
pub open spec fn checkouts<V>(idle: Seq<V>, fresh: V, n: nat) -> (Seq<V>, Seq<V>)
    decreases n,
{
    if n == 0 {
        (idle, Seq::empty())
    } else {
        let (rest, handed) = checkouts(idle, fresh, (n - 1) as nat);
        let (left, one) = checkout(rest, fresh);
        (left, handed.push(one))
    }
}

/// The idle states after `n` cycles, each a checkout followed by the release
/// of the instance it handed out.
pub open spec fn cycles<V>(idle: Seq<V>, c: V, n: nat) -> Seq<V>
    decreases n,
{
    if n == 0 {
        idle
    } else {
        checkin(checkout(cycles(idle, c, (n - 1) as nat), c).0, c)
    }
}

/// A checkout from a pool whose idle instances are all canonical hands out a
/// canonical instance and leaves the rest canonical.
pub proof fn lemma_checkout_canonical<V>(idle: Seq<V>, c: V)
    requires
        all_canonical(idle, c),
    ensures
        checkout(idle, c).1 == c,
        all_canonical(checkout(idle, c).0, c),
{
}

/// A release keeps every idle instance canonical.
pub proof fn lemma_checkin_canonical<V>(idle: Seq<V>, c: V)
    requires
        all_canonical(idle, c),
    ensures
        all_canonical(checkin(idle, c), c),
{
}

/// Recycling: whatever was done to an instance while it was checked out,
/// once it is released the next checkout hands out a canonical instance, and
/// the idle instances are as they were before the first checkout.
pub proof fn lemma_recycled_is_canonical<V>(idle: Seq<V>, c: V)
    requires
        all_canonical(idle, c),
    ensures
        checkout(checkin(checkout(idle, c).0, c), c).1 == c,
        checkin(checkout(idle, c).0, c) =~= if idle.len() == 0 {
            seq![c]
        } else {
            idle
        },
{
    lemma_checkout_canonical(idle, c);
    lemma_checkin_canonical(checkout(idle, c).0, c);
    lemma_checkout_canonical(checkin(checkout(idle, c).0, c), c);
}

/// Checkouts from an empty pool, none released, each make an instance of
/// their own: the pool stays empty and each of the `n` handed out is fresh.
pub proof fn lemma_checkouts_from_empty<V>(fresh: V, n: nat)
    ensures
        checkouts(Seq::<V>::empty(), fresh, n).0 =~= Seq::<V>::empty(),
        checkouts(Seq::<V>::empty(), fresh, n).1 =~= Seq::new(n, |i: int| fresh),
    decreases n,
{
    if n > 0 {
        lemma_checkouts_from_empty(fresh, (n - 1) as nat);
    }
}

/// Cycles of one checkout and one release never grow the idle instances
/// beyond one more than there were: after `n > 0` cycles there are as many
/// as before, or one if there were none. From an empty pool, `n` cycles
/// leave at most `n` idle instances. All of them stay canonical.
pub proof fn lemma_cycles_bounded<V>(idle: Seq<V>, c: V, n: nat)
    requires
        all_canonical(idle, c),
    ensures
        cycles(idle, c, n).len() == if n == 0 {
            idle.len()
        } else if idle.len() == 0 {
            1
        } else {
            idle.len()
        },
        idle.len() == 0 ==> cycles(idle, c, n).len() <= n,
        all_canonical(cycles(idle, c, n), c),
    decreases n,
{
    if n > 0 {
        lemma_cycles_bounded(idle, c, (n - 1) as nat);
        let prev = cycles(idle, c, (n - 1) as nat);
        lemma_checkout_canonical(prev, c);
        lemma_checkin_canonical(checkout(prev, c).0, c);
    }
}

} // verus!
