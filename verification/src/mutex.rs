//! The lock around a payload, for a party that owns it.
//!
//! Whoever holds a `&mut Mutex` is alone with it: no other party can arrive
//! while a guard lives, so the queue of such a mutex has at most one slot in
//! it, the one of the guard. The tail is then either none or that slot, and a
//! slot's successor word is never written by anyone else. What is left of the
//! protocol is what each operation does to the tail and to the slot; the
//! waiting and the hand-off stand in [`crate::protocol`] and
//! [`crate::model`].
//!
//! A guard gives the lock up when [`MutexGuard::unlock`] is called. One that
//! is let go without that call leaves the mutex in use.
use vstd::prelude::*;

verus! {

/// The node that a party brings to the queue.
pub struct Slot {
    next: Option<usize>,
}

/// A payload and the tail of the queue of those who want it.
pub struct Mutex<T: ?Sized> {
    queue: bool,
    data: T,
}

/// The right to use the payload, from a successful acquisition until
/// [`MutexGuard::unlock`].
#[must_use]
pub struct MutexGuard<'a, T: ?Sized> {
    pub lock: &'a mut Mutex<T>,
    pub slot: &'a mut Slot,
}

impl Slot {
    /// The successor word: none until a later arrival writes itself there.
    pub closed spec fn successor(&self) -> Option<usize> {
        self.next
    }

    /// A slot with no successor.
    pub fn new() -> (slot: Slot)
        ensures
            slot.successor() is None,
        no_unwind
    {
        Slot { next: None }
    }
}

impl<T> Mutex<T> {
    /// The mutex that holds `value` and that nobody holds or awaits.
    pub closed spec fn fresh(value: T) -> Mutex<T> {
        Mutex { queue: false, data: value }
    }

    /// What `fresh` says in words: the payload is `value`, the tail is none.
    pub proof fn lemma_fresh(value: T)
        ensures
            *Mutex::fresh(value).payload() == value,
            !Mutex::fresh(value).in_use(),
    {
    }

    /// A mutex that holds `value` and that nobody holds or awaits.
    pub fn new(value: T) -> (mutex: Mutex<T>)
        ensures
            mutex == Mutex::fresh(value),
            *mutex.payload() == value,
            !mutex.in_use(),
        no_unwind
    {
        Mutex { queue: false, data: value }
    }

    /// Gives the payload back and ends the mutex. The payload is moved, not
    /// dropped.
    pub fn into_inner(self) -> (value: T)
        ensures
            value == *self.payload(),
        no_unwind
    {
        self.data
    }
}

impl<T: ?Sized> Mutex<T> {
    /// The payload.
    pub closed spec fn payload(&self) -> &T {
        &self.data
    }

    /// Whether the tail is set: somebody holds the lock.
    pub closed spec fn in_use(&self) -> bool {
        self.queue
    }

    /// Whether `other` holds the same payload and the same tail.
    pub open spec fn same_as(&self, other: &Mutex<T>) -> bool {
        self.payload() == other.payload() && self.in_use() == other.in_use()
    }

    /// The payload, without the queue: the caller is alone with the mutex.
    /// What is written through the reference is the payload from then on;
    /// the tail is not touched.
    pub fn get_mut(&mut self) -> (payload: &mut T)
        ensures
            &*payload == old(self).payload(),
            final(self).payload() == &*final(payload),
            final(self).in_use() == old(self).in_use(),
        no_unwind
    {
        &mut self.data
    }

    /// Takes the lock if nobody holds it, and gives up otherwise.
    ///
    /// Resets the slot's successor word, then sets the tail to the slot if
    /// the tail is none. Where the tail is set, nothing but the slot's
    /// successor word changes.
    pub fn try_lock<'a>(&'a mut self, slot: &'a mut Slot) -> (guard: Option<MutexGuard<'a, T>>)
        ensures
            guard is Some <==> !old(self).in_use(),
            match guard {
                Some(guard) => {
                    &&& guard.holds()
                    &&& (*guard.lock).payload() == old(self).payload()
                    &&& final(self).payload() == final(guard.lock).payload()
                    &&& final(self).in_use() == final(guard.lock).in_use()
                    &&& final(slot).successor() == final(guard.slot).successor()
                },
                None => {
                    &&& final(self).payload() == old(self).payload()
                    &&& final(self).in_use()
                    &&& final(slot).successor() is None
                },
            },
        no_unwind
    {
        slot.next = None;
        if self.queue {
            None
        } else {
            self.queue = true;
            Some(MutexGuard { lock: self, slot })
        }
    }

    /// Takes the lock.
    ///
    /// Resets the slot's successor word, then swaps the slot into the tail.
    /// The caller is alone with the mutex, so nobody is there to give the
    /// lock up while this call waits: it is for a mutex that nobody holds.
    pub fn lock<'a>(&'a mut self, slot: &'a mut Slot) -> (guard: MutexGuard<'a, T>)
        requires
            !old(self).in_use(),
        ensures
            guard.holds(),
            (*guard.lock).payload() == old(self).payload(),
            final(self).payload() == final(guard.lock).payload(),
            final(self).in_use() == final(guard.lock).in_use(),
            final(slot).successor() == final(guard.slot).successor(),
        no_unwind
    {
        slot.next = None;
        self.queue = true;
        MutexGuard { lock: self, slot }
    }
}

impl<'a, T: ?Sized> MutexGuard<'a, T> {
    /// Whether the guard is what an acquisition returns: the tail is set, to
    /// the guard's slot, and the slot has no successor.
    pub open spec fn holds(self) -> bool {
        (*self.lock).in_use() && (*self.slot).successor() is None
    }

    /// Gives the lock up.
    ///
    /// Reads the slot's successor word, finds none, and sets the tail from
    /// the slot to none. The payload is not touched.
    pub fn unlock(self)
        requires
            self.holds(),
        ensures
            !final(self.lock).in_use(),
            final(self.lock).payload() == old(self.lock).payload(),
            final(self.slot).successor() is None,
        no_unwind
    {
        match self.slot.next {
            None => {
                self.lock.queue = false;
            },
            Some(_) => {},
        }
    }
}

impl<'a, T: ?Sized> core::ops::Deref for MutexGuard<'a, T> {
    type Target = T;

    /// The payload.
    fn deref(&self) -> (payload: &T)
        ensures
            payload == old(self.lock).payload(),
    {
        &self.lock.data
    }
}

impl<'a, T: ?Sized> core::ops::DerefMut for MutexGuard<'a, T> {
    /// The payload, to write. Neither the tail nor the slot is touched.
    fn deref_mut(&mut self) -> (payload: &mut T)
        ensures
            &*payload == old(old(self).lock).payload(),
            old(final(self).lock).payload() == &*final(payload),
            old(final(self).lock).in_use() == old(old(self).lock).in_use(),
            old(final(self).slot).successor() == old(old(self).slot).successor(),
            final(final(self).lock).payload() == final(old(self).lock).payload(),
            final(final(self).lock).in_use() == final(old(self).lock).in_use(),
            final(final(self).slot).successor() == final(old(self).slot).successor(),
    {
        &mut self.lock.data
    }
}

impl<T: Default> Default for Mutex<T> {
    /// A mutex that nobody holds, around the default payload.
    fn default() -> (mutex: Mutex<T>)
        ensures
            !mutex.in_use(),
            T::default.ensures((), *mutex.payload()),
    {
        Mutex::new(T::default())
    }
}

impl<T> From<T> for Mutex<T> {
    /// A mutex that nobody holds, around `data`.
    fn from(data: T) -> (mutex: Mutex<T>) {
        Mutex::new(data)
    }
}

impl<T> vstd::std_specs::convert::FromSpecImpl<T> for Mutex<T> {
    open spec fn obeys_from_spec() -> bool {
        true
    }

    open spec fn from_spec(data: T) -> Mutex<T> {
        Mutex::fresh(data)
    }
}

/// A try on a new mutex succeeds. A second try, made while the mutex is still
/// held, fails and changes neither the tail nor the payload.
///
/// The first guard is let go without `unlock`, so what it leaves is the mutex
/// as the guard holds it.
pub proof fn lemma_try_lock_succeeds_once<'a, T>(
    value: T,
    first: &'a mut Mutex<T>,
    first_slot: &'a mut Slot,
    first_guard: Option<MutexGuard<'a, T>>,
    second: &'a mut Mutex<T>,
    second_slot: &'a mut Slot,
    second_guard: Option<MutexGuard<'a, T>>,
)
    requires
        call_ensures(Mutex::<T>::new, (value,), *first),
        call_ensures(Mutex::<T>::try_lock, (first, first_slot), first_guard),
        first_guard matches Some(guard) ==> final(guard.lock).same_as(&*guard.lock),
        second.same_as(final(first)),
        call_ensures(Mutex::<T>::try_lock, (second, second_slot), second_guard),
    ensures
        first_guard is Some,
        second_guard is None,
        final(second).same_as(old(second)),
        final(second).in_use(),
        *final(second).payload() == value,
{
}

/// What was put into a mutex comes out of it.
pub proof fn lemma_into_inner_returns_the_payload<T>(value: T, mutex: Mutex<T>, out: T)
    requires
        call_ensures(Mutex::<T>::new, (value,), mutex),
        call_ensures(Mutex::<T>::into_inner, (mutex,), out),
    ensures
        out == value,
{
}

/// What was written last through `get_mut` comes out of a mutex.
pub proof fn lemma_into_inner_returns_what_get_mut_wrote<'a, T>(
    mutex: &'a mut Mutex<T>,
    payload: &'a mut T,
    out: T,
)
    requires
        call_ensures(Mutex::<T>::get_mut, (mutex,), payload),
        call_ensures(Mutex::<T>::into_inner, (*final(mutex),), out),
    ensures
        out == *final(payload),
{
}

/// What was written last through a guard comes out of a mutex, once the
/// guard has given the lock up.
pub proof fn lemma_into_inner_returns_what_a_guard_wrote<'a, T>(
    guard: &'a mut MutexGuard<'a, T>,
    payload: &'a mut T,
    mutex: Mutex<T>,
    out: T,
)
    requires
        guard.holds(),
        call_ensures(<MutexGuard<'a, T> as core::ops::DerefMut>::deref_mut, (guard,), payload),
        call_ensures(MutexGuard::<'a, T>::unlock, (*final(guard),), ()),
        mutex.same_as(final(final(guard).lock)),
        call_ensures(Mutex::<T>::into_inner, (mutex,), out),
    ensures
        call_requires(MutexGuard::<'a, T>::unlock, (*final(guard),)),
        !mutex.in_use(),
        out == *final(payload),
{
}

/// What is written through `get_mut` is what the next guard reads.
pub proof fn lemma_lock_sees_what_get_mut_wrote<'a, T: ?Sized>(
    mutex: &'a mut Mutex<T>,
    payload: &'a mut T,
    again: &'a mut Mutex<T>,
    slot: &'a mut Slot,
    guard: MutexGuard<'a, T>,
    seen: &'a T,
)
    requires
        !mutex.in_use(),
        call_ensures(Mutex::<T>::get_mut, (mutex,), payload),
        again.same_as(final(mutex)),
        call_ensures(Mutex::<T>::lock, (again, slot), guard),
        call_ensures(<MutexGuard<'a, T> as core::ops::Deref>::deref, (&guard,), seen),
    ensures
        call_requires(Mutex::<T>::lock, (again, slot)),
        seen == &*final(payload),
{
}

/// A used slot is as good as a new one: whatever a slot holds from its last
/// turn, an attempt with it ends as an attempt with a new slot does, and
/// leaves the mutex and the slot as that does.
pub proof fn lemma_a_used_slot_is_as_good_as_new<'a, T: ?Sized>(
    mutex: &'a mut Mutex<T>,
    used: &'a mut Slot,
    with_used: Option<MutexGuard<'a, T>>,
    same: &'a mut Mutex<T>,
    new: &'a mut Slot,
    with_new: Option<MutexGuard<'a, T>>,
)
    requires
        mutex.same_as(&*same),
        call_ensures(Slot::new, (), *new),
        call_ensures(Mutex::<T>::try_lock, (mutex, used), with_used),
        call_ensures(Mutex::<T>::try_lock, (same, new), with_new),
    ensures
        match (with_used, with_new) {
            (Some(a), Some(b)) => (*a.lock).same_as(&*b.lock) && (*a.slot).successor()
                == (*b.slot).successor(),
            (None, None) => final(mutex).same_as(final(same)) && final(used).successor()
                == final(new).successor(),
            _ => false,
        },
{
}

} // verus!
