//! Spinlocks that hold interrupts off on their core while held.
use vstd::prelude::*;
use crate::cpu::{Cpu, push_step, pop_step, id};

verus! {

/// A lock word with the core that holds it. Acquiring opens an
/// interrupt-off scope on that core; releasing closes it.
#[derive(Debug)]
pub struct Spinlock {
    locked: bool,
    name: &'static str,
    cpu: Option<u32>,
}

impl Spinlock {
    pub closed spec fn spec_locked(&self) -> bool {
        self.locked
    }

    pub closed spec fn spec_name(&self) -> &'static str {
        self.name
    }

    /// The core that holds the lock, if any.
    pub closed spec fn spec_cpu(&self) -> Option<u32> {
        self.cpu
    }

    pub open spec fn spec_holding(&self, cpu: &Cpu) -> bool {
        self.spec_locked() && self.spec_cpu() == Some(cpu.spec_id())
    }

    /// An unlocked lock called `name`.
    pub fn new(name: &'static str) -> (r: Spinlock)
        ensures
            !r.spec_locked(),
            r.spec_cpu() is None,
            r.spec_name() == name,
    {
        Spinlock { locked: false, name, cpu: None }
    }

    pub fn name(&self) -> (r: &'static str)
        ensures
            r == self.spec_name(),
    {
        self.name
    }

    /// Whether `cpu` holds the lock.
    pub fn holding(&self, cpu: &Cpu) -> (r: bool)
        ensures
            r == self.spec_holding(cpu),
    {
        let me = id(cpu);
        self.locked && match self.cpu {
            Some(c) => c == me,
            None => false,
        }
    }

    /// Takes the lock for `cpu`, opening an interrupt-off scope there;
    /// `enabled` is whether interrupts were on. On one core the lock must be
    /// free: a lock held with interrupts off is never released.
    pub fn acquire(&mut self, cpu: &mut Cpu, enabled: bool)
        requires
            !old(self).spec_locked(),
            old(cpu).spec_noff() < u32::MAX,
        ensures
            final(self).spec_holding(final(cpu)),
            (final(cpu).spec_noff() as int, final(cpu).spec_intena(), false) == push_step(
                old(cpu).spec_noff() as int,
                old(cpu).spec_intena(),
                enabled,
            ),
            final(cpu).spec_id() == old(cpu).spec_id(),
    {
        cpu.push_interrupt_off(enabled);
        self.locked = true;
        self.cpu = Some(id(cpu));
    }

    /// Gives the lock up, which `cpu` must hold, with interrupts off, and
    /// closes its interrupt-off scope. Returns whether the caller should turn
    /// interrupts back on.
    pub fn release(&mut self, cpu: &mut Cpu, enabled: bool) -> (r: bool)
        requires
            old(self).spec_holding(old(cpu)),
            !enabled,
            old(cpu).spec_noff() > 0,
        ensures
            !final(self).spec_locked(),
            final(self).spec_cpu() is None,
            (final(cpu).spec_noff() as int, final(cpu).spec_intena(), r) == pop_step(
                old(cpu).spec_noff() as int,
                old(cpu).spec_intena(),
            ),
            final(cpu).spec_id() == old(cpu).spec_id(),
    {
        self.cpu = None;
        self.locked = false;
        cpu.pop_interrupt_off(enabled)
    }
}

/// A value behind a spinlock.
#[derive(Debug)]
pub struct SpinMutex<T> {
    lock: Spinlock,
    data: T,
}

impl<T> SpinMutex<T> {
    pub closed spec fn spec_lock(&self) -> Spinlock {
        self.lock
    }

    pub closed spec fn spec_data(&self) -> T {
        self.data
    }

    /// `data` behind an unlocked lock called `name`.
    pub fn new(name: &'static str, data: T) -> (r: SpinMutex<T>)
        ensures
            !r.spec_lock().spec_locked(),
            r.spec_lock().spec_cpu() is None,
            r.spec_data() == data,
    {
        SpinMutex { lock: Spinlock::new(name), data }
    }

    pub fn lock_ref(&self) -> (r: &Spinlock)
        ensures
            *r == self.spec_lock(),
    {
        &self.lock
    }

    /// Whether `cpu` holds the lock.
    pub fn holding(&self, cpu: &Cpu) -> (r: bool)
        ensures
            r == self.spec_lock().spec_holding(cpu),
    {
        self.lock.holding(cpu)
    }

    /// Takes the lock for `cpu`, as `Spinlock::acquire` does.
    pub fn acquire(&mut self, cpu: &mut Cpu, enabled: bool)
        requires
            !old(self).spec_lock().spec_locked(),
            old(cpu).spec_noff() < u32::MAX,
        ensures
            final(self).spec_lock().spec_holding(final(cpu)),
            final(self).spec_data() == old(self).spec_data(),
            (final(cpu).spec_noff() as int, final(cpu).spec_intena(), false) == push_step(
                old(cpu).spec_noff() as int,
                old(cpu).spec_intena(),
                enabled,
            ),
            final(cpu).spec_id() == old(cpu).spec_id(),
    {
        self.lock.acquire(cpu, enabled);
    }

    /// Gives the lock up, as `Spinlock::release` does.
    pub fn release(&mut self, cpu: &mut Cpu, enabled: bool) -> (r: bool)
        requires
            old(self).spec_lock().spec_holding(old(cpu)),
            !enabled,
            old(cpu).spec_noff() > 0,
        ensures
            !final(self).spec_lock().spec_locked(),
            final(self).spec_data() == old(self).spec_data(),
            (final(cpu).spec_noff() as int, final(cpu).spec_intena(), r) == pop_step(
                old(cpu).spec_noff() as int,
                old(cpu).spec_intena(),
            ),
            final(cpu).spec_id() == old(cpu).spec_id(),
    {
        self.lock.release(cpu, enabled)
    }

    /// Replaces the protected value while `cpu` holds the lock, and returns
    /// the value it held.
    pub fn replace(&mut self, cpu: &Cpu, data: T) -> (r: T)
        requires
            old(self).spec_lock().spec_holding(cpu),
        ensures
            r == old(self).spec_data(),
            final(self).spec_data() == data,
            final(self).spec_lock() == old(self).spec_lock(),
    {
        let mut value = data;
        core::mem::swap(&mut self.data, &mut value);
        value
    }

    /// The protected value, read while `cpu` holds the lock.
    pub fn get(&self, cpu: &Cpu) -> (r: &T)
        requires
            self.spec_lock().spec_holding(cpu),
        ensures
            *r == self.spec_data(),
    {
        &self.data
    }
}

} // verus!
