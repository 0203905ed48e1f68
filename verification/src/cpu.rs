//! One value for each processor.
use vstd::prelude::*;

use crate::config::limits::MAX_CPUS;

verus! {

/// One value for each processor, by its number.
pub struct CpuLocal<T> {
    slots: Vec<T>,
}

impl<T> View for CpuLocal<T> {
    type V = Seq<T>;

    closed spec fn view(&self) -> Seq<T> {
        self.slots@
    }
}

impl<T> CpuLocal<T> {
    /// There is a value for each processor.
    pub open spec fn wf(&self) -> bool {
        self@.len() == MAX_CPUS
    }

    /// The values that a function gives for the processors.
    pub fn new_with<F: Fn(usize) -> T>(init: F) -> (r: Self)
        requires
            forall|cpu: usize| cpu < MAX_CPUS ==> #[trigger] init.requires((cpu,)),
        ensures
            r.wf(),
            forall|cpu: usize| cpu < MAX_CPUS ==> init.ensures((cpu,), #[trigger] r@[cpu as int]),
    {
        let mut slots: Vec<T> = Vec::new();
        let mut cpu: usize = 0;
        while cpu < MAX_CPUS
            invariant
                0 <= cpu <= MAX_CPUS,
                slots@.len() == cpu,
                forall|c: usize| c < MAX_CPUS ==> #[trigger] init.requires((c,)),
                forall|c: usize| c < cpu ==> init.ensures((c,), #[trigger] slots@[c as int]),
            decreases MAX_CPUS - cpu,
        {
            slots.push(init(cpu));
            cpu = cpu + 1;
        }
        CpuLocal { slots }
    }

    /// The value of a processor.
    pub fn local(&self, cpu: usize) -> (r: &T)
        requires
            self.wf(),
            cpu < MAX_CPUS,
        ensures
            *r == self@[cpu as int],
    {
        &self.slots[cpu]
    }

    /// The value of a processor, to be changed in its place.
    pub fn local_mut(&mut self, cpu: usize) -> (r: &mut T)
        requires
            old(self).wf(),
            cpu < MAX_CPUS,
        ensures
            *r == old(self)@[cpu as int],
            final(self)@ == old(self)@.update(cpu as int, *final(r)),
    {
        &mut self.slots[cpu]
    }
}

} // verus!
