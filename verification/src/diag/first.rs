//! Records of the first of some events.
use vstd::prelude::*;

verus! {

/// What becomes of the first of some events: it is recorded, and handed out
/// once.
#[derive(Clone, Copy, Debug)]
pub enum FirstRecord<T> {
    Empty,
    Ready(T),
    Reported,
}

impl<T: Copy> FirstRecord<T> {
    /// Nothing has happened.
    pub fn new() -> (r: Self)
        ensures
            r is Empty,
    {
        FirstRecord::Empty
    }

    /// The record once another event has happened.
    pub open spec fn after(self, event: T) -> FirstRecord<T> {
        if self is Empty {
            FirstRecord::Ready(event)
        } else {
            self
        }
    }

    /// Records an event, if it is the first.
    pub fn note(&mut self, event: T)
        ensures
            *final(self) == old(self).after(event),
    {
        match *self {
            FirstRecord::Empty => {
                *self = FirstRecord::Ready(event);
            },
            _ => {},
        }
    }

    /// Hands the first event out, if that has not been done.
    pub fn take(&mut self) -> (r: Option<T>)
        ensures
            match *old(self) {
                FirstRecord::Ready(event) => r == Some(event) && *final(self) is Reported,
                _ => r is None && *final(self) == *old(self),
            },
    {
        match *self {
            FirstRecord::Ready(event) => {
                *self = FirstRecord::Reported;
                Some(event)
            },
            _ => None,
        }
    }

    /// Of two events only the first is handed out, and only once, whatever
    /// happens later.
    pub proof fn only_the_first_counts(a: T, b: T)
        ensures
            FirstRecord::<T>::Empty.after(a).after(b) == FirstRecord::Ready(a),
            FirstRecord::<T>::Reported.after(b) == FirstRecord::<T>::Reported,
    {
    }
}

/// A trap that ended a program.
#[derive(Clone, Copy, PartialEq, Eq, Structural, Debug)]
pub struct TerminalUserTrap {
    pub kind: usize,
    pub pid: usize,
    pub vaddr: usize,
    pub sepc: usize,
    pub sp: usize,
    pub ra: usize,
    pub tp: usize,
    pub fault_pa: usize,
    pub sepc_pa: usize,
    pub vma_start: usize,
    pub vma_end: usize,
    pub vma_flags: usize,
    pub backing: usize,
    pub resident: usize,
    pub page_state: usize,
}

/// A page fault that could not be served: at which stage, and why.
#[derive(Clone, Copy, PartialEq, Eq, Structural, Debug)]
pub struct PageFaultFailure {
    pub stage: usize,
    pub errno: usize,
    pub vaddr: usize,
}

/// A program that could not be started: at which stage, why, and what was
/// looked at.
#[derive(Clone, Copy, PartialEq, Eq, Structural, Debug)]
pub struct ExecFailure {
    pub errno: usize,
    pub pid: usize,
    pub path_ptr: usize,
    pub argv_ptr: usize,
    pub envp_ptr: usize,
    pub stage: usize,
    pub vector_base: usize,
    pub index: usize,
    pub entry_addr: usize,
    pub value_ptr: usize,
    pub parent_pid: usize,
    pub clone_flags: usize,
    pub vma_start: usize,
    pub vma_end: usize,
    pub vma_flags: usize,
    pub backing: usize,
    pub resident: usize,
    pub page_state: usize,
    pub pte_pa: usize,
}

/// The stage of a failure of which nothing more is known.
pub const EXEC_FAILURE_STAGE_FALLBACK: usize = 0;

impl ExecFailure {
    /// A failure of which only the call is known.
    pub fn of_call(errno: usize, pid: usize, path_ptr: usize, argv_ptr: usize, envp_ptr: usize) -> (r:
        Self)
        ensures
            r == (ExecFailure {
                errno,
                pid,
                path_ptr,
                argv_ptr,
                envp_ptr,
                stage: EXEC_FAILURE_STAGE_FALLBACK,
                vector_base: 0,
                index: 0,
                entry_addr: 0,
                value_ptr: 0,
                parent_pid: 0,
                clone_flags: 0,
                vma_start: 0,
                vma_end: 0,
                vma_flags: 0,
                backing: 0,
                resident: 0,
                page_state: 0,
                pte_pa: 0,
            }),
    {
        ExecFailure {
            errno,
            pid,
            path_ptr,
            argv_ptr,
            envp_ptr,
            stage: EXEC_FAILURE_STAGE_FALLBACK,
            vector_base: 0,
            index: 0,
            entry_addr: 0,
            value_ptr: 0,
            parent_pid: 0,
            clone_flags: 0,
            vma_start: 0,
            vma_end: 0,
            vma_flags: 0,
            backing: 0,
            resident: 0,
            page_state: 0,
            pte_pa: 0,
        }
    }
}

} // verus!
