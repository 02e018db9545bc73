//! What is installed on a thread: at most one thing at a time.

use vstd::prelude::*;

verus! {

/// The place in which a thread keeps the runtime that it works for.
#[derive(Debug)]
pub struct Current<R> {
    slot: Option<R>,
}

impl<R> Current<R> {
    /// What is installed.
    pub closed spec fn view(&self) -> Option<R> {
        self.slot
    }

    /// Nothing is installed.
    pub fn new() -> (current: Self)
        ensures
            current@ is None,
    {
        Current { slot: None }
    }

    /// Install `runtime`. Nesting is not supported: if something is installed already, it stays,
    /// and `runtime` is handed back.
    pub fn install(&mut self, runtime: R) -> (installed: Result<(), R>)
        ensures
            old(self)@ is None ==> installed == Ok::<(), R>(()) && final(self)@ == Some(runtime),
            old(self)@ is Some ==> installed == Err::<(), R>(runtime) && final(self)@ == old(self)@,
    {
        if self.slot.is_some() {
            return Err(runtime);
        }
        self.slot = Some(runtime);
        Ok(())
    }

    /// Take out what is installed.
    pub fn uninstall(&mut self) -> (runtime: Option<R>)
        ensures
            runtime == old(self)@,
            final(self)@ is None,
    {
        self.slot.take()
    }

    /// What is installed, if anything is.
    pub fn get(&self) -> (runtime: Option<&R>)
        ensures
            match runtime {
                Some(runtime) => self@ == Some(*runtime),
                None => self@ is None,
            },
    {
        self.slot.as_ref()
    }
}

} // verus!
