use vstd::prelude::*;

verus! {

/// Lifecycle of a value that is loaded asynchronously.
#[derive(Clone, PartialEq, Eq, Debug)]
pub enum Status<E: Clone> {
    Initial,
    Loading,
    Loaded,
    Reloading,
    Error { error: E },
}

impl<E: Clone> Status<E> {
    /// Whether a value has been loaded successfully and is being shown
    /// (possibly while a reload runs).
    pub open spec fn spec_has_value(&self) -> bool {
        match self {
            Status::Loaded | Status::Reloading => true,
            _ => false,
        }
    }

    /// The state that a new load attempt enters: `Reloading` when a value was
    /// loaded before, `Loading` otherwise (also when retrying after an error).
    pub open spec fn spec_started(&self) -> Status<E> {
        if self.spec_has_value() {
            Status::Reloading
        } else {
            Status::Loading
        }
    }

    pub fn has_value(&self) -> (r: bool)
        ensures
            r == self.spec_has_value(),
    {
        match self {
            Status::Loaded | Status::Reloading => true,
            _ => false,
        }
    }

    pub fn started(&self) -> (r: Status<E>)
        ensures
            r == self.spec_started(),
    {
        if self.has_value() {
            Status::Reloading
        } else {
            Status::Loading
        }
    }

    /// The state a load attempt ends in.
    pub fn finished(result: Result<(), E>) -> (r: Status<E>)
        ensures
            result is Ok ==> r == Status::<E>::Loaded,
            result is Err ==> r == (Status::Error { error: result->Err_0 }),
    {
        match result {
            Ok(()) => Status::Loaded,
            Err(error) => Status::Error { error },
        }
    }
}

impl<E: Clone> Default for Status<E> {
    fn default() -> (r: Self)
        ensures
            r == Status::<E>::Initial,
    {
        Status::Initial
    }
}

} // verus!
