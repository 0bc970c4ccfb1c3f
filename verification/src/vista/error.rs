use vstd::prelude::*;
use vstd::string::*;

verus! {

/// What can go wrong when accessing a value through a view.
#[derive(Debug)]
pub enum ViewError {
    /// An access by index was out of bounds.
    IndexOutOfBounds(usize),
    /// A lock was poisoned by a thread that panicked while holding it; the
    /// text describes the poisoning.
    LockPoisoned(String),
    /// A non-blocking attempt found the resource locked.
    LockBusy,
    /// Another failure, described by its message.
    Other(String),
}

impl ViewError {
    /// A description of the error for people to read.
    pub fn message(&self) -> (r: String)
        ensures
            self matches ViewError::IndexOutOfBounds(i) ==> exists|d: String|
                to_string_from_display_ensures::<usize>(&i, d) && r@ == "Index "@ + d@
                    + " is out of bounds"@,
            self matches ViewError::LockPoisoned(s) ==> r@ == "Synchronization lock poisoned: "@
                + s@,
            self is LockBusy ==> r@ == "Resource is currently locked and try_lock failed"@,
            self matches ViewError::Other(s) ==> r@ == s@,
    {
        match self {
            ViewError::IndexOutOfBounds(i) => {
                let digits = i.to_string();
                let mut m = "Index ".to_owned();
                m.append(digits.as_str());
                m.append(" is out of bounds");
                m
            },
            ViewError::LockPoisoned(s) => {
                let mut m = "Synchronization lock poisoned: ".to_owned();
                m.append(s.as_str());
                m
            },
            ViewError::LockBusy => "Resource is currently locked and try_lock failed".to_owned(),
            ViewError::Other(s) => s.clone(),
        }
    }
}

} // verus!
