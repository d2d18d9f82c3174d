//! A single stored value: a caller can overwrite it, or increment it by one,
//! which fails where nothing was stored yet or where the value is at its
//! maximum.

use vstd::prelude::*;

verus! {

/// Why an operation on the stored value was refused.
#[derive(Clone, Copy, PartialEq, Eq, Debug)]
pub enum CounterError {
    /// Nothing has been stored yet.
    NoneValue,
    /// Incrementing would overflow the stored value.
    StorageOverflow,
}

/// Emitted when a caller stores a value.
#[derive(Clone, Copy, PartialEq, Eq, Debug)]
pub enum CounterEvent {
    SomethingStored { something: u32, who: u64 },
}

/// The abstract state: the optional stored value and the emitted events.
pub struct CounterState {
    pub value: Option<u32>,
    pub events: Seq<CounterEvent>,
}

/// The stored value and its event log.
pub struct Counter {
    something: Option<u32>,
    events: Vec<CounterEvent>,
}

impl View for Counter {
    type V = CounterState;

    closed spec fn view(&self) -> CounterState {
        CounterState { value: self.something, events: self.events@ }
    }
}

impl Counter {
    /// Nothing stored yet, no events.
    pub fn new() -> (r: Counter)
        ensures
            r@.value is None,
            r@.events == Seq::<CounterEvent>::empty(),
    {
        let r = Counter { something: None, events: Vec::new() };
        proof {
            assert(r@.events =~= Seq::<CounterEvent>::empty());
        }
        r
    }

    /// The stored value, where one exists.
    pub fn something(&self) -> (r: Option<u32>)
        ensures
            r == self@.value,
    {
        self.something
    }

    /// Every event emitted so far, oldest first.
    pub fn events(&self) -> (r: &Vec<CounterEvent>)
        ensures
            r@ == self@.events,
    {
        &self.events
    }

    /// Store `something` for `who`, overwriting any prior value, and emit one
    /// event. Always succeeds.
    pub fn do_something(&mut self, who: u64, something: u32) -> (r: Result<(), CounterError>)
        ensures
            r == Ok::<(), CounterError>(()),
            final(self)@.value == Some(something),
            final(self)@.events == old(self)@.events.push(
                CounterEvent::SomethingStored { something, who },
            ),
    {
        self.something = Some(something);
        self.events.push(CounterEvent::SomethingStored { something, who });
        Ok(())
    }

    /// Increment the stored value by one. Fails with `NoneValue` where
    /// nothing was stored, with `StorageOverflow` where the value is at its
    /// maximum; failure changes nothing. No event is emitted.
    pub fn cause_error(&mut self, who: u64) -> (r: Result<(), CounterError>)
        ensures
            final(self)@.events == old(self)@.events,
            match old(self)@.value {
                None => r == Err::<(), CounterError>(CounterError::NoneValue) && *final(self)
                    == *old(self),
                Some(v) => if v == u32::MAX {
                    r == Err::<(), CounterError>(CounterError::StorageOverflow) && *final(self)
                        == *old(self)
                } else {
                    r == Ok::<(), CounterError>(()) && final(self)@.value == Some((v + 1) as u32)
                },
            },
    {
        let _ = who;
        match self.something {
            None => Err(CounterError::NoneValue),
            Some(old_value) => {
                if old_value == u32::MAX {
                    return Err(CounterError::StorageOverflow);
                }
                self.something = Some(old_value + 1);
                Ok(())
            },
        }
    }
}

} // verus!
