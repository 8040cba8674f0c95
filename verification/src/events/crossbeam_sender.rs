//! The sending end of the event channel, abstracted so that the library
//! does not depend on a channel crate.

use vstd::prelude::*;

verus! {

/// The receiving side is closed.
#[derive(Debug, PartialEq, Eq)]
pub struct SendError;

/// A minimal sending end.
pub trait Sender<T> {
    /// Sends one value; `Err` once the receiver is closed.
    fn send(&mut self, value: T) -> Result<(), SendError>;
}

/// A sender that collects into a `Vec`, for tests.
#[derive(Debug)]
pub struct VecSender<T> {
    items: Vec<T>,
}

impl<T> View for VecSender<T> {
    type V = Seq<T>;

    closed spec fn view(&self) -> Seq<T> {
        self.items@
    }
}

impl<T> VecSender<T> {
    pub fn new() -> (r: Self)
        ensures
            r@ == Seq::<T>::empty(),
    {
        VecSender { items: Vec::new() }
    }

    /// Takes every value received so far.
    pub fn take(&mut self) -> (r: Vec<T>)
        ensures
            r@ == old(self)@,
            final(self)@ == Seq::<T>::empty(),
    {
        let mut out: Vec<T> = Vec::new();
        core::mem::swap(&mut out, &mut self.items);
        out
    }
}

impl<T> Sender<T> for VecSender<T> {
    fn send(&mut self, value: T) -> (r: Result<(), SendError>)
        ensures
            final(self)@ == old(self)@.push(value),
            r is Ok,
    {
        self.items.push(value);
        Ok(())
    }
}

} // verus!
