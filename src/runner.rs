//! What a solution may return: a value, or nothing, or an error.
use vstd::prelude::*;

verus! {

/// A solution's result, unpacked into the answer or the reason there is none.
pub trait Answer: Sized {
    type Output;
    type Error;

    /// The answer, if the result holds one.
    spec fn answer_of(self) -> Option<Self::Output>;

    fn unpack(self) -> (r: Result<Self::Output, Self::Error>)
        ensures
            r is Ok <==> self.answer_of() is Some,
            r is Ok ==> r->Ok_0 == self.answer_of()->0;
}

impl<T> Answer for Option<T> {
    type Output = T;
    type Error = ();

    open spec fn answer_of(self) -> Option<T> {
        self
    }

    fn unpack(self) -> (r: Result<T, ()>) {
        match self {
            Some(v) => Ok(v),
            None => Err(()),
        }
    }
}

impl<T, E> Answer for Result<T, E> {
    type Output = T;
    type Error = E;

    open spec fn answer_of(self) -> Option<T> {
        match self {
            Ok(v) => Some(v),
            Err(_) => None,
        }
    }

    fn unpack(self) -> (r: Result<T, E>) {
        self
    }
}

} // verus!
