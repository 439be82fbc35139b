use vstd::prelude::*;

verus! {

/// The claims of a token that the validator accepted, in the shape that the
/// handler asked for. Only the validation step of this crate builds one.
#[derive(Debug)]
pub struct Claims<T>(T);

impl<T> View for Claims<T> {
    type V = T;

    closed spec fn view(&self) -> T {
        self.0
    }
}

impl<T> Claims<T> {
    /// Wraps claims that the validator has just accepted.
    pub(crate) fn accepted(claims: T) -> (r: Self)
        ensures
            r@ == claims,
    {
        Claims(claims)
    }

    /// Read-only access to the wrapped claims.
    pub fn claims(&self) -> (r: &T)
        ensures
            *r == self@,
    {
        &self.0
    }

    /// Gives up the container and returns the wrapped claims.
    pub fn into_inner(self) -> (r: T)
        ensures
            r == self@,
    {
        self.0
    }
}

impl<T> core::ops::Deref for Claims<T> {
    type Target = T;

    fn deref(&self) -> (r: &T)
        ensures
            *r == self@,
    {
        &self.0
    }
}

} // verus!
