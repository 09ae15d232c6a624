//! Leaving a scope: what was entered is left again on every way out.
use vstd::prelude::*;

verus! {

/// Something that enters scopes and leaves them again. A mark is taken
/// before a scope is entered and says where to go back to.
pub trait Scoped: Sized {
    /// What is kept to go back.
    type Mark;

    /// Whether `self` can go back to `mark`.
    spec fn admits(&self, mark: &Self::Mark) -> bool;

    /// Whether `after` is `self` gone back to `mark`.
    spec fn left(&self, mark: &Self::Mark, after: &Self) -> bool;

    /// Goes back to `mark`.
    fn leave(&mut self, mark: Self::Mark)
        requires
            old(self).admits(&mark),
        ensures
            old(self).left(&mark, final(self)),
    ;
}

/// Goes back to `mark` through `scopeguard::guard`: the guard holds
/// `subject`, and when it is dropped at the end of this function it calls
/// its closure once with what it holds. The closure is `Scoped::leave`.
#[verifier::external_body]
pub(crate) fn release<T: Scoped>(subject: &mut T, mark: T::Mark)
    requires
        old(subject).admits(&mark),
    ensures
        old(subject).left(&mark, final(subject)),
{
    let _guard = scopeguard::guard(subject, |subject| subject.leave(mark));
}

} // verus!
