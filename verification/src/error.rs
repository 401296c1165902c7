use vstd::prelude::*;

verus! {

/// What a call of the limiter can fail with.
#[derive(Clone, Copy, Debug, PartialEq, Eq, Structural)]
pub enum Error {
    /// The configuration is malformed, names a tenant under two budgets, or
    /// gives the endpoints of a tenant more than the tenant's budget.
    InvalidConfig,
    /// The shared counter store could not be reached.
    ConnectionError,
    /// The shared counter store was reached and did not carry out the
    /// operation.
    StoreUnavailable,
    /// The operation is not allowed in the limiter's present run state.
    PreconditionFailed,
}

} // verus!
