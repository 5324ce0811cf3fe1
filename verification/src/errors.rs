use vstd::prelude::*;

verus! {

/// What can go wrong while a credential is resolved or a turn is made.
#[derive(Clone, Debug, PartialEq, Eq)]
pub enum OpaiError {
    /// The endpoint answered with a status outside the success range.
    Http(u16),
    /// The exchange with the endpoint failed, or its answer could not be read.
    Network(String),
    /// A configuration text could not be parsed.
    Config(String),
}

} // verus!
