use vstd::prelude::*;

verus! {

/// Why a scene could not be turned into a node of the expected class.
#[derive(Clone, Debug, PartialEq, Eq)]
pub enum ManageErrs {
    /// The scene produced no instance.
    CouldNotMakeInstance,
    /// The instance's root is not of the expected class; holds the root's name.
    RootClassInvalid(String),
}

} // verus!
