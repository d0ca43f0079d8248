//! Push-forward and pull-back maps between reference and physical values.
use vstd::prelude::*;

use crate::element::TabulatedData;

verus! {

/// The kind of map that takes values on the reference cell to a physical
/// cell.
#[derive(Debug, Clone, Copy, PartialEq, Eq, Hash, Structural)]
pub enum MapType {
    Identity,
    CovariantPiola,
    ContravariantPiola,
    L2Piola,
}

/// Push tabulated values forward by the identity map: the values stay as
/// they are. Only values, not derivatives, can be mapped.
pub fn identity_push_forward<T: Copy>(data: &mut TabulatedData<T>)
    requires
        old(data).derivs() == 1,
    ensures
        *final(data) == *old(data),
{
}

/// Pull tabulated values back by the identity map: the values stay as they
/// are. Only values, not derivatives, can be mapped.
pub fn identity_pull_back<T: Copy>(data: &mut TabulatedData<T>)
    requires
        old(data).derivs() == 1,
    ensures
        *final(data) == *old(data),
{
}

} // verus!
