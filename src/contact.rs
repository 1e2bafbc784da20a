use core::cmp::Ordering;
use vstd::prelude::*;

verus! {

/// Which boundary, if any, a particle has crossed at the end of a step.
#[derive(Clone, Copy, Debug, PartialEq, Eq, Structural)]
pub enum Contact {
    /// The position lies strictly above the collision ceiling.
    Ceiling,
    /// The position lies strictly below the collision floor, and not above the ceiling.
    Floor,
    /// Neither boundary has been crossed.
    Clear,
}

/// The contact of a particle, given how its position compares with the
/// collision ceiling and with the collision floor (`None` where the two
/// values are unordered). The ceiling is examined first, and only a strict
/// crossing counts: a particle exactly on a boundary is not in contact.
pub open spec fn contact_of(vs_ceiling: Option<Ordering>, vs_floor: Option<Ordering>) -> Contact {
    if vs_ceiling == Some(Ordering::Greater) {
        Contact::Ceiling
    } else if vs_floor == Some(Ordering::Less) {
        Contact::Floor
    } else {
        Contact::Clear
    }
}

/// Classifies a particle from the comparison of its position with the
/// collision ceiling (`ceiling - radius`) and with the collision floor
/// (`floor + radius`).
pub fn classify(vs_ceiling: Option<Ordering>, vs_floor: Option<Ordering>) -> (c: Contact)
    ensures
        c == contact_of(vs_ceiling, vs_floor),
        c == Contact::Ceiling <==> vs_ceiling == Some(Ordering::Greater),
        c == Contact::Floor <==> (vs_ceiling != Some(Ordering::Greater) && vs_floor == Some(
            Ordering::Less,
        )),
{
    match vs_ceiling {
        Some(Ordering::Greater) => Contact::Ceiling,
        _ => match vs_floor {
            Some(Ordering::Less) => Contact::Floor,
            _ => Contact::Clear,
        },
    }
}

} // verus!
