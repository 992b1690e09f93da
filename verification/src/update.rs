//! Update check: the newest release published on crates.io.

use vstd::prelude::*;

use crate::text::str_eq;

verus! {

/// A release entry of the crates.io index.
#[derive(Debug, Clone, PartialEq, Eq)]
pub struct Crate {
    pub vers: String,
    pub yanked: bool,
}

/// The last entry of the index that has not been yanked (the index lists releases oldest
/// first), if any.
pub fn latest_not_yanked(crates: Vec<Crate>) -> (r: Option<Crate>)
    ensures
        match r {
            None => forall|i: int| 0 <= i < crates@.len() ==> (#[trigger] crates@[i]).yanked,
            Some(c) => exists|i: int|
                0 <= i < crates@.len() && crates@[i] == c && !c.yanked && forall|j: int|
                    i < j < crates@.len() ==> (#[trigger] crates@[j]).yanked,
        },
{
    let ghost given = crates@;
    let mut rest = crates;
    while rest.len() > 0
        invariant
            given == crates@,
            rest@.len() <= given.len(),
            rest@ == given.subrange(0, rest@.len() as int),
            forall|j: int| rest@.len() <= j < given.len() ==> (#[trigger] given[j]).yanked,
        decreases rest@.len(),
    {
        let candidate = rest.pop().unwrap();
        assert(candidate == given[rest@.len() as int]);
        if !candidate.yanked {
            assert(0 <= rest@.len() < crates@.len() && crates@[rest@.len() as int] == candidate);
            return Some(candidate);
        }
        assert(rest@ =~= given.subrange(0, rest@.len() as int));
    }
    None
}

/// A newer release is announced when the published version differs from the installed one.
pub fn update_available(remote_version: &str, installed_version: &str) -> (r: bool)
    ensures
        r == (remote_version@ != installed_version@),
{
    !str_eq(remote_version, installed_version)
}

/// Size of the update icon: a square a fifteenth of the screen's width on each side.
pub fn update_icon_size(screen_size: (u32, u32)) -> (r: (u32, u32))
    ensures
        r == (screen_size.0 / 15, screen_size.0 / 15),
{
    (screen_size.0 / 15, screen_size.0 / 15)
}

} // verus!
