//! The privacy policy: a total order over five levels, governing what name
//! may be shown for an identity and whether a sighting may be durably logged.

use vstd::prelude::*;

verus! {

/// Privacy level of a registered device, from most to least revealing.
/// The ordinal order (see [`PrivacyLevel::ordinal`]) is the one total order
/// used both for filtering (`HideUser` drops the record before aggregation)
/// and for the per-identity "most-open-device-wins" tie-break.
#[derive(Clone, Copy, Debug, PartialEq, Eq, Structural, Hash)]
pub enum PrivacyLevel {
    ShowUserAndDevice,
    ShowUser,
    ShowAnonymous,
    HideUser,
    DontLog,
}

impl PrivacyLevel {
    /// Position of this level in the total order: lower = more revealing.
    pub open spec fn ordinal(self) -> int {
        match self {
            PrivacyLevel::ShowUserAndDevice => 0,
            PrivacyLevel::ShowUser => 1,
            PrivacyLevel::ShowAnonymous => 2,
            PrivacyLevel::HideUser => 3,
            PrivacyLevel::DontLog => 4,
        }
    }

    /// Executable ordinal, equal to the specification-level one.
    pub fn ordinal_u8(&self) -> (r: u8)
        ensures
            r as int == self.ordinal(),
    {
        match self {
            PrivacyLevel::ShowUserAndDevice => 0,
            PrivacyLevel::ShowUser => 1,
            PrivacyLevel::ShowAnonymous => 2,
            PrivacyLevel::HideUser => 3,
            PrivacyLevel::DontLog => 4,
        }
    }

    /// True when `self` is strictly more revealing than `other`:
    /// the replacement test of the most-open-wins reduction.
    pub fn more_revealing_than(&self, other: &PrivacyLevel) -> (r: bool)
        ensures
            r == (self.ordinal() < other.ordinal()),
    {
        self.ordinal_u8() < other.ordinal_u8()
    }

    /// Marker for a selection form: "selected" on the level a record holds,
    /// empty on every other level.
    pub fn selected(&self, level: PrivacyLevel) -> (r: &'static str)
        ensures
            *self == level ==> r@ == "selected"@,
            *self != level ==> r@ == ""@,
    {
        if *self == level {
            "selected"
        } else {
            ""
        }
    }

    /// Decodes the stored numeric form of a level; every value outside the
    /// five levels is rejected.
    pub fn try_from(i: i8) -> (r: Result<PrivacyLevel, &'static str>)
        ensures
            i == 0 ==> r == Ok::<PrivacyLevel, &'static str>(PrivacyLevel::ShowUserAndDevice),
            i == 1 ==> r == Ok::<PrivacyLevel, &'static str>(PrivacyLevel::ShowUser),
            i == 2 ==> r == Ok::<PrivacyLevel, &'static str>(PrivacyLevel::ShowAnonymous),
            i == 3 ==> r == Ok::<PrivacyLevel, &'static str>(PrivacyLevel::HideUser),
            i == 4 ==> r == Ok::<PrivacyLevel, &'static str>(PrivacyLevel::DontLog),
            !(0 <= i <= 4) ==> r is Err,
            r matches Ok(level) ==> level.ordinal() == i as int,
    {
        match i {
            0 => Ok(PrivacyLevel::ShowUserAndDevice),
            1 => Ok(PrivacyLevel::ShowUser),
            2 => Ok(PrivacyLevel::ShowAnonymous),
            3 => Ok(PrivacyLevel::HideUser),
            4 => Ok(PrivacyLevel::DontLog),
            _ => Err("invalid privacy level"),
        }
    }
}

} // verus!
