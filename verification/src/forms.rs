//! The change form of the web interface: what the operator may do to a
//! registry record, the validation of the submitted privacy level, and the
//! flash messages each outcome produces.

use vstd::prelude::*;
use vstd::string::StringExecFns;

use crate::device::Device;
use crate::privacy::PrivacyLevel;
use crate::session::Level;

verus! {

/// What a submitted form asks for.
#[derive(Clone, Copy, Debug, PartialEq, Eq, Structural)]
pub enum Action {
    Register,
    Update,
    Delete,
}

/// A flash message: its display level and its text.
pub type AppMessage = (Level, String);

/// One submission of the change form.
#[derive(Debug)]
pub struct ChangeForm {
    pub action: Action,
    pub macaddr: String,
    pub descr: String,
    pub privacy: i8,
}

/// The message shown after a device was assigned to an identity.
pub open spec fn register_success_text(descr: Seq<char>, nickname: Seq<char>) -> Seq<char> {
    "assinged device \""@ + descr + "\" to "@ + nickname
}

/// The message shown after a device's record was updated.
pub open spec fn update_success_text(descr: Seq<char>) -> Seq<char> {
    "updated device \""@ + descr + "\""@
}

/// The message shown after a device's record was deleted.
pub open spec fn delete_success_text(descr: Seq<char>) -> Seq<char> {
    "device \""@ + descr + "\" has been deleted"@
}

impl ChangeForm {
    /// Builds the registry record a `Register` submission asks to create:
    /// a fresh record for the submitting identity, rejected only when the
    /// submitted privacy level is not one of the five levels.
    pub fn register_device(self, nickname: String) -> (r: Result<Device, AppMessage>)
        ensures
            0 <= self.privacy <= 4 ==> (r matches Ok(d) && d.id is None && d.macaddr@
                == self.macaddr@ && d.nickname@ == nickname@ && d.descr@ == self.descr@
                && d.privacy.ordinal() == self.privacy as int && d.present == false),
            !(0 <= self.privacy <= 4) ==> (r matches Err(m) && m.0 == Level::Error && m.1@
                == "unable to parse privacy level"@),
    {
        let privacy = match PrivacyLevel::try_from(self.privacy) {
            Ok(privacy) => privacy,
            Err(_) => {
                return Err((Level::Error, String::from_str("unable to parse privacy level")));
            },
        };
        Ok(
            Device {
                id: None,
                macaddr: self.macaddr,
                nickname,
                descr: self.descr,
                privacy,
                present: false,
            },
        )
    }

    /// Carries an `Update` submission onto the loaded record: the privacy
    /// level and description are replaced, everything else is kept;
    /// rejected only when the submitted privacy level is not one of the
    /// five levels.
    pub fn apply_update(self, device: Device) -> (r: Result<Device, AppMessage>)
        ensures
            0 <= self.privacy <= 4 ==> (r matches Ok(d) && d.id == device.id && d.macaddr@
                == device.macaddr@ && d.nickname@ == device.nickname@ && d.descr@ == self.descr@
                && d.privacy.ordinal() == self.privacy as int && d.present == device.present),
            !(0 <= self.privacy <= 4) ==> (r matches Err(m) && m.0 == Level::Error && m.1@
                == "unable to parse privacy level"@),
    {
        let privacy = match PrivacyLevel::try_from(self.privacy) {
            Ok(privacy) => privacy,
            Err(_) => {
                return Err((Level::Error, String::from_str("unable to parse privacy level")));
            },
        };
        Ok(
            Device {
                id: device.id,
                macaddr: device.macaddr,
                nickname: device.nickname,
                descr: self.descr,
                privacy,
                present: device.present,
            },
        )
    }
}

/// The flash message of a `Register` outcome.
pub fn register_message(created: bool, descr: &String, nickname: &String) -> (r: AppMessage)
    ensures
        created ==> r.0 == Level::Info && r.1@ == register_success_text(descr@, nickname@),
        !created ==> r.0 == Level::Error && r.1@ == "unable to create device"@,
{
    if created {
        let mut text = String::from_str("assinged device \"");
        text.append(descr.as_str());
        text.append("\" to ");
        text.append(nickname.as_str());
        proof {
            assert(text@ =~= register_success_text(descr@, nickname@));
        }
        (Level::Info, text)
    } else {
        (Level::Error, String::from_str("unable to create device"))
    }
}

/// The flash message of an `Update` outcome.
pub fn update_message(updated: bool, descr: &String) -> (r: AppMessage)
    ensures
        updated ==> r.0 == Level::Info && r.1@ == update_success_text(descr@),
        !updated ==> r.0 == Level::Error && r.1@ == "unable to update device"@,
{
    if updated {
        let mut text = String::from_str("updated device \"");
        text.append(descr.as_str());
        text.append("\"");
        proof {
            assert(text@ =~= update_success_text(descr@));
        }
        (Level::Info, text)
    } else {
        (Level::Error, String::from_str("unable to update device"))
    }
}

/// The flash message of a `Delete` outcome.
pub fn delete_message(deleted: bool, descr: &String) -> (r: AppMessage)
    ensures
        deleted ==> r.0 == Level::Info && r.1@ == delete_success_text(descr@),
        !deleted ==> r.0 == Level::Error && r.1@ == "unable to delete device"@,
{
    if deleted {
        let mut text = String::from_str("device \"");
        text.append(descr.as_str());
        text.append("\" has been deleted");
        proof {
            assert(text@ =~= delete_success_text(descr@));
        }
        (Level::Info, text)
    } else {
        (Level::Error, String::from_str("unable to delete device"))
    }
}

/// The flash message shown when the submitted hardware address matches no
/// registry record.
pub fn load_failed_message() -> (r: AppMessage)
    ensures
        r.0 == Level::Error,
        r.1@ == "unable to load device from database"@,
{
    (Level::Error, String::from_str("unable to load device from database"))
}

} // verus!
