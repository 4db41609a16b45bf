//! Registry records: a registered device with its identity and privacy
//! level, and the sighting rows kept for devices nobody has registered yet.

use vstd::prelude::*;

use crate::net::spec_parse_ipv4;
use crate::privacy::PrivacyLevel;

verus! {

/// A device registry record: a hardware address bound to an identity, a
/// free-text description and a privacy level. `present` is derived from the
/// sighting history, never stored.
#[derive(Debug)]
pub struct Device {
    pub id: Option<i32>,
    pub macaddr: String,
    pub nickname: String,
    pub descr: String,
    pub privacy: PrivacyLevel,
    pub present: bool,
}

/// Mathematical image of a registry record.
pub ghost struct DeviceModel {
    pub id: Option<i32>,
    pub macaddr: Seq<char>,
    pub nickname: Seq<char>,
    pub descr: Seq<char>,
    pub privacy: PrivacyLevel,
    pub present: bool,
}

impl View for Device {
    type V = DeviceModel;

    open spec fn view(&self) -> DeviceModel {
        DeviceModel {
            id: self.id,
            macaddr: self.macaddr@,
            nickname: self.nickname@,
            descr: self.descr@,
            privacy: self.privacy,
            present: self.present,
        }
    }
}

/// The fixed placeholder shown for identities that are counted but not named.
pub open spec fn anon_name() -> Seq<char> {
    "Anonymous"@
}

/// The name the aggregate may reveal for a device's identity: the real
/// identity name at the two most revealing levels, the fixed placeholder
/// otherwise.
pub open spec fn spec_display_name(d: DeviceModel) -> Seq<char> {
    if d.privacy.ordinal() <= 1 {
        d.nickname
    } else {
        anon_name()
    }
}

/// Whether a sighting of this device may be durably logged.
pub open spec fn spec_loggable(d: DeviceModel) -> bool {
    d.privacy != PrivacyLevel::DontLog
}

impl Device {
    /// The name that may be shown publicly for this device's identity, as
    /// [`spec_display_name`] describes it. Devices at `HideUser` are dropped
    /// before any name is resolved, so none is defined for them.
    pub fn get_public_username(&self) -> (r: String)
        requires
            self.privacy != PrivacyLevel::HideUser,
        ensures
            r@ == spec_display_name(self@),
    {
        match self.privacy {
            PrivacyLevel::ShowUserAndDevice => self.nickname.clone(),
            PrivacyLevel::ShowUser => self.nickname.clone(),
            _ => "Anonymous".to_owned(),
        }
    }

    /// Whether a sighting of this device may be written to the history
    /// store: every level allows it except `DontLog`.
    pub fn loggable(&self) -> (r: bool)
        ensures
            r == spec_loggable(self@),
    {
        match self.privacy {
            PrivacyLevel::DontLog => false,
            _ => true,
        }
    }
}

/// A sighting row for a hardware address nobody has registered: surfaced to
/// the operator as an assignable candidate.
#[derive(Debug)]
pub struct AliveDevice {
    pub macaddr: String,
    pub iplong: i32,
}

/// Mathematical image of an unregistered sighting row.
pub ghost struct AliveDeviceModel {
    pub macaddr: Seq<char>,
    pub iplong: i32,
}

impl View for AliveDevice {
    type V = AliveDeviceModel;

    open spec fn view(&self) -> AliveDeviceModel {
        AliveDeviceModel { macaddr: self.macaddr@, iplong: self.iplong }
    }
}

/// The four octets of an address value, most significant first.
pub open spec fn spec_ipv4_octets(b: u32) -> (u8, u8, u8, u8) {
    (((b >> 24) & 0xff) as u8, ((b >> 16) & 0xff) as u8, ((b >> 8) & 0xff) as u8, (b & 0xff) as u8)
}

/// The octets of a packed address value are the octets it was packed from.
proof fn lemma_octet_bits(a: u32, b: u32, c: u32, d: u32, v: u32)
    by (bit_vector)
    requires
        a <= 255,
        b <= 255,
        c <= 255,
        d <= 255,
        v == (a * 0x1000000 + b * 0x10000 + c * 0x100 + d) as u32,
    ensures
        (v >> 24) & 0xff == a,
        (v >> 16) & 0xff == b,
        (v >> 8) & 0xff == c,
        v & 0xff == d,
{
}

/// Splitting an address value back into octets recovers the octets it was
/// built from, so a stored row shows the address it was created with.
pub proof fn lemma_octets_round_trip(a: u32, b: u32, c: u32, d: u32)
    requires
        a <= 255,
        b <= 255,
        c <= 255,
        d <= 255,
    ensures
        spec_ipv4_octets(crate::net::ipv4_value(a, b, c, d)) == (
            a as u8,
            b as u8,
            c as u8,
            d as u8,
        ),
{
    let v = crate::net::ipv4_value(a, b, c, d);
    lemma_octet_bits(a, b, c, d, v);
}

impl AliveDevice {
    /// Builds a row from a hardware address and a dotted-quad IP literal;
    /// rejects a literal that does not read as an IPv4 address.
    pub fn new(macaddr: &String, ip: &String) -> (r: Result<AliveDevice, &'static str>)
        ensures
            match spec_parse_ipv4(ip@) {
                Some(bits) => r matches Ok(a) && a.macaddr@ == macaddr@ && a.iplong == bits as i32,
                None => r is Err,
            },
    {
        match crate::net::parse_ipv4(ip.as_str()) {
            Some(bits) => Ok(AliveDevice { macaddr: macaddr.clone(), iplong: bits as i32 }),
            None => Err("not an IPv4 address"),
        }
    }

    /// The stored address as its four octets, most significant first.
    pub fn ip(&self) -> (r: (u8, u8, u8, u8))
        ensures
            r == spec_ipv4_octets(self.iplong as u32),
    {
        let b = self.iplong as u32;
        (((b >> 24) & 0xff) as u8, ((b >> 16) & 0xff) as u8, ((b >> 8) & 0xff) as u8, (b
            & 0xff) as u8)
    }
}

} // verus!
