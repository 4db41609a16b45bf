//! The presence aggregation engine: resolves each admitted station against
//! a registry snapshot, applies the privacy policy, reduces the devices of
//! one identity to a single most-open visibility decision, and computes the
//! cycle's summary statistics.

use vstd::prelude::*;

use crate::device::{spec_display_name, Device, DeviceModel};
use crate::net::{Station, StationModel};
use crate::privacy::PrivacyLevel;

verus! {

/// A snapshot of the device registry: the records the engine resolves
/// hardware addresses against during one cycle.
pub struct Registry {
    pub devices: Vec<Device>,
}

impl View for Registry {
    type V = Seq<DeviceModel>;

    open spec fn view(&self) -> Seq<DeviceModel> {
        self.devices@.map_values(|d: Device| d@)
    }
}

/// The record of the first device holding the given hardware address, if
/// any: the registry's lookup-by-hardware-address contract.
pub open spec fn spec_lookup(reg: Seq<DeviceModel>, mac: Seq<char>) -> Option<DeviceModel>
    decreases reg.len(),
{
    if reg.len() == 0 {
        None
    } else if reg[0].macaddr == mac {
        Some(reg[0])
    } else {
        spec_lookup(reg.drop_first(), mac)
    }
}

/// Records without the address at their head can be dropped all at once.
proof fn lemma_lookup_skip(reg: Seq<DeviceModel>, mac: Seq<char>, i: int)
    requires
        0 <= i <= reg.len(),
        forall|j: int| 0 <= j < i ==> reg[j].macaddr != mac,
    ensures
        spec_lookup(reg, mac) == spec_lookup(reg.skip(i), mac),
    decreases i,
{
    if i > 0 {
        assert(reg.drop_first() == reg.skip(1));
        assert(forall|j: int| 0 <= j < i - 1 ==> reg.skip(1)[j] == reg[j + 1]);
        lemma_lookup_skip(reg.skip(1), mac, i - 1);
        assert(reg.skip(1).skip(i - 1) =~= reg.skip(i));
    } else {
        assert(reg.skip(0) == reg);
    }
}

impl Registry {
    /// Resolves a hardware address to its registry record, as
    /// [`spec_lookup`] describes it.
    pub fn lookup<'a>(&'a self, mac: &String) -> (r: Option<&'a Device>)
        ensures
            match r {
                Some(d) => spec_lookup(self@, mac@) == Some(d@),
                None => spec_lookup(self@, mac@) is None,
            },
    {
        let mut i: usize = 0;
        while i < self.devices.len()
            invariant
                0 <= i <= self@.len(),
                self@ == self.devices@.map_values(|d: Device| d@),
                forall|j: int| 0 <= j < i ==> self@[j].macaddr != mac@,
            decreases self@.len() - i,
        {
            if self.devices[i].macaddr == *mac {
                proof {
                    lemma_lookup_skip(self@, mac@, i as int);
                    assert(self@.skip(i as int)[0] == self@[i as int]);
                }
                return Some(&self.devices[i]);
            }
            i = i + 1;
        }
        proof {
            lemma_lookup_skip(self@, mac@, self@.len() as int);
            assert(self@.skip(self@.len() as int) =~= Seq::empty());
        }
        None
    }
}

/// One identity's entry in the per-cycle reduction: the identity name, the
/// best (most revealing) privacy level seen so far, and the name that level
/// allows to be shown.
pub struct Member {
    pub nickname: String,
    pub privacy: PrivacyLevel,
    pub display: String,
}

/// Mathematical image of a reduction entry.
pub ghost struct MemberModel {
    pub nickname: Seq<char>,
    pub privacy: PrivacyLevel,
    pub display: Seq<char>,
}

impl View for Member {
    type V = MemberModel;

    open spec fn view(&self) -> MemberModel {
        MemberModel { nickname: self.nickname@, privacy: self.privacy, display: self.display@ }
    }
}

/// The reduction entry one device induces.
pub open spec fn spec_member_of(d: DeviceModel) -> MemberModel {
    MemberModel { nickname: d.nickname, privacy: d.privacy, display: spec_display_name(d) }
}

/// The models of a sequence of reduction entries.
pub open spec fn members_view(v: Seq<Member>) -> Seq<MemberModel> {
    v.map_values(|m: Member| m@)
}

/// The models of a sequence of admitted stations.
pub open spec fn stations_view(v: Seq<Station>) -> Seq<StationModel> {
    v.map_values(|st: Station| st@)
}

/// The models of a sequence of loggable sightings.
pub open spec fn sightings_view(v: Seq<LoggableSighting>) -> Seq<SightingModel> {
    v.map_values(|s: LoggableSighting| s@)
}

/// The character sequences of a sequence of strings.
pub open spec fn names_view(v: Seq<String>) -> Seq<Seq<char>> {
    v.map_values(|s: String| s@)
}

/// The display names of the reduction's entries, in insertion order.
pub open spec fn displays_of(members: Seq<MemberModel>) -> Seq<Seq<char>> {
    members.map_values(|mm: MemberModel| mm.display)
}

/// Index of the identity's entry in the reduction, if one exists.
pub open spec fn spec_member_index(members: Seq<MemberModel>, nick: Seq<char>) -> Option<int>
    decreases members.len(),
{
    if members.len() == 0 {
        None
    } else if members[0].nickname == nick {
        Some(0int)
    } else {
        match spec_member_index(members.drop_first(), nick) {
            None => None,
            Some(i) => Some(i + 1),
        }
    }
}

/// What [`spec_member_index`] returns: the first entry of the identity, or
/// `None` when the identity has no entry.
pub proof fn lemma_member_index(members: Seq<MemberModel>, nick: Seq<char>)
    ensures
        match spec_member_index(members, nick) {
            Some(i) => 0 <= i < members.len() && members[i].nickname == nick && forall|j: int|
                0 <= j < i ==> members[j].nickname != nick,
            None => forall|j: int| 0 <= j < members.len() ==> members[j].nickname != nick,
        },
    decreases members.len(),
{
    if members.len() > 0 && members[0].nickname != nick {
        lemma_member_index(members.drop_first(), nick);
        assert(forall|j: int| 0 < j < members.len() ==> members[j] == members.drop_first()[j - 1]);
    }
}

/// The most-open-device-wins reduction step: a first device of an identity
/// inserts an entry; a later one replaces the entry only when it is strictly
/// more revealing, so ties keep the first-seen entry and insertion order is
/// preserved.
pub open spec fn spec_upsert(members: Seq<MemberModel>, d: DeviceModel) -> Seq<MemberModel> {
    match spec_member_index(members, d.nickname) {
        None => members.push(spec_member_of(d)),
        Some(i) => {
            if 0 <= i < members.len() && d.privacy.ordinal() < members[i].privacy.ordinal() {
                members.update(i, spec_member_of(d))
            } else {
                members
            }
        },
    }
}

/// Replaces or inserts the device's identity entry, as [`spec_upsert`]
/// describes it.
fn upsert_member(members: &mut Vec<Member>, device: &Device)
    requires
        device.privacy != PrivacyLevel::HideUser,
    ensures
        members_view(final(members)@) == spec_upsert(members_view(old(members)@), device@),
{
    let ghost model = members_view(members@);
    let mut i: usize = 0;
    while i < members.len()
        invariant
            0 <= i <= members@.len(),
            members@ == old(members)@,
            model == members_view(members@),
            device.privacy != PrivacyLevel::HideUser,
            forall|j: int| 0 <= j < i ==> model[j].nickname != device@.nickname,
        decreases members@.len() - i,
    {
        if members[i].nickname == device.nickname {
            proof {
                lemma_member_index(model, device@.nickname);
                assert(model[i as int].nickname == device@.nickname);
                assert(spec_member_index(model, device@.nickname) == Some(i as int));
            }
            if device.privacy.more_revealing_than(&members[i].privacy) {
                let entry = Member {
                    nickname: device.nickname.clone(),
                    privacy: device.privacy,
                    display: device.get_public_username(),
                };
                members.set(i, entry);
                proof {
                    assert(entry@ == spec_member_of(device@));
                    assert(members_view(members@) =~= model.update(
                        i as int,
                        spec_member_of(device@),
                    ));
                    assert(spec_upsert(model, device@) == model.update(
                        i as int,
                        spec_member_of(device@),
                    ));
                    assert(model == members_view(old(members)@));
                }
            } else {
                proof {
                    assert(spec_upsert(model, device@) == model);
                    assert(members_view(members@) == model);
                }
            }
            return ;
        }
        i = i + 1;
    }
    proof {
        lemma_member_index(model, device@.nickname);
    }
    let entry = Member {
        nickname: device.nickname.clone(),
        privacy: device.privacy,
        display: device.get_public_username(),
    };
    members.push(entry);
    proof {
        assert(members_view(members@) =~= model.push(spec_member_of(device@)));
    }
}

/// A sighting the publisher may persist: the hardware address and address
/// of one counted device whose level allows durable logging.
pub struct LoggableSighting {
    pub macaddr: String,
    pub ip: u32,
}

/// Mathematical image of a loggable sighting.
pub ghost struct SightingModel {
    pub macaddr: Seq<char>,
    pub ip: u32,
}

impl View for LoggableSighting {
    type V = SightingModel;

    open spec fn view(&self) -> SightingModel {
        SightingModel { macaddr: self.macaddr@, ip: self.ip }
    }
}

/// The whole state one cycle's reduction accumulates.
pub ghost struct AggModel {
    pub device_count: int,
    pub members: Seq<MemberModel>,
    pub sightings: Seq<SightingModel>,
    pub unassigned: Seq<StationModel>,
}

/// The reduction state before any station is processed.
pub open spec fn spec_agg_init() -> AggModel {
    AggModel {
        device_count: 0,
        members: Seq::empty(),
        sightings: Seq::empty(),
        unassigned: Seq::empty(),
    }
}

/// How one admitted station changes the reduction state:
/// an unregistered address only joins the assignable side channel; a
/// `HideUser` device changes nothing; every other registered device is
/// counted, joins the identity reduction, and emits a loggable sighting
/// unless its level is `DontLog`.
pub open spec fn spec_agg_step(m: AggModel, st: StationModel, reg: Seq<DeviceModel>) -> AggModel {
    match spec_lookup(reg, st.macaddr) {
        None => AggModel { unassigned: m.unassigned.push(st), ..m },
        Some(d) => {
            if d.privacy == PrivacyLevel::HideUser {
                m
            } else {
                AggModel {
                    device_count: m.device_count + 1,
                    members: spec_upsert(m.members, d),
                    sightings: if d.privacy == PrivacyLevel::DontLog {
                        m.sightings
                    } else {
                        m.sightings.push(SightingModel { macaddr: st.macaddr, ip: st.ip })
                    },
                    unassigned: m.unassigned,
                }
            }
        },
    }
}

/// The reduction state after all stations, processed in the controller's
/// order.
pub open spec fn spec_aggregate(stations: Seq<StationModel>, reg: Seq<DeviceModel>) -> AggModel
    decreases stations.len(),
{
    if stations.len() == 0 {
        spec_agg_init()
    } else {
        spec_agg_step(spec_aggregate(stations.drop_last(), reg), stations.last(), reg)
    }
}

/// The privacy-filtered summary one cycle publishes.
pub struct AggregationResult {
    pub space_occupied: bool,
    pub device_count: u64,
    pub member_count: u64,
    pub member_names: Vec<String>,
}

/// How an executable cycle result relates to the reduction state of its
/// inputs: counts, names, occupancy, sightings and the assignable side
/// channel are all pinned by [`spec_aggregate`]. `space-occupied` is true
/// exactly when the device count is positive.
pub open spec fn aggregation_matches(
    result: AggregationResult,
    sightings: Seq<SightingModel>,
    unassigned: Seq<StationModel>,
    stations: Seq<StationModel>,
    reg: Seq<DeviceModel>,
) -> bool {
    let m = spec_aggregate(stations, reg);
    &&& result.device_count as int == m.device_count
    &&& result.member_count as int == m.members.len()
    &&& names_view(result.member_names@) == displays_of(m.members)
    &&& result.space_occupied == (m.device_count > 0)
    &&& sightings == m.sightings
    &&& unassigned == m.unassigned
}

/// Runs one cycle's reduction over the admitted stations and the registry
/// snapshot. Returns the publishable summary, the sightings that may be
/// persisted, and the unregistered stations for the assignable side
/// channel; all three are exactly what [`aggregation_matches`] states.
pub fn aggregate(stations: &Vec<Station>, registry: &Registry) -> (r: (
    AggregationResult,
    Vec<LoggableSighting>,
    Vec<Station>,
))
    ensures
        aggregation_matches(
            r.0,
            sightings_view(r.1@),
            stations_view(r.2@),
            stations_view(stations@),
            registry@,
        ),
{
    let ghost stmodels = stations_view(stations@);
    let mut device_count: u64 = 0;
    let mut members: Vec<Member> = Vec::new();
    let mut sightings: Vec<LoggableSighting> = Vec::new();
    let mut unassigned: Vec<Station> = Vec::new();
    let mut i: usize = 0;
    proof {
        assert(stmodels.take(0) =~= Seq::empty());
    }
    while i < stations.len()
        invariant
            0 <= i <= stations@.len(),
            stmodels == stations_view(stations@),
            device_count as int == spec_aggregate(stmodels.take(i as int), registry@).device_count,
            spec_aggregate(stmodels.take(i as int), registry@).device_count <= i,
            members_view(members@) == spec_aggregate(stmodels.take(i as int), registry@).members,
            sightings_view(sightings@) == spec_aggregate(
                stmodels.take(i as int),
                registry@,
            ).sightings,
            stations_view(unassigned@) == spec_aggregate(
                stmodels.take(i as int),
                registry@,
            ).unassigned,
        decreases stations@.len() - i,
    {
        let ghost pre = spec_aggregate(stmodels.take(i as int), registry@);
        proof {
            assert(stmodels.take(i + 1).drop_last() =~= stmodels.take(i as int));
            assert(stmodels.take(i + 1).last() == stmodels[i as int]);
            assert(stmodels[i as int] == stations@[i as int]@);
        }
        let station = &stations[i];
        match registry.lookup(&station.macaddr) {
            None => {
                unassigned.push(Station { macaddr: station.macaddr.clone(), ip: station.ip });
                proof {
                    assert(stations_view(unassigned@) =~= pre.unassigned.push(
                        stmodels[i as int],
                    ));
                }
            },
            Some(device) => {
                if !matches!(device.privacy, PrivacyLevel::HideUser) {
                    device_count = device_count + 1;
                    upsert_member(&mut members, device);
                    if device.loggable() {
                        sightings.push(
                            LoggableSighting { macaddr: station.macaddr.clone(), ip: station.ip },
                        );
                        proof {
                            assert(sightings_view(sightings@) =~= pre.sightings.push(
                                SightingModel {
                                    macaddr: stmodels[i as int].macaddr,
                                    ip: stmodels[i as int].ip,
                                },
                            ));
                        }
                    }
                }
            },
        }
        i = i + 1;
    }
    proof {
        assert(stmodels.take(stations@.len() as int) =~= stmodels);
    }
    let member_count = members.len() as u64;
    let mut member_names: Vec<String> = Vec::new();
    let mut k: usize = 0;
    proof {
        assert(names_view(member_names@) =~= displays_of(members_view(members@)).take(0));
    }
    while k < members.len()
        invariant
            0 <= k <= members@.len(),
            names_view(member_names@) == displays_of(members_view(members@)).take(k as int),
        decreases members@.len() - k,
    {
        member_names.push(members[k].display.clone());
        proof {
            let displays = displays_of(members_view(members@));
            assert(names_view(member_names@) =~= displays.take(k as int).push(
                displays[k as int],
            ));
            assert(displays.take(k as int + 1) =~= displays.take(k as int).push(
                displays[k as int],
            ));
        }
        k = k + 1;
    }
    proof {
        let displays = displays_of(members_view(members@));
        assert(displays.take(members@.len() as int) =~= displays);
    }
    let result = AggregationResult {
        space_occupied: device_count > 0,
        device_count,
        member_count,
        member_names,
    };
    (result, sightings, unassigned)
}

/// The reduction step adds at most one identity entry, and never removes
/// one.
pub proof fn lemma_upsert_len(members: Seq<MemberModel>, d: DeviceModel)
    ensures
        members.len() <= spec_upsert(members, d).len() <= members.len() + 1,
{
    lemma_member_index(members, d.nickname);
}

/// A person may own several devices, so the device count always dominates
/// the member count.
pub proof fn lemma_member_count_le_device_count(stations: Seq<StationModel>, reg: Seq<DeviceModel>)
    ensures
        spec_aggregate(stations, reg).members.len() <= spec_aggregate(stations, reg).device_count,
    decreases stations.len(),
{
    if stations.len() > 0 {
        lemma_member_count_le_device_count(stations.drop_last(), reg);
        let pre = spec_aggregate(stations.drop_last(), reg);
        match spec_lookup(reg, stations.last().macaddr) {
            Some(d) => {
                if d.privacy != PrivacyLevel::HideUser {
                    lemma_upsert_len(pre.members, d);
                }
            },
            None => {},
        }
    }
}

/// A registered device at `HideUser` leaves the whole reduction state
/// untouched: it is never counted, named, logged, or surfaced.
pub proof fn lemma_hidden_device_invisible(m: AggModel, st: StationModel, reg: Seq<DeviceModel>)
    requires
        spec_lookup(reg, st.macaddr) matches Some(d) && d.privacy == PrivacyLevel::HideUser,
    ensures
        spec_agg_step(m, st, reg) == m,
{
}

/// A device at `DontLog` is counted like any other non-hidden device but
/// never emits a loggable sighting.
pub proof fn lemma_dontlog_counted_never_logged(
    m: AggModel,
    st: StationModel,
    reg: Seq<DeviceModel>,
)
    requires
        spec_lookup(reg, st.macaddr) matches Some(d) && d.privacy == PrivacyLevel::DontLog,
    ensures
        spec_agg_step(m, st, reg).device_count == m.device_count + 1,
        spec_agg_step(m, st, reg).sightings == m.sightings,
        spec_agg_step(m, st, reg).members == spec_upsert(
            m.members,
            spec_lookup(reg, st.macaddr)->Some_0,
        ),
{
}

/// When one identity shows up with a named device and an anonymous device
/// in the same cycle, in either order, the reduction keeps exactly one
/// entry for it: the named one, displayed under the identity's real name.
pub proof fn lemma_most_open_wins(
    members: Seq<MemberModel>,
    named: DeviceModel,
    anon: DeviceModel,
)
    requires
        named.nickname == anon.nickname,
        spec_member_index(members, named.nickname) is None,
        named.privacy == PrivacyLevel::ShowUser,
        anon.privacy == PrivacyLevel::ShowAnonymous,
    ensures
        spec_upsert(spec_upsert(members, named), anon) == members.push(spec_member_of(named)),
        spec_upsert(spec_upsert(members, anon), named) == members.push(spec_member_of(named)),
        spec_member_of(named).display == named.nickname,
{
    lemma_member_index(members, named.nickname);
    let with_named = members.push(spec_member_of(named));
    let with_anon = members.push(spec_member_of(anon));
    lemma_member_index(with_named, anon.nickname);
    assert(spec_member_index(with_named, anon.nickname) == Some(members.len() as int)) by {
        lemma_member_index(with_named, anon.nickname);
        assert(with_named[members.len() as int].nickname == anon.nickname);
    }
    lemma_member_index(with_anon, named.nickname);
    assert(spec_member_index(with_anon, named.nickname) == Some(members.len() as int)) by {
        lemma_member_index(with_anon, named.nickname);
        assert(with_anon[members.len() as int].nickname == named.nickname);
    }
    assert(with_anon.update(members.len() as int, spec_member_of(named)) =~= with_named);
}

/// No two reduction entries belong to the same identity.
pub open spec fn nicknames_unique(members: Seq<MemberModel>) -> bool {
    forall|i: int, j: int|
        0 <= i < j < members.len() ==> members[i].nickname != members[j].nickname
}

/// The reduction step keeps identities distinct: a fresh identity is
/// appended once, a known one only has its entry replaced in place.
pub proof fn lemma_upsert_preserves_unique(members: Seq<MemberModel>, d: DeviceModel)
    requires
        nicknames_unique(members),
    ensures
        nicknames_unique(spec_upsert(members, d)),
{
    lemma_member_index(members, d.nickname);
    match spec_member_index(members, d.nickname) {
        None => {
            let after = members.push(spec_member_of(d));
            assert forall|i: int, j: int| 0 <= i < j < after.len() implies after[i].nickname
                != after[j].nickname by {
                if j == members.len() {
                    assert(members[i].nickname != d.nickname);
                }
            }
        },
        Some(i) => {
            if 0 <= i < members.len() && d.privacy.ordinal() < members[i].privacy.ordinal() {
                let after = members.update(i, spec_member_of(d));
                assert(after[i].nickname == members[i].nickname);
                assert forall|p: int, q: int| 0 <= p < q < after.len() implies after[p].nickname
                    != after[q].nickname by {
                    assert(after[p].nickname == members[p].nickname);
                    assert(after[q].nickname == members[q].nickname);
                }
            }
        },
    }
}

/// Every cycle's reduction holds exactly one entry per identity, so no
/// identity is ever named twice in one summary.
pub proof fn lemma_aggregate_members_unique(stations: Seq<StationModel>, reg: Seq<DeviceModel>)
    ensures
        nicknames_unique(spec_aggregate(stations, reg).members),
    decreases stations.len(),
{
    if stations.len() > 0 {
        lemma_aggregate_members_unique(stations.drop_last(), reg);
        let pre = spec_aggregate(stations.drop_last(), reg);
        match spec_lookup(reg, stations.last().macaddr) {
            Some(d) => {
                if d.privacy != PrivacyLevel::HideUser {
                    lemma_upsert_preserves_unique(pre.members, d);
                }
            },
            None => {},
        }
    }
}

/// Aggregation is a function of the station list and the registry snapshot
/// alone: two results for the same inputs agree on every published value,
/// every sighting, and every surfaced unregistered station.
pub proof fn lemma_aggregation_deterministic(
    r1: AggregationResult,
    s1: Seq<SightingModel>,
    u1: Seq<StationModel>,
    r2: AggregationResult,
    s2: Seq<SightingModel>,
    u2: Seq<StationModel>,
    stations: Seq<StationModel>,
    reg: Seq<DeviceModel>,
)
    requires
        aggregation_matches(r1, s1, u1, stations, reg),
        aggregation_matches(r2, s2, u2, stations, reg),
    ensures
        r1.space_occupied == r2.space_occupied,
        r1.device_count == r2.device_count,
        r1.member_count == r2.member_count,
        names_view(r1.member_names@) == names_view(r2.member_names@),
        s1 == s2,
        u1 == u2,
{
}

} // verus!
