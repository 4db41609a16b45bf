use mac4nick::aggregate::{aggregate, Registry};
use mac4nick::device::Device;
use mac4nick::net::Station;
use mac4nick::PrivacyLevel;

fn station(mac: &str, ip: u32) -> Station {
    Station { macaddr: mac.to_string(), ip }
}

fn record(mac: &str, nickname: &str, privacy: PrivacyLevel) -> Device {
    Device {
        id: None,
        macaddr: mac.to_string(),
        nickname: nickname.to_string(),
        descr: String::new(),
        privacy,
        present: false,
    }
}

const IP_A: u32 = 0x0a000005;
const IP_B: u32 = 0x0a000006;

#[test]
fn two_devices_of_one_identity_reduce_to_one_named_member() {
    // stations AA and BB both belong to alice; the ShowUser device wins.
    let stations = vec![station("AA", IP_A), station("BB", IP_B)];
    let registry = Registry {
        devices: vec![
            record("AA", "alice", PrivacyLevel::ShowUser),
            record("BB", "alice", PrivacyLevel::ShowAnonymous),
        ],
    };
    let (result, sightings, unassigned) = aggregate(&stations, &registry);
    assert!(result.space_occupied);
    assert_eq!(result.device_count, 2);
    assert_eq!(result.member_count, 1);
    assert_eq!(result.member_names, vec!["alice".to_string()]);
    assert_eq!(sightings.len(), 2);
    assert!(unassigned.is_empty());
}

#[test]
fn hidden_device_is_excluded_and_the_anonymous_one_remains() {
    let stations = vec![station("AA", IP_A), station("BB", IP_B)];
    let registry = Registry {
        devices: vec![
            record("AA", "alice", PrivacyLevel::HideUser),
            record("BB", "alice", PrivacyLevel::ShowAnonymous),
        ],
    };
    let (result, sightings, _) = aggregate(&stations, &registry);
    assert_eq!(result.device_count, 1);
    assert_eq!(result.member_count, 1);
    assert_eq!(result.member_names, vec!["Anonymous".to_string()]);
    // the hidden device is not logged either
    assert_eq!(sightings.len(), 1);
    assert_eq!(sightings[0].macaddr, "BB");
}

#[test]
fn unregistered_station_only_surfaces_on_the_side_channel() {
    let stations = vec![station("AA", IP_A), station("XX", IP_B)];
    let registry = Registry {
        devices: vec![record("AA", "alice", PrivacyLevel::ShowUser)],
    };
    let (result, sightings, unassigned) = aggregate(&stations, &registry);
    assert_eq!(result.device_count, 1);
    assert_eq!(result.member_count, 1);
    assert_eq!(sightings.len(), 1);
    assert_eq!(unassigned.len(), 1);
    assert_eq!(unassigned[0].macaddr, "XX");
    assert_eq!(unassigned[0].ip, IP_B);
}

#[test]
fn dontlog_device_is_counted_but_never_sighted() {
    let stations = vec![station("AA", IP_A)];
    let registry = Registry {
        devices: vec![record("AA", "bob", PrivacyLevel::DontLog)],
    };
    let (result, sightings, _) = aggregate(&stations, &registry);
    assert_eq!(result.device_count, 1);
    assert_eq!(result.member_count, 1);
    assert_eq!(result.member_names, vec!["Anonymous".to_string()]);
    assert!(sightings.is_empty());
}

#[test]
fn device_count_dominates_member_count() {
    let stations = vec![
        station("AA", IP_A),
        station("BB", IP_B),
        station("CC", 0x0a000007),
    ];
    let registry = Registry {
        devices: vec![
            record("AA", "alice", PrivacyLevel::ShowUser),
            record("BB", "alice", PrivacyLevel::ShowUserAndDevice),
            record("CC", "bob", PrivacyLevel::ShowAnonymous),
        ],
    };
    let (result, _, _) = aggregate(&stations, &registry);
    assert!(result.device_count >= result.member_count);
    assert_eq!(result.device_count, 3);
    assert_eq!(result.member_count, 2);
}

#[test]
fn occupancy_follows_the_device_count() {
    let registry = Registry {
        devices: vec![record("AA", "alice", PrivacyLevel::ShowUser)],
    };
    let (empty, _, _) = aggregate(&vec![], &registry);
    assert!(!empty.space_occupied);
    assert_eq!(empty.device_count, 0);
    assert_eq!(empty.member_count, 0);
    assert!(empty.member_names.is_empty());

    let (busy, _, _) = aggregate(&vec![station("AA", IP_A)], &registry);
    assert!(busy.space_occupied);
    assert_eq!(busy.device_count, 1);

    // a registry full of hidden devices leaves the space closed
    let hidden = Registry {
        devices: vec![record("AA", "alice", PrivacyLevel::HideUser)],
    };
    let (closed, _, _) = aggregate(&vec![station("AA", IP_A)], &hidden);
    assert!(!closed.space_occupied);
    assert_eq!(closed.device_count, 0);
}

#[test]
fn aggregation_is_deterministic_on_equal_inputs() {
    let stations = vec![station("AA", IP_A), station("BB", IP_B), station("AA", IP_A)];
    let registry = Registry {
        devices: vec![
            record("AA", "alice", PrivacyLevel::ShowAnonymous),
            record("BB", "bob", PrivacyLevel::ShowUser),
        ],
    };
    let (r1, s1, u1) = aggregate(&stations, &registry);
    let (r2, s2, u2) = aggregate(&stations, &registry);
    assert_eq!(r1.space_occupied, r2.space_occupied);
    assert_eq!(r1.device_count, r2.device_count);
    assert_eq!(r1.member_count, r2.member_count);
    assert_eq!(r1.member_names, r2.member_names);
    assert_eq!(s1.len(), s2.len());
    for (a, b) in s1.iter().zip(s2.iter()) {
        assert_eq!(a.macaddr, b.macaddr);
        assert_eq!(a.ip, b.ip);
    }
    assert_eq!(u1.len(), u2.len());
}

#[test]
fn duplicate_stations_count_as_separate_sightings() {
    let stations = vec![station("AA", IP_A), station("AA", IP_A)];
    let registry = Registry {
        devices: vec![record("AA", "alice", PrivacyLevel::ShowUser)],
    };
    let (result, sightings, _) = aggregate(&stations, &registry);
    assert_eq!(result.device_count, 2);
    assert_eq!(result.member_count, 1);
    assert_eq!(sightings.len(), 2);
}

#[test]
fn ties_keep_the_first_seen_entry_and_order_is_first_insertion() {
    let stations = vec![
        station("B1", IP_A),
        station("A1", IP_B),
        station("B2", 0x0a000007),
    ];
    let registry = Registry {
        devices: vec![
            record("B1", "bob", PrivacyLevel::ShowUser),
            record("A1", "alice", PrivacyLevel::ShowUser),
            record("B2", "bob", PrivacyLevel::ShowUser),
        ],
    };
    let (result, _, _) = aggregate(&stations, &registry);
    // bob was seen first, so bob stays first in the name list
    assert_eq!(
        result.member_names,
        vec!["bob".to_string(), "alice".to_string()]
    );
}

#[test]
fn registry_lookup_takes_the_first_matching_record() {
    let registry = Registry {
        devices: vec![
            record("AA", "alice", PrivacyLevel::ShowUser),
            record("AA", "bob", PrivacyLevel::HideUser),
        ],
    };
    let found = registry.lookup(&"AA".to_string()).unwrap();
    assert_eq!(found.nickname, "alice");
    assert!(registry.lookup(&"ZZ".to_string()).is_none());
}
