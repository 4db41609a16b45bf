use mac4nick::aggregate::Registry;
use mac4nick::device::Device;
use mac4nick::net::Station;
use mac4nick::publish::{format_u64, join_names, plan_cycle, space_status, ControllerError};
use mac4nick::PrivacyLevel;

fn record(mac: &str, nickname: &str, privacy: PrivacyLevel) -> Device {
    Device {
        id: None,
        macaddr: mac.to_string(),
        nickname: nickname.to_string(),
        descr: String::new(),
        privacy,
        present: false,
    }
}

#[test]
fn renders_counts_in_decimal() {
    assert_eq!(format_u64(0), "0");
    assert_eq!(format_u64(7), "7");
    assert_eq!(format_u64(10), "10");
    assert_eq!(format_u64(1234567890), "1234567890");
    assert_eq!(format_u64(u64::MAX), "18446744073709551615");
}

#[test]
fn joins_names_with_comma_and_space() {
    assert_eq!(join_names(&vec![]), "");
    assert_eq!(join_names(&vec!["alice".to_string()]), "alice");
    assert_eq!(
        join_names(&vec![
            "alice".to_string(),
            "Anonymous".to_string(),
            "bob".to_string()
        ]),
        "alice, Anonymous, bob"
    );
}

#[test]
fn occupancy_payload_is_open_or_closed() {
    assert_eq!(space_status(0), "closed");
    assert_eq!(space_status(1), "open");
    assert_eq!(space_status(99), "open");
}

#[test]
fn a_successful_cycle_plans_all_four_payloads() {
    let stations = vec![
        Station { macaddr: "AA".to_string(), ip: 0x0a000005 },
        Station { macaddr: "BB".to_string(), ip: 0x0a000006 },
    ];
    let registry = Registry {
        devices: vec![
            record("AA", "alice", PrivacyLevel::ShowUser),
            record("BB", "alice", PrivacyLevel::ShowAnonymous),
        ],
    };
    let plan = plan_cycle(Ok(stations), &registry).unwrap();
    assert_eq!(plan.status_payload, "open");
    assert_eq!(plan.device_count_payload, "2");
    assert_eq!(plan.member_count_payload, "1");
    assert_eq!(plan.names_payload, "alice");
    assert_eq!(plan.sightings.len(), 2);
    assert!(plan.unassigned.is_empty());
}

#[test]
fn an_idle_space_plans_a_closed_status() {
    let registry = Registry { devices: vec![] };
    let plan = plan_cycle(Ok(vec![]), &registry).unwrap();
    assert_eq!(plan.status_payload, "closed");
    assert_eq!(plan.device_count_payload, "0");
    assert_eq!(plan.member_count_payload, "0");
    assert_eq!(plan.names_payload, "");
}

#[test]
fn a_failed_fetch_plans_nothing() {
    let registry = Registry {
        devices: vec![record("AA", "alice", PrivacyLevel::ShowUser)],
    };
    let out = plan_cycle(Err(ControllerError::AuthFailed), &registry);
    assert_eq!(out.err(), Some(ControllerError::AuthFailed));
    let out = plan_cycle(Err(ControllerError::Unreachable), &registry);
    assert_eq!(out.err(), Some(ControllerError::Unreachable));
    let out = plan_cycle(Err(ControllerError::Protocol), &registry);
    assert_eq!(out.err(), Some(ControllerError::Protocol));
}

#[test]
fn controller_errors_describe_themselves() {
    assert_eq!(
        ControllerError::Unreachable.describe(),
        "controller unreachable"
    );
    assert_eq!(
        ControllerError::AuthFailed.describe(),
        "controller login rejected"
    );
    assert_eq!(
        ControllerError::Protocol.describe(),
        "unexpected station list shape"
    );
}
