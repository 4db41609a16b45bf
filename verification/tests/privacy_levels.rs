use mac4nick::device::Device;
use mac4nick::PrivacyLevel;

fn device(nickname: &str, privacy: PrivacyLevel) -> Device {
    Device {
        id: Some(1),
        macaddr: "aa:bb:cc:dd:ee:ff".to_string(),
        nickname: nickname.to_string(),
        descr: "phone".to_string(),
        privacy,
        present: false,
    }
}

#[test]
fn try_from_decodes_every_level() {
    assert_eq!(
        PrivacyLevel::try_from(0),
        Ok(PrivacyLevel::ShowUserAndDevice)
    );
    assert_eq!(PrivacyLevel::try_from(1), Ok(PrivacyLevel::ShowUser));
    assert_eq!(PrivacyLevel::try_from(2), Ok(PrivacyLevel::ShowAnonymous));
    assert_eq!(PrivacyLevel::try_from(3), Ok(PrivacyLevel::HideUser));
    assert_eq!(PrivacyLevel::try_from(4), Ok(PrivacyLevel::DontLog));
}

#[test]
fn try_from_rejects_out_of_range() {
    assert!(PrivacyLevel::try_from(-1).is_err());
    assert!(PrivacyLevel::try_from(5).is_err());
    assert!(PrivacyLevel::try_from(i8::MAX).is_err());
}

#[test]
fn ordinal_follows_the_declared_order() {
    assert_eq!(PrivacyLevel::ShowUserAndDevice.ordinal_u8(), 0);
    assert_eq!(PrivacyLevel::ShowUser.ordinal_u8(), 1);
    assert_eq!(PrivacyLevel::ShowAnonymous.ordinal_u8(), 2);
    assert_eq!(PrivacyLevel::HideUser.ordinal_u8(), 3);
    assert_eq!(PrivacyLevel::DontLog.ordinal_u8(), 4);
}

#[test]
fn lower_ordinal_is_more_revealing() {
    assert!(PrivacyLevel::ShowUser.more_revealing_than(&PrivacyLevel::ShowAnonymous));
    assert!(!PrivacyLevel::ShowAnonymous.more_revealing_than(&PrivacyLevel::ShowUser));
    assert!(!PrivacyLevel::ShowUser.more_revealing_than(&PrivacyLevel::ShowUser));
    assert!(PrivacyLevel::ShowAnonymous.more_revealing_than(&PrivacyLevel::DontLog));
}

#[test]
fn selected_marks_only_the_matching_level() {
    let level = PrivacyLevel::ShowAnonymous;
    assert_eq!(level.selected(PrivacyLevel::ShowAnonymous), "selected");
    assert_eq!(level.selected(PrivacyLevel::ShowUser), "");
    assert_eq!(level.selected(PrivacyLevel::DontLog), "");
}

#[test]
fn public_username_shows_real_name_for_open_levels() {
    assert_eq!(
        device("alice", PrivacyLevel::ShowUserAndDevice).get_public_username(),
        "alice"
    );
    assert_eq!(
        device("alice", PrivacyLevel::ShowUser).get_public_username(),
        "alice"
    );
}

#[test]
fn public_username_is_placeholder_for_closed_levels() {
    assert_eq!(
        device("alice", PrivacyLevel::ShowAnonymous).get_public_username(),
        "Anonymous"
    );
    assert_eq!(
        device("alice", PrivacyLevel::DontLog).get_public_username(),
        "Anonymous"
    );
}

#[test]
fn only_dontlog_suppresses_logging() {
    assert!(device("a", PrivacyLevel::ShowUserAndDevice).loggable());
    assert!(device("a", PrivacyLevel::ShowUser).loggable());
    assert!(device("a", PrivacyLevel::ShowAnonymous).loggable());
    assert!(device("a", PrivacyLevel::HideUser).loggable());
    assert!(!device("a", PrivacyLevel::DontLog).loggable());
}
