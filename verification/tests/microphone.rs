use fntype::microphone::{
    builtin_display_active, candidate_input_devices, choose_input_name, choose_input_name_with,
    input_candidate_score, is_bluetooth_input, is_built_in_input, is_usable_non_bluetooth,
    is_virtual_input, Candidates,
};
use fntype::sys_audio::{
    device_is_bluetooth, input_id_by_name, Answer, Ask, DefaultInputGuard, Transport,
};

#[test]
fn airpods_and_handsfree_names_are_bluetooth() {
    assert!(is_bluetooth_input("AirPods Pro"));
    assert!(is_bluetooth_input("Corey’s AirPods Pro"));
    assert!(is_bluetooth_input("AirPods Hands-Free"));
    assert!(is_bluetooth_input("Beats Studio Pro"));
    assert!(is_bluetooth_input("Powerbeats Pro"));
    assert!(!is_bluetooth_input("MacBook Pro Microphone"));
    assert!(!is_bluetooth_input("Shure MV7"));
}

#[test]
fn built_in_mac_names_are_detected() {
    assert!(is_built_in_input("MacBook Pro Microphone"));
    assert!(is_built_in_input("iMac Microphone"));
    assert!(is_built_in_input("Mac mini Microphone"));
    assert!(is_built_in_input("Built-in Microphone"));
    assert!(!is_built_in_input("Studio Display Microphone"));
    assert!(!is_built_in_input("AirPods Pro"));
}

#[test]
fn skips_airpods_default_for_built_in_mic() {
    assert_eq!(
        choose_input_name("AirPods Pro", &["AirPods Pro", "MacBook Pro Microphone"],),
        "MacBook Pro Microphone"
    );
}

#[test]
fn keeps_non_bluetooth_system_default() {
    assert_eq!(
        choose_input_name(
            "Shure MV7",
            &["AirPods Pro", "MacBook Pro Microphone", "Shure MV7"],
        ),
        "Shure MV7"
    );
    assert_eq!(
        choose_input_name("MacBook Pro Microphone", &["MacBook Pro Microphone"]),
        "MacBook Pro Microphone"
    );
}

#[test]
fn uses_airpods_when_they_are_the_only_mic() {
    assert_eq!(
        choose_input_name("AirPods Pro", &["AirPods Pro"]),
        "AirPods Pro"
    );
}

#[test]
fn does_not_fall_back_to_virtual_loopback() {
    assert_eq!(
        choose_input_name("AirPods Pro", &["AirPods Pro", "BlackHole 2ch"]),
        "AirPods Pro"
    );
}

#[test]
fn clamshell_keeps_airpods_when_macbook_mic_is_unusable() {
    assert_eq!(
        choose_input_name_with(
            "AirPods Pro",
            &["AirPods Pro", "MacBook Pro Microphone"],
            false,
        ),
        "AirPods Pro"
    );
}

#[test]
fn bluetooth_is_excluded_when_any_local_mic_exists() {
    assert_eq!(
        input_candidate_score("AirPods Pro", true, true, false),
        None
    );
    assert_eq!(
        choose_input_name("AirPods Pro", &["AirPods Pro", "Studio Display Microphone"],),
        "Studio Display Microphone"
    );
}

#[test]
fn virtual_devices_are_detected() {
    assert!(is_virtual_input("BlackHole 2ch"));
    assert!(is_virtual_input("Aggregate Device"));
    assert!(is_virtual_input("ZoomAudioDevice"));
    assert!(!is_virtual_input("Shure MV7"));
    assert!(is_bluetooth_input("beats flex"));
    assert!(!is_bluetooth_input("heartbeats"));
}

#[test]
fn scores_rank_the_kinds_of_microphone() {
    assert_eq!(input_candidate_score("AirPods Pro", false, true, true), Some(10));
    assert_eq!(input_candidate_score("BlackHole 2ch", false, true, true), None);
    assert_eq!(input_candidate_score("BlackHole 2ch", true, true, true), Some(20));
    assert_eq!(input_candidate_score("MacBook Pro Microphone", false, true, true), Some(100));
    assert_eq!(input_candidate_score("MacBook Pro Microphone", true, true, true), Some(200));
    assert_eq!(input_candidate_score("MacBook Pro Microphone", true, false, true), Some(5));
    assert_eq!(input_candidate_score("Shure MV7", false, true, true), Some(60));
    assert_eq!(input_candidate_score("Shure MV7", true, true, true), Some(160));
}

#[test]
fn a_usable_local_microphone_is_neither_bluetooth_nor_virtual() {
    assert!(is_usable_non_bluetooth("Shure MV7", false));
    assert!(is_usable_non_bluetooth("MacBook Pro Microphone", true));
    assert!(!is_usable_non_bluetooth("MacBook Pro Microphone", false));
    assert!(!is_usable_non_bluetooth("BlackHole 2ch", true));
    assert!(!is_usable_non_bluetooth("AirPods Pro", true));
}

#[test]
fn the_built_in_display_is_looked_for() {
    assert!(builtin_display_active(None));
    assert!(!builtin_display_active(Some(&[])));
    assert!(!builtin_display_active(Some(&[false, false])));
    assert!(builtin_display_active(Some(&[false, true])));
}

#[test]
fn devices_are_ranked_with_equals_in_their_order() {
    let names: Vec<Option<String>> = vec![
        Some("Shure MV7".into()),
        None,
        Some("AirPods Pro".into()),
        Some("MacBook Pro Microphone".into()),
        Some("Rode NT".into()),
        Some("BlackHole 2ch".into()),
    ];
    assert!(matches!(
        candidate_input_devices(Some("AirPods Pro"), &names, true),
        Candidates::Devices(order) if order == vec![3, 0, 4]
    ));
    assert!(matches!(
        candidate_input_devices(Some("Rode NT"), &names, true),
        Candidates::Devices(order) if order == vec![4, 3, 0]
    ));
}

#[test]
fn with_the_lid_closed_a_headset_is_ranked_first() {
    let names: Vec<Option<String>> =
        vec![Some("MacBook Pro Microphone".into()), Some("AirPods Pro".into())];
    assert!(matches!(
        candidate_input_devices(Some("AirPods Pro"), &names, false),
        Candidates::Devices(order) if order == vec![1, 0]
    ));
    assert!(matches!(
        candidate_input_devices(Some("AirPods Pro"), &names, true),
        Candidates::Devices(order) if order == vec![0]
    ));
}

#[test]
fn without_a_candidate_the_system_default_is_used() {
    assert!(matches!(
        candidate_input_devices(None, &[], true),
        Candidates::SystemDefault
    ));
    assert!(matches!(
        candidate_input_devices(None, &[None, Some("BlackHole 2ch".into())], true),
        Candidates::SystemDefault
    ));
}

#[test]
fn playback_is_protected_from_a_bluetooth_default() {
    let (mut protection, ask) = DefaultInputGuard::protect_playback("Shure MV7");
    assert_eq!(ask, Ask::DefaultInput);
    assert_eq!(protection.answer(Answer::DefaultInput(Some(7))), Ask::IsBluetooth(7));
    assert_eq!(protection.answer(Answer::IsBluetooth(true)), Ask::PreferredDevice);
    assert_eq!(
        protection.answer(Answer::PreferredDevice(Some(9))),
        Ask::SetDefaultInput(9)
    );
    let done = protection.answer(Answer::SetDefaultInput(true));
    assert_eq!(done, Ask::Done(DefaultInputGuard { previous: Some(7) }));
    let mut guard = DefaultInputGuard { previous: Some(7) };
    assert_eq!(guard.release(), Some(7));
    assert_eq!(guard.release(), None);
}

#[test]
fn a_default_that_stays_is_not_restored() {
    let leave = Ask::Done(DefaultInputGuard { previous: None });
    assert_eq!(DefaultInputGuard::protect_playback("AirPods Pro").1, leave);
    let (mut protection, _) = DefaultInputGuard::protect_playback("Shure MV7");
    assert_eq!(protection.answer(Answer::DefaultInput(None)), leave);
    let (mut protection, _) = DefaultInputGuard::protect_playback("Shure MV7");
    protection.answer(Answer::DefaultInput(Some(7)));
    assert_eq!(protection.answer(Answer::IsBluetooth(false)), leave);
    let (mut protection, _) = DefaultInputGuard::protect_playback("Shure MV7");
    protection.answer(Answer::DefaultInput(Some(7)));
    protection.answer(Answer::IsBluetooth(true));
    assert_eq!(protection.answer(Answer::PreferredDevice(Some(7))), leave);
    let (mut protection, _) = DefaultInputGuard::protect_playback("Shure MV7");
    protection.answer(Answer::DefaultInput(Some(7)));
    protection.answer(Answer::IsBluetooth(true));
    protection.answer(Answer::PreferredDevice(Some(9)));
    assert_eq!(protection.answer(Answer::SetDefaultInput(false)), leave);
}

#[test]
fn a_device_is_bluetooth_by_name_or_transport() {
    assert!(device_is_bluetooth(Some("AirPods Pro"), None));
    assert!(device_is_bluetooth(Some("Headset"), Some(Transport::Bluetooth)));
    assert!(device_is_bluetooth(None, Some(Transport::BluetoothLE)));
    assert!(!device_is_bluetooth(Some("Shure MV7"), Some(Transport::Other)));
    assert!(!device_is_bluetooth(None, None));
}

#[test]
fn the_first_device_of_a_name_is_found() {
    let devices = vec![
        (4, Some("A".to_string())),
        (5, None),
        (6, Some("B".to_string())),
        (7, Some("B".to_string())),
    ];
    assert_eq!(input_id_by_name(&devices, "B"), Some(6));
    assert_eq!(input_id_by_name(&devices, "C"), None);
}
