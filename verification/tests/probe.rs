use pomodoro::framing::frame_message;
use pomodoro::ipc::{Message, UdsType};
use pomodoro::probe::{
    get_uds_address, probe_verdict, probe_verdict_of_datagrams, sender_accepted, server_bind_plan,
    AddressStatus, BindAction,
};

#[test]
fn pong_means_the_address_is_in_use() {
    assert_eq!(probe_verdict(Some(Message::Pong)), AddressStatus::InUse);
}

#[test]
fn silence_or_noise_means_the_address_is_free() {
    assert_eq!(probe_verdict(None), AddressStatus::Free);
    assert_eq!(probe_verdict(Some(Message::Ping)), AddressStatus::Free);
}

#[test]
fn a_framed_pong_reply_reports_in_use() {
    // What a live daemon sends back to a probe, as it arrives on the
    // wire: the encoded Pong split into datagrams plus terminator.
    let datagrams = frame_message(&Message::Pong.encode());
    assert_eq!(probe_verdict_of_datagrams(&datagrams), AddressStatus::InUse);
}

#[test]
fn no_reply_before_the_timeout_reports_free() {
    assert_eq!(probe_verdict_of_datagrams(&Vec::new()), AddressStatus::Free);
}

#[test]
fn garbage_replies_report_free() {
    let datagrams = frame_message(&vec![42u8, 43, 44]);
    assert_eq!(probe_verdict_of_datagrams(&datagrams), AddressStatus::Free);
    let datagrams = frame_message(&Message::Ping.encode());
    assert_eq!(probe_verdict_of_datagrams(&datagrams), AddressStatus::Free);
}

#[test]
fn bind_plan_follows_probe_and_path_state() {
    assert_eq!(
        server_bind_plan(AddressStatus::InUse, true),
        BindAction::AbortAlreadyRunning
    );
    assert_eq!(
        server_bind_plan(AddressStatus::InUse, false),
        BindAction::AbortAlreadyRunning
    );
    assert_eq!(
        server_bind_plan(AddressStatus::Free, true),
        BindAction::RemoveStaleThenBind
    );
    assert_eq!(server_bind_plan(AddressStatus::Free, false), BindAction::BindFresh);
}

#[test]
fn addresses_are_per_user_and_per_role() {
    let server = get_uds_address(UdsType::Server, &String::from("/tmp"), &String::from("alice"));
    assert_eq!(server, "/tmp/alice/rust-cli-pomodoro-server.sock");
    let client = get_uds_address(UdsType::Client, &String::from("/tmp"), &String::from("alice"));
    assert_eq!(client, "/tmp/alice/rust-cli-pomodoro-client.sock");
    let other = get_uds_address(UdsType::Server, &String::from("/tmp"), &String::from("bob"));
    assert_ne!(server, other);
}

#[test]
fn datagrams_from_the_wrong_peer_are_rejected() {
    let expected = String::from("/tmp/alice/rust-cli-pomodoro-client.sock");
    assert!(sender_accepted(&expected.clone(), &expected));
    assert!(!sender_accepted(&String::from("/tmp/eve/rust-cli-pomodoro-client.sock"), &expected));
}
