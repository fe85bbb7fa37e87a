use pomodoro::dispatch::{
    find_by_short_id, handle_create, handle_delete, handle_delete_all, handle_queue,
    request_to_command, route_inbound, route_output, short_id_of, Command, InboundRoute,
    InputSource, OutputRoute,
};
use pomodoro::notification::NotificationSled;
use pomodoro::error::{NotificationError, UserInputHandlerError};
use pomodoro::ipc::{Message, MessageRequest, MessageResponse, UdsMessage};
use pomodoro::registry::TaskRegistry;
use pomodoro::store::SledStore;

#[test]
fn requests_map_to_structured_commands() {
    let c = request_to_command(MessageRequest::Create {
        work_time: Some(25),
        break_time: Some(5),
        description: Some(String::from("d")),
    });
    assert_eq!(
        c,
        Command::Create {
            work_time: Some(25),
            break_time: Some(5),
            description: Some(String::from("d")),
        }
    );

    assert_eq!(
        request_to_command(MessageRequest::Queue {
            work_time: None,
            break_time: Some(1),
            description: None,
        }),
        Command::Queue { work_time: None, break_time: Some(1), description: None }
    );
    assert_eq!(
        request_to_command(MessageRequest::Delete { id: 3, all: true }),
        Command::Delete { id: 3, all: true }
    );
    assert_eq!(
        request_to_command(MessageRequest::List { show_percentage: false }),
        Command::List { show_percentage: false }
    );
    assert_eq!(request_to_command(MessageRequest::Test), Command::Test);
    assert_eq!(
        request_to_command(MessageRequest::History { should_clear: true }),
        Command::History { should_clear: true }
    );
}

#[test]
fn ping_is_answered_in_place_with_pong() {
    let route = route_inbound(UdsMessage::Internal(Message::Ping));
    match route {
        InboundRoute::ReplyPong(bytes) => {
            assert_eq!(Message::decode(&bytes), Ok(Message::Pong));
        }
        other => panic!("a Ping must be answered directly, got {:?}", other),
    }
}

#[test]
fn stray_pong_is_dropped() {
    assert_eq!(route_inbound(UdsMessage::Internal(Message::Pong)), InboundRoute::Ignore);
}

#[test]
fn requests_are_enqueued() {
    let route = route_inbound(UdsMessage::Public(MessageRequest::Test));
    assert_eq!(route, InboundRoute::Enqueue(Command::Test));
}

#[test]
fn console_output_is_printed() {
    let lines = vec![String::from("a"), String::from("b")];
    match route_output(InputSource::StandardInput, lines.clone()) {
        OutputRoute::Print(printed) => assert_eq!(printed, lines),
        other => panic!("console output must be printed, got {:?}", other),
    }
}

#[test]
fn remote_output_travels_as_an_encoded_response() {
    let lines = vec![String::from("List succeed")];
    match route_output(InputSource::UnixDomainSocket, lines.clone()) {
        OutputRoute::Send(bytes) => {
            let response = MessageResponse::decode(&bytes).expect("the reply must decode");
            assert_eq!(response.get_body(), &lines);
        }
        other => panic!("remote output must be sent back, got {:?}", other),
    }
}

#[test]
fn create_command_persists_a_record() {
    let mut store = SledStore::new_temporary().expect("a scratch store must open");
    let n = handle_create(&mut store, 25, 5, String::from("work"), 1_000)
        .expect("a valid create succeeds");
    let found = store.get(n.get_id()).expect("reading back succeeds");
    assert_eq!(found, Some(n));
}

#[test]
fn create_command_rejects_all_zero_times() {
    let mut store = SledStore::new_temporary().expect("a scratch store must open");
    let r = handle_create(&mut store, 0, 0, String::new(), 1_000);
    assert!(matches!(
        r,
        Err(UserInputHandlerError::NotificationError(NotificationError::EmptyTimeValues))
    ));
    assert!(store.list_all_notifications().expect("listing succeeds").is_empty());
}

#[test]
fn queue_command_starts_after_the_last_pending_record() {
    let mut store = SledStore::new_temporary().expect("a scratch store must open");
    let now: i64 = 1_000;
    let first = handle_create(&mut store, 30, 0, String::new(), now).expect("create succeeds");
    let queued = handle_queue(&mut store, 10, 0, String::new(), now).expect("queue succeeds");
    let (_, _, _, _, _, _, first_break_expiry) = first.get_values();
    assert_eq!(queued.get_start_at(), first_break_expiry);
    assert_eq!(queued.get_start_at(), now + 30 * 60);
}

#[test]
fn queue_command_on_an_empty_store_starts_now() {
    let mut store = SledStore::new_temporary().expect("a scratch store must open");
    let queued = handle_queue(&mut store, 10, 0, String::new(), 1_000).expect("queue succeeds");
    assert_eq!(queued.get_start_at(), 1_000);
}

#[test]
fn delete_command_cancels_and_removes() {
    let mut store = SledStore::new_temporary().expect("a scratch store must open");
    let mut registry: TaskRegistry<u32> = TaskRegistry::new();
    let n = handle_create(&mut store, 1, 0, String::new(), 1_000).expect("create succeeds");
    registry.insert(n.get_id(), 99);

    let handle = handle_delete(&mut store, &mut registry, n.get_id()).expect("delete succeeds");
    assert_eq!(handle, Some(99));
    assert!(!registry.contains(n.get_id()));
    assert_eq!(store.get(n.get_id()).expect("reading succeeds"), None);
}

#[test]
fn short_ids_are_the_last_four_digits() {
    assert_eq!(short_id_of(0), 0);
    assert_eq!(short_id_of(123_456_789), 6_789);
    assert_eq!(short_id_of(10_000), 0);
}

#[test]
fn short_ids_resolve_back_to_records() {
    let records = vec![
        NotificationSled::new(String::from("a"), 1, 0, 0),
        NotificationSled::new(String::from("b"), 2, 0, 0),
    ];
    let target = records[1].get_id();
    let found = find_by_short_id(&records, short_id_of(target));
    assert!(found.is_some());
    let found = found.unwrap();
    assert_eq!(found % 10_000, target % 10_000);
    assert!(records.iter().any(|n| n.get_id() == found));
}

#[test]
fn unknown_short_ids_resolve_to_nothing() {
    let records = vec![NotificationSled::new(String::from("a"), 1, 0, 0)];
    let absent = (records[0].get_id() % 10_000 + 1) % 10_000;
    assert_eq!(find_by_short_id(&records, absent as u64), None);
}

#[test]
fn delete_all_command_clears_store_and_registry() {
    let mut store = SledStore::new_temporary().expect("a scratch store must open");
    let mut registry: TaskRegistry<u32> = TaskRegistry::new();
    for i in 0..3u16 {
        let n = handle_create(&mut store, 1 + i, 0, String::new(), 1_000).expect("create succeeds");
        registry.insert(n.get_id(), i as u32);
    }
    let handles = handle_delete_all(&mut store, &mut registry).expect("delete-all succeeds");
    assert_eq!(handles.len(), 3);
    assert_eq!(registry.len(), 0);
    assert!(store.list_all_notifications().expect("listing succeeds").is_empty());
}
