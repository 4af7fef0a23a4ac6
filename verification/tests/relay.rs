use kgui::event::Event;
use kgui::relay::{
    format_line, handle_event, relay_step, relay_stream, stamp_message, Received, RelayAction,
};

fn is_timestamp(text: &str) -> bool {
    let bytes = text.as_bytes();
    bytes.len() == 19
        && bytes.iter().enumerate().all(|(i, b)| match i {
            4 | 7 => *b == b'-',
            10 => *b == b' ',
            13 | 16 => *b == b':',
            _ => b.is_ascii_digit(),
        })
}

fn split_line(line: &str) -> (&str, &str) {
    let at = line.find(": ").unwrap();
    (&line[..at], &line[at + 2..])
}

#[test]
fn line_is_timestamp_colon_space_message() {
    assert_eq!(
        format_line("2024-05-06 07:08:09", "TUN设备已就绪. 设备: tun0"),
        "2024-05-06 07:08:09: TUN设备已就绪. 设备: tun0"
    );
    assert_eq!(format_line("", ""), ": ");
    assert_eq!(format_line("t", "m"), "t: m");
}

#[test]
fn stamp_is_the_local_time_of_the_call() {
    let before = chrono::Local::now().naive_local();
    let line = stamp_message("m");
    let after = chrono::Local::now().naive_local();
    let stamp = chrono::NaiveDateTime::parse_from_str(split_line(&line).0, "%Y-%m-%d %H:%M:%S")
        .unwrap();
    assert!(before - chrono::Duration::seconds(1) <= stamp, "{:?} {:?}", before, stamp);
    assert!(stamp <= after, "{:?} {:?}", stamp, after);
}

#[test]
fn stamped_message_carries_a_local_timestamp() {
    let line = stamp_message("hello: world");
    let (stamp, message) = split_line(&line);
    assert!(is_timestamp(stamp), "{:?}", stamp);
    assert_eq!(message, "hello: world");
}

#[test]
fn step_emits_the_line_of_an_event() {
    assert_eq!(
        relay_step(&Received::Event(Event::PeerRemoved(3)), "2024-01-02 03:04:05"),
        RelayAction::Emit(String::from("2024-01-02 03:04:05: 对等节点已移除. 对等节点ID: 3"))
    );
}

#[test]
fn step_skips_a_ring_listener() {
    assert_eq!(
        relay_step(&Received::Event(Event::ListenerAdded(String::from("ring://x"))), "t"),
        RelayAction::Skip
    );
}

#[test]
fn step_goes_on_after_a_lag() {
    assert_eq!(relay_step(&Received::Lagged, "t"), RelayAction::Skip);
}

#[test]
fn step_stops_at_the_end_of_the_stream() {
    assert_eq!(relay_step(&Received::Closed, "t"), RelayAction::Stop);
}

#[test]
fn step_stops_after_a_failed_receive() {
    assert_eq!(relay_step(&Received::Failed, "t"), RelayAction::Stop);
}

#[test]
fn peer_added_line_ends_in_its_message() {
    match handle_event(&Received::Event(Event::PeerAdded(42))) {
        RelayAction::Emit(line) => {
            assert!(line.ends_with("新对等节点已添加. 对等节点ID: 42"), "{:?}", line);
            let (stamp, message) = split_line(&line);
            assert!(is_timestamp(stamp), "{:?}", stamp);
            assert_eq!(message, "新对等节点已添加. 对等节点ID: 42");
        }
        other => panic!("no line was emitted: {:?}", other),
    }
}

#[test]
fn handle_event_skips_and_stops() {
    assert_eq!(
        handle_event(&Received::Event(Event::ListenerAdded(String::from("ring://x")))),
        RelayAction::Skip
    );
    assert_eq!(handle_event(&Received::Lagged), RelayAction::Skip);
    assert_eq!(handle_event(&Received::Closed), RelayAction::Stop);
    assert_eq!(handle_event(&Received::Failed), RelayAction::Stop);
}

fn events(ids: &[u32]) -> Vec<Received> {
    ids.iter().map(|id| Received::Event(Event::PeerAdded(*id))).collect()
}

fn messages(lines: Vec<String>) -> Vec<String> {
    lines.iter().map(|line| String::from(split_line(line).1)).collect()
}

fn peers_added(ids: &[u32]) -> Vec<String> {
    ids.iter().map(|id| format!("新对等节点已添加. 对等节点ID: {}", id)).collect()
}

#[test]
fn stream_of_nothing_logs_nothing() {
    assert_eq!(relay_stream(&Vec::new()), Vec::<String>::new());
    assert_eq!(relay_stream(&vec![Received::Closed]), Vec::<String>::new());
}

#[test]
fn stream_keeps_the_order_of_its_events() {
    let stream = vec![
        Received::Event(Event::TunDeviceReady(String::from("tun0"))),
        Received::Event(Event::ListenerAdded(String::from("tcp://0.0.0.0:11010"))),
        Received::Event(Event::ListenerAdded(String::from("ring://6f1c"))),
        Received::Event(Event::PeerAdded(1)),
        Received::Event(Event::PeerAdded(2)),
        Received::Event(Event::ListenerAdded(String::from("ring://77aa"))),
        Received::Event(Event::PeerRemoved(1)),
        Received::Event(Event::PeerAdded(1)),
        Received::Closed,
    ];
    let lines = relay_stream(&stream);
    for line in lines.iter() {
        assert!(is_timestamp(split_line(line).0), "{:?}", line);
    }
    assert_eq!(
        messages(lines),
        vec![
            "TUN设备已就绪. 设备: tun0",
            "新监听器已添加. 监听器: tcp://0.0.0.0:11010",
            "新对等节点已添加. 对等节点ID: 1",
            "新对等节点已添加. 对等节点ID: 2",
            "对等节点已移除. 对等节点ID: 1",
            "新对等节点已添加. 对等节点ID: 1",
        ]
    );
}

#[test]
fn stream_of_ring_listeners_only_logs_nothing() {
    let stream = vec![
        Received::Event(Event::ListenerAdded(String::from("ring://a"))),
        Received::Event(Event::ListenerAdded(String::from("ring://b"))),
    ];
    assert!(relay_stream(&stream).is_empty());
}

#[test]
fn relay_goes_on_after_a_lag() {
    let mut stream = events(&[1, 2, 3]);
    stream.push(Received::Lagged);
    stream.extend(events(&[7, 8]));
    stream.push(Received::Closed);
    assert_eq!(messages(relay_stream(&stream)), peers_added(&[1, 2, 3, 7, 8]));
}

#[test]
fn relay_goes_on_after_lags_in_a_row() {
    let mut stream = vec![Received::Lagged, Received::Lagged];
    stream.extend(events(&[5]));
    stream.push(Received::Lagged);
    stream.extend(events(&[6]));
    assert_eq!(messages(relay_stream(&stream)), peers_added(&[5, 6]));
}

#[test]
fn relay_takes_nothing_behind_the_close() {
    let mut stream = events(&[1, 2]);
    stream.push(Received::Closed);
    stream.extend(events(&[3]));
    assert_eq!(messages(relay_stream(&stream)), peers_added(&[1, 2]));
}

#[test]
fn relay_takes_nothing_behind_a_failed_receive() {
    let mut stream = events(&[1]);
    stream.push(Received::Failed);
    stream.extend(events(&[2, 3]));
    stream.push(Received::Closed);
    assert_eq!(messages(relay_stream(&stream)), peers_added(&[1]));
}

#[test]
fn stream_followed_by_another_logs_both_in_turn() {
    let early = || {
        vec![
            Received::Event(Event::PeerAdded(10)),
            Received::Event(Event::ListenerAdded(String::from("ring://a"))),
        ]
    };
    let late = || {
        vec![
            Received::Event(Event::TunDeviceError(String::from("gone"))),
            Received::Event(Event::PeerRemoved(10)),
        ]
    };
    let mut both = early();
    both.extend(late());
    let mut expected = messages(relay_stream(&early()));
    expected.extend(messages(relay_stream(&late())));
    assert_eq!(messages(relay_stream(&both)), expected);
    assert_eq!(
        expected,
        vec!["新对等节点已添加. 对等节点ID: 10", "TUN设备错误. 错误: gone", "对等节点已移除. 对等节点ID: 10"]
    );
}
