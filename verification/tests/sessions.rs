use battery_ha_bridge::reading::Reading;
use battery_ha_bridge::session::{start_step, Event, Message, Session, Start};
use battery_ha_bridge::status::{BatteryStatus, Capabilities, DeviceInfo};

fn status(soc: f32) -> BatteryStatus {
    BatteryStatus { soc: Some(Reading { bits: soc.to_bits() }), ..Default::default() }
}

fn open() -> (Session, Vec<Message>) {
    Session::open(
        "homeassistant",
        "battery_control",
        "dev",
        "Device",
        &DeviceInfo::default(),
        Capabilities::read_basic(),
        &status(50.0),
    )
}

fn short(list: &[Message]) -> Vec<String> {
    list.iter()
        .map(|m| {
            assert!(m.retain);
            let topic = m.topic.rsplit('/').next().unwrap();
            if topic == "availability" {
                assert_eq!(m.topic, "battery_control/dev/availability");
                m.payload.clone()
            } else {
                topic.to_string()
            }
        })
        .collect()
}

fn step(session: Session, e: Event) -> (Option<Session>, Vec<String>) {
    let (next, out) = session.step(e);
    (next, short(&out))
}

fn fail(session: Session, times: usize) -> (Session, Vec<Vec<String>>) {
    let mut session = session;
    let mut sent = Vec::new();
    for _ in 0..times {
        let (next, out) = step(session, Event::PollFailed);
        session = next.unwrap();
        sent.push(out);
    }
    (session, sent)
}

#[test]
fn opening_publishes_configs_availability_and_state() {
    let (_, out) = open();
    assert_eq!(short(&out), ["config", "config", "config", "online", "state"]);
    assert_eq!(out[0].topic, "homeassistant/sensor/bc_dev/soc/config");
    assert!(out[0].payload.starts_with(r#"{"availability":[{"topic":"battery_control/bridge/availability"}"#));
    assert_eq!(out[4].topic, "battery_control/dev/state");
    assert_eq!(out[4].payload, r#"{"alarm_active":"OFF","alarms":"none","soc":50.0}"#);
}

#[test]
fn three_failures_take_the_device_offline() {
    let (session, _) = open();
    let (session, sent) = fail(session, 4);
    let none: Vec<String> = Vec::new();
    assert_eq!(sent, [none.clone(), none.clone(), vec!["offline".to_string()], none]);
    let (next, out) = step(session, Event::Polled { status: status(51.0) });
    assert_eq!(out, ["online", "state"]);
    let (_, out) = step(next.unwrap(), Event::Polled { status: status(52.0) });
    assert_eq!(out, ["state"]);
}

#[test]
fn a_success_starts_the_count_again() {
    let (session, _) = open();
    let (session, _) = fail(session, 2);
    let (next, _) = step(session, Event::Polled { status: status(51.0) });
    let (session, sent) = fail(next.unwrap(), 2);
    assert!(sent.iter().all(|out| out.is_empty()));
    let (_, sent) = fail(session, 1);
    assert_eq!(sent, [["offline"]]);
}

#[test]
fn ten_failures_end_the_session() {
    let (session, _) = open();
    let (session, _) = fail(session, 9);
    let (next, out) = step(session, Event::PollFailed);
    assert!(next.is_none());
    assert_eq!(out, ["offline"]);
}

#[test]
fn commands_do_not_change_the_count() {
    let (session, _) = open();
    let (session, _) = fail(session, 2);
    let (next, out) = step(session, Event::Executed { refreshed: Some(status(60.0)) });
    assert_eq!(out, ["state"]);
    let (next, out) = step(next.unwrap(), Event::Executed { refreshed: None });
    assert!(out.is_empty());
    let (next, out) = step(next.unwrap(), Event::ExecuteFailed);
    assert!(out.is_empty());
    let (_, sent) = fail(next.unwrap(), 1);
    assert_eq!(sent, [["offline"]]);
}

#[test]
fn restarts_bring_the_configs_again() {
    let (session, first) = open();
    let (next, out) = session.step(Event::Republish);
    assert_eq!(short(&out), ["config", "config", "config", "online"]);
    for i in 0..3 {
        assert_eq!(out[i].topic, first[i].topic);
        assert_eq!(out[i].payload, first[i].payload);
    }
    let (session, _) = fail(next.unwrap(), 3);
    let (_, out) = step(session, Event::Republish);
    assert_eq!(out, ["config", "config", "config", "offline"]);
}

#[test]
fn the_first_status_is_tried_three_times() {
    assert_eq!(start_step(1, false), Start::Retry { attempt: 2 });
    assert_eq!(start_step(2, false), Start::Retry { attempt: 3 });
    assert_eq!(start_step(3, false), Start::GiveUp);
    assert_eq!(start_step(1, true), Start::Run);
    assert_eq!(start_step(3, true), Start::Run);
}

#[test]
fn the_broker_keeps_the_latest_word() {
    let (session, first) = open();
    let mut session = Some(session);
    let mut availability = String::new();
    let mut state = String::new();
    let mut note = |out: &[Message]| -> (String, String) {
        for m in out {
            if m.topic == "battery_control/dev/availability" {
                availability = m.payload.clone();
            } else if m.topic == "battery_control/dev/state" {
                state = m.payload.clone();
            }
        }
        (availability.clone(), state.clone())
    };
    let document = |soc: &str| format!(r#"{{"alarm_active":"OFF","alarms":"none","soc":{soc}}}"#);
    assert_eq!(note(&first), ("online".to_string(), document("50.0")));
    let mut take = |e: Event| -> (String, String) {
        let (next, out) = session.take().unwrap().step(e);
        session = next;
        note(&out)
    };
    assert_eq!(take(Event::PollFailed).0, "online");
    assert_eq!(take(Event::Executed { refreshed: Some(status(61.5)) }).1, document("61.5"));
    assert_eq!(take(Event::PollFailed).0, "online");
    assert_eq!(take(Event::PollFailed).0, "offline");
    assert_eq!(take(Event::Republish), ("offline".to_string(), document("61.5")));
    assert_eq!(take(Event::Polled { status: status(62.0) }), ("online".to_string(), document("62.0")));
    for _ in 0..9 {
        take(Event::PollFailed);
    }
    assert_eq!(take(Event::PollFailed), ("offline".to_string(), document("62.0")));
}

/// All topics of a session that fails, recovers, executes, restarts and is given up.
fn topics(slug: &str) -> Vec<String> {
    let (session, mut sent) = Session::open(
        "homeassistant",
        "battery_control",
        slug,
        "Device",
        &DeviceInfo::default(),
        Capabilities::read_basic(),
        &status(50.0),
    );
    let mut events = vec![Event::Republish, Event::Executed { refreshed: Some(status(51.0)) }];
    events.extend((0..3).map(|_| Event::PollFailed));
    events.push(Event::Polled { status: status(52.0) });
    events.extend((0..10).map(|_| Event::PollFailed));
    let mut session = Some(session);
    for e in events {
        let (next, out) = session.take().unwrap().step(e);
        session = next;
        sent.extend(out);
    }
    assert!(session.is_none());
    for m in &sent {
        assert!(m.retain);
        if m.topic.ends_with("/availability") {
            assert!(m.payload == "online" || m.payload == "offline");
        }
    }
    let mut topics: Vec<String> = sent.into_iter().map(|m| m.topic).collect();
    topics.sort();
    topics.dedup();
    topics
}

#[test]
fn sessions_publish_only_their_own() {
    let got = topics("dev");
    assert_eq!(
        got,
        [
            "battery_control/dev/availability",
            "battery_control/dev/state",
            "homeassistant/binary_sensor/bc_dev/alarm_active/config",
            "homeassistant/sensor/bc_dev/alarms/config",
            "homeassistant/sensor/bc_dev/soc/config",
        ]
    );
    assert!(topics("dev_2").iter().all(|t| !got.contains(t)));
    let own = "battery_control/bridge/availability".to_string();
    assert!(!got.contains(&own));
    assert!(topics("bridge").contains(&own));
}
