//! What holds of every session, whatever happens to its device.

use crate::discovery::{availability_topic, bridge_topic, config_topic, configs, device_root, entities, state_topic, Target};
use crate::discovery_laws::law_entities_are_formed;
use crate::identity_laws::{law_config_topics_tell_entities_apart, lemma_components_hold_no_separator};
use crate::json::{json_text, Json};
use crate::session::{availability_text, ends, opened, opening, published, retained, stepped, Event, MessageView, SessionView, GONE_AFTER, OFFLINE_AFTER};
use crate::state::state_members;
use crate::status::{BatteryStatus, Capabilities};
use vstd::prelude::*;

verus! {

/// The session after a number of events, unless the device was given up on the way.
pub open spec fn run(v: SessionView, events: Seq<Event>) -> Option<SessionView>
    decreases events.len(),
{
    if events.len() == 0 {
        Some(v)
    } else {
        match run(v, events.drop_last()) {
            Some(w) => if ends(w, events.last()) {
                None
            } else {
                Some(stepped(w, events.last()))
            },
            None => None,
        }
    }
}

/// What is published over a number of events.
pub open spec fn transcript(v: SessionView, events: Seq<Event>) -> Seq<MessageView>
    decreases events.len(),
{
    if events.len() == 0 {
        Seq::empty()
    } else {
        let before = events.drop_last();
        match run(v, before) {
            Some(w) => transcript(v, before) + published(w, events.last()),
            None => transcript(v, before),
        }
    }
}

/// How many polls have failed since the last one that succeeded.
pub open spec fn failed_in_a_row(events: Seq<Event>) -> nat
    decreases events.len(),
{
    if events.len() == 0 {
        0
    } else {
        match events.last() {
            Event::Polled { status } => 0,
            Event::PollFailed => failed_in_a_row(events.drop_last()) + 1,
            _ => failed_in_a_row(events.drop_last()),
        }
    }
}

/// The status that was read last.
pub open spec fn latest_status(first: BatteryStatus, events: Seq<Event>) -> BatteryStatus
    decreases events.len(),
{
    if events.len() == 0 {
        first
    } else {
        match events.last() {
            Event::Polled { status } => status,
            Event::Executed { refreshed: Some(status) } => status,
            _ => latest_status(first, events.drop_last()),
        }
    }
}

/// What was last published on a topic.
pub open spec fn last_payload(topic: Seq<char>, messages: Seq<MessageView>) -> Option<Seq<char>>
    decreases messages.len(),
{
    if messages.len() == 0 {
        None
    } else if messages.last().topic == topic {
        Some(messages.last().payload)
    } else {
        last_payload(topic, messages.drop_last())
    }
}

/// A device stays in session until ten polls in a row have failed, and no longer. While it
/// does, it is online unless three polls in a row have failed; its topics and its configs
/// stay as they were.
pub proof fn law_availability_follows_failed_polls(v: SessionView, events: Seq<Event>)
    requires
        v.well_formed(),
        v.failures == 0,
    ensures
        match run(v, events) {
            Some(w) => {
                &&& w.failures == failed_in_a_row(events)
                &&& w.online == (failed_in_a_row(events) < 3)
                &&& w.root == v.root
                &&& w.configs == v.configs
                &&& w.well_formed()
                &&& forall|n: int| 0 <= n <= events.len() ==> #[trigger] failed_in_a_row(events.take(n)) < 10
            },
            None => exists|n: int|
                0 <= n <= events.len() && #[trigger] failed_in_a_row(events.take(n)) == 10,
        },
    decreases events.len(),
{
    assert(events.take(events.len() as int) =~= events);
    if events.len() > 0 {
        let before = events.drop_last();
        law_availability_follows_failed_polls(v, before);
        assert forall|n: int| 0 <= n < events.len() implies #[trigger] events.take(n) == before.take(n) by {
            assert(events.take(n) =~= before.take(n));
        }
        match run(v, before) {
            Some(w) => {
                if ends(w, events.last()) {
                    assert(failed_in_a_row(events.take(events.len() as int)) == GONE_AFTER);
                }
            },
            None => {
                let n = choose|n: int|
                    0 <= n <= before.len() && #[trigger] failed_in_a_row(before.take(n)) == GONE_AFTER;
                assert(events.take(n) == before.take(n));
            },
        }
    }
}

/// One more message counts before all earlier ones.
proof fn lemma_last_payload_of_more(topic: Seq<char>, messages: Seq<MessageView>, m: MessageView)
    ensures
        last_payload(topic, messages.push(m)) == if m.topic == topic {
            Some(m.payload)
        } else {
            last_payload(topic, messages)
        },
{
    assert(messages.push(m).drop_last() =~= messages);
}

/// Later messages count before earlier ones.
proof fn lemma_last_payload_of_both(topic: Seq<char>, a: Seq<MessageView>, b: Seq<MessageView>)
    ensures
        last_payload(topic, a + b) == if last_payload(topic, b) is Some {
            last_payload(topic, b)
        } else {
            last_payload(topic, a)
        },
    decreases b.len(),
{
    if b.len() == 0 {
        assert(a + b =~= a);
    } else {
        assert((a + b).drop_last() =~= a + b.drop_last());
        lemma_last_payload_of_both(topic, a, b.drop_last());
    }
}

/// Where no message is on a topic, nothing was published on it.
proof fn lemma_nothing_published(topic: Seq<char>, messages: Seq<MessageView>)
    requires
        forall|i: int| 0 <= i < messages.len() ==> #[trigger] messages[i].topic != topic,
    ensures
        last_payload(topic, messages) is None,
    decreases messages.len(),
{
    if messages.len() > 0 {
        lemma_nothing_published(topic, messages.drop_last());
    }
}

/// No config stands on the state topic or the availability topic, and these two differ.
spec fn apart(v: SessionView) -> bool {
    &&& availability_topic(v.root) != state_topic(v.root)
    &&& last_payload(availability_topic(v.root), v.config_messages()) is None
    &&& last_payload(state_topic(v.root), v.config_messages()) is None
}

/// How the topics of a device end.
proof fn lemma_topic_ends(t: Target, component: Seq<char>, key: Seq<char>)
    ensures
        availability_topic(t.root()).last() == 'y',
        state_topic(t.root()).last() == 'e',
        bridge_topic(t.base).last() == 'y',
        config_topic(t, component, key).last() == 'g',
{
    reveal_strlit("/availability");
    reveal_strlit("/state");
    reveal_strlit("/bridge/availability");
    reveal_strlit("/config");
}

/// The topics of a session are apart from one another.
proof fn lemma_topics_apart(t: Target, caps: Capabilities, first: BatteryStatus)
    ensures
        apart(opened(t, caps, first)),
{
    let v = opened(t, caps, first);
    let a = availability_topic(v.root);
    let s = state_topic(v.root);
    let list = v.config_messages();
    lemma_topic_ends(t, Seq::empty(), Seq::empty());
    assert forall|i: int| 0 <= i < list.len() implies #[trigger] list[i].topic != a && list[i].topic != s by {
        let e = entities(t.root(), caps, first)[i];
        assert(list[i].topic == config_topic(t, e.component, e.key));
        lemma_topic_ends(t, e.component, e.key);
    }
    lemma_nothing_published(a, list);
    lemma_nothing_published(s, list);
}

/// While a session lasts, its topics and its configs stay as they were.
proof fn lemma_run_keeps(v: SessionView, events: Seq<Event>)
    ensures
        run(v, events) matches Some(w) ==> w.root == v.root && w.configs == v.configs,
    decreases events.len(),
{
    if events.len() > 0 {
        lemma_run_keeps(v, events.drop_last());
    }
}

/// All that was published up to and with the last event.
proof fn lemma_sent(v: SessionView, first: BatteryStatus, events: Seq<Event>)
    requires
        events.len() > 0,
    ensures
        opening(v, first) + transcript(v, events) == match run(v, events.drop_last()) {
            Some(w) => opening(v, first) + transcript(v, events.drop_last()) + published(w, events.last()),
            None => opening(v, first) + transcript(v, events.drop_last()),
        },
{
    if let Some(w) = run(v, events.drop_last()) {
        assert(opening(v, first) + transcript(v, events) =~= opening(v, first) + transcript(v, events.drop_last())
            + published(w, events.last()));
    }
}

/// What the first messages say of availability and state.
proof fn lemma_opening_words(v: SessionView, first: BatteryStatus)
    requires
        apart(v),
    ensures
        last_payload(availability_topic(v.root), opening(v, first)) == Some(availability_text(true)),
        last_payload(state_topic(v.root), opening(v, first)) == Some(json_text(Json::Object(state_members(first)))),
{
    let most = v.config_messages().push(v.availability(true));
    lemma_last_payload_of_more(availability_topic(v.root), v.config_messages(), v.availability(true));
    lemma_last_payload_of_more(availability_topic(v.root), most, v.state(first));
    lemma_last_payload_of_more(state_topic(v.root), most, v.state(first));
}

/// What is said of the availability at an event.
spec fn availability_word(w: SessionView, e: Event) -> Option<Seq<char>> {
    match e {
        Event::Polled { status } => if w.online {
            None
        } else {
            Some(availability_text(true))
        },
        Event::PollFailed => if ends(w, e) || (w.online && w.failures + 1 >= OFFLINE_AFTER) {
            Some(availability_text(false))
        } else {
            None
        },
        Event::Republish => Some(availability_text(w.online)),
        _ => None,
    }
}

/// What an event's messages say of the availability.
proof fn lemma_availability_word(w: SessionView, e: Event)
    requires
        apart(w),
    ensures
        last_payload(availability_topic(w.root), published(w, e)) == availability_word(w, e),
{
    let topic = availability_topic(w.root);
    let none = Seq::<MessageView>::empty();
    match e {
        Event::Polled { status } => {
            lemma_last_payload_of_more(topic, none, w.availability(true));
            lemma_last_payload_of_more(topic, none, w.state(status));
            lemma_last_payload_of_more(topic, none.push(w.availability(true)), w.state(status));
            if w.online {
                assert(published(w, e) =~= none.push(w.state(status)));
            } else {
                assert(published(w, e) =~= none.push(w.availability(true)).push(w.state(status)));
            }
        },
        Event::PollFailed => {
            lemma_last_payload_of_more(topic, none, w.availability(false));
            lemma_last_payload_of_more(topic, none.push(w.availability(false)), w.availability(false));
        },
        Event::Executed { refreshed } => {
            if let Some(status) = refreshed {
                lemma_last_payload_of_more(topic, none, w.state(status));
            }
        },
        Event::ExecuteFailed => {},
        Event::Republish => {
            lemma_last_payload_of_more(topic, w.config_messages(), w.availability(w.online));
        },
    }
}

/// The status that was read at an event, if any was.
spec fn status_read(e: Event) -> Option<BatteryStatus> {
    match e {
        Event::Polled { status } => Some(status),
        Event::Executed { refreshed } => refreshed,
        _ => None,
    }
}

/// What an event's messages say of the state.
proof fn lemma_state_word(w: SessionView, e: Event)
    requires
        apart(w),
    ensures
        last_payload(state_topic(w.root), published(w, e)) == match status_read(e) {
            Some(status) => Some(json_text(Json::Object(state_members(status)))),
            None => None,
        },
{
    let topic = state_topic(w.root);
    let none = Seq::<MessageView>::empty();
    match e {
        Event::Polled { status } => {
            lemma_last_payload_of_more(topic, none, w.state(status));
            lemma_last_payload_of_more(topic, none.push(w.availability(true)), w.state(status));
        },
        Event::PollFailed => {
            lemma_last_payload_of_more(topic, none, w.availability(false));
            lemma_last_payload_of_more(topic, none.push(w.availability(false)), w.availability(false));
        },
        Event::Executed { refreshed } => {
            if let Some(status) = refreshed {
                lemma_last_payload_of_more(topic, none, w.state(status));
            }
        },
        Event::ExecuteFailed => {},
        Event::Republish => {
            lemma_last_payload_of_more(topic, w.config_messages(), w.availability(w.online));
        },
    }
}

/// Whatever happens, the broker's last word on a device's availability is `online` while
/// the session is online, and `offline` when it is not or when the device was given up.
pub proof fn law_broker_knows_availability(
    t: Target,
    caps: Capabilities,
    first: BatteryStatus,
    events: Seq<Event>,
)
    ensures
        ({
            let v = opened(t, caps, first);
            let online = match run(v, events) {
                Some(w) => w.online,
                None => false,
            };
            last_payload(availability_topic(v.root), opening(v, first) + transcript(v, events)) == Some(
                availability_text(online),
            )
        }),
    decreases events.len(),
{
    let v = opened(t, caps, first);
    lemma_topics_apart(t, caps, first);
    if events.len() == 0 {
        lemma_opening_words(v, first);
        assert(opening(v, first) + transcript(v, events) =~= opening(v, first));
    } else {
        let before = events.drop_last();
        law_broker_knows_availability(t, caps, first, before);
        lemma_sent(v, first, events);
        if let Some(w) = run(v, before) {
            lemma_run_keeps(v, before);
            law_availability_follows_failed_polls(v, before);
            let sent = opening(v, first) + transcript(v, before);
            lemma_availability_word(w, events.last());
            lemma_last_payload_of_both(availability_topic(v.root), sent, published(w, events.last()));
        }
    }
}

/// While a session lasts, the broker's last word on a device's state is the state document
/// of the status that was read last.
pub proof fn law_broker_knows_latest_state(
    t: Target,
    caps: Capabilities,
    first: BatteryStatus,
    events: Seq<Event>,
)
    requires
        run(opened(t, caps, first), events) is Some,
    ensures
        ({
            let v = opened(t, caps, first);
            last_payload(state_topic(v.root), opening(v, first) + transcript(v, events)) == Some(
                json_text(Json::Object(state_members(latest_status(first, events)))),
            )
        }),
    decreases events.len(),
{
    let v = opened(t, caps, first);
    lemma_topics_apart(t, caps, first);
    if events.len() == 0 {
        lemma_opening_words(v, first);
        assert(opening(v, first) + transcript(v, events) =~= opening(v, first));
    } else {
        let before = events.drop_last();
        law_broker_knows_latest_state(t, caps, first, before);
        lemma_sent(v, first, events);
        lemma_run_keeps(v, before);
        let w = run(v, before).unwrap();
        let sent = opening(v, first) + transcript(v, before);
        lemma_state_word(w, events.last());
        lemma_last_payload_of_both(state_topic(v.root), sent, published(w, events.last()));
    }
}

/// When Home Assistant restarts, the configs that a session publishes are those with which
/// it began, whatever has happened since, followed by its availability.
pub proof fn law_restart_brings_the_same_configs(v: SessionView, events: Seq<Event>)
    requires
        v.well_formed(),
        v.failures == 0,
        run(v, events) is Some,
    ensures
        published(run(v, events)->0, Event::Republish) == v.config_messages().push(
            v.availability(failed_in_a_row(events) < 3),
        ),
{
    law_availability_follows_failed_polls(v, events);
}

/// A message of the session's own: the broker keeps it, and it is a state document on the
/// state topic, `online` or `offline` on the availability topic, or one of the configs on its
/// topic.
#[verifier::opaque]
pub open spec fn own(v: SessionView, m: MessageView) -> bool {
    &&& m.retain
    &&& {
        ||| m.topic == state_topic(v.root) && exists|s: BatteryStatus| m == #[trigger] v.state(s)
        ||| m.topic == availability_topic(v.root) && (m.payload == "online"@ || m.payload == "offline"@)
        ||| exists|i: int|
            0 <= i < v.configs.len() && m.topic == (#[trigger] v.configs[i]).0 && m.payload == json_text(
                v.configs[i].1,
            )
    }
}

/// All messages of a list are the session's own.
pub open spec fn all_own(v: SessionView, messages: Seq<MessageView>) -> bool {
    forall|i: int| 0 <= i < messages.len() ==> own(v, #[trigger] messages[i])
}

/// The three kinds of messages are the session's own.
proof fn lemma_own(v: SessionView)
    ensures
        all_own(v, v.config_messages()),
        own(v, v.availability(true)),
        own(v, v.availability(false)),
        forall|s: BatteryStatus| own(v, #[trigger] v.state(s)),
{
    reveal(own);
    assert forall|i: int| 0 <= i < v.config_messages().len() implies own(v, #[trigger] v.config_messages()[i]) by {
        assert(v.config_messages()[i] == retained(v.configs[i].0, json_text(v.configs[i].1)));
    }
}

/// What is published at an event is the session's own.
proof fn lemma_published_own(v: SessionView, e: Event)
    ensures
        all_own(v, published(v, e)),
{
    lemma_own(v);
}

/// Over its whole life, a session publishes nothing but messages of its own: retained, and on
/// the device's state topic, its availability topic or the topics of its configs.
pub proof fn law_sessions_publish_only_their_own(v: SessionView, first: BatteryStatus, events: Seq<Event>)
    ensures
        all_own(v, opening(v, first) + transcript(v, events)),
    decreases events.len(),
{
    if events.len() == 0 {
        lemma_own(v);
        assert(opening(v, first) + transcript(v, events) =~= opening(v, first));
    } else {
        let before = events.drop_last();
        law_sessions_publish_only_their_own(v, first, before);
        lemma_sent(v, first, events);
        if let Some(w) = run(v, before) {
            lemma_run_keeps(v, before);
            lemma_published_own(w, events.last());
            assert forall|m: MessageView| #[trigger] own(w, m) implies own(v, m) by {
                reveal(own);
                if exists|s: BatteryStatus| m == #[trigger] w.state(s) {
                    let s = choose|s: BatteryStatus| m == #[trigger] w.state(s);
                    assert(m == v.state(s));
                }
            }
        }
    }
}

/// Where a message of an opened session stands.
proof fn lemma_own_topics(t: Target, caps: Capabilities, first: BatteryStatus, m: MessageView) -> (i: int)
    requires
        own(opened(t, caps, first), m),
    ensures
        ({
            let es = entities(t.root(), caps, first);
            ||| m.topic == state_topic(t.root())
            ||| m.topic == availability_topic(t.root())
            ||| 0 <= i < es.len() && m.topic == config_topic(t, es[i].component, es[i].key)
        }),
{
    reveal(own);
    let v = opened(t, caps, first);
    if m.topic == state_topic(v.root) || m.topic == availability_topic(v.root) {
        0
    } else {
        choose|i: int|
            0 <= i < v.configs.len() && m.topic == (#[trigger] v.configs[i]).0 && m.payload == json_text(
                v.configs[i].1,
            )
    }
}

/// Different devices of one bridge publish on different topics.
pub proof fn law_devices_publish_on_different_topics(
    a: Target,
    caps_a: Capabilities,
    first_a: BatteryStatus,
    b: Target,
    caps_b: Capabilities,
    first_b: BatteryStatus,
    m: MessageView,
    n: MessageView,
)
    requires
        a.prefix == b.prefix,
        a.base == b.base,
        a.slug != b.slug,
        !a.slug.contains('/'),
        !b.slug.contains('/'),
        own(opened(a, caps_a, first_a), m),
        own(opened(b, caps_b, first_b), n),
    ensures
        m.topic != n.topic,
{
    let i = lemma_own_topics(a, caps_a, first_a, m);
    let j = lemma_own_topics(b, caps_b, first_b, n);
    let x = entities(a.root(), caps_a, first_a)[i];
    let y = entities(b.root(), caps_b, first_b)[j];
    lemma_topic_ends(a, x.component, x.key);
    lemma_topic_ends(b, y.component, y.key);
    if m.topic == n.topic {
        if m.topic == state_topic(a.root()) {
            lemma_root_tells_apart(a.base, a.slug, b.slug, "/state"@);
        } else if m.topic == availability_topic(a.root()) {
            lemma_root_tells_apart(a.base, a.slug, b.slug, "/availability"@);
        } else {
            law_entities_are_formed(a.root(), caps_a, first_a);
            law_entities_are_formed(b.root(), caps_b, first_b);
            lemma_components_hold_no_separator(a.root(), caps_a, first_a, x);
            lemma_components_hold_no_separator(b.root(), caps_b, first_b, y);
            law_config_topics_tell_entities_apart(a, x.component, x.key, b, y.component, y.key);
        }
    }
}

/// Topics of different devices differ.
proof fn lemma_root_tells_apart(base: Seq<char>, a: Seq<char>, b: Seq<char>, end: Seq<char>)
    requires
        device_root(base, a) + end == device_root(base, b) + end,
    ensures
        a == b,
{
    let lead = base + "/"@;
    let x = lead + a + end;
    let y = lead + b + end;
    assert(x.len() == y.len());
    assert(x.subrange(lead.len() as int, x.len() - end.len()) =~= a);
    assert(y.subrange(lead.len() as int, y.len() - end.len()) =~= b);
}

/// No device but one that is called `bridge` publishes on the bridge's own topic.
pub proof fn law_devices_leave_the_bridge_alone(
    t: Target,
    caps: Capabilities,
    first: BatteryStatus,
    m: MessageView,
)
    requires
        t.slug != "bridge"@,
        own(opened(t, caps, first), m),
    ensures
        m.topic != bridge_topic(t.base),
{
    let i = lemma_own_topics(t, caps, first, m);
    let e = entities(t.root(), caps, first)[i];
    lemma_topic_ends(t, e.component, e.key);
    if m.topic == bridge_topic(t.base) {
        reveal_strlit("/");
        reveal_strlit("bridge");
        reveal_strlit("/availability");
        reveal_strlit("/bridge/availability");
        assert("/bridge/availability"@ =~= "/"@ + "bridge"@ + "/availability"@);
        assert(bridge_topic(t.base) =~= device_root(t.base, "bridge"@) + "/availability"@);
        lemma_root_tells_apart(t.base, t.slug, "bridge"@, "/availability"@);
    }
}

/// A retained message with this topic and this payload.
pub open spec fn is_message(m: MessageView, topic: Seq<char>, payload: Seq<char>) -> bool {
    m.topic == topic && m.payload == payload && m.retain
}

/// The first messages of a list are those of all configs, one by one: retained, on the topic of
/// the config, with its JSON text.
pub open spec fn starts_with_configs(messages: Seq<MessageView>, list: Seq<(Seq<char>, Json)>) -> bool {
    &&& messages.len() >= list.len()
    &&& forall|i: int| 0 <= i < list.len() ==> is_message(
        #[trigger] messages[i],
        list[i].0,
        json_text(list[i].1),
    )
}

/// When a session opens, all configs of the device are published, every one of them, then
/// `online` on `<base>/<slug>/availability`, then the state document of the first status on
/// `<base>/<slug>/state`, and nothing else; all of it is retained.
pub proof fn law_opening_publishes_everything(t: Target, caps: Capabilities, first: BatteryStatus)
    ensures
        ({
            let out = opening(opened(t, caps, first), first);
            let list = configs(t, caps, first);
            &&& out.len() == list.len() + 2
            &&& starts_with_configs(out, list)
            &&& is_message(out[list.len() as int], t.base + "/"@ + t.slug + "/availability"@, "online"@)
            &&& is_message(
                out[list.len() as int + 1],
                t.base + "/"@ + t.slug + "/state"@,
                json_text(Json::Object(state_members(first))),
            )
        }),
{
    let v = opened(t, caps, first);
    let out = opening(v, first);
    let list = configs(t, caps, first);
    assert forall|i: int| 0 <= i < list.len() implies is_message(#[trigger] out[i], list[i].0, json_text(list[i].1)) by {
        assert(out[i] == v.config_messages()[i]);
    }
}

/// What a session publishes at an event, by how many polls have failed in a row before it. A
/// poll that succeeds brings the state, and `online` first if three or more had failed. One that
/// fails brings `offline` if it is the third in a row or the tenth, which ends the session, and
/// nothing otherwise. A command brings the state if it was read again. A restart of Home
/// Assistant brings all configs and then the availability.
pub proof fn law_events_bring_their_messages(
    t: Target,
    caps: Capabilities,
    first: BatteryStatus,
    before: Seq<Event>,
    e: Event,
)
    requires
        run(opened(t, caps, first), before) is Some,
    ensures
        ({
            let w = run(opened(t, caps, first), before)->0;
            let out = published(w, e);
            let list = configs(t, caps, first);
            let failed = failed_in_a_row(before);
            let availability = t.base + "/"@ + t.slug + "/availability"@;
            let state = t.base + "/"@ + t.slug + "/state"@;
            match e {
                Event::Polled { status } => {
                    &&& out.len() == if failed < 3 { 1int } else { 2 }
                    &&& failed >= 3 ==> is_message(out[0], availability, "online"@)
                    &&& is_message(out[out.len() - 1], state, json_text(Json::Object(state_members(status))))
                },
                Event::PollFailed => if failed + 1 == 3 || failed + 1 == 10 {
                    out.len() == 1 && is_message(out[0], availability, "offline"@)
                } else {
                    out.len() == 0
                },
                Event::Executed { refreshed: Some(status) } => {
                    &&& out.len() == 1
                    &&& is_message(out[0], state, json_text(Json::Object(state_members(status))))
                },
                Event::Executed { refreshed: None } => out.len() == 0,
                Event::ExecuteFailed => out.len() == 0,
                Event::Republish => {
                    &&& out.len() == list.len() + 1
                    &&& starts_with_configs(out, list)
                    &&& is_message(
                        out[list.len() as int],
                        availability,
                        if failed < 3 { "online"@ } else { "offline"@ },
                    )
                },
            }
        }),
        ({
            let w = run(opened(t, caps, first), before)->0;
            ends(w, e) <==> e is PollFailed && failed_in_a_row(before) == 9
        }),
{
    let v = opened(t, caps, first);
    let w = run(v, before)->0;
    let out = published(w, e);
    let list = configs(t, caps, first);
    law_availability_follows_failed_polls(v, before);
    assert(before.take(before.len() as int) =~= before);
    assert(failed_in_a_row(before.take(before.len() as int)) < 10);
    if e is Republish {
        assert forall|i: int| 0 <= i < list.len() implies is_message(#[trigger] out[i], list[i].0, json_text(list[i].1)) by {
            assert(out[i] == w.config_messages()[i]);
        }
    }
}

/// Whatever happens, the broker's last word on `<base>/<slug>/availability` is `online` while
/// the session lasts and fewer than three polls in a row have failed, and `offline` otherwise.
/// While it lasts, the last word on `<base>/<slug>/state` is the state document of the status
/// that was read last.
pub proof fn law_broker_has_the_last_word(
    t: Target,
    caps: Capabilities,
    first: BatteryStatus,
    events: Seq<Event>,
)
    ensures
        ({
            let v = opened(t, caps, first);
            let sent = opening(v, first) + transcript(v, events);
            let lasts = run(v, events) is Some;
            &&& last_payload(t.base + "/"@ + t.slug + "/availability"@, sent) == Some(
                if lasts && failed_in_a_row(events) < 3 {
                    "online"@
                } else {
                    "offline"@
                },
            )
            &&& lasts ==> last_payload(t.base + "/"@ + t.slug + "/state"@, sent) == Some(
                json_text(Json::Object(state_members(latest_status(first, events)))),
            )
        }),
{
    let v = opened(t, caps, first);
    law_broker_knows_availability(t, caps, first, events);
    law_availability_follows_failed_polls(v, events);
    if run(v, events) is Some {
        law_broker_knows_latest_state(t, caps, first, events);
    }
}

} // verus!
