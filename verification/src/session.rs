//! The life of one connected device: what is published, and when it is given up.

use crate::discovery::{availability_topic, config_views, configs, discovery_configs, make_root, state_topic, Target};
use crate::json::{json_text, render, Json};
use crate::state::{flatten, state_members};
use crate::status::{BatteryStatus, Capabilities, DeviceInfo};
use vstd::prelude::*;
use vstd::string::*;

verus! {

/// Status reads that are tried before a newly connected device is given up.
pub const START_ATTEMPTS: u32 = 3;

/// Failed polls in a row after which a device counts as unavailable.
pub const OFFLINE_AFTER: u32 = 3;

/// Failed polls in a row after which a device counts as gone.
pub const GONE_AFTER: u32 = 10;

/// A message to publish.
#[derive(Debug)]
pub struct Message {
    pub topic: String,
    pub payload: String,
    pub retain: bool,
}

/// What a message says.
pub struct MessageView {
    pub topic: Seq<char>,
    pub payload: Seq<char>,
    pub retain: bool,
}

impl View for Message {
    type V = MessageView;

    open spec fn view(&self) -> MessageView {
        MessageView { topic: self.topic@, payload: self.payload@, retain: self.retain }
    }
}

/// A message says just this.
pub open spec fn reads(m: Message, v: MessageView) -> bool {
    m.topic@ == v.topic && m.payload@ == v.payload && m.retain == v.retain
}

/// What a list of messages says, message by message.
proof fn lemma_messages_read(list: Seq<Message>)
    ensures
        message_views(list).len() == list.len(),
        forall|i: int| 0 <= i < list.len() ==> reads(#[trigger] list[i], message_views(list)[i]),
{
    assert forall|i: int| 0 <= i < list.len() implies reads(#[trigger] list[i], message_views(list)[i]) by {
        assert(message_views(list)[i] == list[i]@);
    }
}

/// What a list of messages says.
pub open spec fn message_views(list: Seq<Message>) -> Seq<MessageView> {
    list.map_values(|m: Message| m@)
}

/// A message that the broker keeps for later subscribers.
pub open spec fn retained(topic: Seq<char>, payload: Seq<char>) -> MessageView {
    MessageView { topic, payload, retain: true }
}

/// `online` or `offline`.
pub open spec fn availability_text(online: bool) -> Seq<char> {
    if online {
        "online"@
    } else {
        "offline"@
    }
}

/// What a session knows of its device.
pub struct SessionView {
    pub root: Seq<char>,
    pub configs: Seq<(Seq<char>, Json)>,
    pub online: bool,
    pub failures: nat,
}

impl SessionView {
    /// A session is online until three polls in a row have failed, and over after ten.
    pub open spec fn well_formed(self) -> bool {
        &&& self.failures < GONE_AFTER
        &&& self.online == (self.failures < OFFLINE_AFTER)
    }

    /// The message that tells whether the device is available.
    pub open spec fn availability(self, online: bool) -> MessageView {
        retained(availability_topic(self.root), availability_text(online))
    }

    /// The message with the state document.
    pub open spec fn state(self, s: BatteryStatus) -> MessageView {
        retained(state_topic(self.root), json_text(Json::Object(state_members(s))))
    }

    /// The messages with the discovery configs.
    pub open spec fn config_messages(self) -> Seq<MessageView> {
        self.configs.map_values(|c: (Seq<char>, Json)| retained(c.0, json_text(c.1)))
    }
}

/// Something that happens to a session.
#[derive(Debug)]
pub enum Event {
    /// A poll has read the status.
    Polled { status: BatteryStatus },
    /// A poll has failed.
    PollFailed,
    /// The device has executed a command; the status was read right after it, if it could be.
    Executed { refreshed: Option<BatteryStatus> },
    /// The device has refused a command.
    ExecuteFailed,
    /// Home Assistant has restarted.
    Republish,
}

/// The session after an event.
pub open spec fn stepped(v: SessionView, e: Event) -> SessionView {
    match e {
        Event::Polled { status } => SessionView { online: true, failures: 0, ..v },
        Event::PollFailed => SessionView {
            online: v.online && v.failures + 1 < OFFLINE_AFTER,
            failures: v.failures + 1,
            ..v
        },
        _ => v,
    }
}

/// Whether the device is given up at an event.
pub open spec fn ends(v: SessionView, e: Event) -> bool {
    e is PollFailed && v.failures + 1 >= GONE_AFTER
}

/// What is published at an event.
pub open spec fn published(v: SessionView, e: Event) -> Seq<MessageView> {
    match e {
        Event::Polled { status } => if v.online {
            seq![v.state(status)]
        } else {
            seq![v.availability(true), v.state(status)]
        },
        Event::PollFailed => {
            let now_offline = if v.failures + 1 >= OFFLINE_AFTER && v.online {
                seq![v.availability(false)]
            } else {
                Seq::empty()
            };
            if ends(v, e) {
                now_offline.push(v.availability(false))
            } else {
                now_offline
            }
        },
        Event::Executed { refreshed } => match refreshed {
            Some(status) => seq![v.state(status)],
            None => Seq::empty(),
        },
        Event::ExecuteFailed => Seq::empty(),
        Event::Republish => v.config_messages().push(v.availability(v.online)),
    }
}

/// The session of a device that has just been read for the first time.
pub open spec fn opened(t: Target, caps: Capabilities, first: BatteryStatus) -> SessionView {
    SessionView { root: t.root(), configs: configs(t, caps, first), online: true, failures: 0 }
}

/// What is published when a session begins.
pub open spec fn opening(v: SessionView, first: BatteryStatus) -> Seq<MessageView> {
    v.config_messages().push(v.availability(true)).push(v.state(first))
}

/// The session of one connected device.
pub struct Session {
    root: String,
    configs: Vec<(String, serde_json::Value)>,
    online: bool,
    failures: u32,
}

impl View for Session {
    type V = SessionView;

    closed spec fn view(&self) -> SessionView {
        SessionView {
            root: self.root@,
            configs: config_views(self.configs@),
            online: self.online,
            failures: self.failures as nat,
        }
    }
}

/// Appends a message.
fn queue(out: &mut Vec<Message>, m: Message)
    ensures
        message_views(final(out)@) == message_views(old(out)@).push(m@),
{
    let ghost before = out@;
    out.push(m);
    assert(message_views(out@) =~= message_views(before).push(m@));
}

impl Session {
    #[verifier::type_invariant]
    spec fn consistent(self) -> bool {
        self@.well_formed()
    }

    /// Makes the message that tells whether the device is available.
    fn availability_message(&self, online: bool) -> (m: Message)
        ensures
            m@ == self@.availability(online),
    {
        let text = if online {
            "online"
        } else {
            "offline"
        };
        Message {
            topic: self.root.as_str().to_owned().concat("/availability"),
            payload: text.to_owned(),
            retain: true,
        }
    }

    /// Makes the message with the state document.
    fn state_message(&self, s: &BatteryStatus) -> (m: Message)
        ensures
            m@ == self@.state(*s),
    {
        let document = flatten(s);
        Message {
            topic: self.root.as_str().to_owned().concat("/state"),
            payload: render(&document),
            retain: true,
        }
    }

    /// Makes the messages with the discovery configs.
    fn all_configs(&self) -> (r: Vec<Message>)
        ensures
            message_views(r@) == self@.config_messages(),
    {
        let mut out: Vec<Message> = Vec::new();
        let mut i: usize = 0;
        while i < self.configs.len()
            invariant
                i <= self.configs.len(),
                message_views(out@) == self@.config_messages().take(i as int),
            decreases self.configs.len() - i,
        {
            let (topic, config) = &self.configs[i];
            queue(&mut out, Message { topic: topic.clone(), payload: render(config), retain: true });
            assert(self@.config_messages().take(i + 1) =~= self@.config_messages().take(i as int).push(
                self@.config_messages()[i as int],
            ));
            i += 1;
        }
        assert(self@.config_messages().take(i as int) =~= self@.config_messages());
        out
    }

    /// Begins the session of a device, with the first status that was read from it.
    pub fn open(
        prefix: &str,
        base: &str,
        slug: &str,
        label: &str,
        info: &DeviceInfo,
        caps: Capabilities,
        first: &BatteryStatus,
    ) -> (r: (Session, Vec<Message>))
        requires
            forall|i: int| 0 <= i < first.cells@.len() ==> #[trigger] first.cells@[i].index < u64::MAX,
        ensures
            r.0@.well_formed(),
            r.0@ == opened(
                (Target { prefix: prefix@, base: base@, slug: slug@, label: label@, info: *info }),
                caps,
                *first,
            ),
            message_views(r.1@) == opening(r.0@, *first),
            r.1@.len() == opening(r.0@, *first).len(),
            forall|i: int| 0 <= i < r.1@.len() ==> reads(#[trigger] r.1@[i], opening(r.0@, *first)[i]),
    {
        let session = Session {
            root: make_root(base, slug),
            configs: discovery_configs(prefix, base, slug, label, info, caps, first),
            online: true,
            failures: 0,
        };
        let mut out = session.all_configs();
        queue(&mut out, session.availability_message(true));
        queue(&mut out, session.state_message(first));
        proof {
            lemma_messages_read(out@);
        }
        (session, out)
    }

    /// Takes an event: what is to be published, and the session unless the device is given up.
    pub fn step(self, e: Event) -> (r: (Option<Session>, Vec<Message>))
        ensures
            self@.well_formed(),
            message_views(r.1@) == published(self@, e),
            r.1@.len() == published(self@, e).len(),
            forall|i: int| 0 <= i < r.1@.len() ==> reads(#[trigger] r.1@[i], published(self@, e)[i]),
            r.0 is None <==> ends(self@, e),
            r.0 is Some ==> r.0->0@ == stepped(self@, e) && r.0->0@.well_formed(),
    {
        proof {
            use_type_invariant(&self);
        }
        let mut out: Vec<Message> = Vec::new();
        assert(message_views(out@) =~= Seq::empty());
        match e {
            Event::Polled { status } => {
                if !self.online {
                    queue(&mut out, self.availability_message(true));
                }
                queue(&mut out, self.state_message(&status));
                assert(message_views(out@) =~= published(self@, e));
                proof {
                    lemma_messages_read(out@);
                }
                (Some(Session { root: self.root, configs: self.configs, online: true, failures: 0 }), out)
            },
            Event::PollFailed => {
                let failures: u32 = self.failures + 1;
                let lost = failures >= OFFLINE_AFTER;
                if lost && self.online {
                    queue(&mut out, self.availability_message(false));
                }
                if failures >= GONE_AFTER {
                    queue(&mut out, self.availability_message(false));
                    assert(message_views(out@) =~= published(self@, e));
                    proof {
                        lemma_messages_read(out@);
                    }
                    return (None, out);
                }
                assert(message_views(out@) =~= published(self@, e));
                proof {
                    lemma_messages_read(out@);
                }
                let online = self.online && !lost;
                (Some(Session { root: self.root, configs: self.configs, online, failures }), out)
            },
            Event::Executed { refreshed } => {
                if let Some(status) = &refreshed {
                    queue(&mut out, self.state_message(status));
                }
                assert(message_views(out@) =~= published(self@, e));
                proof {
                    lemma_messages_read(out@);
                }
                (Some(self), out)
            },
            Event::ExecuteFailed => (Some(self), out),
            Event::Republish => {
                let mut out = self.all_configs();
                queue(&mut out, self.availability_message(self.online));
                proof {
                    lemma_messages_read(out@);
                }
                (Some(self), out)
            },
        }
    }
}

/// What comes after a try to read the first status.
#[derive(Clone, Copy, Debug, PartialEq, Eq, Structural)]
pub enum Start {
    /// The session begins.
    Run,
    /// The next try, by its number.
    Retry { attempt: u32 },
    /// The device is given up, so that it can be discovered again.
    GiveUp,
}

/// What comes after the given try.
pub open spec fn after_attempt(attempt: u32, succeeded: bool) -> Start {
    if succeeded {
        Start::Run
    } else if attempt < START_ATTEMPTS {
        Start::Retry { attempt: (attempt + 1) as u32 }
    } else {
        Start::GiveUp
    }
}

/// Decides what comes after a try to read the first status; tries count from one.
pub fn start_step(attempt: u32, succeeded: bool) -> (r: Start)
    ensures
        r == after_attempt(attempt, succeeded),
        succeeded ==> r == Start::Run,
        !succeeded && attempt < 3 ==> (r matches Start::Retry { attempt: next } && next == attempt + 1),
        !succeeded && attempt >= 3 ==> r == Start::GiveUp,
{
    if succeeded {
        Start::Run
    } else if attempt < START_ATTEMPTS {
        Start::Retry { attempt: attempt + 1 }
    } else {
        Start::GiveUp
    }
}

} // verus!
