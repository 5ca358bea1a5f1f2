//! Messages that come in over MQTT: commands for devices, and the Home Assistant status.

use crate::discovery::{device_root, toggle_topic, value_topic};
use crate::text::{chars_of, decode_lossy, eq_ignore_ascii_case, equal_ignoring_ascii_case, lossy_text, same_text};
use crate::text_laws::{law_case_of_letters_does_not_count, same_but_for_case};
use vstd::prelude::*;
use vstd::string::*;

verus! {

/// A command for a device.
#[derive(Debug)]
pub enum Command {
    /// Switches something on or off.
    Toggle { id: String, on: bool },
    /// Gives a setting a value.
    SetValue { id: String, value: String },
}

/// What a command says.
pub enum CommandView {
    Toggle { id: Seq<char>, on: bool },
    SetValue { id: Seq<char>, value: Seq<char> },
}

impl View for Command {
    type V = CommandView;

    open spec fn view(&self) -> CommandView {
        match *self {
            Command::Toggle { id, on } => CommandView::Toggle { id: id@, on },
            Command::SetValue { id, value } => CommandView::SetValue { id: id@, value: value@ },
        }
    }
}

/// What stands before and after the first `/`.
pub open spec fn cut(s: Seq<char>) -> Option<(Seq<char>, Seq<char>)> {
    match s.index_of_first('/') {
        Some(i) => Some((s.take(i), s.skip(i + 1))),
        None => None,
    }
}

/// What stands behind `base` and a `/`.
pub open spec fn below(base: Seq<char>, topic: Seq<char>) -> Option<Seq<char>> {
    if base.push('/').is_prefix_of(topic) {
        Some(topic.skip(base.len() as int + 1))
    } else {
        None
    }
}

/// What the verb of a command topic asks for.
pub open spec fn command_of(verb: Seq<char>, id: Seq<char>, payload: Seq<char>) -> Option<CommandView> {
    if verb == "set"@ {
        Some(CommandView::Toggle { id, on: equal_ignoring_ascii_case(payload, "ON"@) })
    } else if verb == "setv"@ {
        Some(CommandView::SetValue { id, value: payload })
    } else {
        None
    }
}

/// The device and the command that a message names, where its topic is
/// `base/slug/set/id` or `base/slug/setv/id`.
pub open spec fn parsed(base: Seq<char>, topic: Seq<char>, payload: Seq<char>) -> Option<(Seq<char>, CommandView)> {
    match below(base, topic) {
        None => None,
        Some(rest) => match cut(rest) {
            None => None,
            Some((slug, rest)) => match cut(rest) {
                None => None,
                Some((verb, id)) => match command_of(verb, id, payload) {
                    None => None,
                    Some(command) => Some((slug, command)),
                },
            },
        },
    }
}

/// What an optional device and command hold.
pub open spec fn parsed_view(v: Option<(String, Command)>) -> Option<(Seq<char>, CommandView)> {
    match v {
        Some((slug, command)) => Some((slug@, command@)),
        None => None,
    }
}

/// Finds the first `/` at or behind `from`.
fn find_slash(t: &Vec<char>, from: usize) -> (r: Option<usize>)
    requires
        from <= t.len(),
    ensures
        match r {
            Some(i) => from <= i < t.len() && cut(t@.skip(from as int)) == Some(
                (t@.subrange(from as int, i as int), t@.skip(i + 1)),
            ),
            None => cut(t@.skip(from as int)) is None,
        },
{
    let ghost rest = t@.skip(from as int);
    proof {
        rest.index_of_first_ensures('/');
    }
    let mut i: usize = from;
    while i < t.len()
        invariant
            from <= i <= t.len(),
            rest == t@.skip(from as int),
            forall|j: int| from <= j < i ==> t@[j] != '/',
        decreases t.len() - i,
    {
        if t[i] == '/' {
            proof {
                rest.index_of_first_ensures('/');
                assert(rest[i - from] == '/');
                let first = rest.index_of_first('/').unwrap();
                assert(t@[from + first] == '/');
                assert(first == i - from);
                assert(rest.take(first) =~= t@.subrange(from as int, i as int));
                assert(rest.skip(first + 1) =~= t@.skip(i + 1));
            }
            return Some(i);
        }
        i += 1;
    }
    None
}

/// Tells whether `t` starts with `base` and a `/`.
fn stands_below(base: &Vec<char>, t: &Vec<char>) -> (r: bool)
    ensures
        r == base@.push('/').is_prefix_of(t@),
{
    if t.len() <= base.len() || t[base.len()] != '/' {
        assert(t.len() > base.len() ==> t@.subrange(0, base.len() + 1)[base.len() as int] != '/');
        return false;
    }
    let mut i: usize = 0;
    while i < base.len()
        invariant
            i <= base.len() < t.len(),
            t@.subrange(0, i as int) == base@.subrange(0, i as int),
        decreases base.len() - i,
    {
        if base[i] != t[i] {
            assert(t@.subrange(0, base.len() + 1)[i as int] != base@.push('/')[i as int]);
            return false;
        }
        assert(t@.subrange(0, i + 1) =~= t@.subrange(0, i as int).push(t@[i as int]));
        assert(base@.subrange(0, i + 1) =~= base@.subrange(0, i as int).push(base@[i as int]));
        i += 1;
    }
    assert(base@.subrange(0, i as int) =~= base@);
    assert(t@.subrange(0, i + 1) =~= t@.subrange(0, i as int).push('/'));
    true
}

/// Parses `<base>/<slug>/set/<id>` (`ON`/`OFF`) and `<base>/<slug>/setv/<id>`.
pub fn parse_command(base: &str, topic: &str, payload: &str) -> (r: Option<(String, Command)>)
    ensures
        parsed_view(r) == parsed(base@, topic@, payload@),
        r is Some <==> parsed(base@, topic@, payload@) is Some,
        r matches Some((slug, Command::Toggle { id, on })) ==> parsed(base@, topic@, payload@) == Some(
            (slug@, CommandView::Toggle { id: id@, on }),
        ),
        r matches Some((slug, Command::SetValue { id, value })) ==> parsed(base@, topic@, payload@) == Some(
            (slug@, CommandView::SetValue { id: id@, value: value@ }),
        ),
{
    let b = chars_of(base);
    let t = chars_of(topic);
    let end: usize = t.len();
    if !stands_below(&b, &t) {
        return None;
    }
    assert(b@.push('/').len() == b@.len() + 1);
    let start: usize = b.len() + 1;
    let first: usize = match find_slash(&t, start) {
        Some(i) => i,
        None => return None,
    };
    let second: usize = match find_slash(&t, first + 1) {
        Some(i) => i,
        None => return None,
    };
    let slug = topic.substring_char(start, first).to_owned();
    let verb = topic.substring_char(first + 1, second);
    let id = topic.substring_char(second + 1, end).to_owned();
    assert(topic@.subrange(second + 1, end as int) =~= topic@.skip(second + 1));
    if same_text(verb, "set") {
        Some((slug, Command::Toggle { id, on: eq_ignore_ascii_case(payload, "ON") }))
    } else if same_text(verb, "setv") {
        Some((slug, Command::SetValue { id, value: payload.to_owned() }))
    } else {
        None
    }
}

/// What an incoming message asks of the bridge.
#[derive(Debug)]
pub enum Incoming {
    /// Home Assistant has restarted: every device publishes its configs again.
    Republish,
    /// A device gets a command.
    Command { slug: String, command: Command },
    /// Nothing.
    Ignored,
}

/// What an incoming message asks.
pub enum IncomingView {
    Republish,
    Command { slug: Seq<char>, command: CommandView },
    Ignored,
}

impl View for Incoming {
    type V = IncomingView;

    open spec fn view(&self) -> IncomingView {
        match *self {
            Incoming::Republish => IncomingView::Republish,
            Incoming::Command { slug, command } => IncomingView::Command { slug: slug@, command: command@ },
            Incoming::Ignored => IncomingView::Ignored,
        }
    }
}

/// The topic on which Home Assistant tells that it is up.
pub open spec fn status_topic(prefix: Seq<char>) -> Seq<char> {
    prefix + "/status"@
}

/// What a message asks: `online` on the status topic tells of a restart, other payloads
/// there tell nothing; any other topic is tried as a command topic.
pub open spec fn incoming(
    prefix: Seq<char>,
    base: Seq<char>,
    topic: Seq<char>,
    payload: Seq<char>,
) -> IncomingView {
    if topic == status_topic(prefix) {
        if payload == "online"@ {
            IncomingView::Republish
        } else {
            IncomingView::Ignored
        }
    } else {
        match parsed(base, topic, payload) {
            Some((slug, command)) => IncomingView::Command { slug, command },
            None => IncomingView::Ignored,
        }
    }
}

/// Reads an incoming message whose payload is text.
pub fn route(prefix: &str, base: &str, topic: &str, payload: &str) -> (r: Incoming)
    ensures
        r@ == incoming(prefix@, base@, topic@, payload@),
        r is Republish <==> incoming(prefix@, base@, topic@, payload@) is Republish,
        r is Ignored <==> incoming(prefix@, base@, topic@, payload@) is Ignored,
        r matches Incoming::Command { slug, command } ==> incoming(prefix@, base@, topic@, payload@) == (
        IncomingView::Command { slug: slug@, command: command@ }),
{
    if same_text(topic, prefix.to_owned().concat("/status").as_str()) {
        if same_text(payload, "online") {
            Incoming::Republish
        } else {
            Incoming::Ignored
        }
    } else {
        match parse_command(base, topic, payload) {
            Some((slug, command)) => Incoming::Command { slug, command },
            None => Incoming::Ignored,
        }
    }
}

/// Reads an incoming message as it arrives, with its payload in bytes.
pub fn receive(prefix: &str, base: &str, topic: &str, payload: &[u8]) -> (r: Incoming)
    ensures
        r@ == incoming(prefix@, base@, topic@, lossy_text(payload@)),
        r is Republish <==> incoming(prefix@, base@, topic@, lossy_text(payload@)) is Republish,
        r is Ignored <==> incoming(prefix@, base@, topic@, lossy_text(payload@)) is Ignored,
        r matches Incoming::Command { slug, command } ==> incoming(prefix@, base@, topic@, lossy_text(payload@)) == (
        IncomingView::Command { slug: slug@, command: command@ }),
        vstd::utf8::valid_utf8(payload@) ==> r@ == incoming(
            prefix@,
            base@,
            topic@,
            vstd::utf8::decode_utf8(payload@),
        ),
{
    let text = decode_lossy(payload);
    route(prefix, base, topic, text.as_str())
}

/// How the parts of a topic are joined.
spec fn joint(base: Seq<char>, slug: Seq<char>, verb: Seq<char>, id: Seq<char>) -> Seq<char> {
    base + seq!['/'] + slug + seq!['/'] + verb + seq!['/'] + id
}

/// A toggle topic is its parts, joined.
proof fn lemma_toggle_topic(base: Seq<char>, slug: Seq<char>, id: Seq<char>)
    ensures
        toggle_topic(device_root(base, slug), id) == joint(base, slug, "set"@, id),
        !"set"@.contains('/'),
{
    reveal_strlit("/");
    reveal_strlit("/set/");
    reveal_strlit("set");
    assert("/set/"@ =~= seq!['/'] + "set"@ + seq!['/']);
    assert(toggle_topic(device_root(base, slug), id) =~= joint(base, slug, "set"@, id));
}

/// A value topic is its parts, joined.
proof fn lemma_value_topic(base: Seq<char>, slug: Seq<char>, id: Seq<char>)
    ensures
        value_topic(device_root(base, slug), id) == joint(base, slug, "setv"@, id),
        !"setv"@.contains('/'),
        "setv"@ != "set"@,
{
    reveal_strlit("/");
    reveal_strlit("/setv/");
    reveal_strlit("setv");
    reveal_strlit("set");
    assert("setv"@.len() != "set"@.len());
    assert("/setv/"@ =~= seq!['/'] + "setv"@ + seq!['/']);
    assert(value_topic(device_root(base, slug), id) =~= joint(base, slug, "setv"@, id));
}

/// A message on `base/slug/set/id` switches `id` of the device `slug`, whatever `base` and
/// `id` are, as long as the slug holds no `/`.
pub proof fn law_toggle_topics_are_read_back(base: Seq<char>, slug: Seq<char>, id: Seq<char>, payload: Seq<char>)
    requires
        !slug.contains('/'),
    ensures
        parsed(base, toggle_topic(device_root(base, slug), id), payload) == Some(
            (slug, CommandView::Toggle { id, on: equal_ignoring_ascii_case(payload, "ON"@) }),
        ),
{
    lemma_toggle_topic(base, slug, id);
    lemma_parts(base, slug, "set"@, id);
}

/// A message on `base/slug/setv/id` gives `id` of the device `slug` the payload as its value.
pub proof fn law_value_topics_are_read_back(base: Seq<char>, slug: Seq<char>, id: Seq<char>, payload: Seq<char>)
    requires
        !slug.contains('/'),
    ensures
        parsed(base, value_topic(device_root(base, slug), id), payload) == Some(
            (slug, CommandView::SetValue { id, value: payload }),
        ),
{
    lemma_value_topic(base, slug, id);
    lemma_parts(base, slug, "setv"@, id);
}

/// The bridge publishes its configs again exactly when Home Assistant says that it is online.
pub proof fn law_restarts_are_recognized(prefix: Seq<char>, base: Seq<char>, topic: Seq<char>, payload: Seq<char>)
    ensures
        incoming(prefix, base, topic, payload) is Republish <==> topic == status_topic(prefix) && payload
            == "online"@,
{
}

/// A message on a device's toggle topic is delivered to that device, unless the topic is the
/// one on which Home Assistant tells its status.
pub proof fn law_toggles_are_delivered(
    prefix: Seq<char>,
    base: Seq<char>,
    slug: Seq<char>,
    id: Seq<char>,
    payload: Seq<char>,
)
    requires
        !slug.contains('/'),
        toggle_topic(device_root(base, slug), id) != status_topic(prefix),
    ensures
        incoming(prefix, base, toggle_topic(device_root(base, slug), id), payload) == (IncomingView::Command {
            slug,
            command: CommandView::Toggle { id, on: equal_ignoring_ascii_case(payload, "ON"@) },
        }),
{
    law_toggle_topics_are_read_back(base, slug, id, payload);
}

/// A message on a device's value topic is delivered to that device with the payload as the
/// value, unless the topic is the one on which Home Assistant tells its status.
pub proof fn law_values_are_delivered(
    prefix: Seq<char>,
    base: Seq<char>,
    slug: Seq<char>,
    id: Seq<char>,
    payload: Seq<char>,
)
    requires
        !slug.contains('/'),
        value_topic(device_root(base, slug), id) != status_topic(prefix),
    ensures
        incoming(prefix, base, value_topic(device_root(base, slug), id), payload) == (IncomingView::Command {
            slug,
            command: CommandView::SetValue { id, value: payload },
        }),
{
    law_value_topics_are_read_back(base, slug, id, payload);
}

/// Whoever gets a command, the message stood on that device's topic for it.
pub proof fn law_commands_stand_on_their_topics(
    base: Seq<char>,
    topic: Seq<char>,
    payload: Seq<char>,
    slug: Seq<char>,
    command: CommandView,
)
    requires
        parsed(base, topic, payload) == Some((slug, command)),
    ensures
        !slug.contains('/'),
        match command {
            CommandView::Toggle { id, on } => {
                &&& topic == toggle_topic(device_root(base, slug), id)
                &&& on == equal_ignoring_ascii_case(payload, "ON"@)
            },
            CommandView::SetValue { id, value } => {
                &&& topic == value_topic(device_root(base, slug), id)
                &&& value == payload
            },
        },
{
    let rest = below(base, topic).unwrap();
    let (slug, tail) = cut(rest).unwrap();
    let (verb, id) = cut(tail).unwrap();
    lemma_cut_back(rest);
    lemma_cut_back(tail);
    lemma_toggle_topic(base, slug, id);
    lemma_value_topic(base, slug, id);
    assert(topic =~= topic.subrange(0, base.len() as int + 1) + rest);
    assert(topic =~= joint(base, slug, verb, id));
}

/// What was cut comes together again.
proof fn lemma_cut_back(s: Seq<char>)
    ensures
        cut(s) matches Some((head, tail)) ==> s == head + seq!['/'] + tail && !head.contains('/'),
{
    s.index_of_first_ensures('/');
    if let Some(i) = s.index_of_first('/') {
        assert(s =~= s.take(i) + seq!['/'] + s.skip(i + 1));
        if s.take(i).contains('/') {
            let j = choose|j: int| 0 <= j < i && s.take(i)[j] == '/';
            assert(s[j] == '/');
        }
    }
}

/// The parts of a topic come apart again.
proof fn lemma_parts(base: Seq<char>, slug: Seq<char>, verb: Seq<char>, id: Seq<char>)
    requires
        !slug.contains('/'),
        !verb.contains('/'),
    ensures
        ({
            let topic = joint(base, slug, verb, id);
            let rest = slug + seq!['/'] + (verb + seq!['/'] + id);
            &&& below(base, topic) == Some(rest)
            &&& cut(rest) == Some((slug, verb + seq!['/'] + id))
            &&& cut(verb + seq!['/'] + id) == Some((verb, id))
        }),
{
    let topic = joint(base, slug, verb, id);
    let rest = slug + seq!['/'] + (verb + seq!['/'] + id);
    assert(topic.subrange(0, base.len() as int + 1) =~= base.push('/'));
    assert(topic.skip(base.len() as int + 1) =~= rest);
    lemma_cut(slug, verb + seq!['/'] + id);
    lemma_cut(verb, id);
}

/// A text without `/` is what stands before the first one.
pub(crate) proof fn lemma_cut(head: Seq<char>, tail: Seq<char>)
    requires
        !head.contains('/'),
    ensures
        cut(head + seq!['/'] + tail) == Some((head, tail)),
{
    let s = head + seq!['/'] + tail;
    let n = head.len() as int;
    s.index_of_first_ensures('/');
    assert(s[n] == '/');
    let first = s.index_of_first('/').unwrap();
    if first < n {
        assert(head[first] == '/');
    }
    assert(first == n);
    assert(s.take(n) =~= head);
    assert(s.skip(n + 1) =~= tail);
}

/// `ON`, in capitals or small letters.
pub open spec fn says_on(payload: Seq<char>) -> bool {
    &&& payload.len() == 2
    &&& payload[0] == 'O' || payload[0] == 'o'
    &&& payload[1] == 'N' || payload[1] == 'n'
}

/// `ON` is told from all other payloads.
proof fn lemma_says_on(payload: Seq<char>)
    ensures
        equal_ignoring_ascii_case(payload, "ON"@) == says_on(payload),
{
    reveal_strlit("ON");
    law_case_of_letters_does_not_count(payload, "ON"@);
    if equal_ignoring_ascii_case(payload, "ON"@) {
        assert(same_but_for_case(payload[0], "ON"@[0]));
        assert(same_but_for_case(payload[1], "ON"@[1]));
    }
}

/// On `<base>/<slug>/set/<id>` the device with that slug is told to switch that id on where the
/// payload says `ON`, and off where it says anything else; on `<base>/<slug>/setv/<id>` it is
/// told to give that id the payload as its value.
pub proof fn law_topics_tell_the_command(base: Seq<char>, slug: Seq<char>, id: Seq<char>, payload: Seq<char>)
    requires
        !slug.contains('/'),
    ensures
        parsed(base, base + "/"@ + slug + "/set/"@ + id, payload) == Some(
            (slug, CommandView::Toggle { id, on: says_on(payload) }),
        ),
        parsed(base, base + "/"@ + slug + "/setv/"@ + id, payload) == Some(
            (slug, CommandView::SetValue { id, value: payload }),
        ),
{
    lemma_says_on(payload);
    law_toggle_topics_are_read_back(base, slug, id, payload);
    law_value_topics_are_read_back(base, slug, id, payload);
}

/// No other topic is a command.
pub proof fn law_commands_come_from_nowhere_else(base: Seq<char>, topic: Seq<char>, payload: Seq<char>)
    ensures
        match parsed(base, topic, payload) {
            Some((slug, CommandView::Toggle { id, on })) => {
                &&& topic == base + "/"@ + slug + "/set/"@ + id
                &&& !slug.contains('/')
                &&& on == says_on(payload)
            },
            Some((slug, CommandView::SetValue { id, value })) => {
                &&& topic == base + "/"@ + slug + "/setv/"@ + id
                &&& !slug.contains('/')
                &&& value == payload
            },
            None => forall|slug: Seq<char>, id: Seq<char>|
                !slug.contains('/') ==> topic != #[trigger] (base + "/"@ + slug + "/set/"@ + id) && topic != base + "/"@
                    + slug + "/setv/"@ + id,
        },
{
    lemma_says_on(payload);
    match parsed(base, topic, payload) {
        Some((slug, command)) => {
            law_commands_stand_on_their_topics(base, topic, payload, slug, command);
        },
        None => {
            assert forall|slug: Seq<char>, id: Seq<char>| !slug.contains('/') implies topic != #[trigger] (base + "/"@
                + slug + "/set/"@ + id) && topic != base + "/"@ + slug + "/setv/"@ + id by {
                law_topics_tell_the_command(base, slug, id, payload);
            }
        },
    }
}

/// `online` on `<prefix>/status` asks all devices to publish their configs again, anything else
/// there asks nothing; on any other topic a message asks what it says as a command, if it is
/// one.
pub proof fn law_messages_ask_what_they_say(prefix: Seq<char>, base: Seq<char>, topic: Seq<char>, payload: Seq<char>)
    ensures
        incoming(prefix, base, topic, payload) is Republish <==> topic == prefix + "/status"@ && payload == "online"@,
        topic == prefix + "/status"@ && payload != "online"@ ==> incoming(prefix, base, topic, payload) is Ignored,
        topic != prefix + "/status"@ ==> match parsed(base, topic, payload) {
            Some((slug, command)) => incoming(prefix, base, topic, payload) == (IncomingView::Command { slug, command }),
            None => incoming(prefix, base, topic, payload) is Ignored,
        },
{
}

} // verus!
