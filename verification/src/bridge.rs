//! The bridge as a whole: its own availability, what it listens to, and which devices it
//! takes on.

use crate::command::status_topic;
use crate::discovery::{bridge_availability_topic, bridge_topic};
use crate::session::{retained, Message};
use crate::text::texts;
use vstd::prelude::*;
use vstd::string::*;

verus! {

/// The message that the broker publishes when it loses the bridge.
pub fn last_will(base: &str) -> (r: Message)
    ensures
        r@ == retained(bridge_topic(base@), "offline"@),
        r.topic@ == base@ + "/bridge/availability"@,
        r.payload@ == "offline"@,
        r.retain,
{
    Message { topic: bridge_availability_topic(base), payload: "offline".to_owned(), retain: true }
}

/// The message with which the bridge announces itself.
pub fn birth(base: &str) -> (r: Message)
    ensures
        r@ == retained(bridge_topic(base@), "online"@),
        r.topic@ == base@ + "/bridge/availability"@,
        r.payload@ == "online"@,
        r.retain,
{
    Message { topic: bridge_availability_topic(base), payload: "online".to_owned(), retain: true }
}

/// The topic filters that the bridge listens to: toggles, values, and the Home Assistant
/// status.
pub fn subscriptions(prefix: &str, base: &str) -> (r: Vec<String>)
    ensures
        texts(r@) == seq![base@ + "/+/set/+"@, base@ + "/+/setv/+"@, status_topic(prefix@)],
        r@.len() == 3,
        r@[0]@ == base@ + "/+/set/+"@,
        r@[1]@ == base@ + "/+/setv/+"@,
        r@[2]@ == prefix@ + "/status"@,
{
    let mut out: Vec<String> = Vec::new();
    out.push(base.to_owned().concat("/+/set/+"));
    out.push(base.to_owned().concat("/+/setv/+"));
    out.push(prefix.to_owned().concat("/status"));
    assert(texts(out@) =~= seq![base@ + "/+/set/+"@, base@ + "/+/setv/+"@, status_topic(prefix@)]);
    out
}

/// The items that are there, in their order.
pub open spec fn present<T>(list: Seq<Option<T>>) -> Seq<T>
    decreases list.len(),
{
    if list.len() == 0 {
        Seq::empty()
    } else {
        match list.last() {
            Some(item) => present(list.drop_last()).push(item),
            None => present(list.drop_last()),
        }
    }
}

/// Chooses the devices to bridge. Without queries that is every device that was found, else
/// what the queries resolve to, query by query.
pub fn select<T: Copy>(queries: &Vec<String>, found: &Vec<T>, resolved: &Vec<Option<T>>) -> (r: Vec<T>)
    ensures
        r@ == if queries@.len() == 0 {
            found@
        } else {
            present(resolved@)
        },
{
    let mut out: Vec<T> = Vec::new();
    if queries.len() == 0 {
        let mut i: usize = 0;
        while i < found.len()
            invariant
                i <= found.len(),
                out@ == found@.take(i as int),
            decreases found.len() - i,
        {
            out.push(found[i]);
            assert(found@.take(i + 1) =~= found@.take(i as int).push(found@[i as int]));
            i += 1;
        }
        assert(found@.take(i as int) =~= found@);
    } else {
        let mut i: usize = 0;
        while i < resolved.len()
            invariant
                i <= resolved.len(),
                out@ == present(resolved@.take(i as int)),
            decreases resolved.len() - i,
        {
            assert(resolved@.take(i + 1).drop_last() =~= resolved@.take(i as int));
            if let Some(item) = resolved[i] {
                out.push(item);
            }
            i += 1;
        }
        assert(resolved@.take(i as int) =~= resolved@);
    }
    out
}

/// How many of the first `n` items are there.
pub open spec fn there_before<T>(list: Seq<Option<T>>, n: int) -> int
    decreases n,
{
    if n <= 0 {
        0
    } else if list[n - 1] is Some {
        there_before(list, n - 1) + 1
    } else {
        there_before(list, n - 1)
    }
}

/// Every query that resolves contributes its device, whatever becomes of the others: as many
/// devices are chosen as queries resolve, and each stands behind those of the queries before.
pub proof fn law_every_resolved_query_counts<T>(resolved: Seq<Option<T>>)
    ensures
        present(resolved).len() == there_before(resolved, resolved.len() as int),
        forall|i: int| 0 <= i < resolved.len() && (#[trigger] resolved[i]) is Some ==> {
            &&& 0 <= there_before(resolved, i) < present(resolved).len()
            &&& present(resolved)[there_before(resolved, i)] == resolved[i]->0
        },
    decreases resolved.len(),
{
    if resolved.len() > 0 {
        let before = resolved.drop_last();
        law_every_resolved_query_counts(before);
        assert forall|n: int| 0 <= n <= before.len() implies there_before(resolved, n) == #[trigger] there_before(
            before,
            n,
        ) by {
            lemma_there_before_stays(resolved, n);
        }
        assert(there_before(before, before.len() as int) == present(before).len());
        assert forall|i: int| 0 <= i < resolved.len() && (#[trigger] resolved[i]) is Some implies {
            &&& 0 <= there_before(resolved, i) < present(resolved).len()
            &&& present(resolved)[there_before(resolved, i)] == resolved[i]->0
        } by {
            if i < before.len() {
                assert(before[i] is Some);
                assert(there_before(before, i) == there_before(resolved, i));
            }
        }
    }
}

/// What counts among the first items does not depend on the last one.
proof fn lemma_there_before_stays<T>(list: Seq<Option<T>>, n: int)
    requires
        list.len() > 0,
        0 <= n < list.len(),
    ensures
        there_before(list, n) == there_before(list.drop_last(), n),
    decreases n,
{
    if n > 0 {
        lemma_there_before_stays(list, n - 1);
    }
}

/// The credentials for the broker: both parts, or none.
pub fn credentials(username: &Option<String>, password: &Option<String>) -> (r: Option<(String, String)>)
    ensures
        r is Some <==> username is Some && password is Some,
        r matches Some((u, p)) ==> u@ == username->0@ && p@ == password->0@,
{
    match (username, password) {
        (Some(u), Some(p)) => Some((u.clone(), p.clone())),
        _ => None,
    }
}

/// A period in seconds, one second at least.
pub fn period(seconds: u64) -> (r: u64)
    ensures
        r == if seconds == 0 {
            1
        } else {
            seconds
        },
{
    if seconds == 0 {
        1
    } else {
        seconds
    }
}

} // verus!
