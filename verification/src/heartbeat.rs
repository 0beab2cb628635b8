//! Who is online: one record per session, with the time it was last seen.
//!
//! Times are milliseconds on the caller's monotonic clock. The tracker keeps
//! a counter beside its records, so that the number of sessions is read in
//! constant time; the counter equals the number of records after every call.
use crate::container::{
    entries_map, has_key, is_snapshot, key_index, keys_distinct, lemma_key_index_unique,
    lemma_lookup_map, Container,
};
use crate::fingerprint::{fingerprint, fingerprint_key, owned_chars};
use crate::ids::{is_random_id, new_id};
use vstd::prelude::*;

verus! {

/// The seconds between two sweeps.
pub const SWEEP_INTERVAL_SECS: u64 = 5;

/// The seconds after which a silent session goes, where none are configured.
pub const DEFAULT_TIMEOUT_SECS: u64 = 5;

/// A session last seen at `last_seen` is stale at `now`: it is older than
/// `now` less the timeout.
pub open spec fn is_stale(last_seen: u64, now: u64, timeout_secs: u64) -> bool {
    last_seen + timeout_secs * 1000 < now
}

/// The records that a sweep at `now` keeps.
pub open spec fn kept(records: Map<Seq<char>, u64>, now: u64, timeout_secs: u64) -> Map<
    Seq<char>,
    u64,
> {
    Map::new(
        |k: Seq<char>| records.contains_key(k) && !is_stale(records[k], now, timeout_secs),
        |k: Seq<char>| records[k],
    )
}

/// The records left when a sweep has looked at the first `done` entries.
pub open spec fn swept_so_far(
    entries: Seq<(Seq<char>, u64)>,
    done: int,
    now: u64,
    timeout_secs: u64,
) -> Map<Seq<char>, u64> {
    Map::new(
        |k: Seq<char>|
            has_key(entries, k) && !(key_index(entries, k) < done && is_stale(
                entries[key_index(entries, k)].1,
                now,
                timeout_secs,
            )),
        |k: Seq<char>| entries[key_index(entries, k)].1,
    )
}

/// The records after a run of touches, each a session key and a time.
pub open spec fn after_touches(start: Map<Seq<char>, u64>, touches: Seq<(Seq<char>, u64)>) -> Map<
    Seq<char>,
    u64,
>
    decreases touches.len(),
{
    if touches.len() == 0 {
        start
    } else {
        after_touches(start, touches.drop_last()).insert(touches.last().0, touches.last().1)
    }
}

/// The session keys of a run of touches.
pub open spec fn touched_keys(touches: Seq<(Seq<char>, u64)>) -> Set<Seq<char>> {
    Set::new(|k: Seq<char>| exists|i: int| 0 <= i < touches.len() && #[trigger] touches[i].0 == k)
}

/// After any run of touches on an empty tracker there is one record for each
/// distinct session key, and no other: the number of records is the number of
/// distinct keys.
pub proof fn law_touches_count_distinct_keys(touches: Seq<(Seq<char>, u64)>)
    ensures
        after_touches(Map::empty(), touches).dom() == touched_keys(touches),
        after_touches(Map::empty(), touches).dom().finite(),
        after_touches(Map::empty(), touches).len() == touched_keys(touches).len(),
    decreases touches.len(),
{
    if touches.len() == 0 {
        assert(after_touches(Map::empty(), touches).dom() =~= touched_keys(touches));
    } else {
        let earlier = touches.drop_last();
        let key = touches.last().0;
        law_touches_count_distinct_keys(earlier);
        assert(touched_keys(touches) =~= touched_keys(earlier).insert(key)) by {
            assert forall|k: Seq<char>| touched_keys(touches).contains(k) implies touched_keys(
                earlier,
            ).insert(key).contains(k) by {
                let i = choose|i: int| 0 <= i < touches.len() && #[trigger] touches[i].0 == k;
                if i < earlier.len() {
                    assert(earlier[i].0 == k);
                }
            }
            assert forall|k: Seq<char>| touched_keys(earlier).insert(key).contains(
                k,
            ) implies touched_keys(touches).contains(k) by {
                if k == key {
                    assert(touches[touches.len() - 1].0 == k);
                } else {
                    let i = choose|i: int| 0 <= i < earlier.len() && #[trigger] earlier[i].0 == k;
                    assert(touches[i].0 == k);
                }
            }
        }
        assert(after_touches(Map::empty(), touches).dom() =~= after_touches(
            Map::empty(),
            earlier,
        ).dom().insert(key));
    }
}

/// After a sweep every record left was seen no longer ago than the timeout,
/// every such record of before is left, and none has changed.
pub proof fn law_sweep_keeps_fresh(records: Map<Seq<char>, u64>, now: u64, timeout_secs: u64)
    ensures
        forall|k: Seq<char>| #[trigger]
            kept(records, now, timeout_secs).contains_key(k) ==> records.contains_key(k) && kept(
                records,
                now,
                timeout_secs,
            )[k] == records[k] && records[k] >= now - timeout_secs * 1000,
        forall|k: Seq<char>|
            records.contains_key(k) && records[k] >= now - timeout_secs * 1000 ==> #[trigger] kept(
                records,
                now,
                timeout_secs,
            ).contains_key(k),
        kept(kept(records, now, timeout_secs), now, timeout_secs) == kept(
            records,
            now,
            timeout_secs,
        ),
{
    assert(kept(kept(records, now, timeout_secs), now, timeout_secs) =~= kept(
        records,
        now,
        timeout_secs,
    ));
}

/// With a sweep every `interval_secs`, a silent session goes when it has been
/// silent for longer than the timeout, and for no longer than the timeout
/// and one interval: if it survives the sweep at `earlier` and goes in the
/// next one, at `later`, its silence then lies between the two.
pub proof fn law_staleness_bounds(
    last_seen: u64,
    earlier: u64,
    later: u64,
    timeout_secs: u64,
    interval_secs: u64,
)
    requires
        !is_stale(last_seen, earlier, timeout_secs),
        is_stale(last_seen, later, timeout_secs),
        later <= earlier + interval_secs * 1000,
    ensures
        later - last_seen > timeout_secs * 1000,
        later - last_seen <= timeout_secs * 1000 + interval_secs * 1000,
{
}

/// Whether a session last seen at `last_seen` is stale at `now`.
pub fn stale(last_seen: u64, now: u64, timeout_secs: u64) -> (r: bool)
    ensures
        r == is_stale(last_seen, now, timeout_secs),
{
    let limit: u128 = last_seen as u128 + timeout_secs as u128 * 1000;
    limit < now as u128
}

/// The timeout of the sweep: the one configured, or the default.
pub fn cleanup_timeout(timeout: Option<u64>) -> (secs: u64)
    ensures
        secs == match timeout {
            Some(t) => t,
            None => DEFAULT_TIMEOUT_SECS,
        },
{
    match timeout {
        Some(t) => t,
        None => DEFAULT_TIMEOUT_SECS,
    }
}

/// The sessions that are online.
#[derive(Debug)]
pub struct OnlineState {
    user_activity_time: Container<u64>,
    user_activity_count: usize,
}

/// How a caller is known.
#[derive(Debug)]
pub enum CallerIdentity {
    /// The caller sent the token of an earlier reply.
    Token(String),
    /// The caller can keep a token and sent none.
    NoToken,
    /// The caller cannot keep a token: it is known by its metadata.
    Metadata { ip: Option<String>, user_agent: Option<String>, accept_language: Option<String> },
}

/// The answer to a liveness check.
#[derive(Debug)]
pub struct Heartbeat {
    /// The session that the caller counts as.
    pub session_key: String,
    /// The token that the caller should keep and send again, if it got a new one.
    pub token_to_persist: Option<String>,
    /// How many sessions are online, the caller's included.
    pub online_user_count: usize,
}

/// The text of an optional string.
pub fn as_text(text: &Option<String>) -> (r: Option<&str>)
    ensures
        match r {
            Some(t) => *text matches Some(s) && t@ == s@,
            None => *text is None,
        },
{
    match text {
        Some(s) => Some(s.as_str()),
        None => None,
    }
}

/// `key` is a fresh random key, and `token` holds it for the caller to keep.
pub open spec fn is_fresh_session(key: Seq<char>, token: Option<String>) -> bool {
    &&& is_random_id(key)
    &&& token matches Some(s)
    &&& s@ == key
}

/// `key` and `token` are what `identity` resolves to among `records`: a
/// known token is its own key and needs no new token; an unknown or missing
/// token gets a fresh random key, which is also the token to keep; metadata
/// gets its fingerprint and no token.
pub open spec fn resolves_to(
    records: Map<Seq<char>, u64>,
    identity: CallerIdentity,
    key: Seq<char>,
    token: Option<String>,
) -> bool {
    match identity {
        CallerIdentity::Token(t) => if records.contains_key(t@) {
            key == t@ && token is None
        } else {
            is_fresh_session(key, token)
        },
        CallerIdentity::NoToken => is_fresh_session(key, token),
        CallerIdentity::Metadata { ip, user_agent, accept_language } => {
            key == fingerprint_key(
                owned_chars(ip),
                owned_chars(user_agent),
                owned_chars(accept_language),
            ) && token is None
        },
    }
}

impl OnlineState {
    #[verifier::type_invariant]
    spec fn inv(self) -> bool {
        self.user_activity_count == self.user_activity_time.entries().len()
    }

    /// The time each session was last seen, by session key.
    pub closed spec fn records(&self) -> Map<Seq<char>, u64> {
        self.user_activity_time@
    }

    /// What the counter holds.
    pub closed spec fn counter(&self) -> nat {
        self.user_activity_count as nat
    }

    /// A tracker without sessions.
    pub fn new() -> (state: Self)
        ensures
            state.records() == Map::<Seq<char>, u64>::empty(),
            state.counter() == 0,
    {
        OnlineState { user_activity_time: Container::new(), user_activity_count: 0 }
    }

    /// Takes the records and the counter out and leaves an empty tracker.
    fn take(&mut self) -> (parts: (Container<u64>, usize))
        ensures
            parts.0 == old(self).user_activity_time,
            parts.1 == old(self).user_activity_count,
            parts.1 == parts.0.entries().len(),
            final(self).records() == Map::<Seq<char>, u64>::empty(),
    {
        proof {
            use_type_invariant(&*self);
        }
        let mut state = OnlineState::new();
        core::mem::swap(self, &mut state);
        let OnlineState { user_activity_time, user_activity_count } = state;
        (user_activity_time, user_activity_count)
    }

    /// The number of sessions online, read from the counter.
    pub fn online_user_count(&self) -> (n: usize)
        ensures
            n == self.counter(),
            self.records().dom().finite(),
            n == self.records().len(),
    {
        proof {
            use_type_invariant(self);
        }
        let _ = self.user_activity_time._len();
        self.user_activity_count
    }

    /// Whether `session_key` has a record.
    pub fn is_known(&self, session_key: &str) -> (r: bool)
        ensures
            r == self.records().contains_key(session_key@),
    {
        self.user_activity_time._get_is(session_key)
    }

    /// When `session_key` was last seen, if it has a record.
    pub fn last_seen(&self, session_key: &str) -> (r: Option<u64>)
        ensures
            r == if self.records().contains_key(session_key@) {
                Some(self.records()[session_key@])
            } else {
                None
            },
    {
        self.user_activity_time.get_by_id(session_key)
    }

    /// Records that `session_key` was seen at `now`; `true` where the session
    /// is new, and then the counter goes up by one.
    pub fn touch(&mut self, session_key: &str, now: u64) -> (is_new: bool)
        ensures
            final(self).records() == old(self).records().insert(session_key@, now),
            is_new == !old(self).records().contains_key(session_key@),
            final(self).counter() == old(self).counter() + if is_new {
                1nat
            } else {
                0nat
            },
            final(self).records().dom().finite(),
            final(self).counter() == final(self).records().len(),
    {
        let (mut records, count) = self.take();
        let old_value = records.put_by_id(session_key, now);
        let size = records._len();
        let is_new = old_value.is_none();
        proof {
            lemma_lookup_map(old(self).user_activity_time.entries());
        }
        let count = if is_new {
            count + 1
        } else {
            count
        };
        *self = OnlineState { user_activity_time: records, user_activity_count: count };
        is_new
    }

    /// Removes every session that is stale at `now` and hands back how many
    /// went. The counter is then the exact number of records left.
    pub fn sweep(&mut self, now: u64, timeout_secs: u64) -> (removed: usize)
        ensures
            final(self).records() == kept(old(self).records(), now, timeout_secs),
            final(self).records().dom().finite(),
            final(self).counter() == final(self).records().len(),
            removed == old(self).counter() - final(self).counter(),
            forall|k: Seq<char>| #[trigger]
                final(self).records().contains_key(k) ==> final(self).records()[k] + timeout_secs
                    * 1000 >= now,
    {
        let (mut records, count) = self.take();
        let before_count = records._len();
        let snapshot = records.get_all();
        let ghost entries = records.entries();
        let mut i: usize = 0;
        assert(records@ =~= swept_so_far(entries, 0, now, timeout_secs));
        while i < snapshot.len()
            invariant
                i <= snapshot@.len(),
                keys_distinct(entries),
                is_snapshot(entries, snapshot@),
                records@ == swept_so_far(entries, i as int, now, timeout_secs),
            decreases snapshot@.len() - i,
        {
            proof {
                lemma_key_index_unique(entries, i as int);
                assert(snapshot@[i as int].0@ == entries[i as int].0);
                assert(snapshot@[i as int].1 == entries[i as int].1);
            }
            let ghost before = records@;
            if stale(snapshot[i].1, now, timeout_secs) {
                records.delete_by_id(snapshot[i].0.as_str());
            }
            proof {
                let next = swept_so_far(entries, i + 1, now, timeout_secs);
                assert forall|k: Seq<char>| records@.contains_key(k) == next.contains_key(k) by {
                    if has_key(entries, k) && k != entries[i as int].0 {
                        assert(key_index(entries, k) != i);
                    }
                }
                assert(records@ =~= next);
            }
            i += 1;
        }
        let after_count = records._len();
        let count = if before_count != after_count {
            after_count
        } else {
            count
        };
        proof {
            let done = swept_so_far(entries, snapshot@.len() as int, now, timeout_secs);
            assert(done =~= kept(entries_map(entries), now, timeout_secs));
            assert(kept(entries_map(entries), now, timeout_secs).dom().subset_of(
                entries_map(entries).dom(),
            ));
            vstd::set_lib::lemma_len_subset(
                kept(entries_map(entries), now, timeout_secs).dom(),
                entries_map(entries).dom(),
            );
        }
        *self = OnlineState { user_activity_time: records, user_activity_count: count };
        before_count - after_count
    }

    /// The session key of `identity`, and the token that the caller should
    /// keep where it got a new one.
    pub fn resolve(&self, identity: CallerIdentity) -> (r: (String, Option<String>))
        ensures
            resolves_to(self.records(), identity, r.0@, r.1),
    {
        match identity {
            CallerIdentity::Token(token) => {
                if self.is_known(token.as_str()) {
                    (token, None)
                } else {
                    let key = new_id();
                    let copy = key.clone();
                    (key, Some(copy))
                }
            },
            CallerIdentity::NoToken => {
                let key = new_id();
                let copy = key.clone();
                (key, Some(copy))
            },
            CallerIdentity::Metadata { ip, user_agent, accept_language } => {
                let key = fingerprint(
                    as_text(&ip),
                    as_text(&user_agent),
                    as_text(&accept_language),
                );
                (key, None)
            },
        }
    }

    /// Answers a liveness check: resolves the caller to a session, records
    /// that it was seen at `now`, and reports how many sessions are online.
    pub fn get_heartbeat(&mut self, identity: CallerIdentity, now: u64) -> (r: Heartbeat)
        ensures
            resolves_to(old(self).records(), identity, r.session_key@, r.token_to_persist),
            final(self).records() == old(self).records().insert(r.session_key@, now),
            final(self).records().dom().finite(),
            r.online_user_count == final(self).records().len(),
            r.online_user_count == final(self).counter(),
    {
        let (session_key, token_to_persist) = self.resolve(identity);
        self.touch(session_key.as_str(), now);
        let online_user_count = self.online_user_count();
        Heartbeat { session_key, token_to_persist, online_user_count }
    }
}

} // verus!
