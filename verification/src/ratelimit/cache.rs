use vstd::prelude::*;

use crate::ratelimit::store::now_millis;

verus! {

/// The answer the local cache gives about one identifier: whether it is
/// known to be blocked, and until when (0 when it is not known to be
/// blocked).
#[derive(Debug, Clone, Copy, PartialEq, Eq, Structural)]
pub struct Blocked {
    pub blocked: bool,
    pub reset: u128,
}

/// What the cache answers for identifier `id` when the clock reads `now`:
/// blocked exactly while the stored reset timestamp lies strictly in the
/// future.
pub open spec fn blocked_of(m: Map<Seq<char>, u128>, id: Seq<char>, now: u128) -> Blocked {
    if m.contains_key(id) && m[id] > now {
        Blocked { blocked: true, reset: m[id] }
    } else {
        Blocked { blocked: false, reset: 0 }
    }
}

/// Denial short-circuit law: once the cache records a block for `id` until
/// `reset_ms`, a query at any instant strictly before `reset_ms` answers
/// blocked with that very timestamp — and an algorithm that sees a blocked
/// answer denies without a remote round trip.
pub proof fn lemma_denial_short_circuit(
    m: Map<Seq<char>, u128>,
    id: Seq<char>,
    reset_ms: u128,
    now: u128,
)
    requires
        now < reset_ms,
    ensures
        blocked_of(m.insert(id, reset_ms), id, now) == (Blocked {
            blocked: true,
            reset: reset_ms,
        }),
{
}

/// The mapping a list of identifier/timestamp entries denotes; a later entry
/// for the same identifier overrides an earlier one.
pub open spec fn map_of(s: Seq<(String, u128)>) -> Map<Seq<char>, u128>
    decreases s.len(),
{
    if s.len() == 0 {
        Map::empty()
    } else {
        map_of(s.drop_last()).insert(s.last().0@, s.last().1)
    }
}

/// No two entries name the same identifier.
pub open spec fn keys_distinct(s: Seq<(String, u128)>) -> bool {
    forall|i: int, j: int| 0 <= i < j < s.len() ==> s[i].0@ != s[j].0@
}

proof fn lemma_map_of_entry(s: Seq<(String, u128)>, i: int)
    requires
        keys_distinct(s),
        0 <= i < s.len(),
    ensures
        map_of(s).contains_key(s[i].0@),
        map_of(s)[s[i].0@] == s[i].1,
    decreases s.len(),
{
    if i < s.len() - 1 {
        lemma_map_of_entry(s.drop_last(), i);
    }
}

proof fn lemma_map_of_absent(s: Seq<(String, u128)>, k: Seq<char>)
    requires
        forall|j: int| 0 <= j < s.len() ==> s[j].0@ != k,
    ensures
        !map_of(s).contains_key(k),
    decreases s.len(),
{
    if s.len() > 0 {
        lemma_map_of_absent(s.drop_last(), k);
    }
}

proof fn lemma_map_of_update(s: Seq<(String, u128)>, i: int, p: (String, u128))
    requires
        keys_distinct(s),
        0 <= i < s.len(),
        p.0@ == s[i].0@,
    ensures
        keys_distinct(s.update(i, p)),
        map_of(s.update(i, p)) == map_of(s).insert(p.0@, p.1),
    decreases s.len(),
{
    let t = s.update(i, p);
    assert forall|a: int, b: int| 0 <= a < b < t.len() implies t[a].0@ != t[b].0@ by {
        assert(s[a].0@ != s[b].0@);
    }
    if i == s.len() - 1 {
        assert(t.drop_last() =~= s.drop_last());
        assert(map_of(t) =~= map_of(s).insert(p.0@, p.1));
    } else {
        lemma_map_of_update(s.drop_last(), i, p);
        assert(t.drop_last() =~= s.drop_last().update(i, p));
        assert(t.last() == s.last());
        assert(map_of(t) == map_of(s.drop_last()).insert(p.0@, p.1).insert(s.last().0@, s.last().1));
        assert(p.0@ != s.last().0@);
        assert(map_of(t) =~= map_of(s).insert(p.0@, p.1));
    }
}

/// A per-process cache of identifiers already known to be blocked, each with
/// the epoch millisecond at which its block expires.  It answers a denial
/// without a remote round trip; it is written only when an algorithm has just
/// observed a denial, so it can never admit a request the store would refuse.
#[derive(Debug, Clone)]
pub struct EphemeralCache {
    entries: Vec<(String, u128)>,
}

impl View for EphemeralCache {
    type V = Map<Seq<char>, u128>;

    closed spec fn view(&self) -> Map<Seq<char>, u128> {
        map_of(self.entries@)
    }
}

impl EphemeralCache {
    /// One entry per identifier.
    pub closed spec fn wf(self) -> bool {
        keys_distinct(self.entries@)
    }

    /// An empty cache: no identifier is known to be blocked.
    pub fn new() -> (r: EphemeralCache)
        ensures
            r@ == Map::<Seq<char>, u128>::empty(),
            r.wf(),
    {
        EphemeralCache { entries: Vec::new() }
    }

    fn find_index(&self, key: &String) -> (r: Option<usize>)
        requires
            self.wf(),
        ensures
            match r {
                Some(i) => i < self.entries@.len() && self.entries@[i as int].0@ == key@,
                None => forall|j: int|
                    0 <= j < self.entries@.len() ==> self.entries@[j].0@ != key@,
            },
    {
        let n: usize = self.entries.len();
        let mut i: usize = 0;
        while i < n
            invariant
                0 <= i <= n,
                n == self.entries@.len(),
                forall|j: int| 0 <= j < i ==> self.entries@[j].0@ != key@,
            decreases n - i,
        {
            if self.entries[i].0 == *key {
                return Some(i);
            }
            i = i + 1;
        }
        None
    }

    /// The stored reset timestamp for an identifier, if one is present.
    pub fn get(&self, identifier: &str) -> (r: Option<u128>)
        requires
            self.wf(),
        ensures
            r == if self@.contains_key(identifier@) {
                Some(self@[identifier@])
            } else {
                None::<u128>
            },
    {
        let key: String = identifier.to_owned();
        match self.find_index(&key) {
            Some(i) => {
                proof {
                    lemma_map_of_entry(self.entries@, i as int);
                }
                Some(self.entries[i].1)
            },
            None => {
                proof {
                    lemma_map_of_absent(self.entries@, identifier@);
                }
                None
            },
        }
    }

    /// Stores a reset timestamp for an identifier, overwriting any entry
    /// already present.
    pub fn set(&mut self, identifier: &str, reset: u128)
        requires
            old(self).wf(),
        ensures
            final(self).wf(),
            final(self)@ == old(self)@.insert(identifier@, reset),
    {
        let key: String = identifier.to_owned();
        match self.find_index(&key) {
            Some(i) => {
                self.entries[i].1 = reset;
                proof {
                    lemma_map_of_update(
                        old(self).entries@,
                        i as int,
                        (old(self).entries@[i as int].0, reset),
                    );
                }
            },
            None => {
                proof {
                    let s = self.entries@.push((key, reset));
                    assert(s.drop_last() =~= self.entries@);
                }
                self.entries.push((key, reset));
            },
        }
    }

    /// Records that an identifier is blocked until the given epoch
    /// millisecond; a subsequent query before that moment answers blocked.
    pub fn block_until(&mut self, identifier: &str, reset: u128)
        requires
            old(self).wf(),
        ensures
            final(self).wf(),
            final(self)@ == old(self)@.insert(identifier@, reset),
    {
        self.set(identifier, reset);
    }

    /// Adds one to the value stored for an identifier, treating a missing
    /// entry as 0.
    pub fn incr(&mut self, identifier: &str)
        requires
            old(self).wf(),
            old(self)@.contains_key(identifier@) ==> old(self)@[identifier@] < u128::MAX,
        ensures
            final(self).wf(),
            final(self)@ == old(self)@.insert(
                identifier@,
                if old(self)@.contains_key(identifier@) {
                    (old(self)@[identifier@] + 1) as u128
                } else {
                    1u128
                },
            ),
    {
        let value: u128 = match self.get(identifier) {
            Some(v) => v + 1,
            None => 1,
        };
        self.set(identifier, value);
    }

    /// Whether the identifier is blocked when the clock reads `now`: yes
    /// exactly when a stored reset timestamp lies strictly after `now`.
    pub fn is_blocked_at(&self, identifier: &str, now: u128) -> (b: Blocked)
        requires
            self.wf(),
        ensures
            b == blocked_of(self@, identifier@, now),
    {
        match self.get(identifier) {
            Some(value) => {
                if value > now {
                    Blocked { blocked: true, reset: value }
                } else {
                    Blocked { blocked: false, reset: 0 }
                }
            },
            None => Blocked { blocked: false, reset: 0 },
        }
    }

    /// Whether the identifier is blocked right now.  Reads the system clock;
    /// when the clock cannot be read, no block is reported and the caller
    /// falls through to the store.
    pub fn is_blocked(&self, identifier: &str) -> (b: Blocked)
        requires
            self.wf(),
        ensures
            exists|now: u128| b == blocked_of(self@, identifier@, now),
            b.blocked ==> self@.contains_key(identifier@) && b.reset == self@[identifier@],
            !b.blocked ==> b.reset == 0,
    {
        let now: u128 = match now_millis() {
            Some(n) => n,
            None => u128::MAX,
        };
        let b = self.is_blocked_at(identifier, now);
        proof {
            assert(b == blocked_of(self@, identifier@, now));
        }
        b
    }
}

} // verus!
