//! Named settings, each holding at most one identifier. An absent setting
//! means the feature it configures is off.
use vstd::prelude::*;

use crate::ids::{ChannelId, RoleId};

verus! {

/// A named setting and the type of identifier it holds.
pub trait ConfigKey {
    type Value;

    spec fn spec_name(&self) -> Seq<char>;

    spec fn spec_from_raw(raw: u64) -> Self::Value;

    spec fn spec_to_raw(v: Self::Value) -> u64;

    /// The setting's key in the table.
    fn name(&self) -> (r: String)
        ensures
            r@ == self.spec_name(),
    ;

    /// The value that a stored integer stands for.
    fn from_raw(raw: u64) -> (r: Self::Value)
        ensures
            r == Self::spec_from_raw(raw),
    ;

    /// The integer stored for a value; reading it back gives the value.
    fn to_raw(v: &Self::Value) -> (r: u64)
        ensures
            r == Self::spec_to_raw(*v),
            Self::spec_from_raw(r) == *v,
    ;

    /// Storing a value and reading it back gives the value.
    proof fn lemma_raw_round_trip(v: Self::Value)
        ensures
            Self::spec_from_raw(Self::spec_to_raw(v)) == v,
    ;
}

/// The role whose holders the relay refuses.
pub struct Blockrole;

/// The channel under which new rooms are opened.
pub struct Inbox;

impl ConfigKey for Blockrole {
    type Value = RoleId;

    open spec fn spec_name(&self) -> Seq<char> {
        "blockrole"@
    }

    open spec fn spec_from_raw(raw: u64) -> RoleId {
        RoleId(raw)
    }

    open spec fn spec_to_raw(v: RoleId) -> u64 {
        v.0
    }

    fn name(&self) -> (r: String) {
        proof { reveal_strlit("blockrole"); }
        String::from_str("blockrole")
    }

    fn from_raw(raw: u64) -> (r: RoleId) {
        RoleId(raw)
    }

    fn to_raw(v: &RoleId) -> (r: u64) {
        v.0
    }

    proof fn lemma_raw_round_trip(v: RoleId) {
    }
}

impl ConfigKey for Inbox {
    type Value = ChannelId;

    open spec fn spec_name(&self) -> Seq<char> {
        "inbox"@
    }

    open spec fn spec_from_raw(raw: u64) -> ChannelId {
        ChannelId(raw)
    }

    open spec fn spec_to_raw(v: ChannelId) -> u64 {
        v.0
    }

    fn name(&self) -> (r: String) {
        proof { reveal_strlit("inbox"); }
        String::from_str("inbox")
    }

    fn from_raw(raw: u64) -> (r: ChannelId) {
        ChannelId(raw)
    }

    fn to_raw(v: &ChannelId) -> (r: u64) {
        v.0
    }

    proof fn lemma_raw_round_trip(v: ChannelId) {
    }
}

struct ConfigEntry {
    key: String,
    value: u64,
}

/// The settings table: at most one value per key.
pub struct Config {
    entries: Vec<ConfigEntry>,
    table: Ghost<Map<Seq<char>, u64>>,
}

/// What `get` returns for `key` when the table is `m`.
pub open spec fn lookup<K: ConfigKey>(m: Map<Seq<char>, u64>, key: K) -> Option<K::Value> {
    if m.contains_key(key.spec_name()) {
        Some(K::spec_from_raw(m[key.spec_name()]))
    } else {
        None
    }
}

impl View for Config {
    type V = Map<Seq<char>, u64>;

    closed spec fn view(&self) -> Map<Seq<char>, u64> {
        self.table@
    }
}

impl Config {
    /// The entries hold exactly the table, one entry per key.
    pub closed spec fn wf(&self) -> bool {
        &&& forall|i: int, j: int|
            0 <= i < self.entries@.len() && 0 <= j < self.entries@.len() && i != j
                ==> (#[trigger] self.entries@[i]).key@ != (#[trigger] self.entries@[j]).key@
        &&& forall|i: int|
            0 <= i < self.entries@.len() ==> self.table@.contains_key(
                (#[trigger] self.entries@[i]).key@,
            ) && self.table@[self.entries@[i].key@] == self.entries@[i].value
        &&& forall|k: Seq<char>|
            #[trigger] self.table@.contains_key(k) ==> exists|i: int|
                0 <= i < self.entries@.len() && (#[trigger] self.entries@[i]).key@ == k
    }

    /// An empty table: every feature is off.
    pub fn new() -> (r: Config)
        ensures
            r.wf(),
            r@ == Map::<Seq<char>, u64>::empty(),
    {
        Config { entries: Vec::new(), table: Ghost(Map::empty()) }
    }

    fn position(&self, key: &String) -> (r: Option<usize>)
        requires
            self.wf(),
        ensures
            match r {
                Some(i) => i < self.entries@.len() && self.entries@[i as int].key@ == key@,
                None => !self@.contains_key(key@),
            },
    {
        let mut i: usize = 0;
        while i < self.entries.len()
            invariant
                i <= self.entries@.len(),
                forall|k: int| 0 <= k < i ==> (#[trigger] self.entries@[k]).key@ != key@,
            decreases self.entries@.len() - i,
        {
            if self.entries[i].key == *key {
                return Some(i);
            }
            i = i + 1;
        }
        None
    }

    /// The value of `key`, or `None` when it is not set.
    pub fn get<K: ConfigKey>(&self, key: K) -> (r: Option<K::Value>)
        requires
            self.wf(),
        ensures
            r == lookup(self@, key),
    {
        let name = key.name();
        match self.position(&name) {
            Some(i) => Some(K::from_raw(self.entries[i].value)),
            None => None,
        }
    }

    /// Sets `key` to `value`, replacing any earlier value.
    pub fn set<K: ConfigKey>(&mut self, key: K, value: K::Value)
        requires
            old(self).wf(),
        ensures
            final(self).wf(),
            final(self)@ == old(self)@.insert(key.spec_name(), K::spec_to_raw(value)),
    {
        let name = key.name();
        let raw = K::to_raw(&value);
        match self.position(&name) {
            Some(i) => {
                let ghost before = self.entries@;
                self.entries.set(i, ConfigEntry { key: name, value: raw });
                self.table = Ghost(self.table@.insert(name@, raw));
                proof {
                    let e = self.entries@;
                    assert forall|k: Seq<char>| #[trigger] self.table@.contains_key(k) implies exists|
                        j: int,
                    | 0 <= j < e.len() && (#[trigger] e[j]).key@ == k by {
                        if k != name@ {
                            let j = choose|j: int|
                                0 <= j < before.len() && (#[trigger] before[j]).key@ == k;
                            assert(e[j] == before[j]);
                        } else {
                            assert(e[i as int].key@ == k);
                        }
                    }
                    assert forall|a: int| 0 <= a < e.len() implies self.table@.contains_key(
                        (#[trigger] e[a]).key@,
                    ) && self.table@[e[a].key@] == e[a].value by {
                        if a != i {
                            assert(e[a] == before[a]);
                            assert(before[a].key@ != before[i as int].key@);
                        }
                    }
                }
            },
            None => {
                let ghost before = self.entries@;
                self.entries.push(ConfigEntry { key: name, value: raw });
                self.table = Ghost(self.table@.insert(name@, raw));
                proof {
                    let e = self.entries@;
                    let n = before.len() as int;
                    assert(e[n].key@ == name@);
                    assert forall|k: Seq<char>| #[trigger] self.table@.contains_key(k) implies exists|
                        j: int,
                    | 0 <= j < e.len() && (#[trigger] e[j]).key@ == k by {
                        if k != name@ {
                            let j = choose|j: int|
                                0 <= j < before.len() && (#[trigger] before[j]).key@ == k;
                            assert(e[j] == before[j]);
                        }
                    }
                    assert forall|a: int| 0 <= a < e.len() implies self.table@.contains_key(
                        (#[trigger] e[a]).key@,
                    ) && self.table@[e[a].key@] == e[a].value by {
                        if a < n {
                            assert(e[a] == before[a]);
                        }
                    }
                    assert forall|a: int, b: int|
                        0 <= a < e.len() && 0 <= b < e.len() && a != b implies (#[trigger] e[a]).key@
                        != (#[trigger] e[b]).key@ by {
                        if a < n && b < n {
                            assert(e[a] == before[a] && e[b] == before[b]);
                        } else if a < n {
                            assert(e[a] == before[a]);
                            assert(old(self)@.contains_key(before[a].key@));
                        } else {
                            assert(e[b] == before[b]);
                            assert(old(self)@.contains_key(before[b].key@));
                        }
                    }
                }
            },
        }
    }

    /// Clears `key`; clearing a key that is not set is no error.
    pub fn unset<K: ConfigKey>(&mut self, key: K)
        requires
            old(self).wf(),
        ensures
            final(self).wf(),
            final(self)@ == old(self)@.remove(key.spec_name()),
    {
        let name = key.name();
        match self.position(&name) {
            Some(i) => {
                let ghost before = self.entries@;
                self.entries.remove(i);
                self.table = Ghost(self.table@.remove(name@));
                proof {
                    let e = self.entries@;
                    assert forall|k: Seq<char>| #[trigger] self.table@.contains_key(k) implies exists|
                        j: int,
                    | 0 <= j < e.len() && (#[trigger] e[j]).key@ == k by {
                        let j = choose|j: int|
                            0 <= j < before.len() && (#[trigger] before[j]).key@ == k;
                        assert(j != i);
                        let jj = if j < i { j } else { j - 1 };
                        assert(e[jj] == before[j]);
                    }
                    assert forall|a: int| 0 <= a < e.len() implies self.table@.contains_key(
                        (#[trigger] e[a]).key@,
                    ) && self.table@[e[a].key@] == e[a].value by {
                        let oa = if a < i { a } else { a + 1 };
                        assert(e[a] == before[oa]);
                        assert(before[oa].key@ != before[i as int].key@);
                    }
                    assert forall|a: int, b: int|
                        0 <= a < e.len() && 0 <= b < e.len() && a != b implies (#[trigger] e[a]).key@
                        != (#[trigger] e[b]).key@ by {
                        let oa = if a < i { a } else { a + 1 };
                        let ob = if b < i { b } else { b + 1 };
                        assert(e[a] == before[oa] && e[b] == before[ob]);
                    }
                }
            },
            None => {
                assert(self@.remove(name@) =~= self@);
            },
        }
    }
}

/// Setting a key and then reading it gives back the value just set.
pub proof fn lemma_set_then_get<K: ConfigKey>(m: Map<Seq<char>, u64>, key: K, value: K::Value)
    ensures
        lookup(m.insert(key.spec_name(), K::spec_to_raw(value)), key) == Some(value),
{
    K::lemma_raw_round_trip(value);
}

/// Clearing a key and then reading it gives nothing.
pub proof fn lemma_unset_then_get<K: ConfigKey>(m: Map<Seq<char>, u64>, key: K)
    ensures
        lookup(m.remove(key.spec_name()), key) is None,
{
}

/// Setting one key leaves the value read for a key of another name as it was.
pub proof fn lemma_set_keeps_others<K: ConfigKey, J: ConfigKey>(
    m: Map<Seq<char>, u64>,
    key: K,
    value: K::Value,
    other: J,
)
    requires
        key.spec_name() != other.spec_name(),
    ensures
        lookup(m.insert(key.spec_name(), K::spec_to_raw(value)), other) == lookup(m, other),
{
}

} // verus!
