//! The command registry: a mapping from canonical command-path keys to
//! registered handlers.
//!
//! Keys are unique; registering an existing key again replaces the prior
//! handler (last write wins). The registry is viewed as a `Map` from key
//! bytes to handlers.

use vstd::prelude::*;

use crate::command::{canonical_key_wf, lemma_key_of_wf_path, CommandPath};

verus! {

/// A registry entry pairs a canonical key with its handler.
type Entry<H> = (Vec<u8>, H);

/// The map denoted by a sequence of entries: later entries win.
pub open spec fn map_of_entries<H>(s: Seq<Entry<H>>) -> Map<Seq<u8>, H>
    decreases s.len(),
{
    if s.len() == 0 {
        Map::empty()
    } else {
        map_of_entries(s.drop_last()).insert(s.last().0@, s.last().1)
    }
}

/// No two entries share a key.
pub open spec fn keys_unique<H>(s: Seq<Entry<H>>) -> bool {
    forall|i: int, j: int| 0 <= i < j < s.len() ==> s[i].0@ != s[j].0@
}

/// A mapping from canonical command-path keys to handlers. Each key is
/// bound to exactly one handler; a later registration under the same key
/// replaces the earlier one.
pub struct CommandRegistry<H> {
    entries: Vec<Entry<H>>,
}

impl<H> View for CommandRegistry<H> {
    type V = Map<Seq<u8>, H>;

    closed spec fn view(&self) -> Map<Seq<u8>, H> {
        map_of_entries(self.entries@)
    }
}

impl<H> CommandRegistry<H> {
    /// Internal well-formedness: no two entries share a key. Established by
    /// `new` and preserved by every method.
    pub closed spec fn wf(self) -> bool {
        keys_unique(self.entries@)
    }

    /// Creates an empty registry.
    pub fn new() -> (r: Self)
        ensures
            r.wf(),
            r@ == Map::<Seq<u8>, H>::empty(),
    {
        CommandRegistry { entries: Vec::new() }
    }

    /// Registers `handler` under the canonical key of `path`, replacing any
    /// handler previously registered under the same key. The path must be
    /// well-formed: with an invalid segment (empty, or holding the
    /// separator byte), distinct paths could collide on one key.
    pub fn register(&mut self, path: &CommandPath, handler: H)
        requires
            old(self).wf(),
            path.wf(),
        ensures
            final(self).wf(),
            final(self)@ == old(self)@.insert(path.key_spec(), handler),
    {
        proof {
            lemma_key_of_wf_path(*path);
        }
        let key = path.canonical_key();
        self.register_key(key, handler);
    }

    /// Registers `handler` under the given canonical key directly. The key
    /// must be one that a well-formed path denotes.
    pub fn register_key(&mut self, key: Vec<u8>, handler: H)
        requires
            old(self).wf(),
            canonical_key_wf(key@),
        ensures
            final(self).wf(),
            final(self)@ == old(self)@.insert(key@, handler),
    {
        let ghost s0 = self.entries@;
        let n = self.entries.len();
        let mut i: usize = 0;
        while i < n
            invariant
                n == self.entries.len(),
                i <= n,
                self.entries@ == s0,
                s0 == old(self).entries@,
                keys_unique(s0),
                forall|j: int| 0 <= j < i ==> s0[j].0@ != key@,
            decreases n - i,
        {
            if bytes_eq(&self.entries[i].0, &key) {
                self.entries.set(i, (key, handler));
                proof {
                    let e = self.entries@[i as int];
                    assert(self.entries@ == s0.update(i as int, e));
                    assert(e.0@ == key@ && e.1 == handler);
                    lemma_map_of_update(s0, i as int, e);
                    assert(map_of_entries(self.entries@) == map_of_entries(s0).insert(
                        key@,
                        handler,
                    ));
                    assert(keys_unique(self.entries@));
                }
                return ;
            }
            i = i + 1;
        }
        self.entries.push((key, handler));
        proof {
            assert(self.entries@.drop_last() =~= s0);
            assert(keys_unique(self.entries@));
        }
    }

    /// Looks up the handler registered under `key`, if any.
    pub fn lookup(&self, key: &Vec<u8>) -> (r: Option<&H>)
        requires
            self.wf(),
        ensures
            match r {
                Some(h) => self@.contains_key(key@) && *h == self@[key@],
                None => !self@.contains_key(key@),
            },
    {
        let n = self.entries.len();
        let mut i: usize = 0;
        while i < n
            invariant
                n == self.entries.len(),
                keys_unique(self.entries@),
                i <= n,
                forall|j: int| 0 <= j < i ==> self.entries@[j].0@ != key@,
            decreases n - i,
        {
            if bytes_eq(&self.entries[i].0, key) {
                proof {
                    lemma_map_of_found(self.entries@, i as int);
                }
                return Some(&self.entries[i].1);
            }
            i = i + 1;
        }
        proof {
            lemma_map_of_absent(self.entries@, key@);
        }
        None
    }

    /// Whether some handler is registered under `key`.
    pub fn contains_key(&self, key: &Vec<u8>) -> (r: bool)
        requires
            self.wf(),
        ensures
            r == self@.contains_key(key@),
    {
        match self.lookup(key) {
            Some(_) => true,
            None => false,
        }
    }

    /// The number of registered keys.
    pub fn len(&self) -> (n: usize)
        requires
            self.wf(),
        ensures
            n == self@.dom().len(),
    {
        proof {
            lemma_map_of_len(self.entries@);
        }
        self.entries.len()
    }
}

/// A sequence of registrations applied to a registry view, in order.
pub open spec fn apply_registrations<H>(
    m: Map<Seq<u8>, H>,
    regs: Seq<(Seq<u8>, H)>,
) -> Map<Seq<u8>, H>
    decreases regs.len(),
{
    if regs.len() == 0 {
        m
    } else {
        apply_registrations(m, regs.drop_last()).insert(regs.last().0, regs.last().1)
    }
}

/// Law: once a handler is registered under a key, a lookup of that key
/// finds exactly that handler, and still does after any number of further
/// registrations under other keys.
pub proof fn lemma_lookup_after_registrations<H>(
    m: Map<Seq<u8>, H>,
    key: Seq<u8>,
    handler: H,
    later: Seq<(Seq<u8>, H)>,
)
    requires
        forall|i: int| 0 <= i < later.len() ==> (#[trigger] later[i]).0 != key,
    ensures
        apply_registrations(m.insert(key, handler), later).contains_key(key),
        apply_registrations(m.insert(key, handler), later)[key] == handler,
    decreases later.len(),
{
    if later.len() > 0 {
        lemma_lookup_after_registrations(m, key, handler, later.drop_last());
        assert(later.drop_last().len() == later.len() - 1);
        assert(forall|i: int|
            0 <= i < later.drop_last().len() ==> (#[trigger] later.drop_last()[i]).0 != key);
    }
}

/// Compares two byte strings for equality.
pub fn bytes_eq(a: &Vec<u8>, b: &Vec<u8>) -> (r: bool)
    ensures
        r == (a@ == b@),
{
    if a.len() != b.len() {
        return false;
    }
    let n = a.len();
    let mut i: usize = 0;
    while i < n
        invariant
            n == a.len() == b.len(),
            i <= n,
            forall|j: int| 0 <= j < i ==> a@[j] == b@[j],
        decreases n - i,
    {
        if a[i] != b[i] {
            return false;
        }
        i = i + 1;
    }
    proof {
        assert(a@ =~= b@);
    }
    true
}

/// Replacing the entry that holds a key is, at the map level, an insert
/// under that key.
proof fn lemma_map_of_update<H>(s: Seq<Entry<H>>, i: int, e: Entry<H>)
    requires
        keys_unique(s),
        0 <= i < s.len(),
        e.0@ == s[i].0@,
    ensures
        map_of_entries(s.update(i, e)) == map_of_entries(s).insert(e.0@, e.1),
        keys_unique(s.update(i, e)),
    decreases s.len(),
{
    let su = s.update(i, e);
    assert(keys_unique(su));
    if i == s.len() - 1 {
        assert(su.drop_last() =~= s.drop_last());
        assert(su.last() == e);
        assert(map_of_entries(su) =~= map_of_entries(s).insert(e.0@, e.1));
    } else {
        lemma_map_of_update(s.drop_last(), i, e);
        assert(su.drop_last() =~= s.drop_last().update(i, e));
        assert(su.last() == s.last());
        assert(s.last().0@ != e.0@);
        assert(map_of_entries(su) =~= map_of_entries(s).insert(e.0@, e.1));
    }
}

/// The entry holding a key gives the map's value at that key.
proof fn lemma_map_of_found<H>(s: Seq<Entry<H>>, i: int)
    requires
        keys_unique(s),
        0 <= i < s.len(),
    ensures
        map_of_entries(s).contains_key(s[i].0@),
        map_of_entries(s)[s[i].0@] == s[i].1,
    decreases s.len(),
{
    if i == s.len() - 1 {
    } else {
        lemma_map_of_found(s.drop_last(), i);
        assert(s.drop_last()[i] == s[i]);
        assert(s.last().0@ != s[i].0@);
    }
}

/// A key held by no entry is not in the map.
proof fn lemma_map_of_absent<H>(s: Seq<Entry<H>>, k: Seq<u8>)
    requires
        forall|j: int| 0 <= j < s.len() ==> s[j].0@ != k,
    ensures
        !map_of_entries(s).contains_key(k),
    decreases s.len(),
{
    if s.len() > 0 {
        lemma_map_of_absent(s.drop_last(), k);
    }
}

/// With unique keys, the map has exactly one key per entry.
proof fn lemma_map_of_len<H>(s: Seq<Entry<H>>)
    requires
        keys_unique(s),
    ensures
        map_of_entries(s).dom().finite(),
        map_of_entries(s).dom().len() == s.len(),
    decreases s.len(),
{
    if s.len() > 0 {
        lemma_map_of_len(s.drop_last());
        lemma_map_of_absent(s.drop_last(), s.last().0@);
    }
}

} // verus!
