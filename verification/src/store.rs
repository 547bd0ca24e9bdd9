//! The per-guild configuration store: field get/set/delete/exists operations
//! scoped by a guild identifier, plus the single well-known slot that holds
//! the last-synchronized command fingerprint. Absence of a field is a
//! meaningful state, not an error. The store's behaviour is specified
//! through a map from (guild, field) pairs to stored values.

use vstd::prelude::*;
use vstd::string::StringExecFns;

verus! {

/// One stored field: guild identifier, field name, value.
type Entry = (u64, String, String);

/// Whether an entry holds the (guild, field) key.
pub open spec fn key_matches(e: Entry, g: u64, f: Seq<char>) -> bool {
    e.0 == g && e.1@ == f
}

/// First-match lookup of field `f` under guild `g`.
pub open spec fn kv_lookup(s: Seq<Entry>, g: u64, f: Seq<char>) -> Option<Seq<char>>
    decreases s.len(),
{
    if s.len() == 0 {
        None
    } else if key_matches(s[0], g, f) {
        Some(s[0].2@)
    } else {
        kv_lookup(s.skip(1), g, f)
    }
}

/// No two entries carry the same (guild, field) key.
pub open spec fn distinct_keys(s: Seq<Entry>) -> bool {
    forall|i: int, j: int|
        #![trigger s[i], s[j]]
        0 <= i < j < s.len() ==> !key_matches(s[i], s[j].0, s[j].1@)
}

/// A key is absent from every entry exactly when lookup fails.
proof fn lemma_lookup_absent(s: Seq<Entry>, g: u64, f: Seq<char>)
    ensures
        (kv_lookup(s, g, f) is None) <==> (forall|j: int|
            0 <= j < s.len() ==> !key_matches(#[trigger] s[j], g, f)),
    decreases s.len(),
{
    if s.len() > 0 {
        lemma_lookup_absent(s.skip(1), g, f);
        if kv_lookup(s, g, f) is None {
            assert forall|j: int| 0 <= j < s.len() implies !key_matches(#[trigger] s[j], g, f) by {
                if j > 0 {
                    assert(s.skip(1)[j - 1] == s[j]);
                }
            }
        } else {
            if !key_matches(s[0], g, f) {
                assert(kv_lookup(s.skip(1), g, f) is Some);
                let j = choose|j: int|
                    0 <= j < s.skip(1).len() && key_matches(#[trigger] s.skip(1)[j], g, f);
                assert(s.skip(1)[j] == s[j + 1]);
            }
        }
    }
}

/// Replacing the first entry that holds a key by another entry with the same
/// key changes lookups of that key alone.
proof fn lemma_lookup_update(s: Seq<Entry>, i: int, e: Entry, g: u64, f: Seq<char>)
    requires
        0 <= i < s.len(),
        forall|j: int| 0 <= j < i ==> !key_matches(#[trigger] s[j], s[i].0, s[i].1@),
        e.0 == s[i].0,
        e.1@ == s[i].1@,
    ensures
        kv_lookup(s.update(i, e), g, f) == (if key_matches(s[i], g, f) {
            Some(e.2@)
        } else {
            kv_lookup(s, g, f)
        }),
    decreases s.len(),
{
    let t = s.update(i, e);
    if i == 0 {
        assert(t.skip(1) =~= s.skip(1));
    } else {
        assert(t[0] == s[0]);
        assert(t.skip(1) =~= s.skip(1).update(i - 1, e));
        assert forall|j: int| 0 <= j < i - 1 implies !key_matches(
            #[trigger] s.skip(1)[j],
            s.skip(1)[i - 1].0,
            s.skip(1)[i - 1].1@,
        ) by {
            assert(s.skip(1)[j] == s[j + 1]);
            assert(s.skip(1)[i - 1] == s[i]);
        }
        lemma_lookup_update(s.skip(1), i - 1, e, g, f);
        assert(s.skip(1)[i - 1] == s[i]);
    }
}

/// Appending an entry leaves every present key's lookup unchanged and makes
/// the appended key found when it was absent.
proof fn lemma_lookup_push(s: Seq<Entry>, e: Entry, g: u64, f: Seq<char>)
    ensures
        kv_lookup(s.push(e), g, f) == (if kv_lookup(s, g, f) is Some {
            kv_lookup(s, g, f)
        } else if key_matches(e, g, f) {
            Some(e.2@)
        } else {
            None
        }),
    decreases s.len(),
{
    if s.len() == 0 {
        assert(s.push(e)[0] == e);
        assert(s.push(e).skip(1) =~= Seq::<Entry>::empty());
        assert(kv_lookup(Seq::<Entry>::empty(), g, f) is None);
    } else {
        assert(s.push(e)[0] == s[0]);
        assert(s.push(e).skip(1) =~= s.skip(1).push(e));
        lemma_lookup_push(s.skip(1), e, g, f);
    }
}

/// Removing the entry that holds a key makes that key absent (given distinct
/// keys) and leaves every other key's lookup unchanged.
proof fn lemma_lookup_remove(s: Seq<Entry>, i: int, g: u64, f: Seq<char>)
    requires
        0 <= i < s.len(),
        distinct_keys(s),
    ensures
        kv_lookup(s.remove(i), g, f) == (if key_matches(s[i], g, f) {
            None
        } else {
            kv_lookup(s, g, f)
        }),
    decreases s.len(),
{
    assert forall|j: int| 0 <= j < s.len() - 1 implies #[trigger] s.skip(1)[j] == s[j + 1] by {}
    if i == 0 {
        assert(s.remove(0) =~= s.skip(1));
        if key_matches(s[0], g, f) {
            lemma_lookup_absent(s.skip(1), g, f);
            assert forall|j: int| 0 <= j < s.skip(1).len() implies !key_matches(
                #[trigger] s.skip(1)[j],
                g,
                f,
            ) by {
                assert(s.skip(1)[j] == s[j + 1]);
            }
        }
    } else {
        assert(s.remove(i)[0] == s[0]);
        assert(s.remove(i).skip(1) =~= s.skip(1).remove(i - 1));
        assert forall|a: int, b: int|
            #![trigger s.skip(1)[a], s.skip(1)[b]]
            0 <= a < b < s.skip(1).len() implies !key_matches(
            s.skip(1)[a],
            s.skip(1)[b].0,
            s.skip(1)[b].1@,
        ) by {
            assert(s.skip(1)[a] == s[a + 1]);
            assert(s.skip(1)[b] == s[b + 1]);
        }
        lemma_lookup_remove(s.skip(1), i - 1, g, f);
        assert(s.skip(1)[i - 1] == s[i]);
    }
}

/// The per-guild configuration store.
pub struct ConfigStore {
    entries: Vec<Entry>,
    fingerprint: Option<String>,
}

impl ConfigStore {
    /// Internal well-formedness: each (guild, field) key is held at most once.
    pub closed spec fn wf(&self) -> bool {
        distinct_keys(self.entries@)
    }

    /// What lookup of field `f` under guild `g` yields.
    pub closed spec fn spec_get(&self, g: u64, f: Seq<char>) -> Option<Seq<char>> {
        kv_lookup(self.entries@, g, f)
    }

    /// The store's contents as a map from (guild, field) keys to values.
    pub open spec fn fields_map(&self) -> Map<(u64, Seq<char>), Seq<char>> {
        Map::new(
            |k: (u64, Seq<char>)| self.spec_get(k.0, k.1) is Some,
            |k: (u64, Seq<char>)| self.spec_get(k.0, k.1)->Some_0,
        )
    }

    /// The stored command fingerprint, if any.
    pub closed spec fn spec_fingerprint(&self) -> Option<Seq<char>> {
        match self.fingerprint {
            Some(s) => Some(s@),
            None => None,
        }
    }

    /// An empty store: no fields under any guild, no fingerprint.
    pub fn new() -> (s: ConfigStore)
        ensures
            s.wf(),
            s.fields_map() == Map::<(u64, Seq<char>), Seq<char>>::empty(),
            s.spec_fingerprint() is None,
    {
        let s = ConfigStore { entries: Vec::new(), fingerprint: None };
        proof {
            assert(s.fields_map() =~= Map::<(u64, Seq<char>), Seq<char>>::empty());
        }
        s
    }

    /// Index of the first entry holding (guild, field), if any.
    fn find_index(&self, guild: u64, field: &String) -> (r: Option<usize>)
        ensures
            match r {
                Some(i) => i < self.entries@.len() && self.entries@[i as int].0 == guild
                    && self.entries@[i as int].1@ == field@ && self.spec_get(guild, field@)
                    == Some(self.entries@[i as int].2@),
                None => self.spec_get(guild, field@) is None,
            },
    {
        proof {
            assert(self.entries@.skip(0) =~= self.entries@);
        }
        let mut i: usize = 0;
        while i < self.entries.len()
            invariant
                i <= self.entries@.len(),
                kv_lookup(self.entries@, guild, field@) == kv_lookup(
                    self.entries@.skip(i as int),
                    guild,
                    field@,
                ),
            decreases self.entries@.len() - i,
        {
            let entry = &self.entries[i];
            if entry.0 == guild && entry.1 == *field {
                proof {
                    assert(self.entries@.skip(i as int)[0] == self.entries@[i as int]);
                    assert(kv_lookup(self.entries@.skip(i as int), guild, field@) == Some(
                        self.entries@[i as int].2@,
                    ));
                }
                return Some(i);
            }
            proof {
                assert(self.entries@.skip(i as int).skip(1) =~= self.entries@.skip(i as int + 1));
            }
            i += 1;
        }
        proof {
            assert(self.entries@.skip(i as int) =~= Seq::<Entry>::empty());
        }
        None
    }

    /// Reads a field under a guild; absence is a normal outcome.
    pub fn get_field(&self, guild: u64, field: &String) -> (r: Option<String>)
        ensures
            match r {
                Some(v) => self.fields_map().contains_key((guild, field@)) && v@
                    == self.fields_map()[(guild, field@)],
                None => !self.fields_map().contains_key((guild, field@)),
            },
    {
        match self.find_index(guild, field) {
            Some(i) => Some(self.entries[i].2.clone()),
            None => None,
        }
    }

    /// Upserts a field under a guild: an unconditional overwrite.
    pub fn set_field(&mut self, guild: u64, field: String, value: String)
        requires
            old(self).wf(),
        ensures
            final(self).wf(),
            final(self).fields_map() == old(self).fields_map().insert(
                (guild, field@),
                value@,
            ),
            final(self).spec_fingerprint() == old(self).spec_fingerprint(),
    {
        let ghost s0 = self.entries@;
        match self.find_index(guild, &field) {
            Some(i) => {
                let ghost key = field@;
                let entry = (guild, field, value);
                self.entries.remove(i);
                self.entries.insert(i, entry);
                proof {
                    let t = self.entries@;
                    assert(t =~= s0.update(i as int, entry));
                    assert forall|a: int, b: int|
                        #![trigger t[a], t[b]]
                        0 <= a < b < t.len() implies !key_matches(
                        t[a],
                        t[b].0,
                        t[b].1@,
                    ) by {
                        assert(!key_matches(s0[a], s0[b].0, s0[b].1@));
                        assert(t[a].0 == s0[a].0 && t[a].1@ == s0[a].1@);
                        assert(t[b].0 == s0[b].0 && t[b].1@ == s0[b].1@);
                    }
                    assert forall|k: (u64, Seq<char>)|
                        #[trigger] kv_lookup(t, k.0, k.1) == (if k.0 == guild && k.1 == key {
                            Some(value@)
                        } else {
                            kv_lookup(s0, k.0, k.1)
                        }) by {
                        lemma_lookup_update(s0, i as int, entry, k.0, k.1);
                    }
                    assert(self.fields_map() =~= old(self).fields_map().insert(
                        (guild, key),
                        value@,
                    ));
                }
            },
            None => {
                let ghost key = field@;
                let entry = (guild, field, value);
                self.entries.push(entry);
                proof {
                    let t = self.entries@;
                    lemma_lookup_absent(s0, guild, key);
                    assert forall|a: int, b: int|
                        #![trigger t[a], t[b]]
                        0 <= a < b < t.len() implies !key_matches(
                        t[a],
                        t[b].0,
                        t[b].1@,
                    ) by {
                        if b < s0.len() {
                            assert(!key_matches(s0[a], s0[b].0, s0[b].1@));
                        } else {
                            assert(t[a] == s0[a]);
                            assert(t[b] == entry);
                        }
                    }
                    assert forall|k: (u64, Seq<char>)|
                        #[trigger] kv_lookup(t, k.0, k.1) == (if k.0 == guild && k.1 == key {
                            Some(value@)
                        } else {
                            kv_lookup(s0, k.0, k.1)
                        }) by {
                        lemma_lookup_push(s0, entry, k.0, k.1);
                    }
                    assert(self.fields_map() =~= old(self).fields_map().insert(
                        (guild, key),
                        value@,
                    ));
                }
            },
        }
    }

    /// Deletes a field under a guild; a no-op when the field is absent.
    pub fn delete_field(&mut self, guild: u64, field: &String)
        requires
            old(self).wf(),
        ensures
            final(self).wf(),
            final(self).fields_map() == old(self).fields_map().remove((guild, field@)),
            final(self).spec_fingerprint() == old(self).spec_fingerprint(),
    {
        let ghost s0 = self.entries@;
        match self.find_index(guild, field) {
            Some(i) => {
                self.entries.remove(i);
                proof {
                    let t = self.entries@;
                    assert forall|a: int, b: int|
                        #![trigger t[a], t[b]]
                        0 <= a < b < t.len() implies !key_matches(
                        t[a],
                        t[b].0,
                        t[b].1@,
                    ) by {
                        let a0 = if a < i as int { a } else { a + 1 };
                        let b0 = if b < i as int { b } else { b + 1 };
                        assert(t[a] == s0[a0]);
                        assert(t[b] == s0[b0]);
                        assert(!key_matches(s0[a0], s0[b0].0, s0[b0].1@));
                    }
                    assert forall|k: (u64, Seq<char>)|
                        #[trigger] kv_lookup(t, k.0, k.1) == (if k.0 == guild && k.1 == field@ {
                            None::<Seq<char>>
                        } else {
                            kv_lookup(s0, k.0, k.1)
                        }) by {
                        lemma_lookup_remove(s0, i as int, k.0, k.1);
                    }
                    assert(self.fields_map() =~= old(self).fields_map().remove((guild, field@)));
                }
            },
            None => {
                proof {
                    assert(self.fields_map() =~= old(self).fields_map().remove((guild, field@)));
                }
            },
        }
    }

    /// Whether a field is present under a guild.
    pub fn field_exists(&self, guild: u64, field: &String) -> (r: bool)
        ensures
            r == self.fields_map().contains_key((guild, field@)),
    {
        match self.find_index(guild, field) {
            Some(_) => true,
            None => false,
        }
    }

    /// Reads the stored command fingerprint.
    pub fn get_fingerprint(&self) -> (r: Option<String>)
        ensures
            match r {
                Some(v) => self.spec_fingerprint() == Some(v@),
                None => self.spec_fingerprint() is None,
            },
    {
        match &self.fingerprint {
            Some(s) => Some(s.clone()),
            None => None,
        }
    }

    /// Overwrites the stored command fingerprint.
    pub fn set_fingerprint(&mut self, fp: String)
        ensures
            final(self).wf() == old(self).wf(),
            final(self).spec_fingerprint() == Some(fp@),
            final(self).fields_map() == old(self).fields_map(),
    {
        self.fingerprint = Some(fp);
        proof {
            assert(self.fields_map() =~= old(self).fields_map());
        }
    }
}

/// The backend key that holds a guild's field record.
pub fn config_key(guild: u64) -> (r: String)
    ensures
        r@ == "config:"@ + crate::text::dec_str(guild as nat),
{
    String::from_str("config:").concat(
        crate::text::u64_to_string(guild).as_str(),
    )
}

/// The backend key that holds a guild's cached role object.
pub fn role_key(guild: u64, role: u64) -> (r: String)
    ensures
        r@ == "role:"@ + crate::text::dec_str(guild as nat) + ":"@ + crate::text::dec_str(
            role as nat,
        ),
{
    String::from_str("role:").concat(
        crate::text::u64_to_string(guild).as_str(),
    ).concat(":").concat(crate::text::u64_to_string(role).as_str())
}

/// The backend key that holds the last-synchronized command fingerprint.
pub fn commands_key() -> (r: String)
    ensures
        r@ == "commands"@,
{
    String::from_str("commands")
}

/// Law: writing a field and reading it back yields the written value.
pub proof fn lemma_set_then_get(
    m: Map<(u64, Seq<char>), Seq<char>>,
    g: u64,
    f: Seq<char>,
    v: Seq<char>,
)
    ensures
        m.insert((g, f), v).contains_key((g, f)),
        m.insert((g, f), v)[(g, f)] == v,
{
}

/// Law: deleting a field and reading it back yields absence.
pub proof fn lemma_delete_then_get(m: Map<(u64, Seq<char>), Seq<char>>, g: u64, f: Seq<char>)
    ensures
        !m.remove((g, f)).contains_key((g, f)),
{
}

/// Law: operations scoped to one guild never interact with fields of a
/// different guild.
pub proof fn lemma_guilds_independent(
    m: Map<(u64, Seq<char>), Seq<char>>,
    g1: u64,
    f1: Seq<char>,
    v: Seq<char>,
    g2: u64,
    f2: Seq<char>,
)
    requires
        g1 != g2,
    ensures
        m.insert((g1, f1), v).contains_key((g2, f2)) == m.contains_key((g2, f2)),
        m.contains_key((g2, f2)) ==> m.insert((g1, f1), v)[(g2, f2)] == m[(g2, f2)],
        m.remove((g1, f1)).contains_key((g2, f2)) == m.contains_key((g2, f2)),
        m.contains_key((g2, f2)) ==> m.remove((g1, f1))[(g2, f2)] == m[(g2, f2)],
{
    assert((g1, f1) != (g2, f2));
}

} // verus!
