use vstd::prelude::*;
use core::cmp::Ordering;
use crate::keys::{compare_keys, key_before, lemma_key_before_irreflexive, lemma_key_before_transitive};

verus! {

/// A tracked grammar repository: its name, where it is cloned from, and an
/// optional commit it is pinned to.
pub struct Language {
    pub name: String,
    pub git: String,
    pub hash: Option<String>,
}

impl Language {
    pub fn new(name: String, git: String, hash: Option<String>) -> (r: Self)
        ensures
            r.name == name,
            r.git == git,
            r.hash == hash,
    {
        Self { name, git, hash }
    }
}

impl Clone for Language {
    fn clone(&self) -> (r: Self)
        ensures
            r == *self,
    {
        let hash = match &self.hash {
            Some(h) => Some(h.clone()),
            None => None,
        };
        Language { name: self.name.clone(), git: self.git.clone(), hash }
    }
}

/// The comment written at the top of every generated registry file.
pub const REGISTRY_HEADER: &'static str =
    "# Automatically generated, DO NOT EDIT! Use `tree-sitter-grammars add` to modify.\n\n";

/// The full text of a registry file whose serialized table is `body`.
pub fn registry_document(body: &str) -> (r: String)
    ensures
        r@ == REGISTRY_HEADER@ + body@,
{
    let header = String::from_str(REGISTRY_HEADER);
    header.concat(body)
}

/// The registry: each key names one language; the entries are ordered by key.
pub struct Registry {
    pub entries: Vec<(String, Language)>,
}

/// Position `i` of `s` holds key `k`.
pub open spec fn key_at(s: Seq<(String, Language)>, i: int, k: Seq<char>) -> bool {
    0 <= i < s.len() && s[i].0@ == k
}

pub open spec fn has_key(s: Seq<(String, Language)>, k: Seq<char>) -> bool {
    exists|i: int| #[trigger] key_at(s, i, k)
}

/// No key occurs twice.
pub open spec fn keys_unique(s: Seq<(String, Language)>) -> bool {
    forall|i: int, j: int|
        0 <= i < s.len() && 0 <= j < s.len() && #[trigger] s[i].0@ == #[trigger] s[j].0@ ==> i == j
}

/// The keys are strictly increasing.
pub open spec fn keys_sorted(s: Seq<(String, Language)>) -> bool {
    forall|i: int, j: int| 0 <= i < j < s.len() ==> key_before(#[trigger] s[i].0@, #[trigger] s[j].0@)
}

/// `(key, lang)` stands at position `p` of `new`, which is `old` with it
/// inserted there, every key of `old` before `p` sorting before `key` and
/// every other after it.
pub open spec fn inserted_at(
    old: Seq<(String, Language)>,
    key: String,
    lang: Language,
    new: Seq<(String, Language)>,
    p: int,
) -> bool {
    &&& 0 <= p <= old.len()
    &&& new == old.insert(p, (key, lang))
    &&& forall|i: int| 0 <= i < p ==> key_before(#[trigger] old[i].0@, key@)
    &&& forall|i: int| p <= i < old.len() ==> key_before(key@, #[trigger] old[i].0@)
}

/// `new` is `old` after adding `lang` under `key`: an existing entry keeps its
/// key and name and takes the new source and pin; a new key is inserted in
/// key order.
pub open spec fn upserted(
    old: Seq<(String, Language)>,
    key: String,
    lang: Language,
    new: Seq<(String, Language)>,
) -> bool {
    if has_key(old, key@) {
        &&& new.len() == old.len()
        &&& forall|i: int|
            0 <= i < old.len() ==> #[trigger] new[i] == if old[i].0@ == key@ {
                (old[i].0, Language { name: old[i].1.name, git: lang.git, hash: lang.hash })
            } else {
                old[i]
            }
    } else {
        exists|p: int| inserted_at(old, key, lang, new, p)
    }
}

proof fn lemma_sorted_unique(s: Seq<(String, Language)>)
    requires
        keys_sorted(s),
    ensures
        keys_unique(s),
{
    assert forall|i: int, j: int|
        0 <= i < s.len() && 0 <= j < s.len() && #[trigger] s[i].0@ == #[trigger] s[j].0@ implies i == j by {
        lemma_key_before_irreflexive(s[i].0@);
        if i < j {
            assert(key_before(s[i].0@, s[j].0@));
        } else if j < i {
            assert(key_before(s[j].0@, s[i].0@));
        }
    }
}

impl Registry {
    pub open spec fn wf(&self) -> bool {
        keys_sorted(self.entries@)
    }

    pub fn new() -> (r: Self)
        ensures
            r.wf(),
            r.entries@.len() == 0,
    {
        Registry { entries: Vec::new() }
    }

    /// The position of `key`, if it is present.
    pub fn position(&self, key: &String) -> (r: Option<usize>)
        requires
            self.wf(),
        ensures
            r matches Some(i) ==> key_at(self.entries@, i as int, key@),
            r is None <==> !has_key(self.entries@, key@),
    {
        let mut i: usize = 0;
        while i < self.entries.len()
            invariant
                i <= self.entries@.len(),
                forall|j: int| 0 <= j < i ==> self.entries@[j].0@ != key@,
            decreases self.entries@.len() - i,
        {
            if self.entries[i].0 == *key {
                proof {
                    assert(key_at(self.entries@, i as int, key@));
                }
                return Some(i);
            }
            i = i + 1;
        }
        proof {
            assert forall|j: int| !#[trigger] key_at(self.entries@, j, key@) by {}
        }
        None
    }

    /// Adds `language` under `key`, or updates the source and pin of the
    /// entry already stored there.
    pub fn upsert(&mut self, key: String, language: Language)
        requires
            old(self).wf(),
        ensures
            final(self).wf(),
            upserted(old(self).entries@, key, language, final(self).entries@),
    {
        let ghost s0 = self.entries@;
        proof {
            lemma_sorted_unique(s0);
        }
        let mut i: usize = 0;
        while i < self.entries.len()
            invariant
                self.entries@ == s0,
                s0 == old(self).entries@,
                keys_sorted(s0),
                keys_unique(s0),
                i <= s0.len(),
                forall|j: int| 0 <= j < i ==> key_before(#[trigger] s0[j].0@, key@),
            decreases s0.len() - i,
        {
            match compare_keys(self.entries[i].0.as_str(), key.as_str()) {
                Ordering::Less => {
                    i = i + 1;
                },
                Ordering::Equal => {
                    let k = self.entries[i].0.clone();
                    let name = self.entries[i].1.name.clone();
                    self.entries.set(i, (k, Language { name, git: language.git, hash: language.hash }));
                    proof {
                        assert(key_at(s0, i as int, key@));
                        let s1 = self.entries@;
                        assert forall|a: int, b: int| 0 <= a < b < s1.len() implies key_before(
                            #[trigger] s1[a].0@,
                            #[trigger] s1[b].0@,
                        ) by {
                            assert(s1[a].0@ == s0[a].0@);
                            assert(s1[b].0@ == s0[b].0@);
                        }
                        assert forall|j: int| 0 <= j < s0.len() implies #[trigger] s1[j] == if s0[j].0@
                            == key@ {
                            (s0[j].0, Language { name: s0[j].1.name, git: language.git, hash: language.hash })
                        } else {
                            s0[j]
                        } by {
                            if s0[j].0@ == key@ {
                                assert(j == i);
                            }
                        }
                    }
                    return;
                },
                Ordering::Greater => {
                    self.entries.insert(i, (key, language));
                    proof {
                        self.lemma_inserted(s0, key, language, i as int);
                    }
                    return;
                },
            }
        }
        self.entries.push((key, language));
        proof {
            assert(self.entries@ == s0.insert(i as int, (key, language)));
            self.lemma_inserted(s0, key, language, i as int);
        }
    }

    proof fn lemma_inserted(&self, s0: Seq<(String, Language)>, key: String, language: Language, p: int)
        requires
            keys_sorted(s0),
            0 <= p <= s0.len(),
            self.entries@ == s0.insert(p, (key, language)),
            forall|j: int| 0 <= j < p ==> key_before(#[trigger] s0[j].0@, key@),
            p < s0.len() ==> key_before(key@, s0[p].0@),
        ensures
            self.wf(),
            upserted(s0, key, language, self.entries@),
    {
        let s1 = self.entries@;
        assert forall|j: int| p <= j < s0.len() implies key_before(key@, #[trigger] s0[j].0@) by {
            if j > p {
                lemma_key_before_transitive(key@, s0[p].0@, s0[j].0@);
            }
        }
        assert forall|a: int, b: int| 0 <= a < b < s1.len() implies key_before(
            #[trigger] s1[a].0@,
            #[trigger] s1[b].0@,
        ) by {
            if b == p {
                assert(s1[a] == s0[a]);
            } else if a == p {
                assert(s1[b] == s0[b - 1]);
            } else if b < p {
                assert(s1[a] == s0[a] && s1[b] == s0[b]);
            } else if a < p {
                assert(s1[a] == s0[a] && s1[b] == s0[b - 1]);
            } else {
                assert(s1[a] == s0[a - 1] && s1[b] == s0[b - 1]);
            }
        }
        assert forall|j: int| !#[trigger] key_at(s0, j, key@) by {
            lemma_key_before_irreflexive(key@);
        }
        assert(inserted_at(s0, key, language, s1, p));
    }
}

/// Adds the grammar `language` to the registry under `name`; when `name` is
/// already present only its source and pinned commit change.
pub fn add_language_grammar_to_toml(registry: &mut Registry, name: String, language: Language)
    requires
        old(registry).wf(),
    ensures
        final(registry).wf(),
        upserted(old(registry).entries@, name, language, final(registry).entries@),
{
    registry.upsert(name, language);
}

/// Adding the same language under the same key twice leaves the registry as
/// adding it once did.
pub proof fn lemma_upsert_idempotent(
    r0: Seq<(String, Language)>,
    key: String,
    lang: Language,
    r1: Seq<(String, Language)>,
    r2: Seq<(String, Language)>,
)
    requires
        keys_sorted(r0),
        upserted(r0, key, lang, r1),
        upserted(r1, key, lang, r2),
    ensures
        r2 == r1,
{
    lemma_sorted_unique(r0);
    if has_key(r0, key@) {
        let i = choose|i: int| key_at(r0, i, key@);
        assert(key_at(r1, i, key@));
        assert forall|j: int| 0 <= j < r1.len() implies #[trigger] r2[j] == r1[j] by {
            if r1[j].0@ == key@ {
                assert(r0[j].0@ == key@);
            }
        }
        assert(r2 =~= r1);
    } else {
        let p = choose|p: int| inserted_at(r0, key, lang, r1, p);
        assert(key_at(r1, p, key@));
        assert forall|j: int| 0 <= j < r1.len() implies #[trigger] r2[j] == r1[j] by {
            if r1[j].0@ == key@ && j != p {
                lemma_key_before_irreflexive(key@);
                if j < p {
                    assert(r1[j] == r0[j]);
                } else {
                    assert(r1[j] == r0[j - 1]);
                }
            }
        }
        assert(r2 =~= r1);
    }
}

} // verus!
