//! The token-decimals cache: an in-memory mapping from token identifier to
//! decimal precision, seeded with the native asset and grown lazily.

use vstd::map::*;
use vstd::prelude::*;

use crate::token::{native_token, native_token_bytes, token_eq, TokenId};

verus! {

/// The decimal precision the native asset is seeded with.
pub const NATIVE_DECIMALS: u32 = 18;

/// Mapping from token identifier to its decimal precision. An entry, once
/// present, is never overwritten: decimals are a token-level constant.
pub struct TokenDecimalsCache {
    entries: Vec<(TokenId, u32)>,
}

impl View for TokenDecimalsCache {
    type V = Map<Seq<u8>, u32>;

    open spec fn view(&self) -> Map<Seq<u8>, u32> {
        Map::new(|t: Seq<u8>| self.has(t), |t: Seq<u8>| self.decimals_of(t))
    }
}

impl TokenDecimalsCache {
    /// Each token identifier occurs at most once.
    pub closed spec fn wf(self) -> bool {
        forall|i: int, j: int|
            0 <= i < j < self.entries@.len() ==> self.entries@[i].0@ != self.entries@[j].0@
    }

    /// Whether the cache holds an entry for `t`.
    pub closed spec fn has(self, t: Seq<u8>) -> bool {
        exists|i: int| 0 <= i < self.entries@.len() && self.entries@[i].0@ == t
    }

    /// The decimals the cache holds for `t` (meaningful only where `has(t)`).
    pub closed spec fn decimals_of(self, t: Seq<u8>) -> u32 {
        self.entries@[choose|i: int|
            0 <= i < self.entries@.len() && self.entries@[i].0@ == t].1
    }

    /// An entry at a given index settles membership and the stored value.
    proof fn lemma_entry_at(self, i: int)
        requires
            self.wf(),
            0 <= i < self.entries@.len(),
        ensures
            self.has(self.entries@[i].0@),
            self.decimals_of(self.entries@[i].0@) == self.entries@[i].1,
    {
        let t = self.entries@[i].0@;
        assert(self.has(t)) by {
            assert(0 <= i < self.entries@.len() && self.entries@[i].0@ == t);
        }
        let j = choose|j: int| 0 <= j < self.entries@.len() && self.entries@[j].0@ == t;
        if i != j {
            assert(self.entries@[i].0@ != self.entries@[j].0@);
        }
    }

    /// A fresh cache: one seeded entry, the native asset at 18 decimals.
    pub fn new() -> (c: Self)
        ensures
            c.wf(),
            c@ == Map::<Seq<u8>, u32>::empty().insert(native_token_bytes(), NATIVE_DECIMALS),
    {
        let mut entries: Vec<(TokenId, u32)> = Vec::new();
        entries.push((native_token(), NATIVE_DECIMALS));
        let c = TokenDecimalsCache { entries };
        proof {
            assert(c.entries@[0].0@ == native_token_bytes());
            c.lemma_entry_at(0);
            assert forall|t: Seq<u8>| c.has(t) implies t == native_token_bytes() by {
                let i = choose|i: int| 0 <= i < c.entries@.len() && c.entries@[i].0@ == t;
            }
            assert_maps_equal!(
                c@,
                Map::<Seq<u8>, u32>::empty().insert(native_token_bytes(), NATIVE_DECIMALS),
            );
        }
        c
    }

    /// Look a token up; no collaborator is consulted.
    pub fn lookup(&self, t: &TokenId) -> (r: Option<u32>)
        requires
            self.wf(),
        ensures
            match r {
                Some(d) => self@.contains_key(t@) && self@[t@] == d,
                None => !self@.contains_key(t@),
            },
    {
        let n = self.entries.len();
        let mut i: usize = 0;
        while i < n
            invariant
                n == self.entries@.len(),
                i <= n,
                self.wf(),
                forall|j: int| 0 <= j < i ==> self.entries@[j].0@ != t@,
            decreases n - i,
        {
            if token_eq(&self.entries[i].0, t) {
                let d = self.entries[i].1;
                proof {
                    self.lemma_entry_at(i as int);
                }
                return Some(d);
            }
            i += 1;
        }
        None
    }

    /// Record a token's decimals. An entry already present stays as it is:
    /// a resolved value is never overwritten.
    pub fn record(&mut self, t: &TokenId, d: u32)
        requires
            old(self).wf(),
        ensures
            final(self).wf(),
            final(self)@ == if old(self)@.contains_key(t@) {
                old(self)@
            } else {
                old(self)@.insert(t@, d)
            },
    {
        if self.lookup(t).is_none() {
            let ghost pre = *self;
            self.entries.push((*t, d));
            proof {
                let n = pre.entries@.len();
                assert(self.entries@ == pre.entries@.push((*t, d)));
                assert forall|i: int, j: int|
                    0 <= i < j < self.entries@.len() implies self.entries@[i].0@
                    != self.entries@[j].0@ by {
                    if j < n {
                        assert(pre.entries@[i].0@ != pre.entries@[j].0@);
                    } else {
                        assert(self.entries@[j].0@ == t@);
                        pre.lemma_entry_at(i);
                        assert(!pre.has(t@));
                    }
                }
                assert forall|x: Seq<u8>| self.has(x) implies (pre.has(x) || x == t@) by {
                    let i = choose|i: int|
                        0 <= i < self.entries@.len() && self.entries@[i].0@ == x;
                    if i < n {
                        pre.lemma_entry_at(i);
                    }
                }
                assert forall|x: Seq<u8>| pre.has(x) implies self.has(x) by {
                    let i = choose|i: int| 0 <= i < pre.entries@.len() && pre.entries@[i].0@ == x;
                    self.lemma_entry_at(i);
                }
                assert forall|x: Seq<u8>| pre.has(x) implies self.decimals_of(x)
                    == pre.decimals_of(x) by {
                    let i = choose|i: int| 0 <= i < pre.entries@.len() && pre.entries@[i].0@ == x;
                    pre.lemma_entry_at(i);
                    self.lemma_entry_at(i);
                }
                assert(self.has(t@)) by {
                    self.lemma_entry_at(n as int);
                }
                assert(self.decimals_of(t@) == d) by {
                    self.lemma_entry_at(n as int);
                }
                assert_maps_equal!(self@, pre@.insert(t@, d));
            }
        }
    }
}

} // verus!
