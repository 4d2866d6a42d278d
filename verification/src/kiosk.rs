//! The kiosk: the exclusive in-memory store of per-source feed state. It
//! maps each configured source name to its current `FeedState`, keeps its
//! entries strictly sorted by name, and is mutated only through
//! `insert_feed`.

use vstd::prelude::*;
use crate::feed::{flat_of, FeedState, FlatFeedState};
use crate::strings::{
    lemma_lex_lt_asymmetric, lemma_lex_lt_connected, lemma_lex_lt_irreflexive,
    lemma_lex_lt_transitive, lex_lt, str_eq, str_lt,
};

verus! {

/// A strictly lexicographically increasing sequence of names.
pub open spec fn sorted_strict(s: Seq<Seq<char>>) -> bool {
    forall|i: int, j: int| 0 <= i < j < s.len() ==> lex_lt(s[i], s[j])
}

/// The source state store. Entries are strictly sorted by source name, so
/// every presentation-facing derivation of the source list is already in
/// lexicographic order.
pub struct Kiosk {
    pub entries: Vec<(String, FeedState)>,
}

impl Kiosk {
    /// The key sequence: the stored source names, in entry order.
    pub open spec fn names(self) -> Seq<Seq<char>> {
        self.entries@.map_values(|e: (String, FeedState)| e.0@)
    }

    /// Well-formedness: the names are strictly sorted, hence unique.
    pub open spec fn wf(self) -> bool {
        sorted_strict(self.names())
    }

    /// Whether a source of this name is stored.
    pub open spec fn contains_name(self, k: Seq<char>) -> bool {
        exists|i: int| 0 <= i < self.names().len() && self.names()[i] == k
    }

    /// The entry index of a stored name.
    pub open spec fn spec_index_of(self, k: Seq<char>) -> int {
        choose|i: int| 0 <= i < self.names().len() && self.names()[i] == k
    }

    /// The state stored for a name.
    pub open spec fn state_of(self, k: Seq<char>) -> FeedState {
        self.entries@[self.spec_index_of(k)].1
    }

    /// The store seen as a mapping from source name to feed state.
    pub open spec fn as_map(self) -> Map<Seq<char>, FeedState> {
        Map::new(|k: Seq<char>| self.contains_name(k), |k: Seq<char>| self.state_of(k))
    }

    /// In a well-formed kiosk each stored name has exactly one entry, and the
    /// map view agrees with that entry.
    pub proof fn lemma_entry_of_name(self, i: int)
        requires
            self.wf(),
            0 <= i < self.names().len(),
        ensures
            self.contains_name(self.names()[i]),
            self.spec_index_of(self.names()[i]) == i,
            self.as_map().contains_key(self.names()[i]),
            self.as_map()[self.names()[i]] == self.entries@[i].1,
    {
        let k = self.names()[i];
        assert(self.contains_name(k));
        let j = self.spec_index_of(k);
        assert(0 <= j < self.names().len() && self.names()[j] == k);
        if i != j {
            if i < j {
                assert(lex_lt(self.names()[i], self.names()[j]));
            } else {
                assert(lex_lt(self.names()[j], self.names()[i]));
            }
            lemma_lex_lt_irreflexive(k);
        }
    }

    /// Builds an empty kiosk.
    pub fn new() -> (r: Kiosk)
        ensures
            r.entries@.len() == 0,
            r.wf(),
            r.as_map() == Map::<Seq<char>, FeedState>::empty(),
    {
        let r = Kiosk { entries: Vec::new() };
        proof {
            assert(r.as_map() =~= Map::<Seq<char>, FeedState>::empty());
        }
        r
    }

    /// How many sources are stored.
    pub fn len(&self) -> (r: usize)
        ensures
            r == self.names().len(),
    {
        self.entries.len()
    }

    /// The entry at position `i`: its name and its current state.
    pub fn entry(&self, i: usize) -> (r: &(String, FeedState))
        requires
            i < self.names().len(),
        ensures
            r.0@ == self.names()[i as int],
            r.1 == self.entries@[i as int].1,
    {
        &self.entries[i]
    }

    /// Replacing the state at an existing entry updates the map at that name
    /// and nothing else.
    proof fn lemma_replace_at(pre: Kiosk, post: Kiosk, p: int, name: Seq<char>, state: FeedState)
        requires
            pre.wf(),
            0 <= p < pre.names().len(),
            pre.names()[p] == name,
            post.names() == pre.names(),
            post.entries@.len() == pre.entries@.len(),
            forall|i: int| 0 <= i < pre.entries@.len() && i != p ==> post.entries@[i].1
                == pre.entries@[i].1,
            post.entries@[p].1 == state,
        ensures
            post.wf(),
            post.as_map() == pre.as_map().insert(name, state),
    {
        assert(post.as_map() =~= pre.as_map().insert(name, state)) by {
            assert forall|k: Seq<char>| post.contains_name(k) == pre.as_map().insert(
                name,
                state,
            ).contains_key(k) by {}
            assert forall|k: Seq<char>| #[trigger] post.contains_name(k) implies post.as_map()[k]
                == pre.as_map().insert(name, state)[k] by {
                let i = post.spec_index_of(k);
                post.lemma_entry_of_name(i);
                pre.lemma_entry_of_name(i);
                if k == name {
                    assert(i == p) by {
                        post.lemma_entry_of_name(p);
                    }
                } else {
                    assert(i != p);
                }
            }
        }
    }

    /// Adding an entry between the names below it and the names above it
    /// keeps the store sorted and inserts exactly one name into the map.
    proof fn lemma_insert_at(pre: Kiosk, post: Kiosk, p: int, name: Seq<char>, state: FeedState)
        requires
            pre.wf(),
            0 <= p <= pre.names().len(),
            forall|i: int| 0 <= i < p ==> lex_lt(pre.names()[i], name),
            p < pre.names().len() ==> lex_lt(name, pre.names()[p]),
            post.names() == pre.names().insert(p, name),
            forall|i: int| 0 <= i < p ==> post.entries@[i].1 == pre.entries@[i].1,
            forall|i: int| p < i < post.entries@.len() ==> post.entries@[i].1 == pre.entries@[i
                - 1].1,
            post.entries@[p].1 == state,
        ensures
            !pre.contains_name(name),
            post.wf(),
            post.as_map() == pre.as_map().insert(name, state),
    {
        let pn = pre.names();
        let qn = post.names();
        assert(qn.len() == pn.len() + 1);
        // The name was not stored before.
        assert(!pre.contains_name(name)) by {
            if pre.contains_name(name) {
                let i = pre.spec_index_of(name);
                lemma_lex_lt_irreflexive(name);
                if i >= p {
                    assert(p < pn.len());
                    if i == p {
                    } else {
                        assert(lex_lt(pn[p], pn[i]));
                        lemma_lex_lt_asymmetric(name, pn[p]);
                    }
                }
            }
        }
        // The new name sequence is strictly sorted.
        assert(post.wf()) by {
            assert forall|i: int, j: int| 0 <= i < j < qn.len() implies lex_lt(qn[i], qn[j]) by {
                if j < p {
                    assert(qn[i] == pn[i] && qn[j] == pn[j]);
                } else if j == p {
                    assert(qn[i] == pn[i] && qn[j] == name);
                } else if i < p {
                    assert(qn[i] == pn[i] && qn[j] == pn[j - 1]);
                    if j - 1 == p {
                        assert(p < pn.len() ==> lex_lt(name, pn[p]));
                        if p < pn.len() {
                            lemma_lex_lt_transitive(pn[i], name, pn[p]);
                        }
                        assert(j - 1 == p < pn.len());
                    } else {
                        assert(lex_lt(pn[i], pn[j - 1]));
                    }
                } else if i == p {
                    assert(qn[i] == name && qn[j] == pn[j - 1]);
                    if j - 1 == p {
                    } else {
                        assert(lex_lt(pn[p], pn[j - 1]));
                        lemma_lex_lt_transitive(name, pn[p], pn[j - 1]);
                    }
                } else {
                    assert(qn[i] == pn[i - 1] && qn[j] == pn[j - 1]);
                    assert(lex_lt(pn[i - 1], pn[j - 1]));
                }
            }
        }
        // The map view gained exactly the new name.
        assert(post.as_map() =~= pre.as_map().insert(name, state)) by {
            assert forall|k: Seq<char>| #[trigger] post.contains_name(k) implies (k == name
                || pre.contains_name(k)) by {
                let i = post.spec_index_of(k);
                post.lemma_entry_of_name(i);
                if i != p {
                    let io: int = if i < p {
                        i
                    } else {
                        i - 1
                    };
                    assert(pn[io] == k);
                }
            }
            assert forall|k: Seq<char>| k == name || pre.contains_name(k) implies
                #[trigger] post.contains_name(k) by {
                if k == name {
                    assert(qn[p] == k);
                } else {
                    let i = pre.spec_index_of(k);
                    let inew: int = if i < p {
                        i
                    } else {
                        i + 1
                    };
                    assert(qn[inew] == k);
                }
            }
            assert forall|k: Seq<char>| #[trigger] post.contains_name(k) implies post.as_map()[k]
                == pre.as_map().insert(name, state)[k] by {
                let i = post.spec_index_of(k);
                post.lemma_entry_of_name(i);
                if k == name {
                    post.lemma_entry_of_name(p);
                    lemma_lex_lt_irreflexive(k);
                    if i < p {
                        assert(lex_lt(qn[i], qn[p]));
                    } else if i > p {
                        assert(lex_lt(qn[p], qn[i]));
                    }
                } else {
                    assert(i != p);
                    let io: int = if i < p {
                        i
                    } else {
                        i - 1
                    };
                    assert(pn[io] == k);
                    pre.lemma_entry_of_name(io);
                    assert(post.entries@[i].1 == pre.entries@[io].1);
                }
            }
        }
    }

    /// Sets the state stored for `name`, overwriting any prior state for it
    /// unconditionally; a name not yet stored is added at its sorted
    /// position.
    pub fn insert_feed(&mut self, name: &str, state: FeedState)
        requires
            old(self).wf(),
        ensures
            final(self).wf(),
            final(self).as_map() == old(self).as_map().insert(name@, state),
            old(self).contains_name(name@) ==> final(self).names() == old(self).names(),
            !old(self).contains_name(name@) ==> final(self).names().len() == old(
                self,
            ).names().len() + 1,
    {
        let ghost pre = *old(self);
        let mut p: usize = 0;
        let n = self.entries.len();
        loop
            invariant
                *self == pre,
                pre.wf(),
                n == pre.names().len(),
                p <= n,
                forall|k: int| 0 <= k < p ==> lex_lt(pre.names()[k], name@),
            ensures
                *self == pre,
                p <= n,
                forall|k: int| 0 <= k < p ==> lex_lt(pre.names()[k], name@),
                p < n ==> !lex_lt(pre.names()[p as int], name@),
            decreases n - p,
        {
            if p == n {
                break;
            }
            if str_lt(self.entries[p].0.as_str(), name) {
                p = p + 1;
            } else {
                break;
            }
        }
        if p < n && str_eq(self.entries[p].0.as_str(), name) {
            // The name is stored at position p: replace its state.
            let _ = self.entries.remove(p);
            self.entries.insert(p, (name.to_owned(), state));
            proof {
                assert(final(self).names() =~= pre.names());
                Kiosk::lemma_replace_at(pre, *final(self), p as int, name@, state);
                pre.lemma_entry_of_name(p as int);
            }
        } else {
            // The name is not stored: add it at its sorted position.
            proof {
                if p < n {
                    lemma_lex_lt_connected(pre.names()[p as int], name@);
                }
            }
            self.entries.insert(p, (name.to_owned(), state));
            proof {
                assert(final(self).names() =~= pre.names().insert(p as int, name@));
                Kiosk::lemma_insert_at(pre, *final(self), p as int, name@, state);
            }
        }
    }

    /// Looks up the current state of a source; a name that was never stored
    /// yields nothing, never an invented state.
    pub fn get_feed(&self, name: &str) -> (r: Option<&FeedState>)
        requires
            self.wf(),
        ensures
            match r {
                Some(s) => self.as_map().contains_key(name@) && *s == self.as_map()[name@],
                None => !self.as_map().contains_key(name@),
            },
    {
        let n = self.entries.len();
        let mut i: usize = 0;
        loop
            invariant
                self.wf(),
                n == self.names().len(),
                i <= n,
                forall|k: int| 0 <= k < i ==> self.names()[k] != name@,
            decreases n - i,
        {
            if i == n {
                return None;
            }
            if str_eq(self.entries[i].0.as_str(), name) {
                proof {
                    self.lemma_entry_of_name(i as int);
                }
                return Some(&self.entries[i].1);
            }
            i = i + 1;
        }
    }

    /// All stored source names, in their (lexicographic) entry order.
    pub fn sources(&self) -> (r: Vec<String>)
        ensures
            r@.len() == self.names().len(),
            forall|i: int| 0 <= i < r@.len() ==> r@[i]@ == self.names()[i],
    {
        let mut r: Vec<String> = Vec::new();
        let n = self.entries.len();
        let mut i: usize = 0;
        while i < n
            invariant
                n == self.names().len(),
                i <= n,
                r@.len() == i,
                forall|k: int| 0 <= k < i ==> r@[k]@ == self.names()[k],
            decreases n - i,
        {
            r.push(self.entries[i].0.clone());
            i = i + 1;
        }
        r
    }

    /// The presentation projection: each stored source with the flat form of
    /// its state, in entry order.
    pub fn get_state(&self) -> (r: Vec<(String, FlatFeedState)>)
        ensures
            r@.len() == self.names().len(),
            forall|i: int| 0 <= i < r@.len() ==> (#[trigger] r@[i]).0@ == self.names()[i],
            forall|i: int| 0 <= i < r@.len() ==> (#[trigger] r@[i]).1 == flat_of(
                self.entries@[i].1,
            ),
    {
        let mut r: Vec<(String, FlatFeedState)> = Vec::new();
        let n = self.entries.len();
        let mut i: usize = 0;
        while i < n
            invariant
                n == self.names().len(),
                i <= n,
                r@.len() == i,
                forall|k: int| 0 <= k < i ==> r@[k].0@ == self.names()[k],
                forall|k: int| 0 <= k < i ==> r@[k].1 == flat_of(self.entries@[k].1),
            decreases n - i,
        {
            let name = self.entries[i].0.clone();
            let flat = self.entries[i].1.flat();
            let ghost gname = name@;
            proof {
                assert(gname == self.names()[i as int]);
                assert(flat == flat_of(self.entries@[i as int].1));
            }
            r.push((name, flat));
            proof {
                assert(r@[i as int].0@ == gname);
                assert(r@[i as int].1 == flat);
            }
            i = i + 1;
        }
        r
    }
}

/// After an insert that kept the key sequence, every entry of another name
/// keeps its state, and every entry of the inserted name holds the new
/// state.
pub proof fn lemma_states_after_insert(pre: Kiosk, post: Kiosk, name: Seq<char>, state: FeedState)
    requires
        pre.wf(),
        post.wf(),
        post.names() == pre.names(),
        post.as_map() == pre.as_map().insert(name, state),
    ensures
        forall|i: int| 0 <= i < post.entries@.len() && post.names()[i] != name
            ==> post.entries@[i].1 == pre.entries@[i].1,
        forall|i: int| 0 <= i < post.entries@.len() && post.names()[i] == name
            ==> post.entries@[i].1 == state,
{
    assert(post.names().len() == post.entries@.len());
    assert(pre.names().len() == pre.entries@.len());
    assert(post.entries@.len() == pre.entries@.len());
    assert forall|i: int| 0 <= i < post.entries@.len() && post.names()[i] != name implies
        post.entries@[i].1 == pre.entries@[i].1 by {
        post.lemma_entry_of_name(i);
        pre.lemma_entry_of_name(i);
    }
    assert forall|i: int| 0 <= i < post.entries@.len() && post.names()[i] == name implies
        post.entries@[i].1 == state by {
        post.lemma_entry_of_name(i);
    }
}

/// Two strictly sorted name sequences over the same set of names are equal:
/// the sorted order is canonical.
proof fn lemma_sorted_set_unique(a: Seq<Seq<char>>, b: Seq<Seq<char>>)
    requires
        sorted_strict(a),
        sorted_strict(b),
        a.to_set() == b.to_set(),
    ensures
        a == b,
    decreases a.len(),
{
    if a.len() == 0 {
        if b.len() > 0 {
            assert(b.contains(b[0]));
            assert(b.to_set().contains(b[0]));
            assert(a.to_set().contains(b[0]));
            assert(false);
        }
        assert(a =~= b);
    } else if b.len() == 0 {
        assert(a.contains(a[0]));
        assert(a.to_set().contains(a[0]));
        assert(b.to_set().contains(a[0]));
        assert(false);
    } else {
        // The heads are equal: each is at or below the other in the order.
        assert(a[0] == b[0]) by {
            assert(a.contains(a[0]));
            assert(b.to_set().contains(a[0]));
            let j = choose|j: int| 0 <= j < b.len() && b[j] == a[0];
            assert(b.contains(b[0]));
            assert(a.to_set().contains(b[0]));
            let i = choose|i: int| 0 <= i < a.len() && a[i] == b[0];
            if j > 0 && i > 0 {
                assert(lex_lt(b[0], b[j]));
                assert(lex_lt(a[0], a[i]));
                lemma_lex_lt_asymmetric(a[0], b[0]);
            }
        }
        // The tails range over the same names.
        assert(a.skip(1).to_set() == b.skip(1).to_set()) by {
            assert forall|x: Seq<char>| a.skip(1).to_set().contains(x) implies b.skip(
                1,
            ).to_set().contains(x) by {
                lemma_tail_contains(a, b, x);
            }
            assert forall|x: Seq<char>| b.skip(1).to_set().contains(x) implies a.skip(
                1,
            ).to_set().contains(x) by {
                lemma_tail_contains(b, a, x);
            }
            assert(a.skip(1).to_set() =~= b.skip(1).to_set());
        }
        assert(sorted_strict(a.skip(1))) by {
            assert forall|i: int, j: int| 0 <= i < j < a.skip(1).len() implies lex_lt(
                a.skip(1)[i],
                a.skip(1)[j],
            ) by {
                assert(lex_lt(a[i + 1], a[j + 1]));
            }
        }
        assert(sorted_strict(b.skip(1))) by {
            assert forall|i: int, j: int| 0 <= i < j < b.skip(1).len() implies lex_lt(
                b.skip(1)[i],
                b.skip(1)[j],
            ) by {
                assert(lex_lt(b[i + 1], b[j + 1]));
            }
        }
        lemma_sorted_set_unique(a.skip(1), b.skip(1));
        assert(a =~= b) by {
            assert(forall|k: int| 1 <= k < a.len() ==> a[k] == a.skip(1)[k - 1] && b[k] == b.skip(
                1,
            )[k - 1]);
        }
    }
}

/// A name in the tail of one sorted sequence is in the tail of the other,
/// given equal name sets and equal heads.
proof fn lemma_tail_contains(a: Seq<Seq<char>>, b: Seq<Seq<char>>, x: Seq<char>)
    requires
        sorted_strict(a),
        sorted_strict(b),
        a.to_set() == b.to_set(),
        a.len() > 0,
        b.len() > 0,
        a[0] == b[0],
        a.skip(1).contains(x),
    ensures
        b.skip(1).contains(x),
{
    let i = choose|i: int| 0 <= i < a.skip(1).len() && a.skip(1)[i] == x;
    assert(a[i + 1] == x);
    assert(lex_lt(a[0], x));
    assert(a.contains(x));
    assert(b.to_set().contains(x));
    let j = choose|j: int| 0 <= j < b.len() && b[j] == x;
    if j == 0 {
        lemma_lex_lt_irreflexive(x);
    }
    assert(b.skip(1)[j - 1] == x);
}

/// The key sequence of a well-formed kiosk is determined by its map view:
/// two well-formed kiosks holding the same mapping list their sources
/// identically.
pub proof fn lemma_names_determined(a: Kiosk, b: Kiosk)
    requires
        a.wf(),
        b.wf(),
        a.as_map().dom() == b.as_map().dom(),
    ensures
        a.names() == b.names(),
{
    assert(a.names().to_set() == b.names().to_set()) by {
        assert forall|k: Seq<char>| a.names().to_set().contains(k) implies b.names(
        ).to_set().contains(k) by {
            assert(a.contains_name(k));
            assert(a.as_map().dom().contains(k));
            assert(b.contains_name(k));
            let i = b.spec_index_of(k);
            assert(b.names()[i] == k);
        }
        assert forall|k: Seq<char>| b.names().to_set().contains(k) implies a.names(
        ).to_set().contains(k) by {
            assert(b.contains_name(k));
            assert(b.as_map().dom().contains(k));
            assert(a.contains_name(k));
            let i = a.spec_index_of(k);
            assert(a.names()[i] == k);
        }
        assert(a.names().to_set() =~= b.names().to_set());
    }
    lemma_sorted_set_unique(a.names(), b.names());
}

/// `insert_feed` is idempotent: a second insert of the same name and state
/// changes neither the kiosk's mapping nor its source list, so every
/// observation of the store is unchanged.
pub proof fn lemma_insert_feed_idempotent(
    k1: Kiosk,
    k2: Kiosk,
    name: Seq<char>,
    state: FeedState,
)
    requires
        k1.wf(),
        k2.wf(),
        k2.as_map() == k1.as_map().insert(name, state),
        k1.as_map().contains_key(name),
        k1.as_map()[name] == state,
    ensures
        k2.as_map() == k1.as_map(),
        k2.names() == k1.names(),
{
    assert(k2.as_map() =~= k1.as_map());
    assert(k2.as_map().dom() =~= k1.as_map().dom());
    lemma_names_determined(k1, k2);
}

/// Every "sorted sources" derivation is strictly lexicographically
/// increasing by name: the kiosk's key sequence itself is.
pub proof fn lemma_sources_strictly_sorted(k: Kiosk)
    requires
        k.wf(),
    ensures
        forall|i: int, j: int| 0 <= i < j < k.names().len() ==> lex_lt(k.names()[i], k.names()[j]),
{
}

/// The presentation projection agrees with the map view: a source mapped to
/// some state appears in the entry list with exactly that state.
pub proof fn lemma_state_projection(k: Kiosk, name: Seq<char>)
    requires
        k.wf(),
        k.as_map().contains_key(name),
    ensures
        exists|i: int|
            0 <= i < k.names().len() && k.names()[i] == name && k.entries@[i].1 == k.as_map()[name],
{
    let i = k.spec_index_of(name);
    k.lemma_entry_of_name(i);
}

impl Default for Kiosk {
    /// An empty kiosk.
    fn default() -> (r: Kiosk)
        ensures
            r.entries@.len() == 0,
            r.wf(),
    {
        Kiosk::new()
    }
}

} // verus!
