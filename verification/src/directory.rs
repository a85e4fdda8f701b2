//! The directory of known participants: peer identifier to display name.

use vstd::prelude::*;

verus! {

/// The display name given to a peer that the directory does not know.
pub open spec fn fallback_name() -> Seq<char> {
    "anonymous"@
}

/// The name under which `peer_id` is shown: its entry in `names`, or the
/// fallback where it has none.
pub open spec fn resolved_name(names: Map<Seq<char>, Seq<char>>, peer_id: Seq<char>) -> Seq<char> {
    if names.contains_key(peer_id) {
        names[peer_id]
    } else {
        fallback_name()
    }
}

/// `names` after each pair of `pairs` was written into it in order, a later
/// pair replacing an earlier one with the same identifier.
pub open spec fn insert_all(
    names: Map<Seq<char>, Seq<char>>,
    pairs: Seq<(Seq<char>, Seq<char>)>,
) -> Map<Seq<char>, Seq<char>>
    decreases pairs.len(),
{
    if pairs.len() == 0 {
        names
    } else {
        insert_all(names, pairs.drop_last()).insert(pairs.last().0, pairs.last().1)
    }
}

/// The mapping that a list of (identifier, name) pairs stands for.
pub open spec fn pairs_to_map(pairs: Seq<(Seq<char>, Seq<char>)>) -> Map<Seq<char>, Seq<char>> {
    insert_all(Map::empty(), pairs)
}

/// No identifier occurs twice in `pairs`.
pub open spec fn distinct_keys(pairs: Seq<(Seq<char>, Seq<char>)>) -> bool {
    forall|i: int, j: int|
        0 <= i < j < pairs.len() ==> (#[trigger] pairs[i]).0 != (#[trigger] pairs[j]).0
}

/// Some pair of `pairs` has the identifier `peer_id`.
pub open spec fn has_key(pairs: Seq<(Seq<char>, Seq<char>)>, peer_id: Seq<char>) -> bool {
    exists|i: int| 0 <= i < pairs.len() && (#[trigger] pairs[i]).0 == peer_id
}

/// The position of a pair with the identifier `peer_id`, where there is one.
pub open spec fn index_of_key(pairs: Seq<(Seq<char>, Seq<char>)>, peer_id: Seq<char>) -> int {
    choose|i: int| 0 <= i < pairs.len() && (#[trigger] pairs[i]).0 == peer_id
}

/// `pairs` with `peer_id` named `name`: in place where it had an entry, at
/// the end where it had none.
pub open spec fn upserted(
    pairs: Seq<(Seq<char>, Seq<char>)>,
    peer_id: Seq<char>,
    name: Seq<char>,
) -> Seq<(Seq<char>, Seq<char>)> {
    if has_key(pairs, peer_id) {
        pairs.update(index_of_key(pairs, peer_id), (peer_id, name))
    } else {
        pairs.push((peer_id, name))
    }
}

/// `pairs` without the entry of `peer_id`, the others in their order.
pub open spec fn removed(pairs: Seq<(Seq<char>, Seq<char>)>, peer_id: Seq<char>) -> Seq<
    (Seq<char>, Seq<char>),
> {
    if has_key(pairs, peer_id) {
        pairs.remove(index_of_key(pairs, peer_id))
    } else {
        pairs
    }
}

/// `pairs` after each pair of `more` was upserted into it in order.
pub open spec fn upserted_all(
    pairs: Seq<(Seq<char>, Seq<char>)>,
    more: Seq<(Seq<char>, Seq<char>)>,
) -> Seq<(Seq<char>, Seq<char>)>
    decreases more.len(),
{
    if more.len() == 0 {
        pairs
    } else {
        upserted(upserted_all(pairs, more.drop_last()), more.last().0, more.last().1)
    }
}

/// Without its last pair a list still has no repeated identifiers.
pub proof fn lemma_distinct_front(pairs: Seq<(Seq<char>, Seq<char>)>)
    requires
        distinct_keys(pairs),
        pairs.len() > 0,
    ensures
        distinct_keys(pairs.drop_last()),
{
    let front = pairs.drop_last();
    assert forall|a: int, b: int| 0 <= a < b < front.len() implies (#[trigger] front[a]).0 != (
    #[trigger] front[b]).0 by {
        assert(pairs[a].0 != pairs[b].0);
    }
}

/// In a list without repeated identifiers, the position of an identifier
/// is the one position at which it stands.
pub proof fn lemma_unique_position(pairs: Seq<(Seq<char>, Seq<char>)>, i: int)
    requires
        distinct_keys(pairs),
        0 <= i < pairs.len(),
    ensures
        has_key(pairs, pairs[i].0),
        index_of_key(pairs, pairs[i].0) == i,
{
    let j = index_of_key(pairs, pairs[i].0);
    if j < i {
        assert(pairs[j].0 != pairs[i].0);
    } else if i < j {
        assert(pairs[i].0 != pairs[j].0);
    }
}

/// The mapping of a list has exactly the identifiers of the list.
pub proof fn lemma_map_keys(pairs: Seq<(Seq<char>, Seq<char>)>, peer_id: Seq<char>)
    ensures
        pairs_to_map(pairs).contains_key(peer_id) <==> has_key(pairs, peer_id),
    decreases pairs.len(),
{
    if pairs.len() > 0 {
        let front = pairs.drop_last();
        lemma_map_keys(front, peer_id);
        if has_key(front, peer_id) {
            assert(pairs[index_of_key(front, peer_id)].0 == peer_id);
        }
        if has_key(pairs, peer_id) && index_of_key(pairs, peer_id) < pairs.len() - 1 {
            assert(front[index_of_key(pairs, peer_id)].0 == peer_id);
        }
    }
}

/// In a list without repeated identifiers, the mapping gives each
/// identifier the name that stands beside it.
pub proof fn lemma_map_lookup(pairs: Seq<(Seq<char>, Seq<char>)>, i: int)
    requires
        distinct_keys(pairs),
        0 <= i < pairs.len(),
    ensures
        pairs_to_map(pairs).contains_key(pairs[i].0),
        pairs_to_map(pairs)[pairs[i].0] == pairs[i].1,
    decreases pairs.len(),
{
    if i < pairs.len() - 1 {
        lemma_distinct_front(pairs);
        lemma_map_lookup(pairs.drop_last(), i);
        assert(pairs[i].0 != pairs[pairs.len() - 1].0);
    }
}

/// Renaming the entry at one position of a list without repeated
/// identifiers writes that name into the mapping and touches nothing else.
pub proof fn lemma_map_update(pairs: Seq<(Seq<char>, Seq<char>)>, i: int, name: Seq<char>)
    requires
        distinct_keys(pairs),
        0 <= i < pairs.len(),
    ensures
        distinct_keys(pairs.update(i, (pairs[i].0, name))),
        pairs_to_map(pairs.update(i, (pairs[i].0, name))) == pairs_to_map(pairs).insert(
            pairs[i].0,
            name,
        ),
    decreases pairs.len(),
{
    let changed = pairs.update(i, (pairs[i].0, name));
    assert forall|a: int, b: int| 0 <= a < b < changed.len() implies (#[trigger] changed[a]).0 != (
    #[trigger] changed[b]).0 by {
        assert(pairs[a].0 != pairs[b].0);
    }
    let front = pairs.drop_last();
    if i == pairs.len() - 1 {
        assert(changed.drop_last() =~= front);
    } else {
        lemma_distinct_front(pairs);
        lemma_map_update(front, i, name);
        assert(changed.drop_last() =~= front.update(i, (pairs[i].0, name)));
        assert(pairs[i].0 != pairs[pairs.len() - 1].0);
    }
}

/// Taking the entry at one position out of a list without repeated
/// identifiers takes its identifier out of the mapping and touches nothing
/// else.
pub proof fn lemma_map_remove(pairs: Seq<(Seq<char>, Seq<char>)>, i: int)
    requires
        distinct_keys(pairs),
        0 <= i < pairs.len(),
    ensures
        distinct_keys(pairs.remove(i)),
        pairs_to_map(pairs.remove(i)) == pairs_to_map(pairs).remove(pairs[i].0),
    decreases pairs.len(),
{
    let rest = pairs.remove(i);
    assert forall|a: int, b: int| 0 <= a < b < rest.len() implies (#[trigger] rest[a]).0 != (
    #[trigger] rest[b]).0 by {
        let a0 = if a < i { a } else { a + 1 };
        let b0 = if b < i { b } else { b + 1 };
        assert(pairs[a0].0 != pairs[b0].0);
    }
    let front = pairs.drop_last();
    lemma_distinct_front(pairs);
    if i == pairs.len() - 1 {
        assert(rest =~= front);
        lemma_map_keys(front, pairs[i].0);
        if has_key(front, pairs[i].0) {
            assert(pairs[index_of_key(front, pairs[i].0)].0 != pairs[i].0);
        }
    } else {
        lemma_map_remove(front, i);
        assert(rest.drop_last() =~= front.remove(i));
        assert(pairs[i].0 != pairs[pairs.len() - 1].0);
    }
}

/// Writing a list of pairs into a mapping gives that mapping overlaid with
/// the mapping of the list, the list winning where both name a peer.
pub proof fn lemma_insert_all_is_union(
    names: Map<Seq<char>, Seq<char>>,
    pairs: Seq<(Seq<char>, Seq<char>)>,
)
    ensures
        insert_all(names, pairs) == names.union_prefer_right(pairs_to_map(pairs)),
    decreases pairs.len(),
{
    if pairs.len() > 0 {
        lemma_insert_all_is_union(names, pairs.drop_last());
    }
}

/// `pair` stands somewhere in `pairs`.
pub open spec fn has_pair(pairs: Seq<(Seq<char>, Seq<char>)>, pair: (Seq<char>, Seq<char>)) -> bool {
    exists|i: int| 0 <= i < pairs.len() && #[trigger] pairs[i] == pair
}

/// What an upsert does to a list without repeated identifiers: the list
/// still has none, it holds the new pair, it holds every other peer's pair
/// as before, and it is unchanged where it held the new pair already.
pub proof fn lemma_upserted(pairs: Seq<(Seq<char>, Seq<char>)>, peer_id: Seq<char>, name: Seq<char>)
    requires
        distinct_keys(pairs),
    ensures
        distinct_keys(upserted(pairs, peer_id, name)),
        has_pair(upserted(pairs, peer_id, name), (peer_id, name)),
        forall|p: (Seq<char>, Seq<char>)|
            has_pair(pairs, p) && p.0 != peer_id ==> has_pair(upserted(pairs, peer_id, name), p),
        has_pair(pairs, (peer_id, name)) ==> upserted(pairs, peer_id, name) == pairs,
{
    let after = upserted(pairs, peer_id, name);
    let at = if has_key(pairs, peer_id) {
        index_of_key(pairs, peer_id)
    } else {
        pairs.len() as int
    };
    assert(after[at] == (peer_id, name));
    assert forall|a: int, b: int| 0 <= a < b < after.len() implies (#[trigger] after[a]).0 != (
    #[trigger] after[b]).0 by {
        if b < pairs.len() {
            assert(pairs[a].0 != pairs[b].0);
        } else {
            assert(pairs[a].0 != peer_id);
        }
    }
    assert forall|p: (Seq<char>, Seq<char>)| has_pair(pairs, p) && p.0 != peer_id implies has_pair(
        after,
        p,
    ) by {
        let i = choose|i: int| 0 <= i < pairs.len() && #[trigger] pairs[i] == p;
        assert(after[i] == p);
    }
    if has_pair(pairs, (peer_id, name)) {
        let i = choose|i: int| 0 <= i < pairs.len() && #[trigger] pairs[i] == (peer_id, name);
        assert(pairs[i].0 == peer_id);
        assert(i == at) by {
            if i < at {
                assert(pairs[i].0 != pairs[at].0);
            } else if at < i {
                assert(pairs[at].0 != pairs[i].0);
            }
        }
        assert(after =~= pairs);
    }
}

/// After a list without repeated identifiers was upserted into another, the
/// result has no repeated identifiers and holds every pair of the first.
pub proof fn lemma_upserted_all(pairs: Seq<(Seq<char>, Seq<char>)>, more: Seq<(Seq<char>, Seq<char>)>)
    requires
        distinct_keys(pairs),
        distinct_keys(more),
    ensures
        distinct_keys(upserted_all(pairs, more)),
        forall|t: int| 0 <= t < more.len() ==> has_pair(upserted_all(pairs, more), #[trigger] more[t]),
    decreases more.len(),
{
    if more.len() > 0 {
        let front = more.drop_last();
        lemma_distinct_front(more);
        lemma_upserted_all(pairs, front);
        let mid = upserted_all(pairs, front);
        lemma_upserted(mid, more.last().0, more.last().1);
        assert forall|t: int| 0 <= t < more.len() implies has_pair(
            upserted_all(pairs, more),
            #[trigger] more[t],
        ) by {
            if t < more.len() - 1 {
                assert(has_pair(mid, front[t]));
                assert(more[t].0 != more[more.len() - 1].0);
            }
        }
    }
}

/// Upserting pairs that a list without repeated identifiers already holds
/// leaves the list as it is.
pub proof fn lemma_upserted_all_present(
    pairs: Seq<(Seq<char>, Seq<char>)>,
    more: Seq<(Seq<char>, Seq<char>)>,
)
    requires
        distinct_keys(pairs),
        forall|t: int| 0 <= t < more.len() ==> has_pair(pairs, #[trigger] more[t]),
    ensures
        upserted_all(pairs, more) == pairs,
    decreases more.len(),
{
    if more.len() > 0 {
        let front = more.drop_last();
        assert forall|t: int| 0 <= t < front.len() implies has_pair(pairs, #[trigger] front[t]) by {
            assert(front[t] == more[t]);
        }
        lemma_upserted_all_present(pairs, front);
        assert(has_pair(pairs, more[more.len() - 1]));
        lemma_upserted(pairs, more.last().0, more.last().1);
    }
}

/// Upserting the same list a second time changes nothing, neither the names
/// nor the order of the entries.
pub proof fn lemma_upserted_all_idempotent(
    pairs: Seq<(Seq<char>, Seq<char>)>,
    more: Seq<(Seq<char>, Seq<char>)>,
)
    requires
        distinct_keys(pairs),
        distinct_keys(more),
    ensures
        upserted_all(upserted_all(pairs, more), more) == upserted_all(pairs, more),
{
    lemma_upserted_all(pairs, more);
    lemma_upserted_all_present(upserted_all(pairs, more), more);
}

/// Upserting a list without repeated identifiers into an empty list gives
/// that list back.
pub proof fn lemma_upserted_all_distinct(pairs: Seq<(Seq<char>, Seq<char>)>)
    requires
        distinct_keys(pairs),
    ensures
        upserted_all(Seq::empty(), pairs) == pairs,
    decreases pairs.len(),
{
    if pairs.len() > 0 {
        let front = pairs.drop_last();
        lemma_distinct_front(pairs);
        lemma_upserted_all_distinct(front);
        if has_key(front, pairs.last().0) {
            assert(pairs[index_of_key(front, pairs.last().0)].0 != pairs[pairs.len() - 1].0);
        }
        assert(front.push(pairs.last()) =~= pairs);
    }
}

/// Display names of the known peers, by peer identifier. Each identifier has
/// at most one entry; the entries keep the order in which their identifiers
/// were first registered.
#[derive(Debug)]
pub struct PeerDirectory {
    entries: Vec<(String, String)>,
}

impl PeerDirectory {
    /// The (identifier, name) pairs, in order of first registration.
    pub closed spec fn entries(&self) -> Seq<(Seq<char>, Seq<char>)> {
        self.entries.deep_view()
    }

    /// The invariant of the directory: no identifier has two entries.
    pub open spec fn well_formed(&self) -> bool {
        distinct_keys(self.entries())
    }

    /// The directory as a mapping from identifier to name.
    pub open spec fn view(&self) -> Map<Seq<char>, Seq<char>> {
        pairs_to_map(self.entries())
    }

    /// An empty directory.
    pub fn new() -> (directory: Self)
        ensures
            directory.well_formed(),
            directory.entries() == Seq::<(Seq<char>, Seq<char>)>::empty(),
            directory@ == Map::<Seq<char>, Seq<char>>::empty(),
    {
        PeerDirectory { entries: Vec::new() }
    }

    /// The number of entries.
    pub fn len(&self) -> (n: usize)
        ensures
            n == self.entries().len(),
    {
        self.entries.len()
    }

    /// The entry at position `i` of the registration order.
    pub fn entry(&self, i: usize) -> (pair: (&String, &String))
        requires
            i < self.entries().len(),
        ensures
            (pair.0@, pair.1@) == self.entries()[i as int],
    {
        let pair = &self.entries[i];
        (&pair.0, &pair.1)
    }

    fn position(&self, peer_id: &String) -> (found: Option<usize>)
        ensures
            match found {
                Some(i) => i < self.entries().len() && self.entries()[i as int].0 == peer_id@,
                None => !has_key(self.entries(), peer_id@),
            },
    {
        let mut i: usize = 0;
        while i < self.entries.len()
            invariant
                i <= self.entries@.len(),
                forall|j: int| 0 <= j < i ==> (#[trigger] self.entries()[j]).0 != peer_id@,
            decreases self.entries@.len() - i,
        {
            if self.entries[i].0 == *peer_id {
                return Some(i);
            }
            i += 1;
        }
        None
    }

    /// The name registered for `peer_id`, if there is one.
    pub fn get(&self, peer_id: &String) -> (name: Option<&String>)
        requires
            self.well_formed(),
        ensures
            match name {
                Some(n) => self@.contains_key(peer_id@) && self@[peer_id@] == n@,
                None => !self@.contains_key(peer_id@),
            },
    {
        proof {
            lemma_map_keys(self.entries(), peer_id@);
        }
        match self.position(peer_id) {
            Some(i) => {
                proof {
                    lemma_map_lookup(self.entries(), i as int);
                }
                Some(&self.entries[i].1)
            },
            None => None,
        }
    }

    /// The display name of `peer_id`: the registered name, or the fallback
    /// `"anonymous"` for a peer that has none.
    pub fn resolve(&self, peer_id: &String) -> (name: String)
        requires
            self.well_formed(),
        ensures
            name@ == resolved_name(self@, peer_id@),
    {
        match self.get(peer_id) {
            Some(n) => n.clone(),
            None => "anonymous".to_owned(),
        }
    }

    /// Registers `name` for `peer_id`, replacing the name it had, if any.
    pub fn upsert(&mut self, peer_id: String, name: String)
        requires
            old(self).well_formed(),
        ensures
            final(self).well_formed(),
            final(self)@ == old(self)@.insert(peer_id@, name@),
            final(self).entries() == upserted(old(self).entries(), peer_id@, name@),
    {
        let ghost before = self.entries();
        proof {
            lemma_upserted(before, peer_id@, name@);
        }
        match self.position(&peer_id) {
            Some(i) => {
                proof {
                    lemma_unique_position(before, i as int);
                    lemma_map_update(before, i as int, name@);
                }
                self.entries.set(i, (peer_id, name));
                assert(self.entries() =~= before.update(i as int, (peer_id@, name@)));
            },
            None => {
                self.entries.push((peer_id, name));
                assert(self.entries() =~= before.push((peer_id@, name@)));
                assert(self.entries().drop_last() =~= before);
            },
        }
    }

    /// Takes the entry of `peer_id` out and returns the name it had; a peer
    /// without an entry leaves the directory as it is.
    pub fn remove(&mut self, peer_id: &String) -> (name: Option<String>)
        requires
            old(self).well_formed(),
        ensures
            final(self).well_formed(),
            final(self)@ == old(self)@.remove(peer_id@),
            final(self).entries() == removed(old(self).entries(), peer_id@),
            match name {
                Some(n) => old(self)@.contains_key(peer_id@) && old(self)@[peer_id@] == n@,
                None => !old(self)@.contains_key(peer_id@),
            },
    {
        let ghost before = self.entries();
        proof {
            lemma_map_keys(before, peer_id@);
        }
        match self.position(peer_id) {
            Some(i) => {
                proof {
                    lemma_unique_position(before, i as int);
                    lemma_map_lookup(before, i as int);
                    lemma_map_remove(before, i as int);
                }
                let pair = self.entries.remove(i);
                assert(self.entries() =~= before.remove(i as int));
                Some(pair.1)
            },
            None => {
                assert(self@ =~= old(self)@.remove(peer_id@));
                None
            },
        }
    }
}

} // verus!
