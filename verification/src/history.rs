//! A fixed-capacity circular log that overwrites its oldest entry once full.

use vstd::prelude::*;

verus! {

/// Number of slots of a [`History`].
pub const HISTORY_SIZE: usize = 32;

/// The last `n` entries of `s`, or all of `s` when it has no more than `n`.
pub open spec fn keep_last<T>(s: Seq<T>, n: nat) -> Seq<T> {
    if s.len() <= n {
        s
    } else {
        s.subrange(s.len() - n, s.len() as int)
    }
}

/// The contents of a log that held `log` after `items` were inserted one by
/// one, in order.
pub open spec fn replay<T>(log: Seq<T>, items: Seq<T>) -> Seq<T>
    decreases items.len(),
{
    if items.len() == 0 {
        log
    } else {
        keep_last(replay(log, items.drop_last()).push(items.last()), HISTORY_SIZE as nat)
    }
}

/// Whether `slots` and `cursor` can be the slots and the write cursor of a
/// log: the cursor is a slot index, and the occupied slots are those below
/// the cursor, or all of them once the cursor has wrapped.
pub open spec fn slots_well_formed<T>(slots: Seq<Option<T>>, cursor: int) -> bool {
    &&& slots.len() == HISTORY_SIZE
    &&& 0 <= cursor < HISTORY_SIZE
    &&& forall|i: int|
        0 <= i < HISTORY_SIZE ==> ((#[trigger] slots[i]) is Some <==> (i < cursor
            || slots[HISTORY_SIZE - 1] is Some))
}

/// The live entries of a log with these slots and this cursor, oldest
/// first: the occupied slots met by a scan that starts at the cursor and
/// wraps once at the capacity.
pub open spec fn live_entries<T>(slots: Seq<Option<T>>, cursor: int) -> Seq<T> {
    if slots[HISTORY_SIZE - 1] is Some {
        Seq::new(HISTORY_SIZE as nat, |i: int| slots[(cursor + i) % (HISTORY_SIZE as int)]->0)
    } else {
        Seq::new(cursor as nat, |i: int| slots[i]->0)
    }
}

/// Circular log of the most recent [`HISTORY_SIZE`] items.
///
/// The slots are written in turn at the write cursor, which wraps at the
/// capacity, so the entry that is overwritten is always the oldest one.
#[derive(Debug)]
pub struct History<T> {
    data: Vec<Option<T>>,
    pointer: usize,
}

impl<T> History<T> {
    /// The raw slots, by slot index.
    pub closed spec fn slots(&self) -> Seq<Option<T>> {
        self.data@
    }

    /// The write cursor: the index of the slot that the next insert fills.
    pub closed spec fn cursor(&self) -> int {
        self.pointer as int
    }

    /// Whether the cursor has wrapped at least once, that is, whether every
    /// slot is occupied.
    pub open spec fn wrapped(&self) -> bool {
        self.slots()[HISTORY_SIZE - 1] is Some
    }

    /// The invariant of the log, [`slots_well_formed`] of its parts.
    pub open spec fn well_formed(&self) -> bool {
        slots_well_formed(self.slots(), self.cursor())
    }

    /// The live entries, oldest first.
    pub open spec fn view(&self) -> Seq<T> {
        live_entries(self.slots(), self.cursor())
    }

    /// An empty log.
    pub fn new() -> (log: Self)
        ensures
            log.well_formed(),
            log@ == Seq::<T>::empty(),
            log.cursor() == 0,
            forall|i: int| 0 <= i < HISTORY_SIZE ==> log.slots()[i] is None,
    {
        let mut data: Vec<Option<T>> = Vec::new();
        let mut i: usize = 0;
        while i < HISTORY_SIZE
            invariant
                i <= HISTORY_SIZE,
                data@.len() == i,
                forall|j: int| 0 <= j < i ==> data@[j] is None,
            decreases HISTORY_SIZE - i,
        {
            data.push(None);
            i += 1;
        }
        History { data, pointer: 0 }
    }

    /// Puts a log together from its slots and its cursor, as a snapshot
    /// carries them. Parts that no run of inserts could have left are
    /// refused.
    pub fn from_parts(slots: Vec<Option<T>>, cursor: usize) -> (log: Option<Self>)
        ensures
            log is Some <==> slots_well_formed(slots@, cursor as int),
            log matches Some(l) ==> l.well_formed() && l.slots() == slots@ && l.cursor() == cursor,
    {
        if slots.len() != HISTORY_SIZE || cursor >= HISTORY_SIZE {
            return None;
        }
        let full = slots[HISTORY_SIZE - 1].is_some();
        let mut i: usize = 0;
        while i < HISTORY_SIZE
            invariant
                i <= HISTORY_SIZE,
                slots@.len() == HISTORY_SIZE,
                cursor < HISTORY_SIZE,
                full == (slots@[HISTORY_SIZE - 1] is Some),
                forall|j: int| 0 <= j < i ==> ((#[trigger] slots@[j]) is Some <==> (j < cursor || full)),
            decreases HISTORY_SIZE - i,
        {
            if slots[i].is_some() != (i < cursor || full) {
                return None;
            }
            i += 1;
        }
        Some(History { data: slots, pointer: cursor })
    }

    /// The write cursor.
    pub fn cursor_position(&self) -> (at: usize)
        requires
            self.well_formed(),
        ensures
            at == self.cursor(),
            at < HISTORY_SIZE,
    {
        self.pointer
    }

    /// Writes `item` at the cursor and advances the cursor, wrapping at the
    /// capacity. A full log thereby loses its oldest entry.
    pub fn insert(&mut self, item: T)
        requires
            old(self).well_formed(),
        ensures
            final(self).well_formed(),
            final(self)@ == keep_last(old(self)@.push(item), HISTORY_SIZE as nat),
            final(self).slots() == old(self).slots().update(old(self).cursor(), Some(item)),
            final(self).cursor() == (old(self).cursor() + 1) % (HISTORY_SIZE as int),
    {
        let at = self.pointer;
        self.data.set(at, Some(item));
        self.pointer = if at + 1 > HISTORY_SIZE - 1 {
            0
        } else {
            at + 1
        };
        proof {
            let want = keep_last(old(self)@.push(item), HISTORY_SIZE as nat);
            assert forall|i: int| 0 <= i < self@.len() implies self@[i] == want[i] by {
                if old(self).wrapped() {
                    assert(want[i] == old(self)@.push(item)[i + 1]);
                }
            }
        }
    }

    /// The number of live entries: how many slots are occupied.
    pub fn get_count(&self) -> (count: usize)
        requires
            self.well_formed(),
        ensures
            count == self@.len(),
            count <= HISTORY_SIZE,
    {
        if self.data[HISTORY_SIZE - 1].is_some() {
            HISTORY_SIZE
        } else {
            self.pointer
        }
    }

    /// All live entries, oldest first.
    pub fn get_all(&self) -> (all: Vec<&T>)
        requires
            self.well_formed(),
        ensures
            all@.len() == self@.len(),
            forall|i: int| 0 <= i < all@.len() ==> *all@[i] == self@[i],
    {
        let mut result: Vec<&T> = Vec::new();
        let mut c = self.pointer;
        let mut k: usize = 0;
        while k < HISTORY_SIZE
            invariant
                self.well_formed(),
                k <= HISTORY_SIZE,
                c == (self.pointer + k) % (HISTORY_SIZE as int),
                result@.len() == (if self.wrapped() {
                    k as int
                } else if k + self.pointer <= HISTORY_SIZE {
                    0
                } else {
                    k + self.pointer - HISTORY_SIZE
                }),
                forall|i: int| 0 <= i < result@.len() ==> *result@[i] == self@[i],
            decreases HISTORY_SIZE - k,
        {
            if let Some(item) = self.data[c].as_ref() {
                result.push(item);
            }
            c += 1;
            if c > HISTORY_SIZE - 1 {
                c = 0;
            }
            k += 1;
        }
        result
    }

    /// The entry in slot `index`, if that slot is occupied. The index is a
    /// raw slot index, not a position in the oldest-first order.
    pub fn get(&self, index: usize) -> (entry: Option<&T>)
        requires
            index < HISTORY_SIZE,
            self.well_formed(),
        ensures
            match entry {
                Some(item) => self.slots()[index as int] == Some(*item),
                None => self.slots()[index as int] is None,
            },
    {
        self.data[index].as_ref()
    }

    /// Mutable access to the entry in slot `index`, if that slot is occupied.
    /// The entry may be changed in place; which slots are occupied, and the
    /// cursor, stay as they are.
    pub fn get_mut(&mut self, index: usize) -> (entry: Option<&mut T>)
        requires
            index < HISTORY_SIZE,
            old(self).well_formed(),
        ensures
            final(self).well_formed(),
            final(self).cursor() == old(self).cursor(),
            match entry {
                Some(item) => old(self).slots()[index as int] == Some(*item)
                    && final(self).slots() == old(self).slots().update(
                    index as int,
                    Some(*final(item)),
                ),
                None => old(self).slots()[index as int] is None && final(self).slots() == old(
                    self,
                ).slots(),
            },
    {
        self.data[index].as_mut()
    }
}

/// Inserting one more item and keeping the newest entries gives the same as
/// keeping the newest entries of everything inserted so far.
pub proof fn lemma_keep_last_push<T>(s: Seq<T>, item: T, n: nat)
    ensures
        keep_last(keep_last(s, n).push(item), n) == keep_last(s.push(item), n),
{
}

/// A log never holds more than its newest [`HISTORY_SIZE`] entries: after a
/// run of inserts, it holds the newest entries of what it held before followed
/// by what was inserted.
pub proof fn lemma_replay_keeps_newest<T>(log: Seq<T>, items: Seq<T>)
    requires
        log.len() <= HISTORY_SIZE,
    ensures
        replay(log, items) == keep_last(log + items, HISTORY_SIZE as nat),
    decreases items.len(),
{
    if items.len() > 0 {
        lemma_replay_keeps_newest(log, items.drop_last());
        lemma_keep_last_push(log + items.drop_last(), items.last(), HISTORY_SIZE as nat);
        assert((log + items.drop_last()).push(items.last()) =~= log + items);
    }
}

/// Any number of inserts into an empty log leaves exactly the newest
/// [`HISTORY_SIZE`] of the inserted items, in insertion order: all of them
/// while they fit, the last [`HISTORY_SIZE`] from then on.
pub proof fn lemma_inserts_into_empty<T>(items: Seq<T>)
    ensures
        replay(Seq::<T>::empty(), items) == keep_last(items, HISTORY_SIZE as nat),
        replay(Seq::<T>::empty(), items).len() == if items.len() <= HISTORY_SIZE {
            items.len()
        } else {
            HISTORY_SIZE as nat
        },
        items.len() <= HISTORY_SIZE ==> replay(Seq::<T>::empty(), items) == items,
        items.len() >= HISTORY_SIZE ==> replay(Seq::<T>::empty(), items) == items.subrange(
            items.len() - HISTORY_SIZE,
            items.len() as int,
        ),
{
    lemma_replay_keeps_newest(Seq::<T>::empty(), items);
    assert(Seq::<T>::empty() + items =~= items);
}

} // verus!
