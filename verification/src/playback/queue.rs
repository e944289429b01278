//! The play queue: an ordered list of track ids, the position of the track
//! that plays, the tracks played before, and the repeat and shuffle modes.

use rand::rngs::ThreadRng;
use rand::Rng;
use vstd::prelude::*;

use crate::types::{RepeatMode, ShuffleMode, TrackId};

verus! {

#[verifier::external_type_specification]
#[verifier::external_body]
pub struct ExThreadRng(ThreadRng);

/// `rand::thread_rng`: a handle to the calling thread's random generator.
/// Nothing is stated of the handle.
#[verifier::external_body]
fn new_rng() -> ThreadRng {
    rand::thread_rng()
}

/// `Rng::gen_range` over `0..=upper`: rand returns a value of that range,
/// chosen at random. The range is never empty, so the call does not panic.
#[verifier::external_body]
fn random_up_to(rng: &mut ThreadRng, upper: usize) -> (j: usize)
    ensures
        j <= upper,
{
    rng.gen_range(0..=upper)
}

/// `order` lists each of `0..n` exactly once.
pub open spec fn is_permutation(order: Seq<usize>, n: nat) -> bool {
    &&& order.len() == n
    &&& forall|k: int| 0 <= k < n ==> #[trigger] order[k] < n
    &&& forall|j: int, k: int| 0 <= j < k < n ==> #[trigger] order[j] != #[trigger] order[k]
    &&& forall|v: usize| v < n ==> #[trigger] occurs_in(order, v)
}

/// `v` stands somewhere in `order`.
pub open spec fn occurs_in(order: Seq<usize>, v: usize) -> bool {
    exists|k: int| 0 <= k < order.len() && order[k] == v
}

/// Where `i` stands in `order`, if it stands there.
pub open spec fn position_in(order: Seq<usize>, i: usize) -> Option<int> {
    if exists|k: int| 0 <= k < order.len() && order[k] == i {
        Some(choose|k: int| 0 <= k < order.len() && order[k] == i)
    } else {
        None
    }
}

/// The queue index that follows `cur` in a queue of `len` tracks walked in
/// order, under `repeat` (for repeat modes other than `One`).
pub open spec fn sequential_next(cur: Option<usize>, len: nat, repeat: RepeatMode) -> Option<usize> {
    if repeat == RepeatMode::All {
        if len == 0 {
            cur
        } else {
            match cur {
                None => Some(0usize),
                Some(i) => Some(((i + 1) % (len as int)) as usize),
            }
        }
    } else {
        match cur {
            None => if len == 0 {
                None
            } else {
                Some(0usize)
            },
            Some(i) => if i + 1 >= len {
                None
            } else {
                Some((i + 1) as usize)
            },
        }
    }
}

/// Where stepping forward in order would count past the largest index: the
/// current index is the largest `usize` and the step adds one to it.
pub open spec fn next_overflows(cur: Option<usize>, len: nat, shuffle: ShuffleMode, repeat: RepeatMode) -> bool {
    &&& shuffle == ShuffleMode::Off
    &&& cur == Some(usize::MAX)
    &&& (repeat == RepeatMode::Off || (repeat == RepeatMode::All && len > 0))
}

/// The queue index that follows `cur` when the queue is walked in `order`,
/// under `repeat` (for repeat modes other than `One`).
pub open spec fn shuffled_next(order: Seq<usize>, cur: Option<usize>, repeat: RepeatMode) -> Option<usize> {
    let next_pos = match cur {
        Some(i) => match position_in(order, i) {
            Some(p) => p + 1,
            None => 0,
        },
        None => 0,
    };
    if next_pos >= order.len() {
        if repeat == RepeatMode::All {
            Some(order[0])
        } else {
            None
        }
    } else {
        Some(order[next_pos])
    }
}

/// The queue index that precedes `cur` in a queue of `len` tracks.
pub open spec fn previous_index(cur: Option<usize>, len: nat, repeat: RepeatMode) -> Option<usize> {
    if len == 0 {
        cur
    } else {
        match cur {
            None => Some(0usize),
            Some(i) => if repeat == RepeatMode::Off {
                if i == 0 {
                    None
                } else {
                    Some((i - 1) as usize)
                }
            } else if i == 0 {
                Some((len - 1) as usize)
            } else {
                Some((i - 1) as usize)
            },
        }
    }
}

/// The current index after the track at `index` left a queue that now holds
/// `new_len` tracks.
pub open spec fn index_after_remove(cur: Option<usize>, index: int, new_len: int) -> Option<usize> {
    match cur {
        None => None,
        Some(c) => if index < c {
            Some((c - 1) as usize)
        } else if index == c {
            if new_len == 0 {
                None
            } else if index >= new_len {
                Some((new_len - 1) as usize)
            } else {
                Some(c)
            }
        } else {
            Some(c)
        },
    }
}

/// The current index after the track at `from` moved to `to`.
pub open spec fn index_after_move(cur: Option<usize>, from: int, to: int) -> Option<usize> {
    match cur {
        None => None,
        Some(c) => if from == c {
            Some(to as usize)
        } else if from < c && to >= c {
            Some((c - 1) as usize)
        } else if from > c && to <= c {
            Some((c + 1) as usize)
        } else {
            Some(c)
        },
    }
}

/// The track at `index`, when there is one.
pub open spec fn track_at(tracks: Seq<TrackId>, index: Option<usize>) -> Option<TrackId> {
    match index {
        Some(i) => if i < tracks.len() {
            Some(tracks[i as int])
        } else {
            None
        },
        None => None,
    }
}

pub struct PlaybackQueue {
    pub tracks: Vec<TrackId>,
    pub current_index: Option<usize>,
    pub history: Vec<TrackId>,
    pub repeat: RepeatMode,
    pub shuffle: ShuffleMode,
}

impl PlaybackQueue {
    /// The current index, when there is one, points into the queue.
    pub open spec fn wf(&self) -> bool {
        match self.current_index {
            Some(i) => i < self.tracks@.len(),
            None => true,
        }
    }

    /// The track that plays, when there is one.
    pub open spec fn current_track(&self) -> Option<TrackId> {
        track_at(self.tracks@, self.current_index)
    }

    pub fn new() -> (q: Self)
        ensures
            q.tracks@ == Seq::<TrackId>::empty(),
            q.current_index is None,
            q.history@ == Seq::<TrackId>::empty(),
            q.repeat == RepeatMode::Off,
            q.shuffle == ShuffleMode::Off,
            q.wf(),
    {
        PlaybackQueue {
            tracks: Vec::new(),
            current_index: None,
            history: Vec::new(),
            repeat: RepeatMode::Off,
            shuffle: ShuffleMode::Off,
        }
    }

    pub fn len(&self) -> (n: usize)
        ensures
            n == self.tracks@.len(),
    {
        self.tracks.len()
    }

    pub fn is_empty(&self) -> (b: bool)
        ensures
            b == (self.tracks@.len() == 0),
    {
        self.tracks.is_empty()
    }

    pub fn is_current(&self, index: usize) -> (b: bool)
        ensures
            b == (self.current_index == Some(index)),
    {
        match self.current_index {
            Some(c) => c == index,
            None => false,
        }
    }

    pub fn add(&mut self, track_id: TrackId)
        ensures
            final(self).tracks@ == old(self).tracks@.push(track_id),
            final(self).current_index == old(self).current_index,
            final(self).history@ == old(self).history@,
            final(self).repeat == old(self).repeat,
            final(self).shuffle == old(self).shuffle,
            old(self).wf() ==> final(self).wf(),
    {
        self.tracks.push(track_id);
    }

    /// Removes the track at `index`; false when there is none.
    pub fn remove(&mut self, index: usize) -> (removed: bool)
        ensures
            removed == (index < old(self).tracks@.len()),
            !removed ==> *final(self) == *old(self),
            removed ==> final(self).tracks@ == old(self).tracks@.remove(index as int),
            removed ==> final(self).current_index == index_after_remove(
                old(self).current_index,
                index as int,
                old(self).tracks@.len() - 1,
            ),
            final(self).history@ == old(self).history@,
            final(self).repeat == old(self).repeat,
            final(self).shuffle == old(self).shuffle,
            old(self).wf() ==> final(self).wf(),
    {
        if index >= self.tracks.len() {
            return false;
        }
        self.tracks.remove(index);
        if let Some(current) = self.current_index {
            if index < current {
                self.current_index = Some(current - 1);
            } else if index == current {
                if self.tracks.is_empty() {
                    self.current_index = None;
                } else if index >= self.tracks.len() {
                    self.current_index = Some(self.tracks.len() - 1);
                }
            }
        }
        true
    }

    pub fn clear(&mut self)
        ensures
            final(self).tracks@ == Seq::<TrackId>::empty(),
            final(self).current_index is None,
            final(self).history@ == Seq::<TrackId>::empty(),
            final(self).repeat == old(self).repeat,
            final(self).shuffle == old(self).shuffle,
            final(self).wf(),
    {
        self.tracks.clear();
        self.current_index = None;
        self.history.clear();
    }

    /// Moves the track at `from` so that it stands at `to`; nothing happens
    /// when `from` is not in the queue or `to` is past its end.
    pub fn move_track(&mut self, from: usize, to: usize)
        requires
            !(from < old(self).tracks@.len() && to == old(self).tracks@.len()),
        ensures
            (from >= old(self).tracks@.len() || to > old(self).tracks@.len()) ==> *final(self)
                == *old(self),
            (from < old(self).tracks@.len() && to < old(self).tracks@.len()) ==> {
                &&& final(self).tracks@ == old(self).tracks@.remove(from as int).insert(
                    to as int,
                    old(self).tracks@[from as int],
                )
                &&& final(self).current_index == index_after_move(
                    old(self).current_index,
                    from as int,
                    to as int,
                )
            },
            final(self).history@ == old(self).history@,
            final(self).repeat == old(self).repeat,
            final(self).shuffle == old(self).shuffle,
            old(self).wf() ==> final(self).wf(),
    {
        if from >= self.tracks.len() || to > self.tracks.len() {
            return ;
        }
        let track = self.tracks.remove(from);
        self.tracks.insert(to, track);
        if let Some(current) = self.current_index {
            if from == current {
                self.current_index = Some(to);
            } else if from < current && to >= current {
                self.current_index = Some(current - 1);
            } else if from > current && to <= current {
                self.current_index = Some(current + 1);
            }
        }
    }

    pub fn current(&self) -> (r: Option<&TrackId>)
        ensures
            match r {
                Some(t) => self.current_track() == Some(*t),
                None => self.current_track() is None,
            },
    {
        match self.current_index {
            Some(i) => if i < self.tracks.len() {
                Some(&self.tracks[i])
            } else {
                None
            },
            None => None,
        }
    }

    /// Stepping back lands inside the queue: the index before the current
    /// one is no further than the last track.
    pub open spec fn back_in_range(&self) -> bool {
        self.tracks@.len() > 0 ==> match self.current_index {
            Some(i) => i <= self.tracks@.len(),
            None => true,
        }
    }

    /// Whether `next` can step without counting past the largest index.
    pub fn can_step_forward(&self) -> (b: bool)
        ensures
            b == !next_overflows(self.current_index, self.tracks@.len(), self.shuffle, self.repeat),
    {
        match self.current_index {
            Some(i) => !(self.shuffle == ShuffleMode::Off && i == usize::MAX && (self.repeat == RepeatMode::Off || (
            self.repeat == RepeatMode::All && self.tracks.len() > 0))),
            None => true,
        }
    }

    /// Whether `previous` lands inside the queue.
    pub fn can_step_back(&self) -> (b: bool)
        ensures
            b == self.back_in_range(),
    {
        match self.current_index {
            Some(i) => self.tracks.len() == 0 || i <= self.tracks.len(),
            None => true,
        }
    }

    /// The fields other than the current index are those of `other`.
    pub open spec fn same_except_index(&self, other: &PlaybackQueue) -> bool {
        &&& self.tracks@ == other.tracks@
        &&& self.history@ == other.history@
        &&& self.repeat == other.repeat
        &&& self.shuffle == other.shuffle
    }

    /// Advances to the next track and returns it; the walk follows the shuffle
    /// and repeat modes. With shuffle on, the order is drawn at random; any
    /// order of the queue's positions may be the one used.
    pub fn next(&mut self) -> (r: Option<TrackId>)
        requires
            !next_overflows(old(self).current_index, old(self).tracks@.len(), old(self).shuffle, old(self).repeat),
        ensures
            final(self).same_except_index(old(self)),
            old(self).wf() ==> final(self).wf(),
            r == track_at(old(self).tracks@, final(self).current_index),
            (old(self).tracks@.len() == 0 && old(self).shuffle == ShuffleMode::On) ==> final(self).current_index
                == old(self).current_index,
            old(self).repeat == RepeatMode::One ==> final(self).current_index == old(
                self,
            ).current_index,
            (old(self).repeat != RepeatMode::One && old(self).shuffle == ShuffleMode::Off)
                ==> final(self).current_index == sequential_next(
                old(self).current_index,
                old(self).tracks@.len(),
                old(self).repeat,
            ),
            (old(self).repeat != RepeatMode::One && old(self).shuffle == ShuffleMode::On
                && old(self).tracks@.len() > 0) ==> exists|order: Seq<usize>|
                is_permutation(order, old(self).tracks@.len()) && final(self).current_index
                    == shuffled_next(order, old(self).current_index, old(self).repeat),
    {
        match self.shuffle {
            ShuffleMode::On => self.next_shuffled(),
            ShuffleMode::Off => self.next_sequential(),
        }
    }

    fn next_sequential(&mut self) -> (r: Option<TrackId>)
        requires
            !next_overflows(old(self).current_index, old(self).tracks@.len(), ShuffleMode::Off, old(self).repeat),
        ensures
            final(self).same_except_index(old(self)),
            old(self).wf() ==> final(self).wf(),
            r == track_at(old(self).tracks@, final(self).current_index),
            old(self).repeat == RepeatMode::One ==> final(self).current_index == old(
                self,
            ).current_index,
            old(self).repeat != RepeatMode::One ==> final(self).current_index == sequential_next(
                old(self).current_index,
                old(self).tracks@.len(),
                old(self).repeat,
            ),
    {
        let n = self.tracks.len();
        match self.repeat {
            RepeatMode::One => match self.current() {
                Some(t) => Some(t.clone()),
                None => None,
            },
            RepeatMode::All => {
                if n == 0 {
                    return None;
                }
                match self.current_index {
                    None => {
                        self.current_index = Some(0);
                        Some(self.tracks[0].clone())
                    },
                    Some(i) => {
                        let next = (i + 1) % n;
                        self.current_index = Some(next);
                        Some(self.tracks[next].clone())
                    },
                }
            },
            RepeatMode::Off => {
                match self.current_index {
                    None => {
                        if self.tracks.is_empty() {
                            return None;
                        }
                        self.current_index = Some(0);
                        Some(self.tracks[0].clone())
                    },
                    Some(i) => {
                        let next = i + 1;
                        if next >= self.tracks.len() {
                            self.current_index = None;
                            return None;
                        }
                        self.current_index = Some(next);
                        Some(self.tracks[next].clone())
                    },
                }
            },
        }
    }

    fn next_shuffled(&mut self) -> (r: Option<TrackId>)
        ensures
            final(self).same_except_index(old(self)),
            old(self).wf() ==> final(self).wf(),
            r == track_at(old(self).tracks@, final(self).current_index),
            old(self).tracks@.len() == 0 ==> final(self).current_index == old(self).current_index,
            old(self).repeat == RepeatMode::One ==> final(self).current_index == old(
                self,
            ).current_index,
            (old(self).repeat != RepeatMode::One && old(self).tracks@.len() > 0) ==> exists|
                order: Seq<usize>,
            |
                is_permutation(order, old(self).tracks@.len()) && final(self).current_index
                    == shuffled_next(order, old(self).current_index, old(self).repeat),
    {
        if self.tracks.is_empty() {
            return None;
        }
        let indices = self.shuffle_indices();
        self.next_shuffled_in(&indices)
    }

    /// Advances along the shuffled walk `order` and returns the new track.
    pub fn next_shuffled_in(&mut self, order: &Vec<usize>) -> (r: Option<TrackId>)
        requires
            is_permutation(order@, old(self).tracks@.len()),
        ensures
            final(self).same_except_index(old(self)),
            old(self).wf() ==> final(self).wf(),
            r == track_at(old(self).tracks@, final(self).current_index),
            old(self).tracks@.len() == 0 ==> final(self).current_index == old(self).current_index,
            old(self).repeat == RepeatMode::One ==> final(self).current_index == old(
                self,
            ).current_index,
            (old(self).repeat != RepeatMode::One && old(self).tracks@.len() > 0)
                ==> final(self).current_index == shuffled_next(
                order@,
                old(self).current_index,
                old(self).repeat,
            ),
    {
        if self.tracks.is_empty() {
            return None;
        }
        let n = order.len();
        let mut current_pos: Option<usize> = None;
        if let Some(i) = self.current_index {
            let mut k: usize = 0;
            while k < n
                invariant_except_break
                    current_pos is None,
                invariant
                    n == order@.len(),
                    k <= n,
                    forall|j: int| 0 <= j < k ==> order@[j] != i,
                ensures
                    current_pos matches Some(p) ==> p < n && order@[p as int] == i,
                    current_pos is None ==> forall|j: int| 0 <= j < n ==> order@[j] != i,
                decreases n - k,
            {
                if order[k] == i {
                    current_pos = Some(k);
                    break;
                }
                k = k + 1;
            }
            proof {
                match current_pos {
                    Some(p) => {
                        assert(order@[p as int] == i);
                        let q = choose|q: int| 0 <= q < order@.len() && order@[q] == i;
                        if q != p {
                            if q < p {
                                assert(order@[q] != order@[p as int]);
                            } else {
                                assert(order@[p as int] != order@[q]);
                            }
                        }
                        assert(position_in(order@, i) == Some(p as int));
                    },
                    None => {
                        assert(position_in(order@, i) is None);
                    },
                }
            }
        }
        match self.repeat {
            RepeatMode::One => match self.current() {
                Some(t) => Some(t.clone()),
                None => None,
            },
            RepeatMode::All | RepeatMode::Off => {
                let next_pos = match current_pos {
                    Some(p) => p + 1,
                    None => 0,
                };
                if next_pos >= n {
                    if self.repeat == RepeatMode::All {
                        let first = order[0];
                        self.current_index = Some(first);
                        Some(self.tracks[first].clone())
                    } else {
                        self.current_index = None;
                        None
                    }
                } else {
                    let at = order[next_pos];
                    self.current_index = Some(at);
                    Some(self.tracks[at].clone())
                }
            },
        }
    }

    /// Steps back to the track before the current one and returns it.
    pub fn previous(&mut self) -> (r: Option<TrackId>)
        requires
            old(self).back_in_range(),
        ensures
            final(self).same_except_index(old(self)),
            old(self).wf() ==> final(self).wf(),
            old(self).tracks@.len() > 0 ==> final(self).wf(),
            final(self).current_index == previous_index(
                old(self).current_index,
                old(self).tracks@.len(),
                old(self).repeat,
            ),
            r == track_at(old(self).tracks@, final(self).current_index),
    {
        if self.tracks.is_empty() {
            return None;
        }
        match self.current_index {
            None => {
                self.current_index = Some(0);
                Some(self.tracks[0].clone())
            },
            Some(i) => {
                if self.repeat == RepeatMode::Off && i == 0 {
                    self.current_index = None;
                    return None;
                }
                let prev = match self.repeat {
                    RepeatMode::Off => i - 1,
                    RepeatMode::All | RepeatMode::One => {
                        if i == 0 {
                            self.tracks.len() - 1
                        } else {
                            i - 1
                        }
                    },
                };
                self.current_index = Some(prev);
                Some(self.tracks[prev].clone())
            },
        }
    }

    /// Makes the track at `index` the current one; the track that was current
    /// goes to the history.
    pub fn play_index(&mut self, index: usize) -> (r: Option<&TrackId>)
        requires
            old(self).wf(),
        ensures
            final(self).wf(),
            index >= old(self).tracks@.len() ==> *final(self) == *old(self) && r is None,
            index < old(self).tracks@.len() ==> {
                &&& final(self).tracks@ == old(self).tracks@
                &&& final(self).current_index == Some(index)
                &&& final(self).history@ == match old(self).current_index {
                    Some(c) => old(self).history@.push(old(self).tracks@[c as int]),
                    None => old(self).history@,
                }
                &&& final(self).repeat == old(self).repeat
                &&& final(self).shuffle == old(self).shuffle
                &&& r == Some(&old(self).tracks@[index as int])
            },
    {
        if index >= self.tracks.len() {
            return None;
        }
        if let Some(current) = self.current_index {
            let t = self.tracks[current].clone();
            self.history.push(t);
        }
        self.current_index = Some(index);
        Some(&self.tracks[index])
    }

    /// Replaces the queue; `start_index` becomes current when it is in range.
    pub fn set_queue(&mut self, tracks: Vec<TrackId>, start_index: usize)
        ensures
            final(self).tracks@ == tracks@,
            final(self).history@ == Seq::<TrackId>::empty(),
            final(self).current_index == if start_index < tracks@.len() {
                Some(start_index)
            } else {
                None
            },
            final(self).repeat == old(self).repeat,
            final(self).shuffle == old(self).shuffle,
            final(self).wf(),
    {
        self.tracks = tracks;
        self.history.clear();
        if !self.tracks.is_empty() && start_index < self.tracks.len() {
            self.current_index = Some(start_index);
        } else {
            self.current_index = None;
        }
    }

    /// A random order of the queue's positions.
    pub fn shuffle_indices(&self) -> (order: Vec<usize>)
        ensures
            is_permutation(order@, self.tracks@.len()),
    {
        let n = self.tracks.len();
        let mut indices: Vec<usize> = Vec::new();
        let mut k: usize = 0;
        while k < n
            invariant
                k <= n,
                indices@.len() == k,
                forall|j: int| 0 <= j < k ==> #[trigger] indices@[j] == j,
            decreases n - k,
        {
            indices.push(k);
            k = k + 1;
        }
        assert forall|v: usize| v < n implies #[trigger] occurs_in(indices@, v) by {
            assert(indices@[v as int] == v);
        }
        let mut rng = new_rng();
        let mut i: usize = n;
        while i > 1
            invariant
                i <= n,
                is_permutation(indices@, n as nat),
            decreases i,
        {
            i = i - 1;
            let j = random_up_to(&mut rng, i);
            let a = indices[i];
            let b = indices[j];
            let ghost before = indices@;
            indices.set(i, b);
            indices.set(j, a);
            proof {
                let after = indices@;
                assert forall|v: usize| v < n implies #[trigger] occurs_in(after, v) by {
                    assert(occurs_in(before, v));
                    let k = choose|k: int| 0 <= k < before.len() && before[k] == v;
                    if k == i {
                        assert(after[j as int] == v);
                    } else if k == j {
                        assert(after[i as int] == v);
                    } else {
                        assert(after[k] == v);
                    }
                }
                assert forall|x: int, y: int| 0 <= x < y < n implies #[trigger] after[x]
                    != #[trigger] after[y] by {
                    let bx = if x == i {
                        j as int
                    } else if x == j {
                        i as int
                    } else {
                        x
                    };
                    let by_ = if y == i {
                        j as int
                    } else if y == j {
                        i as int
                    } else {
                        y
                    };
                    assert(after[x] == before[bx]);
                    assert(after[y] == before[by_]);
                    if bx < by_ {
                        assert(before[bx] != before[by_]);
                    } else {
                        assert(before[by_] != before[bx]);
                    }
                }
            }
        }
        indices
    }

    pub fn toggle_repeat(&mut self)
        ensures
            final(self).repeat == old(self).repeat.next_mode(),
            final(self).tracks@ == old(self).tracks@,
            final(self).current_index == old(self).current_index,
            final(self).history@ == old(self).history@,
            final(self).shuffle == old(self).shuffle,
    {
        self.repeat = self.repeat.cycle();
    }

    pub fn toggle_shuffle(&mut self)
        ensures
            final(self).shuffle == old(self).shuffle.flipped(),
            final(self).tracks@ == old(self).tracks@,
            final(self).current_index == old(self).current_index,
            final(self).history@ == old(self).history@,
            final(self).repeat == old(self).repeat,
    {
        self.shuffle = match self.shuffle {
            ShuffleMode::Off => ShuffleMode::On,
            ShuffleMode::On => ShuffleMode::Off,
        };
    }

    /// The tracks from the current one to the end (the whole queue when none
    /// is current).
    pub fn queue_from_current(&self) -> (r: Vec<TrackId>)
        ensures
            r@ == match self.current_index {
                None => self.tracks@,
                Some(i) => if i >= self.tracks@.len() {
                    Seq::<TrackId>::empty()
                } else {
                    self.tracks@.subrange(i as int, self.tracks@.len() as int)
                },
            },
    {
        let start = match self.current_index {
            None => 0,
            Some(i) => {
                if i >= self.tracks.len() {
                    return Vec::new();
                }
                i
            },
        };
        let n = self.tracks.len();
        let mut out: Vec<TrackId> = Vec::new();
        let mut k = start;
        while k < n
            invariant
                start <= k <= n,
                n == self.tracks@.len(),
                out@ == self.tracks@.subrange(start as int, k as int),
            decreases n - k,
        {
            out.push(self.tracks[k].clone());
            assert(out@ =~= self.tracks@.subrange(start as int, k as int + 1));
            k = k + 1;
        }
        assert(self.tracks@.subrange(0, n as int) =~= self.tracks@);
        out
    }
}

/// Removing any track but the current one leaves the same track current.
pub proof fn lemma_remove_keeps_current(tracks: Seq<TrackId>, current: usize, index: usize)
    requires
        current < tracks.len(),
        index < tracks.len(),
        index != current,
    ensures
        track_at(
            tracks.remove(index as int),
            index_after_remove(Some(current), index as int, tracks.len() - 1),
        ) == Some(tracks[current as int]),
{
}

/// Removing the current track makes the track that followed it current; the
/// new last track where the removed one was last; and no track where the
/// queue is emptied.
pub proof fn lemma_remove_current_moves_on(tracks: Seq<TrackId>, current: usize)
    requires
        current < tracks.len(),
    ensures
        tracks.len() == 1 ==> index_after_remove(Some(current), current as int, tracks.len() - 1) is None,
        current + 1 < tracks.len() ==> track_at(
            tracks.remove(current as int),
            index_after_remove(Some(current), current as int, tracks.len() - 1),
        ) == Some(tracks[current + 1]),
        current + 1 == tracks.len() && tracks.len() > 1 ==> track_at(
            tracks.remove(current as int),
            index_after_remove(Some(current), current as int, tracks.len() - 1),
        ) == Some(tracks[current - 1]),
{
}

/// Moving a track to another place leaves the same track current, whichever
/// track moved.
pub proof fn lemma_move_keeps_current(tracks: Seq<TrackId>, current: usize, from: usize, to: usize)
    requires
        current < tracks.len(),
        from < tracks.len(),
        to < tracks.len(),
    ensures
        track_at(
            tracks.remove(from as int).insert(to as int, tracks[from as int]),
            index_after_move(Some(current), from as int, to as int),
        ) == Some(tracks[current as int]),
{
    let moved = tracks.remove(from as int).insert(to as int, tracks[from as int]);
    assert(moved.len() == tracks.len());
    let c = current as int;
    if from == current {
        assert(moved[to as int] == tracks[c]);
    } else if from < current && to >= current {
        assert(moved[c - 1] == tracks[c]);
    } else if from > current && to <= current {
        assert(moved[c + 1] == tracks[c]);
    } else if from < current {
        assert(moved[c] == tracks[c]);
    } else {
        assert(moved[c] == tracks[c]);
    }
}

/// Stepping back after stepping forward in order returns to the track that
/// was current, when the step forward did not leave the queue.
pub proof fn lemma_previous_undoes_next(current: usize, len: nat, repeat: RepeatMode)
    requires
        current < len,
        len <= usize::MAX,
        repeat != RepeatMode::One,
        sequential_next(Some(current), len, repeat) is Some,
    ensures
        previous_index(sequential_next(Some(current), len, repeat), len, repeat) == Some(current),
{
    if current + 1 < len {
        vstd::arithmetic::div_mod::lemma_small_mod((current + 1) as nat, len);
    } else {
        vstd::arithmetic::div_mod::lemma_mod_self_0(len as int);
    }
}

/// Walking a shuffled order without repeat plays each track of the queue
/// exactly once: the walk starts at the first position of the order, goes
/// from each position to the following one, and ends after the last.
pub proof fn lemma_shuffled_walk(order: Seq<usize>, len: nat, p: int)
    requires
        is_permutation(order, len),
        len > 0,
        0 <= p < len,
    ensures
        shuffled_next(order, None, RepeatMode::Off) == Some(order[0]),
        p + 1 < len ==> shuffled_next(order, Some(order[p]), RepeatMode::Off) == Some(order[p + 1]),
        p + 1 == len ==> shuffled_next(order, Some(order[p]), RepeatMode::Off) is None,
        p + 1 == len ==> shuffled_next(order, Some(order[p]), RepeatMode::All) == Some(order[0]),
{
    let i = order[p];
    assert(exists|k: int| 0 <= k < order.len() && order[k] == i) by {
        assert(order[p] == i);
    }
    let q = choose|k: int| 0 <= k < order.len() && order[k] == i;
    if q != p {
        if q < p {
            assert(order[q] != order[p]);
        } else {
            assert(order[p] != order[q]);
        }
    }
    assert(position_in(order, i) == Some(p));
}

} // verus!
