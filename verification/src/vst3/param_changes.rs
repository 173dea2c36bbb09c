//! The parameter changes a host hands a plugin's processor.
//!
//! VST3 separates the edit controller, which owns the parameter list and their values, from the
//! audio processor. Changing a parameter on the controller is not enough to make it audible: the
//! host forwards the new value to the processor on the next `process` call, as a queue of
//! automation points for each parameter that changed. The values are carried through untouched.

use vstd::prelude::*;

use super::{TResult, K_INVALID_ARGUMENT, K_RESULT_OK};

verus! {

/// The automation points recorded for a single parameter, in the order they were added: each a
/// sample offset into the block and a value.
pub struct ParamValueQueue<V> {
    id: u32,
    points: Vec<(i32, V)>,
}

impl<V> ParamValueQueue<V> {
    /// The parameter the points are for.
    pub closed spec fn id(&self) -> u32 {
        self.id
    }

    /// The points, in the order they were added.
    pub closed spec fn points(&self) -> Seq<(i32, V)> {
        self.points@
    }
}

impl<V: Copy> ParamValueQueue<V> {
    /// An empty queue for the parameter `id`.
    pub fn new(id: u32) -> (queue: Self)
        ensures
            queue.id() == id,
            queue.points() == Seq::<(i32, V)>::empty(),
    {
        ParamValueQueue { id, points: Vec::new() }
    }

    /// The parameter the points are for.
    pub fn get_parameter_id(&self) -> (id: u32)
        ensures
            id == self.id(),
    {
        self.id
    }

    /// The number of points, which fits the count type while there are at most `i32::MAX`.
    pub fn get_point_count(&self) -> (count: i32)
        ensures
            self.points().len() <= i32::MAX ==> count == self.points().len(),
    {
        let len = self.points.len();
        if len <= 2147483647 {
            len as i32
        } else {
            2147483647
        }
    }

    /// The point at `index`, refused with `K_INVALID_ARGUMENT` when there is none there.
    pub fn get_point(&self, index: i32) -> (result: (TResult, Option<(i32, V)>))
        ensures
            (0 <= index < self.points().len()) ==> result == (K_RESULT_OK, Some(self.points()[index as int])),
            !(0 <= index < self.points().len()) ==> result == (K_INVALID_ARGUMENT, None::<(i32, V)>),
    {
        if index >= 0 && (index as usize) < self.points.len() {
            (K_RESULT_OK, Some(self.points[index as usize]))
        } else {
            (K_INVALID_ARGUMENT, None)
        }
    }

    /// Appends a point; returns the result code and the index it was stored at.
    pub fn add_point(&mut self, sample_offset: i32, value: V) -> (result: (TResult, i32))
        requires
            old(self).points().len() < i32::MAX,
        ensures
            result.0 == K_RESULT_OK,
            result.1 == old(self).points().len(),
            final(self).id() == old(self).id(),
            final(self).points() == old(self).points().push((sample_offset, value)),
    {
        self.points.push((sample_offset, value));
        (K_RESULT_OK, (self.points.len() - 1) as i32)
    }
}

/// A collection of queues, one for each parameter that changed.
pub struct ParameterChanges<V> {
    queues: Vec<(u32, ParamValueQueue<V>)>,
}

/// The position of the queue for `id`, if there is one.
pub open spec fn queue_position<V>(queues: Seq<(u32, ParamValueQueue<V>)>, id: u32) -> Option<int>
    decreases queues.len(),
{
    if queues.len() == 0 {
        None
    } else {
        match queue_position(queues.drop_last(), id) {
            Some(i) => Some(i),
            None => if queues.last().0 == id {
                Some(queues.len() - 1)
            } else {
                None
            },
        }
    }
}

/// Each queue is filed under the parameter it is for, and no parameter has two queues.
pub open spec fn queues_well_formed<V>(queues: Seq<(u32, ParamValueQueue<V>)>) -> bool {
    &&& forall|i: int| 0 <= i < queues.len() ==> #[trigger] queues[i].1.id() == queues[i].0
    &&& forall|i: int, j: int| 0 <= i < j < queues.len() ==> #[trigger] queues[i].0 != #[trigger] queues[j].0
}

/// The queue for `id` is at the position of the first queue filed under `id`.
pub proof fn lemma_queue_position<V>(queues: Seq<(u32, ParamValueQueue<V>)>, id: u32, p: int)
    requires
        0 <= p <= queues.len(),
        forall|k: int| 0 <= k < p ==> #[trigger] queues[k].0 != id,
        p < queues.len() ==> queues[p].0 == id,
    ensures
        queue_position(queues, id) == if p < queues.len() { Some(p) } else { None::<int> },
    decreases queues.len(),
{
    if queues.len() > 0 {
        if p < queues.len() - 1 {
            lemma_queue_position(queues.drop_last(), id, p);
        } else {
            lemma_queue_position(queues.drop_last(), id, queues.len() - 1);
        }
    }
}

impl<V> ParameterChanges<V> {
    /// The queues, each with the parameter it is filed under.
    pub closed spec fn queues(&self) -> Seq<(u32, ParamValueQueue<V>)> {
        self.queues@
    }

    /// Each queue is filed under its parameter, and no parameter has two queues.
    #[verifier::type_invariant]
    spec fn queues_invariant(self) -> bool {
        queues_well_formed(self.queues@)
    }
}

impl<V: Copy> ParameterChanges<V> {
    /// No changes.
    pub fn new() -> (changes: Self)
        ensures
            changes.queues() == Seq::<(u32, ParamValueQueue<V>)>::empty(),
            queues_well_formed(changes.queues()),
    {
        ParameterChanges { queues: Vec::new() }
    }

    /// Returns the index of the queue for `id`, creating an empty one at the end when `id` has
    /// not been seen before.
    fn ensure_queue_index(queues: &mut Vec<(u32, ParamValueQueue<V>)>, id: u32) -> (index: usize)
        requires
            queues_well_formed(old(queues)@),
        ensures
            queues_well_formed(final(queues)@),
            queue_position(old(queues)@, id) matches Some(p) ==> index == p && final(queues)@ == old(queues)@,
            queue_position(old(queues)@, id) is None ==> index == old(queues)@.len() && final(queues)@.len()
                == old(queues)@.len() + 1 && final(queues)@.drop_last() == old(queues)@ && final(queues)@.last().0
                == id && final(queues)@.last().1.points() == Seq::<(i32, V)>::empty(),
            index < final(queues)@.len(),
            final(queues)@[index as int].0 == id,
    {
        let n = queues.len();
        let mut i: usize = 0;
        while i < n
            invariant
                n == queues@.len(),
                queues@ == old(queues)@,
                queues_well_formed(queues@),
                i <= n,
                forall|k: int| 0 <= k < i ==> #[trigger] queues@[k].0 != id,
            decreases n - i,
        {
            if queues[i].0 == id {
                proof { lemma_queue_position(queues@, id, i as int); }
                return i;
            }
            i = i + 1;
        }
        proof { lemma_queue_position(queues@, id, n as int); }
        let ghost before = queues@;
        queues.push((id, ParamValueQueue::new(id)));
        assert(queues@.drop_last() =~= before);
        n
    }

    /// Records a single automation point for `id` at `sample_offset`: it is appended to the
    /// queue for `id`, which is created when `id` has no queue yet. The other queues are left as
    /// they are.
    pub fn add_change(&mut self, id: u32, sample_offset: i32, value: V)
        requires
            forall|i: int| 0 <= i < old(self).queues().len() ==> #[trigger] old(self).queues()[i].1.points().len() < i32::MAX,
        ensures
            queues_well_formed(final(self).queues()),
            ({
                let before = old(self).queues();
                let after = final(self).queues();
                let p = match queue_position(before, id) {
                    Some(p) => p,
                    None => before.len() as int,
                };
                &&& after.len() == if p < before.len() { before.len() } else { before.len() + 1 }
                &&& after[p].0 == id
                &&& after[p].1.points() == if p < before.len() {
                    before[p].1.points().push((sample_offset, value))
                } else {
                    seq![(sample_offset, value)]
                }
                &&& forall|i: int| 0 <= i < before.len() && i != p ==> #[trigger] after[i] == before[i]
            }),
    {
        proof {
            use_type_invariant(&*self);
        }
        let mut queues: Vec<(u32, ParamValueQueue<V>)> = Vec::new();
        std::mem::swap(&mut queues, &mut self.queues);
        let position = Self::ensure_queue_index(&mut queues, id);
        let ghost middle = queues@;
        let (key, mut queue) = queues.remove(position);
        assert(middle[position as int].1.points().len() < i32::MAX) by {
            if position < old(self).queues@.len() {
                assert(middle[position as int] == old(self).queues@[position as int]);
            }
        }
        queue.add_point(sample_offset, value);
        queues.insert(position, (key, queue));
        proof {
            assert(queues@ =~= middle.update(position as int, (key, queue)));
            assert(queue.id() == middle[position as int].1.id());
            assert forall|i: int, j: int| 0 <= i < j < queues@.len() implies #[trigger] queues@[i].0
                != #[trigger] queues@[j].0 by {
                assert(queues@[i].0 == middle[i].0);
                assert(queues@[j].0 == middle[j].0);
            }
            if position == old(self).queues@.len() {
                assert(middle[position as int].1.points() == Seq::<(i32, V)>::empty());
                assert(queue.points() =~= seq![(sample_offset, value)]);
            }
        }
        self.queues = queues;
    }

    /// The number of queues, which fits the count type while there are at most `i32::MAX`.
    pub fn get_parameter_count(&self) -> (count: i32)
        ensures
            self.queues().len() <= i32::MAX ==> count == self.queues().len(),
    {
        let len = self.queues.len();
        if len <= 2147483647 {
            len as i32
        } else {
            2147483647
        }
    }

    /// The queue at `index`, if there is one.
    pub fn get_parameter_data(&self, index: i32) -> (queue: Option<&ParamValueQueue<V>>)
        ensures
            (0 <= index < self.queues().len()) ==> queue == Some(&self.queues()[index as int].1),
            !(0 <= index < self.queues().len()) ==> queue is None,
    {
        if index >= 0 && (index as usize) < self.queues.len() {
            Some(&self.queues[index as usize].1)
        } else {
            None
        }
    }

    /// The index of the queue for `id`, which is created when `id` has no queue yet.
    pub fn add_parameter_data(&mut self, id: u32) -> (index: usize)
        ensures
            index < final(self).queues().len(),
            final(self).queues()[index as int].0 == id,
            final(self).queues()[index as int].1.id() == id,
            queues_well_formed(final(self).queues()),
            queue_position(old(self).queues(), id) matches Some(p) ==> index == p && final(self).queues() == old(self).queues(),
            queue_position(old(self).queues(), id) is None ==> index == old(self).queues().len()
                && final(self).queues().len() == old(self).queues().len() + 1
                && final(self).queues().drop_last() == old(self).queues()
                && final(self).queues().last().1.points() == Seq::<(i32, V)>::empty(),
    {
        proof {
            use_type_invariant(&*self);
        }
        let mut queues: Vec<(u32, ParamValueQueue<V>)> = Vec::new();
        std::mem::swap(&mut queues, &mut self.queues);
        let index = Self::ensure_queue_index(&mut queues, id);
        self.queues = queues;
        index
    }
}

impl<V: Copy> Default for ParameterChanges<V> {
    fn default() -> (changes: Self)
        ensures
            changes.queues() == Seq::<(u32, ParamValueQueue<V>)>::empty(),
    {
        ParameterChanges::new()
    }
}

} // verus!
