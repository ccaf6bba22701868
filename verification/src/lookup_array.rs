use crate::gas::GasMeter;
use crate::types::{IndexRange, ProcessingResult, StorageKey};
use std::collections::HashMap;
use vstd::prelude::*;

verus! {

broadcast use vstd::std_specs::hash::group_hash_axioms;

/// What an element of a `LookupArray` has to offer: it learns its index when it
/// is appended, and it tears down whatever it owns, in bounded steps, before it
/// is removed.
pub trait IndexedAndClearable: View + Sized {
    /// The element once it has been told its index.
    spec fn spec_set_index(element: Self::V, index: u64) -> Self::V;

    /// One bounded teardown step: the element, the meter and the result after it.
    spec fn spec_clear_extra_storage(element: Self::V, meter: GasMeter, max_gas: u64) -> (
        Self::V,
        GasMeter,
        ProcessingResult,
    );

    fn set_index(&mut self, index: &u64)
        ensures
            final(self)@ == Self::spec_set_index(old(self)@, *index),
    ;

    /// Tears down nested data until done or until the meter reads above
    /// `max_gas`. A step that ends in an error leaves the element as it was.
    fn clear_extra_storage(&mut self, meter: &mut GasMeter, max_gas: u64) -> (r: ProcessingResult)
        ensures
            (final(self)@, *final(meter), r) == Self::spec_clear_extra_storage(
                old(self)@,
                *old(meter),
                max_gas,
            ),
            r is Error ==> final(self)@ == old(self)@,
    ;
}

/// Why an operation on a `LookupArray` is refused.
#[derive(Clone, Copy, Debug, PartialEq, Eq, Structural)]
pub enum LookupArrayError {
    /// The index lies outside the bounds of the array.
    InvalidIndex,
}

/// Append-only store keyed by consecutive indices, pruned from the front in
/// bounded steps.
pub struct LookupArray<T: IndexedAndClearable> {
    /// The name under which a host keeps this array.
    pub storage_key: StorageKey,
    /// The elements by index.
    pub lookup_map: HashMap<u64, T>,
    /// Index of the oldest element.
    pub start_index: u64,
    /// Index of the newest element.
    pub end_index: u64,
}

/// Mathematical content of a `LookupArray`: the views of its elements by
/// index, and its bounds.
pub struct LookupArrayModel<T: IndexedAndClearable> {
    pub map: Map<u64, T::V>,
    pub start_index: u64,
    pub end_index: u64,
}

impl<T: IndexedAndClearable> View for LookupArray<T> {
    type V = LookupArrayModel<T>;

    open spec fn view(&self) -> LookupArrayModel<T> {
        LookupArrayModel {
            map: Map::new(
                |i: u64| self.lookup_map@.contains_key(i),
                |i: u64| self.lookup_map@[i]@,
            ),
            start_index: self.start_index,
            end_index: self.end_index,
        }
    }
}

impl<T: IndexedAndClearable> LookupArrayModel<T> {
    pub open spec fn empty() -> Self {
        LookupArrayModel { map: Map::empty(), start_index: 0, end_index: 0 }
    }

    pub open spec fn contains(self, index: u64) -> bool {
        self.map.contains_key(index)
    }

    pub open spec fn get(self, index: u64) -> Option<T::V> {
        if self.map.contains_key(index) {
            Some(self.map[index])
        } else {
            None
        }
    }

    /// Number of index positions from the first to the last element.
    pub open spec fn len(self) -> nat {
        if self.end_index > self.start_index {
            (self.end_index - self.start_index + 1) as nat
        } else if self.map.contains_key(self.start_index) {
            1
        } else {
            0
        }
    }

    /// Positions `start_index..=end_index` all hold an element and no other
    /// position does; an empty array rests at 0, 0.
    pub open spec fn dense(self) -> bool {
        if self.map.contains_key(self.start_index) {
            &&& self.start_index <= self.end_index
            &&& forall|i: u64|
                self.map.contains_key(i) <==> self.start_index <= i <= self.end_index
        } else {
            &&& self.start_index == 0
            &&& self.end_index == 0
            &&& self.map =~= Map::empty()
        }
    }

    /// The index that the next appended element gets.
    pub open spec fn next_index(self) -> int {
        if self.start_index == 0 && !self.map.contains_key(0) {
            0
        } else {
            self.end_index + 1
        }
    }

    pub open spec fn append(self, record: T::V) -> Self {
        let index = self.next_index() as u64;
        LookupArrayModel {
            map: self.map.insert(index, T::spec_set_index(record, index)),
            start_index: self.start_index,
            end_index: index,
        }
    }

    pub open spec fn update(self, index: u64, record: T::V) -> Self {
        LookupArrayModel {
            map: self.map.insert(index, record),
            start_index: self.start_index,
            end_index: self.end_index,
        }
    }

    /// The bounds once position `index` has been given up.
    pub open spec fn released(self, index: u64) -> Self {
        if index == self.start_index && index < self.end_index {
            LookupArrayModel { start_index: (index + 1) as u64, ..self }
        } else if index == self.end_index && index > self.start_index {
            LookupArrayModel { end_index: (index - 1) as u64, ..self }
        } else if index == self.start_index && index == self.end_index {
            LookupArrayModel { start_index: 0, end_index: 0, ..self }
        } else {
            self
        }
    }

    /// The array without the element at `index`.
    pub open spec fn without(self, index: u64) -> Self {
        LookupArrayModel { map: self.map.remove(index), ..self }.released(index)
    }

    /// One removal step at `index`: the step is burnt, the element tears down,
    /// and only a finished teardown gives the position up.
    pub open spec fn remove_at(self, meter: GasMeter, index: u64, max_gas: u64) -> (
        Self,
        GasMeter,
        ProcessingResult,
    ) {
        let m1 = meter.burned();
        if !self.map.contains_key(index) {
            (self.released(index), m1, ProcessingResult::Done)
        } else {
            let (record, m2, result) = T::spec_clear_extra_storage(self.map[index], m1, max_gas);
            match result {
                ProcessingResult::Done => (self.without(index), m2, result),
                ProcessingResult::NeedMoreGas => (
                    LookupArrayModel { map: self.map.insert(index, record), ..self },
                    m2,
                    result,
                ),
                ProcessingResult::Error(_) => (self, m2, result),
            }
        }
    }

    /// Removal steps at `from`, `from + 1`, ... below `to`. They stop at the
    /// first step that does not finish, and with `NeedMoreGas` as soon as the
    /// meter reads above `max_gas` while positions are left.
    pub open spec fn remove_range(self, meter: GasMeter, from: int, to: int, max_gas: u64) -> (
        Self,
        GasMeter,
        ProcessingResult,
    )
        decreases to - from,
    {
        if from >= to || from < 0 || from > u64::MAX {
            (self, meter, ProcessingResult::Done)
        } else {
            let (next, m, result) = self.remove_at(meter, from as u64, max_gas);
            if !(result is Done) {
                (next, m, result)
            } else if m.used > max_gas && from + 1 < to {
                (next, m, ProcessingResult::NeedMoreGas)
            } else {
                next.remove_range(m, from + 1, to, max_gas)
            }
        }
    }

    /// Removal of the positions below `index`, as far as the budget reaches;
    /// once all are gone the array starts at `index`.
    pub open spec fn remove_before(self, meter: GasMeter, index: u64, max_gas: u64) -> (
        Self,
        GasMeter,
        ProcessingResult,
    ) {
        if self.start_index >= index {
            (self, meter, ProcessingResult::Done)
        } else {
            let (next, m, result) = self.remove_range(
                meter,
                self.start_index as int,
                index as int,
                max_gas,
            );
            if result is Done {
                (LookupArrayModel { start_index: index, ..next }, m, result)
            } else {
                (next, m, result)
            }
        }
    }

    /// Removal of the positions above `index`, as far as the budget reaches;
    /// once all are gone the array ends at `index`.
    pub open spec fn reset_to(self, meter: GasMeter, index: u64, max_gas: u64) -> (
        Self,
        GasMeter,
        ProcessingResult,
    ) {
        let (next, m, result) = self.remove_range(
            meter,
            index + 1,
            self.end_index + 1,
            max_gas,
        );
        if result is Done {
            (LookupArrayModel { end_index: index, ..next }, m, result)
        } else {
            (next, m, result)
        }
    }

    /// Removal of every position from the first to the last, as far as the
    /// budget reaches; once all are gone the bounds rest at 0, 0.
    pub open spec fn clear(self, meter: GasMeter, max_gas: u64) -> (
        Self,
        GasMeter,
        ProcessingResult,
    ) {
        let (next, m, result) = self.remove_range(
            meter,
            self.start_index as int,
            self.end_index + 1,
            max_gas,
        );
        if result is Done {
            (LookupArrayModel { start_index: 0, end_index: 0, ..next }, m, result)
        } else {
            (next, m, result)
        }
    }

    /// The elements at positions `lo..=hi`, in index order.
    pub open spec fn entries(self, lo: int, hi: int) -> Seq<T::V>
        decreases hi - lo + 1,
    {
        if lo > hi {
            Seq::empty()
        } else if 0 <= lo <= u64::MAX && self.map.contains_key(lo as u64) {
            seq![self.map[lo as u64]] + self.entries(lo + 1, hi)
        } else {
            self.entries(lo + 1, hi)
        }
    }

    /// First position of a slice asked for from `start_index`.
    pub open spec fn slice_lo(self, start_index: u64) -> int {
        if self.start_index > start_index {
            self.start_index as int
        } else {
            start_index as int
        }
    }

    /// Last position of a slice of at most `quantity` positions, 50 at most and
    /// by default.
    pub open spec fn slice_hi(self, start_index: u64, quantity: Option<u64>) -> int {
        let count: int = match quantity {
            Some(q) => if q > 50 {
                50
            } else {
                q as int
            },
            None => 50,
        };
        let hi = self.slice_lo(start_index) + count - 1;
        if hi < self.end_index {
            hi
        } else {
            self.end_index as int
        }
    }
}

/// Read access.
impl<T: IndexedAndClearable> LookupArray<T> {
    pub fn len(&self) -> (r: u64)
        requires
            self@.len() <= u64::MAX,
        ensures
            r == self@.len(),
    {
        if self.end_index > self.start_index {
            self.end_index - self.start_index + 1
        } else if self.contains(&self.start_index) {
            1
        } else {
            0
        }
    }

    pub fn get(&self, index: &u64) -> (r: Option<&T>)
        ensures
            match r {
                Some(record) => self@.get(*index) == Some(record@),
                None => self@.get(*index) is None,
            },
    {
        self.lookup_map.get(index)
    }

    pub fn get_first(&self) -> (r: Option<&T>)
        ensures
            match r {
                Some(record) => self@.get(self.start_index) == Some(record@),
                None => self@.get(self.start_index) is None,
            },
    {
        self.lookup_map.get(&self.start_index)
    }

    /// The element next to the first one.
    pub fn get_second(&self) -> (r: Option<&T>)
        ensures
            match r {
                Some(record) => self.start_index < u64::MAX && self@.get(
                    (self.start_index + 1) as u64,
                ) == Some(record@),
                None => self.start_index == u64::MAX || self@.get((self.start_index + 1) as u64)
                    is None,
            },
    {
        if self.start_index == u64::MAX {
            None
        } else {
            let index: u64 = self.start_index + 1;
            self.lookup_map.get(&index)
        }
    }

    pub fn get_latest(&self) -> (r: Option<&T>)
        ensures
            match r {
                Some(record) => self@.get(self.end_index) == Some(record@),
                None => self@.get(self.end_index) is None,
            },
    {
        self.lookup_map.get(&self.end_index)
    }

    /// The newest element.
    pub fn get_last(&self) -> (r: Option<&T>)
        ensures
            match r {
                Some(record) => self@.get(self.end_index) == Some(record@),
                None => self@.get(self.end_index) is None,
            },
    {
        self.lookup_map.get(&self.end_index)
    }

    /// The element before the newest one.
    pub fn get_second_last(&self) -> (r: Option<&T>)
        ensures
            match r {
                Some(record) => self.end_index > 0 && self@.get((self.end_index - 1) as u64)
                    == Some(record@),
                None => self.end_index == 0 || self@.get((self.end_index - 1) as u64) is None,
            },
    {
        if self.end_index == 0 {
            None
        } else {
            let index: u64 = self.end_index - 1;
            self.lookup_map.get(&index)
        }
    }

    /// The elements at the positions of the slice, in index order, positions
    /// without an element left out.
    pub fn get_slice_of(&self, start_index: &u64, quantity: Option<u64>) -> (r: Vec<&T>)
        ensures
            r@.map_values(|record: &T| record@) == self@.entries(
                self@.slice_lo(*start_index),
                self@.slice_hi(*start_index, quantity),
            ),
    {
        let lo: u64 = if self.start_index > *start_index {
            self.start_index
        } else {
            *start_index
        };
        let count: u64 = match quantity {
            Some(q) => if q > 50 {
                50
            } else {
                q
            },
            None => 50,
        };
        if count == 0 {
            return Vec::new();
        }
        let offset: u64 = count - 1;
        let hi: u64 = if u64::MAX - lo < offset || lo + offset >= self.end_index {
            self.end_index
        } else {
            lo + offset
        };
        self.collect(lo, hi)
    }

    pub fn contains(&self, index: &u64) -> (r: bool)
        ensures
            r == self@.contains(*index),
    {
        self.lookup_map.contains_key(index)
    }

    pub fn index_range(&self) -> (r: IndexRange)
        ensures
            r.start_index == self.start_index,
            r.end_index == self.end_index,
    {
        IndexRange { start_index: self.start_index, end_index: self.end_index }
    }

    /// All elements, in index order.
    pub fn to_vec(&self) -> (r: Vec<&T>)
        ensures
            r@.map_values(|record: &T| record@) == self@.entries(
                self.start_index as int,
                self.end_index as int,
            ),
    {
        self.collect(self.start_index, self.end_index)
    }

    fn collect(&self, lo: u64, hi: u64) -> (r: Vec<&T>)
        ensures
            r@.map_values(|record: &T| record@) == self@.entries(lo as int, hi as int),
    {
        let mut results: Vec<&T> = Vec::new();
        if lo > hi {
            return results;
        }
        let mut index: u64 = lo;
        loop
            invariant_except_break
                lo <= index <= hi,
                results@.map_values(|record: &T| record@) + self@.entries(index as int, hi as int)
                    == self@.entries(lo as int, hi as int),
            ensures
                results@.map_values(|record: &T| record@) == self@.entries(lo as int, hi as int),
            decreases hi - index,
        {
            let ghost before = results@.map_values(|record: &T| record@);
            match self.lookup_map.get(&index) {
                Some(record) => {
                    results.push(record);
                    assert(results@.map_values(|record: &T| record@) =~= before + seq![
                        self@.map[index],
                    ]);
                },
                None => {},
            }
            assert(results@.map_values(|record: &T| record@) + self@.entries(
                index as int + 1,
                hi as int,
            ) =~= self@.entries(lo as int, hi as int));
            if index == hi {
                assert(self@.entries(hi as int + 1, hi as int) =~= Seq::<T::V>::empty());
                break ;
            }
            index = index + 1;
        }
        results
    }
}

/// Changes.
impl<T: IndexedAndClearable> LookupArray<T> {
    pub fn new(storage_key: StorageKey) -> (r: Self)
        ensures
            r@ == LookupArrayModel::<T>::empty(),
            r.storage_key == storage_key,
    {
        let r = LookupArray { storage_key, lookup_map: HashMap::new(), start_index: 0, end_index: 0 };
        assert(r@.map =~= Map::empty());
        r
    }

    /// An array over the given bounds whose elements are still to be written.
    pub fn migrate_from(storage_key: StorageKey, start_index: u64, end_index: u64) -> (r: Self)
        ensures
            r@ == (LookupArrayModel::<T> { map: Map::empty(), start_index, end_index }),
            r.storage_key == storage_key,
    {
        let r = LookupArray { storage_key, lookup_map: HashMap::new(), start_index, end_index };
        assert(r@.map =~= Map::empty());
        r
    }

    /// Writes the element at `index`, which has to lie within the bounds.
    pub fn update(&mut self, index: &u64, record: T) -> (r: Result<(), LookupArrayError>)
        ensures
            match r {
                Ok(_) => old(self).start_index <= *index <= old(self).end_index && final(self)@
                    == old(self)@.update(*index, record@),
                Err(e) => !(old(self).start_index <= *index <= old(self).end_index) && e
                    == LookupArrayError::InvalidIndex && final(self)@ == old(self)@,
            },
            final(self).storage_key == old(self).storage_key,
    {
        if !(self.start_index <= *index && *index <= self.end_index) {
            return Err(LookupArrayError::InvalidIndex);
        }
        self.lookup_map.insert(*index, record);
        assert(self@.map =~= old(self)@.map.insert(*index, record@));
        Ok(())
    }

    /// Writes the newest element.
    pub fn update_last(&mut self, record: T)
        ensures
            final(self)@ == old(self)@.update(old(self).end_index, record@),
            final(self).storage_key == old(self).storage_key,
    {
        self.lookup_map.insert(self.end_index, record);
        assert(self@.map =~= old(self)@.map.insert(self.end_index, record@));
    }

    /// Stores `record` behind the newest element and returns its index.
    pub fn append(&mut self, record: T) -> (index: u64)
        requires
            old(self)@.next_index() <= u64::MAX,
        ensures
            index == old(self)@.next_index(),
            final(self)@ == old(self)@.append(record@),
            final(self).storage_key == old(self).storage_key,
    {
        let index: u64 = if self.start_index == 0 && !self.lookup_map.contains_key(&0) {
            0
        } else {
            self.end_index + 1
        };
        let mut stored = record;
        stored.set_index(&index);
        self.lookup_map.insert(index, stored);
        self.end_index = index;
        assert(self@.map =~= old(self)@.map.insert(index, T::spec_set_index(record@, index)));
        index
    }

    pub fn remove_before(&mut self, index: &u64, meter: &mut GasMeter, max_gas: u64) -> (r:
        ProcessingResult)
        ensures
            (final(self)@, *final(meter), r) == old(self)@.remove_before(
                *old(meter),
                *index,
                max_gas,
            ),
            final(self).storage_key == old(self).storage_key,
    {
        if self.start_index >= *index {
            return ProcessingResult::Done;
        }
        let ghost start = self.start_index as int;
        let r = self.remove_range(self.start_index, *index, meter, max_gas);
        if r.is_ok() {
            self.start_index = *index;
        }
        r
    }

    /// Removes the elements above `index`, which has to lie within the
    /// bounds, as far as the budget reaches.
    pub fn reset_to(&mut self, index: &u64, meter: &mut GasMeter, max_gas: u64) -> (r: Result<
        ProcessingResult,
        LookupArrayError,
    >)
        ensures
            match r {
                Ok(result) => old(self).start_index <= *index <= old(self).end_index && (
                    final(self)@,
                    *final(meter),
                    result,
                ) == old(self)@.reset_to(*old(meter), *index, max_gas),
                Err(e) => !(old(self).start_index <= *index <= old(self).end_index) && e
                    == LookupArrayError::InvalidIndex && final(self)@ == old(self)@ && *final(meter)
                    == *old(meter),
            },
            final(self).storage_key == old(self).storage_key,
    {
        if !(self.start_index <= *index && *index <= self.end_index) {
            return Err(LookupArrayError::InvalidIndex);
        }
        let last: u64 = self.end_index;
        let result = if *index < last {
            self.remove_through(*index + 1, last, meter, max_gas)
        } else {
            ProcessingResult::Done
        };
        if result.is_ok() {
            self.end_index = *index;
        }
        Ok(result)
    }

    /// Removes the elements from the first on. `NeedMoreGas` leaves the array
    /// at the position to go on from; `Done` leaves it empty at 0, 0.
    pub fn clear(&mut self, meter: &mut GasMeter, max_gas: u64) -> (r: ProcessingResult)
        ensures
            (final(self)@, *final(meter), r) == old(self)@.clear(*old(meter), max_gas),
            final(self).storage_key == old(self).storage_key,
    {
        let from: u64 = self.start_index;
        let last: u64 = self.end_index;
        let r = self.remove_through(from, last, meter, max_gas);
        if r.is_ok() {
            self.start_index = 0;
            self.end_index = 0;
        }
        r
    }

    /// Removal steps at the positions below `to`.
    fn remove_range(&mut self, from: u64, to: u64, meter: &mut GasMeter, max_gas: u64) -> (r:
        ProcessingResult)
        ensures
            (final(self)@, *final(meter), r) == old(self)@.remove_range(
                *old(meter),
                from as int,
                to as int,
                max_gas,
            ),
            final(self).storage_key == old(self).storage_key,
    {
        if from >= to {
            return ProcessingResult::Done;
        }
        self.remove_through(from, to - 1, meter, max_gas)
    }

    /// Removal steps at the positions up to `last`.
    fn remove_through(&mut self, from: u64, last: u64, meter: &mut GasMeter, max_gas: u64) -> (r:
        ProcessingResult)
        ensures
            (final(self)@, *final(meter), r) == old(self)@.remove_range(
                *old(meter),
                from as int,
                last + 1,
                max_gas,
            ),
            final(self).storage_key == old(self).storage_key,
    {
        if from > last {
            return ProcessingResult::Done;
        }
        let mut index: u64 = from;
        loop
            invariant_except_break
                from <= index <= last,
                self.storage_key == old(self).storage_key,
                self@.remove_range(*meter, index as int, last + 1, max_gas) == old(
                    self,
                )@.remove_range(*old(meter), from as int, last + 1, max_gas),
            ensures
                self.storage_key == old(self).storage_key,
                (self@, *meter, ProcessingResult::Done) == old(self)@.remove_range(
                    *old(meter),
                    from as int,
                    last + 1,
                    max_gas,
                ),
            decreases last - index,
        {
            let result = self.remove_at(&index, meter, max_gas);
            if !result.is_ok() {
                return result;
            }
            if index == last {
                assert(self@.remove_range(*meter, last + 1, last + 1, max_gas) == (
                    self@,
                    *meter,
                    ProcessingResult::Done,
                ));
                break ;
            }
            if meter.used_gas() > max_gas {
                return ProcessingResult::NeedMoreGas;
            }
            index = index + 1;
        }
        ProcessingResult::Done
    }

    /// Removes the element at `index` if its teardown finishes within the
    /// budget, and moves the bounds when `index` was the first or the last.
    pub fn remove_at(&mut self, index: &u64, meter: &mut GasMeter, max_gas: u64) -> (r:
        ProcessingResult)
        ensures
            (final(self)@, *final(meter), r) == old(self)@.remove_at(*old(meter), *index, max_gas),
            final(self).storage_key == old(self).storage_key,
    {
        meter.burn();
        let result = match self.lookup_map.remove(index) {
            Some(record) => {
                let mut record = record;
                let result = record.clear_extra_storage(meter, max_gas);
                match result {
                    ProcessingResult::Done => {
                        assert(self@.map =~= old(self)@.map.remove(*index));
                    },
                    ProcessingResult::NeedMoreGas => {
                        self.lookup_map.insert(*index, record);
                        assert(self@.map =~= old(self)@.map.insert(*index, record@));
                    },
                    ProcessingResult::Error(_) => {
                        self.lookup_map.insert(*index, record);
                        assert(self@.map =~= old(self)@.map);
                    },
                }
                result
            },
            None => {
                assert(self@.map =~= old(self)@.map);
                ProcessingResult::Done
            },
        };
        if result.is_ok() {
            if *index == self.start_index && *index < self.end_index {
                self.start_index = self.start_index + 1;
            } else if *index == self.end_index && *index > self.start_index {
                self.end_index = self.end_index - 1;
            } else if *index == self.start_index && *index == self.end_index {
                self.start_index = 0;
                self.end_index = 0;
            }
        }
        result
    }

    pub fn remove_first(&mut self, meter: &mut GasMeter, max_gas: u64) -> (r: ProcessingResult)
        ensures
            (final(self)@, *final(meter), r) == old(self)@.remove_at(
                *old(meter),
                old(self).start_index,
                max_gas,
            ),
            final(self).storage_key == old(self).storage_key,
    {
        let index: u64 = self.start_index;
        self.remove_at(&index, meter, max_gas)
    }
}

/// A removal step that finishes leaves the array without the element.
pub proof fn lemma_remove_at_done<T: IndexedAndClearable>(
    array: LookupArrayModel<T>,
    meter: GasMeter,
    index: u64,
    max_gas: u64,
)
    ensures
        array.remove_at(meter, index, max_gas).2 is Done ==> array.remove_at(
            meter,
            index,
            max_gas,
        ).0 == array.without(index),
{
    if !array.map.contains_key(index) {
        assert(array.map.remove(index) =~= array.map);
    }
}

/// Appending to a dense array leaves it dense and one longer.
pub proof fn lemma_append_dense<T: IndexedAndClearable>(
    array: LookupArrayModel<T>,
    record: T::V,
)
    requires
        array.dense(),
        array.next_index() <= u64::MAX,
    ensures
        array.append(record).dense(),
        array.append(record).len() == array.len() + 1,
        array.append(record).end_index == array.next_index(),
        array.len() > 0 ==> array.append(record).start_index == array.start_index,
{
    let after = array.append(record);
    if array.map.contains_key(array.start_index) {
        assert(forall|i: u64|
            after.map.contains_key(i) <==> after.start_index <= i <= after.end_index);
    } else {
        assert(after.map.contains_key(0));
        assert(forall|i: u64| after.map.contains_key(i) <==> i == 0);
    }
}

/// Writing an element of a dense array leaves its shape as it was.
pub proof fn lemma_update_dense<T: IndexedAndClearable>(
    array: LookupArrayModel<T>,
    index: u64,
    record: T::V,
)
    requires
        array.dense(),
        array.map.contains_key(index),
    ensures
        array.update(index, record).dense(),
        array.update(index, record).len() == array.len(),
        array.update(index, record).map.dom() == array.map.dom(),
{
    let after = array.update(index, record);
    assert(after.map.dom() =~= array.map.dom());
    assert(forall|i: u64| after.map.contains_key(i) <==> array.map.contains_key(i));
}

/// Removing the first element of a dense array leaves it dense and one
/// shorter; the last removal leaves the bounds at 0, 0.
pub proof fn lemma_without_first_dense<T: IndexedAndClearable>(array: LookupArrayModel<T>)
    requires
        array.dense(),
    ensures
        array.without(array.start_index).dense(),
        array.len() > 0 ==> array.without(array.start_index).len() == array.len() - 1,
        array.len() == 0 ==> array.without(array.start_index) == array,
        array.len() <= 1 ==> array.without(array.start_index).start_index == 0
            && array.without(array.start_index).end_index == 0,
        array.len() > 1 ==> array.without(array.start_index).start_index == array.start_index + 1
            && array.without(array.start_index).end_index == array.end_index,
{
    let after = array.without(array.start_index);
    if array.map.contains_key(array.start_index) {
        if array.start_index < array.end_index {
            assert(after.map.contains_key(after.start_index));
            assert(forall|i: u64|
                after.map.contains_key(i) <==> after.start_index <= i <= after.end_index);
        } else {
            assert(after.map =~= Map::empty());
        }
    } else {
        assert(array.map.remove(array.start_index) =~= array.map);
    }
}

/// One step in the life of a history: an element is appended, or the first
/// element is removed.
pub enum HistoryStep<T: IndexedAndClearable> {
    Append(T::V),
    RemoveFirst,
}

/// The array that the steps build, starting from an empty one.
pub open spec fn history_after<T: IndexedAndClearable>(
    steps: Seq<HistoryStep<T>>,
) -> LookupArrayModel<T>
    decreases steps.len(),
{
    if steps.len() == 0 {
        LookupArrayModel::empty()
    } else {
        let before = history_after(steps.drop_last());
        match steps.last() {
            HistoryStep::Append(record) => before.append(record),
            HistoryStep::RemoveFirst => before.without(before.start_index),
        }
    }
}

/// Number of appends among the steps.
pub open spec fn appends_in<T: IndexedAndClearable>(steps: Seq<HistoryStep<T>>) -> nat
    decreases steps.len(),
{
    if steps.len() == 0 {
        0
    } else {
        appends_in(steps.drop_last()) + if steps.last() is Append {
            1nat
        } else {
            0nat
        }
    }
}

/// Number of removals among the steps.
pub open spec fn removals_in<T: IndexedAndClearable>(steps: Seq<HistoryStep<T>>) -> nat
    decreases steps.len(),
{
    if steps.len() == 0 {
        0
    } else {
        removals_in(steps.drop_last()) + if steps.last() is RemoveFirst {
            1nat
        } else {
            0nat
        }
    }
}

/// After N appends and M removals of the first element, no removal made on an
/// empty array, the array holds N - M elements at consecutive positions; when
/// it has been emptied its bounds are back at 0, 0.
pub proof fn lemma_len_after_appends_and_removals<T: IndexedAndClearable>(
    steps: Seq<HistoryStep<T>>,
)
    requires
        forall|k: int|
            0 <= k <= steps.len() ==> removals_in(#[trigger] steps.take(k)) <= appends_in(
                steps.take(k),
            ),
        appends_in(steps) <= u64::MAX,
    ensures
        history_after(steps).len() == appends_in(steps) - removals_in(steps),
        history_after(steps).dense(),
        history_after(steps).len() > 0 ==> history_after(steps).end_index < appends_in(steps),
        appends_in(steps) == removals_in(steps) ==> history_after(steps).start_index == 0
            && history_after(steps).end_index == 0,
    decreases steps.len(),
{
    assert(steps.take(steps.len() as int) =~= steps);
    if steps.len() > 0 {
        let init = steps.drop_last();
        assert forall|k: int| 0 <= k <= init.len() implies removals_in(#[trigger] init.take(k))
            <= appends_in(init.take(k)) by {
            assert(init.take(k) =~= steps.take(k));
        }
        lemma_len_after_appends_and_removals(init);
        let before = history_after(init);
        match steps.last() {
            HistoryStep::Append(record) => {
                lemma_append_dense(before, record);
            },
            HistoryStep::RemoveFirst => {
                lemma_without_first_dense(before);
            },
        }
    }
}

} // verus!
