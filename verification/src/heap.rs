//! The shared, mutable objects of a running script.
//!
//! A vector or a map is shared by every value that refers to it, and a
//! change made through one of them is seen through all. So the elements
//! live here, and a value holds a handle.
use vstd::prelude::*;
use crate::value::{MapValue, Value, map_put};

verus! {

/// All vectors and maps, by handle, and the next closure identity.
pub struct Heap {
    vecs: Vec<Vec<Value>>,
    maps: Vec<MapValue>,
    next_id: u64,
}

/// The mathematical value of a [`Heap`].
pub struct HeapV {
    pub vecs: Seq<Seq<Value>>,
    pub maps: Seq<Seq<(Value, Value)>>,
    pub next_id: u64,
}

impl View for Heap {
    type V = HeapV;

    closed spec fn view(&self) -> HeapV {
        HeapV {
            vecs: Seq::new(self.vecs@.len(), |i: int| self.vecs@[i]@),
            maps: Seq::new(self.maps@.len(), |i: int| self.maps@[i]@),
            next_id: self.next_id,
        }
    }
}

impl HeapV {
    /// The heap with one more vector.
    pub open spec fn with_vec(self, vals: Seq<Value>) -> HeapV {
        HeapV { vecs: self.vecs.push(vals), ..self }
    }

    /// The heap with one more map.
    pub open spec fn with_map(self, entries: Seq<(Value, Value)>) -> HeapV {
        HeapV { maps: self.maps.push(entries), ..self }
    }

    /// The heap with the vector `h` replaced.
    pub open spec fn set_vec(self, h: usize, vals: Seq<Value>) -> HeapV {
        HeapV { vecs: self.vecs.update(h as int, vals), ..self }
    }

    /// The heap with the map `h` replaced.
    pub open spec fn set_map(self, h: usize, entries: Seq<(Value, Value)>) -> HeapV {
        HeapV { maps: self.maps.update(h as int, entries), ..self }
    }

    /// The heap after one closure identity was handed out; unchanged where
    /// none is left.
    pub open spec fn after_id(self) -> HeapV {
        if self.next_id < u64::MAX {
            HeapV { next_id: (self.next_id + 1) as u64, ..self }
        } else {
            self
        }
    }
}

impl Heap {
    /// A heap without objects.
    pub fn new() -> (r: Heap)
        ensures
            r@ == (HeapV { vecs: Seq::empty(), maps: Seq::empty(), next_id: 0 }),
    {
        let r = Heap { vecs: Vec::new(), maps: Vec::new(), next_id: 0 };
        assert(r@.vecs =~= Seq::empty());
        assert(r@.maps =~= Seq::empty());
        r
    }

    /// Stores a new vector and returns its handle.
    pub fn alloc_vec(&mut self, vals: Vec<Value>) -> (r: usize)
        ensures
            r == old(self)@.vecs.len(),
            final(self)@ == old(self)@.with_vec(vals@),
    {
        let r = self.vecs.len();
        self.vecs.push(vals);
        assert(self@.vecs =~= old(self)@.vecs.push(vals@));
        assert(self@.maps =~= old(self)@.maps);
        r
    }

    /// Stores a new map and returns its handle.
    pub fn alloc_map(&mut self, map: MapValue) -> (r: usize)
        ensures
            r == old(self)@.maps.len(),
            final(self)@ == old(self)@.with_map(map@),
    {
        let r = self.maps.len();
        self.maps.push(map);
        assert(self@.maps =~= old(self)@.maps.push(map@));
        assert(self@.vecs =~= old(self)@.vecs);
        r
    }

    /// Hands out a closure identity that was not handed out before, or
    /// `None` when all 2^64 - 1 of them are in use.
    pub fn fresh_id(&mut self) -> (r: Option<u64>)
        ensures
            final(self)@ == old(self)@.after_id(),
            old(self)@.next_id < u64::MAX ==> r == Some(old(self)@.next_id),
            old(self)@.next_id == u64::MAX ==> r is None,
    {
        if self.next_id < u64::MAX {
            let id = self.next_id;
            self.next_id = id + 1;
            assert(self@.vecs =~= old(self)@.vecs);
            assert(self@.maps =~= old(self)@.maps);
            Some(id)
        } else {
            None
        }
    }

    /// The vector with handle `h`.
    pub fn vec(&self, h: usize) -> (r: Option<&Vec<Value>>)
        ensures
            h < self@.vecs.len() ==> (r matches Some(v) && v@ == self@.vecs[h as int]),
            h >= self@.vecs.len() ==> r is None,
    {
        if h < self.vecs.len() {
            Some(&self.vecs[h])
        } else {
            None
        }
    }

    /// The map with handle `h`.
    pub fn map(&self, h: usize) -> (r: Option<&MapValue>)
        ensures
            h < self@.maps.len() ==> (r matches Some(m) && m@ == self@.maps[h as int]),
            h >= self@.maps.len() ==> r is None,
    {
        if h < self.maps.len() {
            Some(&self.maps[h])
        } else {
            None
        }
    }

    /// Replaces element `i` of the vector `h`.
    pub fn vec_set(&mut self, h: usize, i: usize, val: Value)
        requires
            h < old(self)@.vecs.len(),
            i < old(self)@.vecs[h as int].len(),
        ensures
            final(self)@ == old(self)@.set_vec(h, old(self)@.vecs[h as int].update(i as int, val)),
    {
        self.vecs[h][i] = val;
        assert(self@.vecs =~= old(self)@.vecs.update(
            h as int,
            old(self)@.vecs[h as int].update(i as int, val),
        ));
        assert(self@.maps =~= old(self)@.maps);
    }

    /// Appends an element to the vector `h`.
    pub fn vec_push(&mut self, h: usize, val: Value)
        requires
            h < old(self)@.vecs.len(),
        ensures
            final(self)@ == old(self)@.set_vec(h, old(self)@.vecs[h as int].push(val)),
    {
        self.vecs[h].push(val);
        assert(self@.vecs =~= old(self)@.vecs.update(h as int, old(self)@.vecs[h as int].push(val)));
        assert(self@.maps =~= old(self)@.maps);
    }

    /// Binds `key` to `val` in the map `h`.
    pub fn map_set(&mut self, h: usize, key: Value, val: Value)
        requires
            h < old(self)@.maps.len(),
        ensures
            final(self)@ == old(self)@.set_map(h, map_put(old(self)@.maps[h as int], key, val)),
    {
        self.maps[h].set(key, val);
        assert(self@.maps =~= old(self)@.maps.update(
            h as int,
            map_put(old(self)@.maps[h as int], key, val),
        ));
        assert(self@.vecs =~= old(self)@.vecs);
    }
}

} // verus!
