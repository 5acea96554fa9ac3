//! The variable table of one execution pass: a mapping from variable
//! name to the last assigned 32-bit value. Looking up a name that was
//! never assigned yields 0 by design; it is not an error.

use vstd::prelude::*;
use crate::text::str_eq;

verus! {

/// The value of `name` under `m`, with the deliberate default of 0 for
/// an unassigned name.
pub open spec fn lookup_or_zero(m: Map<Seq<char>, i32>, name: Seq<char>) -> i32 {
    if m.dom().contains(name) {
        m[name]
    } else {
        0
    }
}

/// The variable table. Its view is the mapping from each name to the
/// value it was last set to.
pub struct Environment {
    bindings: Vec<(String, i32)>,
}

/// The map a sequence of bindings denotes: later bindings win.
pub open spec fn bindings_map(s: Seq<(Seq<char>, i32)>) -> Map<Seq<char>, i32>
    decreases s.len(),
{
    if s.len() == 0 {
        Map::empty()
    } else {
        bindings_map(s.drop_last()).insert(s.last().0, s.last().1)
    }
}

impl Environment {
    spec fn bindings_view(&self) -> Seq<(Seq<char>, i32)> {
        self.bindings@.map(|i: int, e: (String, i32)| (e.0@, e.1))
    }
}

impl View for Environment {
    type V = Map<Seq<char>, i32>;

    closed spec fn view(&self) -> Map<Seq<char>, i32> {
        bindings_map(self.bindings_view())
    }
}

impl Environment {
    /// A fresh, empty table.
    pub fn new() -> (r: Environment)
        ensures
            r@ == Map::<Seq<char>, i32>::empty(),
    {
        let r = Environment { bindings: Vec::new() };
        proof {
            assert(r.bindings_view() =~= Seq::<(Seq<char>, i32)>::empty());
        }
        r
    }

    /// Binds `name` to `value`, shadowing any earlier binding.
    pub fn set(&mut self, name: String, value: i32)
        ensures
            final(self)@ == old(self)@.insert(name@, value),
    {
        let ghost nv = name@;
        let ghost before = self.bindings_view();
        self.bindings.push((name, value));
        proof {
            assert(self.bindings_view() =~= before.push((nv, value)));
            assert(self.bindings_view().drop_last() =~= before);
        }
    }

    /// The value bound to `name`, or 0 when `name` was never bound.
    pub fn get(&self, name: &str) -> (r: i32)
        ensures
            r == lookup_or_zero(self@, name@),
    {
        let ghost bv = self.bindings_view();
        let mut k = self.bindings.len();
        proof {
            assert(bv.take(k as int) =~= bv);
        }
        while k > 0
            invariant
                bv == self.bindings_view(),
                k <= self.bindings.len(),
                lookup_or_zero(self@, name@) == lookup_or_zero(
                    bindings_map(bv.take(k as int)),
                    name@,
                ),
            decreases k,
        {
            k -= 1;
            let entry = &self.bindings[k];
            proof {
                assert(bv.take(k as int + 1).drop_last() =~= bv.take(k as int));
                assert(bv.take(k as int + 1).last() == (entry.0@, entry.1));
            }
            if str_eq(entry.0.as_str(), name) {
                return entry.1;
            }
        }
        proof {
            assert(bv.take(0) =~= Seq::<(Seq<char>, i32)>::empty());
        }
        0
    }
}

} // verus!
