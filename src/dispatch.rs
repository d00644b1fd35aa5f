use vstd::prelude::*;

verus! {

/// An interrupt vector was already bound; holds the task it is bound to.
#[derive(Clone, Copy, Debug, PartialEq, Eq, Structural)]
pub struct AlreadyBound(pub usize);

/// The task that the latest binding of vector `v` among `s` names, if any.
pub open spec fn lookup(s: Seq<(u16, usize)>, v: u16) -> Option<usize>
    decreases s.len(),
{
    if s.len() == 0 {
        None
    } else if s.last().0 == v {
        Some(s.last().1)
    } else {
        lookup(s.drop_last(), v)
    }
}

/// Static binding of interrupt vectors to the tasks that handle them, built
/// once at startup.
pub struct DispatchTable {
    entries: Vec<(u16, usize)>,
}

impl DispatchTable {
    /// The bindings, in the order they were made.
    pub closed spec fn bindings(&self) -> Seq<(u16, usize)> {
        self.entries@
    }

    /// The task bound to vector `v`, if any.
    pub open spec fn bound(&self, v: u16) -> Option<usize> {
        lookup(self.bindings(), v)
    }

    /// A table with no vector bound.
    pub fn new() -> (r: Self)
        ensures
            forall|v: u16| #[trigger] r.bound(v) is None,
    {
        DispatchTable { entries: Vec::new() }
    }

    /// The task that handles vector `v`, if one is bound.
    pub fn task_for(&self, v: u16) -> (r: Option<usize>)
        ensures
            r == self.bound(v),
    {
        let mut i: usize = self.entries.len();
        assert(self.entries@.take(i as int) =~= self.entries@);
        while i > 0
            invariant
                i <= self.entries@.len(),
                lookup(self.entries@, v) == lookup(self.entries@.take(i as int), v),
            decreases i,
        {
            assert(self.entries@.take(i as int).drop_last() =~= self.entries@.take(i - 1));
            let (w, t) = self.entries[i - 1];
            if w == v {
                return Some(t);
            }
            i = i - 1;
        }
        assert(self.entries@.take(0) =~= Seq::<(u16, usize)>::empty());
        None
    }

    /// Binds vector `v` to task `t`. A vector is bound at most once: binding
    /// it again is refused and leaves the table as it was.
    pub fn bind(&mut self, v: u16, t: usize) -> (r: Result<(), AlreadyBound>)
        ensures
            r is Err <==> old(self).bound(v) is Some,
            r is Err ==> r == Err::<(), AlreadyBound>(AlreadyBound(old(self).bound(v)->0))
                && final(self).bindings() == old(self).bindings(),
            r is Ok ==> forall|w: u16| #[trigger]
                final(self).bound(w) == if w == v {
                    Some(t)
                } else {
                    old(self).bound(w)
                },
    {
        match self.task_for(v) {
            Some(existing) => Err(AlreadyBound(existing)),
            None => {
                let ghost before = self.entries@;
                self.entries.push((v, t));
                assert(self.entries@.drop_last() =~= before);
                Ok(())
            },
        }
    }
}

} // verus!
