use vstd::prelude::*;

verus! {

/// Why a task and resource configuration was refused.
#[derive(Clone, Copy, Debug, PartialEq, Eq, Structural)]
pub enum ConfigError {
    /// A task has priority 0; priorities start at 1.
    ZeroPriority,
    /// A resource use names a task that does not exist.
    UnknownTask,
    /// A resource use names a resource that does not exist.
    UnknownResource,
}

/// One entry of the run stack: a task that was started, or a lock that the
/// task below it took. `level` is the effective priority once it is pushed.
#[derive(Clone, Copy, Debug)]
pub struct Frame {
    pub task: usize,
    pub lock: Option<usize>,
    pub level: u8,
}

/// The ceiling of resource `r` over the first `k` uses: the highest priority
/// among the tasks that those uses name for `r`, or 0.
pub open spec fn ceiling_upto(prios: Seq<u8>, uses: Seq<(usize, usize)>, r: int, k: int) -> int
    decreases k,
{
    if k <= 0 {
        0
    } else {
        let prev = ceiling_upto(prios, uses, r, k - 1);
        let u = uses[k - 1];
        if u.1 == r && prios[u.0 as int] as int > prev {
            prios[u.0 as int] as int
        } else {
            prev
        }
    }
}

/// The ceiling of resource `r`: the highest priority among the tasks that use it.
pub open spec fn ceiling_of(prios: Seq<u8>, uses: Seq<(usize, usize)>, r: int) -> int {
    ceiling_upto(prios, uses, r, uses.len() as int)
}

/// Whether task `t` uses resource `r`.
pub open spec fn uses_res(uses: Seq<(usize, usize)>, t: int, r: int) -> bool {
    exists|k: int| 0 <= k < uses.len() && (#[trigger] uses[k]).0 as int == t && uses[k].1 as int == r
}

/// No task that uses `r` has a priority above its ceiling, and the ceiling is
/// 0 or the priority of one that uses it.
proof fn lemma_ceiling_upto(prios: Seq<u8>, uses: Seq<(usize, usize)>, r: int, k: int)
    requires
        0 <= k <= uses.len(),
    ensures
        forall|j: int|
            0 <= j < k && (#[trigger] uses[j]).1 == r ==> prios[uses[j].0 as int] as int
                <= ceiling_upto(prios, uses, r, k),
        0 <= ceiling_upto(prios, uses, r, k) <= 255,
        ceiling_upto(prios, uses, r, k) == 0 || exists|j: int|
            0 <= j < k && (#[trigger] uses[j]).1 == r && prios[uses[j].0 as int] as int
                == ceiling_upto(prios, uses, r, k),
    decreases k,
{
    if k > 0 {
        lemma_ceiling_upto(prios, uses, r, k - 1);
        let prev = ceiling_upto(prios, uses, r, k - 1);
        if ceiling_upto(prios, uses, r, k) != 0 && ceiling_upto(prios, uses, r, k) != prev {
            assert(uses[k - 1].1 == r);
        }
    }
}

/// A task that uses a resource has a priority no higher than its ceiling.
proof fn lemma_user_below_ceiling(prios: Seq<u8>, uses: Seq<(usize, usize)>, t: int, r: int)
    requires
        uses_res(uses, t, r),
        0 <= t < prios.len(),
    ensures
        prios[t] as int <= ceiling_of(prios, uses, r),
{
    let k = choose|k: int| 0 <= k < uses.len() && (#[trigger] uses[k]).0 as int == t && uses[k].1 as int == r;
    lemma_ceiling_upto(prios, uses, r, uses.len() as int);
    assert(uses[k].1 == r);
}

/// Everything in a configuration refers to existing tasks and resources.
pub open spec fn config_ok(prios: Seq<u8>, n_res: nat, uses: Seq<(usize, usize)>) -> bool {
    &&& forall|t: int| 0 <= t < prios.len() ==> prios[t] >= 1
    &&& forall|k: int| 0 <= k < uses.len() ==> (#[trigger] uses[k]).0 < prios.len()
    &&& forall|k: int| 0 <= k < uses.len() ==> (#[trigger] uses[k]).1 < n_res
}

/// Priority-preemptive scheduling state with ceiling locking: a fixed set of
/// tasks with static priorities, the resources that they share, and the
/// stack of started tasks and held locks.
pub struct Kernel {
    prios: Vec<u8>,
    uses: Vec<(usize, usize)>,
    ceilings: Vec<u8>,
    stack: Vec<Frame>,
}

impl Kernel {
    /// Priority of each task.
    pub closed spec fn prios(&self) -> Seq<u8> {
        self.prios@
    }

    /// Each use is a pair (task, resource).
    pub closed spec fn uses(&self) -> Seq<(usize, usize)> {
        self.uses@
    }

    /// Number of resources.
    pub closed spec fn n_res(&self) -> nat {
        self.ceilings@.len()
    }

    /// The run stack, oldest first; the last frame belongs to the running task.
    pub closed spec fn frames(&self) -> Seq<Frame> {
        self.stack@
    }

    pub open spec fn n_tasks(&self) -> nat {
        self.prios().len()
    }

    pub open spec fn spec_prio(&self, t: int) -> int {
        self.prios()[t] as int
    }

    pub open spec fn spec_ceiling(&self, r: int) -> int {
        ceiling_of(self.prios(), self.uses(), r)
    }

    pub open spec fn uses_resource(&self, t: int, r: int) -> bool {
        uses_res(self.uses(), t, r)
    }

    /// Effective priority after the first `i` frames.
    pub open spec fn level_at(&self, i: int) -> int {
        if i <= 0 {
            0
        } else {
            self.frames()[i - 1].level as int
        }
    }

    /// The current effective priority: 0 when no task runs.
    pub open spec fn spec_level(&self) -> int {
        self.level_at(self.frames().len() as int)
    }

    /// Whether frame `i` is well formed on top of the frames below it.
    pub open spec fn frame_ok(&self, i: int) -> bool {
        let f = self.frames()[i];
        &&& f.task < self.n_tasks()
        &&& match f.lock {
            None => {
                &&& f.level as int == self.spec_prio(f.task as int)
                &&& f.level as int > self.level_at(i)
            },
            Some(r) => {
                &&& i > 0
                &&& self.frames()[i - 1].task == f.task
                &&& r < self.n_res()
                &&& self.uses_resource(f.task as int, r as int)
                &&& f.level as int == if self.spec_ceiling(r as int) > self.level_at(i) {
                    self.spec_ceiling(r as int)
                } else {
                    self.level_at(i)
                }
            },
        }
    }

    pub closed spec fn wf(&self) -> bool {
        &&& forall|t: int| 0 <= t < self.prios@.len() ==> self.prios@[t] >= 1
        &&& forall|k: int|
            0 <= k < self.uses@.len() ==> (#[trigger] self.uses@[k]).0 < self.prios@.len()
                && self.uses@[k].1 < self.ceilings@.len()
        &&& forall|r: int|
            0 <= r < self.ceilings@.len() ==> #[trigger] self.ceilings@[r] as int == ceiling_of(
                self.prios@,
                self.uses@,
                r,
            )
        &&& forall|i: int| 0 <= i < self.stack@.len() ==> #[trigger] self.frame_ok(i)
    }

    /// Whether frame `i` holds resource `r`: it is a lock of `r`, or a task
    /// that uses `r` and runs at its ceiling, so needs no lock for it.
    pub open spec fn holds(&self, i: int, r: int) -> bool {
        let f = self.frames()[i];
        match f.lock {
            Some(x) => x == r,
            None => self.uses_resource(f.task as int, r) && self.spec_prio(f.task as int) >= self.spec_ceiling(r),
        }
    }

    /// Effective priority never falls going up the stack.
    proof fn lemma_levels_rise(&self, i: int, j: int)
        requires
            self.wf(),
            0 <= i <= j <= self.frames().len(),
        ensures
            self.level_at(i) <= self.level_at(j),
        decreases j - i,
    {
        if i < j {
            self.lemma_levels_rise(i, j - 1);
            assert(self.frame_ok(j - 1));
        }
    }

    /// Checks a configuration and builds an idle kernel for it: `prios` gives
    /// each task's priority, `n_res` the number of resources, and each entry
    /// of `uses` names a task and a resource that it touches.
    pub fn new(prios: Vec<u8>, n_res: usize, uses: Vec<(usize, usize)>) -> (r: Result<
        Kernel,
        ConfigError,
    >)
        ensures
            r is Ok <==> config_ok(prios@, n_res as nat, uses@),
            r is Ok ==> {
                let k = r->Ok_0;
                &&& k.wf()
                &&& k.prios() == prios@
                &&& k.uses() == uses@
                &&& k.n_res() == n_res
                &&& k.frames() == Seq::<Frame>::empty()
            },
            r == Err::<Kernel, ConfigError>(ConfigError::ZeroPriority) <==> exists|t: int|
                0 <= t < prios@.len() && prios@[t] == 0,
            r == Err::<Kernel, ConfigError>(ConfigError::UnknownTask) <==> (forall|t: int|
                0 <= t < prios@.len() ==> prios@[t] >= 1) && exists|k: int|
                0 <= k < uses@.len() && (#[trigger] uses@[k]).0 >= prios@.len(),
            r == Err::<Kernel, ConfigError>(ConfigError::UnknownResource) <==> (forall|t: int|
                0 <= t < prios@.len() ==> prios@[t] >= 1) && (forall|k: int|
                0 <= k < uses@.len() ==> (#[trigger] uses@[k]).0 < prios@.len()) && exists|k: int|
                0 <= k < uses@.len() && (#[trigger] uses@[k]).1 >= n_res,
    {
        let mut t: usize = 0;
        while t < prios.len()
            invariant
                t <= prios@.len(),
                forall|x: int| 0 <= x < t ==> prios@[x] >= 1,
            decreases prios@.len() - t,
        {
            if prios[t] == 0 {
                return Err(ConfigError::ZeroPriority);
            }
            t = t + 1;
        }
        let mut k: usize = 0;
        while k < uses.len()
            invariant
                k <= uses@.len(),
                forall|x: int| 0 <= x < prios@.len() ==> prios@[x] >= 1,
                forall|x: int| 0 <= x < k ==> (#[trigger] uses@[x]).0 < prios@.len(),
            decreases uses@.len() - k,
        {
            if uses[k].0 >= prios.len() {
                return Err(ConfigError::UnknownTask);
            }
            k = k + 1;
        }
        let mut k: usize = 0;
        while k < uses.len()
            invariant
                k <= uses@.len(),
                forall|x: int| 0 <= x < prios@.len() ==> prios@[x] >= 1,
                forall|x: int| 0 <= x < uses@.len() ==> (#[trigger] uses@[x]).0 < prios@.len(),
                forall|x: int| 0 <= x < k ==> (#[trigger] uses@[x]).1 < n_res,
            decreases uses@.len() - k,
        {
            if uses[k].1 >= n_res {
                return Err(ConfigError::UnknownResource);
            }
            k = k + 1;
        }
        let mut ceilings: Vec<u8> = Vec::new();
        let mut r: usize = 0;
        while r < n_res
            invariant
                r <= n_res,
                ceilings@.len() == r,
                forall|x: int| 0 <= x < r ==> ceilings@[x] == 0,
            decreases n_res - r,
        {
            ceilings.push(0);
            r = r + 1;
        }
        let mut k: usize = 0;
        while k < uses.len()
            invariant
                k <= uses@.len(),
                ceilings@.len() == n_res,
                config_ok(prios@, n_res as nat, uses@),
                forall|x: int|
                    0 <= x < n_res ==> #[trigger] ceilings@[x] as int == ceiling_upto(
                        prios@,
                        uses@,
                        x,
                        k as int,
                    ),
            decreases uses@.len() - k,
        {
            let (task, res) = uses[k];
            assert(uses@[k as int].1 < n_res);
            let p = prios[task];
            if p > ceilings[res] {
                ceilings.set(res, p);
            }
            assert forall|x: int| 0 <= x < n_res implies #[trigger] ceilings@[x] as int
                == ceiling_upto(prios@, uses@, x, k + 1) by {}
            k = k + 1;
        }
        let kernel = Kernel { prios, uses, ceilings, stack: Vec::new() };
        Ok(kernel)
    }

    /// Number of tasks.
    pub fn task_count(&self) -> (r: usize)
        ensures
            r == self.n_tasks(),
    {
        self.prios.len()
    }

    /// Priority of task `t`.
    pub fn priority(&self, t: usize) -> (r: u8)
        requires
            t < self.n_tasks(),
        ensures
            r as int == self.spec_prio(t as int),
    {
        self.prios[t]
    }

    /// Ceiling of resource `r`: the highest priority of the tasks that use it.
    pub fn ceiling(&self, r: usize) -> (c: u8)
        requires
            self.wf(),
            r < self.n_res(),
        ensures
            c as int == self.spec_ceiling(r as int),
    {
        self.ceilings[r]
    }

    /// The current effective priority: 0 when no task runs.
    pub fn level(&self) -> (r: u8)
        ensures
            r as int == self.spec_level(),
    {
        if self.stack.len() == 0 {
            0
        } else {
            self.stack[self.stack.len() - 1].level
        }
    }

    /// The running task, if any.
    pub fn running(&self) -> (r: Option<usize>)
        ensures
            self.frames().len() == 0 <==> r is None,
            r is Some ==> r->0 == self.frames().last().task,
    {
        if self.stack.len() == 0 {
            None
        } else {
            Some(self.stack[self.stack.len() - 1].task)
        }
    }

    /// Whether task `t` may start now: its priority is above the effective
    /// priority.
    pub fn can_start(&self, t: usize) -> (r: bool)
        requires
            t < self.n_tasks(),
        ensures
            r == (self.spec_prio(t as int) > self.spec_level()),
    {
        self.prios[t] > self.level()
    }

    /// Whether request `i` of `pending` names a task that may start now.
    pub open spec fn eligible(&self, pending: Seq<usize>, i: int) -> bool {
        self.spec_prio(pending[i] as int) > self.spec_level()
    }

    /// The request to dispatch among `pending`, which lists requested tasks
    /// in order of arrival: one whose task has the highest priority above the
    /// effective priority; among those, the one that came first. Returns its
    /// position in `pending`.
    pub fn next(&self, pending: &Vec<usize>) -> (r: Option<usize>)
        requires
            forall|i: int| 0 <= i < pending@.len() ==> #[trigger] pending@[i] < self.n_tasks(),
        ensures
            r is None <==> !exists|i: int| 0 <= i < pending@.len() && self.eligible(pending@, i),
            r is Some ==> {
                let i = r->0 as int;
                &&& 0 <= i < pending@.len()
                &&& self.eligible(pending@, i)
                &&& forall|j: int|
                    0 <= j < pending@.len() && self.eligible(pending@, j) ==> self.spec_prio(
                        pending@[j] as int,
                    ) < self.spec_prio(pending@[i] as int) || (self.spec_prio(pending@[j] as int)
                        == self.spec_prio(pending@[i] as int) && i <= j)
            },
    {
        let level = self.level();
        let mut best: Option<usize> = None;
        let mut best_prio: u8 = 0;
        let mut i: usize = 0;
        while i < pending.len()
            invariant
                i <= pending@.len(),
                forall|x: int| 0 <= x < pending@.len() ==> #[trigger] pending@[x] < self.n_tasks(),
                level as int == self.spec_level(),
                best is None ==> forall|j: int| 0 <= j < i ==> !self.eligible(pending@, j),
                best is Some ==> {
                    let b = best->0 as int;
                    &&& 0 <= b < i
                    &&& self.eligible(pending@, b)
                    &&& best_prio as int == self.spec_prio(pending@[b] as int)
                    &&& forall|j: int|
                        0 <= j < i && self.eligible(pending@, j) ==> self.spec_prio(
                            pending@[j] as int,
                        ) < best_prio || (self.spec_prio(pending@[j] as int) == best_prio && b
                            <= j)
                },
            decreases pending@.len() - i,
        {
            let p = self.prios[pending[i]];
            if p > level {
                match best {
                    None => {
                        best = Some(i);
                        best_prio = p;
                    },
                    Some(_) => {
                        if p > best_prio {
                            best = Some(i);
                            best_prio = p;
                        }
                    },
                }
            }
            i = i + 1;
        }
        best
    }

    /// Starts task `t`, which preempts whatever runs.
    pub fn start(&mut self, t: usize)
        requires
            old(self).wf(),
            t < old(self).n_tasks(),
            old(self).spec_prio(t as int) > old(self).spec_level(),
        ensures
            final(self).wf(),
            final(self).prios() == old(self).prios(),
            final(self).uses() == old(self).uses(),
            final(self).n_res() == old(self).n_res(),
            final(self).frames() == old(self).frames().push(
                Frame { task: t, lock: None, level: old(self).prios()[t as int] },
            ),
    {
        let p = self.prios[t];
        let ghost before = *self;
        self.stack.push(Frame { task: t, lock: None, level: p });
        assert forall|i: int| 0 <= i < self.stack@.len() implies #[trigger] self.frame_ok(i) by {
            if i < before.stack@.len() {
                assert(before.frame_ok(i));
                assert(self.frames()[i] == before.frames()[i]);
                assert(self.level_at(i) == before.level_at(i));
                if i > 0 {
                    assert(self.frames()[i - 1] == before.frames()[i - 1]);
                }
            }
        }
    }

    /// The running task takes resource `r`: the effective priority rises to
    /// its ceiling, if it was below.
    pub fn lock(&mut self, r: usize)
        requires
            old(self).wf(),
            old(self).frames().len() > 0,
            r < old(self).n_res(),
            old(self).uses_resource(old(self).frames().last().task as int, r as int),
        ensures
            final(self).wf(),
            final(self).prios() == old(self).prios(),
            final(self).uses() == old(self).uses(),
            final(self).n_res() == old(self).n_res(),
            final(self).frames() == old(self).frames().push(
                Frame {
                    task: old(self).frames().last().task,
                    lock: Some(r),
                    level: if old(self).spec_ceiling(r as int) > old(self).spec_level() {
                        old(self).spec_ceiling(r as int) as u8
                    } else {
                        old(self).spec_level() as u8
                    },
                },
            ),
    {
        let ghost before = *self;
        let top = self.stack[self.stack.len() - 1];
        assert(self.frame_ok(self.stack@.len() - 1));
        let c = self.ceilings[r];
        let level = if c > top.level {
            c
        } else {
            top.level
        };
        self.stack.push(Frame { task: top.task, lock: Some(r), level });
        assert forall|i: int| 0 <= i < self.stack@.len() implies #[trigger] self.frame_ok(i) by {
            if i < before.stack@.len() {
                assert(before.frame_ok(i));
                assert(self.frames()[i] == before.frames()[i]);
                assert(self.level_at(i) == before.level_at(i));
                if i > 0 {
                    assert(self.frames()[i - 1] == before.frames()[i - 1]);
                }
            }
        }
    }

    /// The running task gives back the lock it took last; the effective
    /// priority returns to what it was before. Returns the resource.
    pub fn unlock(&mut self) -> (r: usize)
        requires
            old(self).wf(),
            old(self).frames().len() > 0,
            old(self).frames().last().lock is Some,
        ensures
            final(self).wf(),
            final(self).prios() == old(self).prios(),
            final(self).uses() == old(self).uses(),
            final(self).n_res() == old(self).n_res(),
            final(self).frames() == old(self).frames().drop_last(),
            Some(r) == old(self).frames().last().lock,
            final(self).spec_level() == old(self).level_at(old(self).frames().len() - 1),
    {
        let ghost before = *self;
        let f = self.stack.pop().unwrap();
        assert forall|i: int| 0 <= i < self.stack@.len() implies #[trigger] self.frame_ok(i) by {
            assert(before.frame_ok(i));
            assert(self.frames()[i] == before.frames()[i]);
            assert(self.level_at(i) == before.level_at(i));
            if i > 0 {
                assert(self.frames()[i - 1] == before.frames()[i - 1]);
            }
        }
        match f.lock {
            Some(r) => r,
            None => 0,
        }
    }

    /// The running task, holding no lock, runs to completion and leaves the
    /// stack; the task it preempted resumes. Returns the finished task.
    pub fn finish(&mut self) -> (r: usize)
        requires
            old(self).wf(),
            old(self).frames().len() > 0,
            old(self).frames().last().lock is None,
        ensures
            final(self).wf(),
            final(self).prios() == old(self).prios(),
            final(self).uses() == old(self).uses(),
            final(self).n_res() == old(self).n_res(),
            final(self).frames() == old(self).frames().drop_last(),
            r == old(self).frames().last().task,
            final(self).spec_level() == old(self).level_at(old(self).frames().len() - 1),
    {
        let ghost before = *self;
        let f = self.stack.pop().unwrap();
        assert forall|i: int| 0 <= i < self.stack@.len() implies #[trigger] self.frame_ok(i) by {
            assert(before.frame_ok(i));
            assert(self.frames()[i] == before.frames()[i]);
            assert(self.level_at(i) == before.level_at(i));
            if i > 0 {
                assert(self.frames()[i - 1] == before.frames()[i - 1]);
            }
        }
        f.task
    }
}

/// While a frame holds resource `r`, every task that started above it has a
/// priority above the ceiling of `r`, so none of them uses `r`: accesses to a
/// resource never interleave.
pub proof fn lemma_held_resource_excludes(k: Kernel, r: int, i: int, j: int)
    requires
        k.wf(),
        0 <= r < k.n_res(),
        0 <= i < j < k.frames().len(),
        k.holds(i, r),
        k.frames()[j].lock is None,
    ensures
        k.spec_prio(k.frames()[j].task as int) > k.spec_ceiling(r),
        !k.uses_resource(k.frames()[j].task as int, r),
{
    assert(k.frame_ok(i));
    assert(k.frame_ok(j));
    k.lemma_levels_rise(i + 1, j);
    let t = k.frames()[j].task as int;
    if k.uses_resource(t, r) {
        lemma_user_below_ceiling(k.prios(), k.uses(), t, r);
    }
}

/// While a frame holds resource `r`, the effective priority is at least the
/// ceiling of `r`, so no task that uses `r` can start until it is released.
pub proof fn lemma_held_resource_blocks_users(k: Kernel, r: int, i: int, t: int)
    requires
        k.wf(),
        0 <= r < k.n_res(),
        0 <= i < k.frames().len(),
        k.holds(i, r),
        0 <= t < k.n_tasks(),
        k.uses_resource(t, r),
    ensures
        k.spec_level() >= k.spec_ceiling(r),
        !(k.spec_prio(t) > k.spec_level()),
{
    assert(k.frame_ok(i));
    k.lemma_levels_rise(i + 1, k.frames().len() as int);
    lemma_user_below_ceiling(k.prios(), k.uses(), t, r);
}

} // verus!
