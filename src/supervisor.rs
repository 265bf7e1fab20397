use crate::error::Error;
use vstd::prelude::*;

verus! {

/// A named task entry.
pub struct Entry<T> {
    pub name: String,
    pub task: T,
}

/// The names of the entries, in order.
pub open spec fn names_of<T>(s: Seq<Entry<T>>) -> Seq<Seq<char>> {
    Seq::new(s.len(), |i: int| s[i].name@)
}

/// Whether some entry has the given name.
pub open spec fn has_task<T>(s: Seq<Entry<T>>, name: Seq<char>) -> bool {
    exists|i: int| 0 <= i < s.len() && s[i].name@ == name
}

/// No two entries share a name.
pub open spec fn distinct_names<T>(s: Seq<Entry<T>>) -> bool {
    forall|a: int, b: int| 0 <= a < s.len() && 0 <= b < s.len() && a != b ==> s[a].name@ != s[b].name@
}

/// A registry of spawned tasks, kept by unique name in order of spawning.
/// The task handle type is chosen by the caller.
pub struct Supervisor<T> {
    tasks: Vec<Entry<T>>,
}

impl<T> Supervisor<T> {
    /// The entries in order of spawning.
    pub closed spec fn spec_tasks(&self) -> Seq<Entry<T>> {
        self.tasks@
    }

    /// Task names are unique.
    pub open spec fn wf(&self) -> bool {
        distinct_names(self.spec_tasks())
    }

    /// An empty registry.
    pub fn new() -> (r: Self)
        ensures
            r.wf(),
            r.spec_tasks() == Seq::<Entry<T>>::empty(),
    {
        Supervisor { tasks: Vec::new() }
    }

    /// The position of the task of this name, if there is one.
    fn find(&self, name: &str) -> (r: Option<usize>)
        ensures
            match r {
                Some(i) => i < self.spec_tasks().len() && self.spec_tasks()[i as int].name@ == name@,
                None => !has_task(self.spec_tasks(), name@),
            },
    {
        let n = self.tasks.len();
        let mut i: usize = 0;
        while i < n
            invariant
                n == self.tasks@.len(),
                i <= n,
                forall|j: int| 0 <= j < i ==> (#[trigger] self.tasks@[j]).name@ != name@,
            decreases n - i,
        {
            if string_eq_str(&self.tasks[i].name, name) {
                return Some(i);
            }
            i += 1;
        }
        None
    }

    /// Checks that a task may be spawned under `name`: a name is given and
    /// no task has it yet. Returns the name to register it under.
    pub fn vacant_name(&self, name: Option<&str>) -> (r: Result<String, Error>)
        ensures
            name is None ==> r == Err::<String, Error>(Error::SupervisorNameNotSpecified),
            name is Some && has_task(self.spec_tasks(), name->0@) ==> r is Err && r->Err_0
                is SupervisorDuplicateTask && r->Err_0->SupervisorDuplicateTask_0@ == name->0@,
            name is Some && !has_task(self.spec_tasks(), name->0@) ==> r is Ok && r->Ok_0@
                == name->0@,
    {
        match name {
            None => Err(Error::SupervisorNameNotSpecified),
            Some(n) => {
                if self.find(n).is_some() {
                    Err(Error::SupervisorDuplicateTask(n.to_owned()))
                } else {
                    Ok(n.to_owned())
                }
            },
        }
    }

    /// Registers a spawned task under a vacant name.
    pub fn insert(&mut self, name: String, task: T)
        requires
            old(self).wf(),
            !has_task(old(self).spec_tasks(), name@),
        ensures
            final(self).wf(),
            final(self).spec_tasks() == old(self).spec_tasks().push(Entry { name, task }),
    {
        self.tasks.push(Entry { name, task });
        proof {
            let s = old(self).spec_tasks();
            let t = self.tasks@;
            assert forall|a: int, b: int|
                0 <= a < t.len() && 0 <= b < t.len() && a != b implies t[a].name@
                != t[b].name@ by {
                if a == s.len() {
                    assert(t[b] == s[b]);
                } else if b == s.len() {
                    assert(t[a] == s[a]);
                } else {
                    assert(t[a] == s[a] && t[b] == s[b]);
                }
            }
        }
    }

    /// The task of this name.
    pub fn get_task(&self, name: &str) -> (r: Option<&T>)
        ensures
            !has_task(self.spec_tasks(), name@) ==> r is None,
            has_task(self.spec_tasks(), name@) ==> exists|i: int|
                0 <= i < self.spec_tasks().len() && self.spec_tasks()[i].name@ == name@ && r
                    == Some(&self.spec_tasks()[i].task),
    {
        match self.find(name) {
            Some(i) => Some(&self.tasks[i].task),
            None => None,
        }
    }

    /// Removes and returns the task of this name.
    pub fn take_task(&mut self, name: &str) -> (r: Option<T>)
        requires
            old(self).wf(),
        ensures
            final(self).wf(),
            !has_task(old(self).spec_tasks(), name@) ==> r is None && final(self).spec_tasks()
                == old(self).spec_tasks(),
            has_task(old(self).spec_tasks(), name@) ==> exists|i: int|
                0 <= i < old(self).spec_tasks().len() && old(self).spec_tasks()[i].name@ == name@
                    && r == Some(old(self).spec_tasks()[i].task) && final(self).spec_tasks()
                    == old(self).spec_tasks().remove(i),
            !has_task(final(self).spec_tasks(), name@),
    {
        match self.find(name) {
            Some(i) => {
                let ghost s = self.tasks@;
                let e = self.tasks.remove(i);
                proof {
                    let t = self.tasks@;
                    assert forall|a: int, b: int|
                        0 <= a < t.len() && 0 <= b < t.len() && a != b implies t[a].name@
                        != t[b].name@ by {
                        let a0 = if a < i { a } else { a + 1 };
                        let b0 = if b < i { b } else { b + 1 };
                        assert(t[a] == s[a0]);
                        assert(t[b] == s[b0]);
                    }
                    if has_task(t, name@) {
                        let j = choose|j: int| 0 <= j < t.len() && t[j].name@ == name@;
                        let j0 = if j < i { j } else { j + 1 };
                        assert(t[j] == s[j0]);
                    }
                }
                Some(e.task)
            },
            None => None,
        }
    }

    /// Removes the task of this name; fails if there is none.
    pub fn forget_task(&mut self, name: &str) -> (r: Result<(), Error>)
        requires
            old(self).wf(),
        ensures
            final(self).wf(),
            !has_task(old(self).spec_tasks(), name@) ==> r == Err::<(), Error>(
                Error::SupervisorTaskNotFound,
            ) && final(self).spec_tasks() == old(self).spec_tasks(),
            has_task(old(self).spec_tasks(), name@) ==> r is Ok && exists|i: int|
                0 <= i < old(self).spec_tasks().len() && old(self).spec_tasks()[i].name@ == name@
                    && final(self).spec_tasks() == old(self).spec_tasks().remove(i),
    {
        match self.take_task(name) {
            Some(_) => Ok(()),
            None => Err(Error::SupervisorTaskNotFound),
        }
    }

    /// Removes the tasks marked finished (`finished[i]` for the `i`-th
    /// task), keeping the others in order.
    pub fn purge(&mut self, finished: &Vec<bool>)
        requires
            old(self).wf(),
            finished@.len() == old(self).spec_tasks().len(),
        ensures
            final(self).wf(),
            final(self).spec_tasks() == kept_tasks(old(self).spec_tasks(), finished@),
    {
        let ghost s = self.tasks@;
        let n = self.tasks.len();
        let mut kept: Vec<Entry<T>> = Vec::new();
        let mut rest: Vec<Entry<T>> = Vec::new();
        std::mem::swap(&mut self.tasks, &mut rest);
        let mut i: usize = 0;
        while i < n
            invariant
                n == s.len(),
                n == finished@.len(),
                i <= n,
                rest@ == s.subrange(i as int, n as int),
                kept@ == kept_tasks(s.subrange(0, i as int), finished@.subrange(0, i as int)),
            decreases n - i,
        {
            let e = rest.remove(0);
            proof {
                assert(rest@ =~= s.subrange(i + 1, n as int));
                assert(e == s[i as int]);
                assert(s.subrange(0, i + 1).drop_last() =~= s.subrange(0, i as int));
                assert(finished@.subrange(0, i + 1).drop_last() =~= finished@.subrange(0, i as int));
            }
            if !finished[i] {
                kept.push(e);
            }
            i += 1;
        }
        proof {
            assert(s.subrange(0, n as int) =~= s);
            assert(finished@.subrange(0, n as int) =~= finished@);
            lemma_kept_distinct(s, finished@);
        }
        self.tasks = kept;
    }

    /// Removes every task and returns them in order of spawning, for the
    /// caller to join those that are not blocking.
    pub fn drain(&mut self) -> (r: Vec<Entry<T>>)
        ensures
            r@ == old(self).spec_tasks(),
            final(self).spec_tasks() == Seq::<Entry<T>>::empty(),
            final(self).wf(),
    {
        let mut all: Vec<Entry<T>> = Vec::new();
        std::mem::swap(&mut self.tasks, &mut all);
        all
    }

    /// The number of tasks.
    pub fn len(&self) -> (r: usize)
        ensures
            r == self.spec_tasks().len(),
    {
        self.tasks.len()
    }
}

/// The entries of `s` whose flag in `f` is false, in order.
pub open spec fn kept_tasks<T>(s: Seq<Entry<T>>, f: Seq<bool>) -> Seq<Entry<T>>
    decreases s.len(),
{
    if s.len() == 0 || f.len() == 0 {
        Seq::empty()
    } else if f.last() {
        kept_tasks(s.drop_last(), f.drop_last())
    } else {
        kept_tasks(s.drop_last(), f.drop_last()).push(s.last())
    }
}

/// Every entry kept by a purge was an entry before, and the kept ones come
/// in their old order: `m` maps each kept position to its old one.
proof fn lemma_kept_from<T>(s: Seq<Entry<T>>, f: Seq<bool>) -> (m: Seq<int>)
    requires
        s.len() == f.len(),
    ensures
        m.len() == kept_tasks(s, f).len(),
        forall|k: int| 0 <= k < m.len() ==> 0 <= #[trigger] m[k] < s.len(),
        forall|k: int| 0 <= k < m.len() ==> kept_tasks(s, f)[k] == s[#[trigger] m[k]],
        forall|a: int, b: int| 0 <= a < b < m.len() ==> #[trigger] m[a] < #[trigger] m[b],
    decreases s.len(),
{
    if s.len() == 0 {
        Seq::empty()
    } else {
        let m0 = lemma_kept_from(s.drop_last(), f.drop_last());
        assert(forall|k: int| 0 <= k < m0.len() ==> s.drop_last()[m0[k]] == s[m0[k]]);
        if f.last() {
            m0
        } else {
            let m1 = m0.push(s.len() - 1);
            assert forall|k: int| 0 <= k < m1.len() implies kept_tasks(s, f)[k] == s[#[trigger] m1[k]] by {
                if k < m0.len() {
                    assert(m1[k] == m0[k]);
                }
            }
            assert forall|a: int, b: int| 0 <= a < b < m1.len() implies #[trigger] m1[a]
                < #[trigger] m1[b] by {
                if b < m0.len() {
                    assert(m1[a] == m0[a] && m1[b] == m0[b]);
                } else {
                    assert(m1[a] == m0[a]);
                }
            }
            m1
        }
    }
}

proof fn lemma_kept_distinct<T>(s: Seq<Entry<T>>, f: Seq<bool>)
    requires
        s.len() == f.len(),
        distinct_names(s),
    ensures
        distinct_names(kept_tasks(s, f)),
{
    let m = lemma_kept_from(s, f);
    let k = kept_tasks(s, f);
    assert forall|a: int, b: int| 0 <= a < k.len() && 0 <= b < k.len() && a != b implies k[a].name@
        != k[b].name@ by {
        if a < b {
            assert(m[a] < m[b]);
        } else {
            assert(m[b] < m[a]);
        }
        assert(k[a] == s[m[a]]);
        assert(k[b] == s[m[b]]);
    }
}

/// Whether a task name equals a name given as a string slice.
fn string_eq_str(a: &String, b: &str) -> (r: bool)
    ensures
        r == (a@ == b@),
{
    let b_owned = b.to_owned();
    *a == b_owned
}

} // verus!
