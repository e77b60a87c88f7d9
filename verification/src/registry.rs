//! The registry of currently running job names.
//!
//! A job's name is present in the registry exactly while an
//! orchestrator loop for that name is between registration and
//! deregistration. Registration refuses a name that is already
//! present, so two live runs can never share a name and
//! deregistration removes exactly the one entry of the finished run.

use vstd::prelude::*;

verus! {

/// The set of currently running job names.
pub struct JobRegistry {
    names: Vec<String>,
}

impl View for JobRegistry {
    type V = Set<Seq<char>>;

    closed spec fn view(&self) -> Set<Seq<char>> {
        Set::new(|n: Seq<char>| exists|i: int| 0 <= i < self.names@.len() && self.names@[i]@ == n)
    }
}

impl JobRegistry {
    /// Well-formedness: no job name is recorded twice.
    pub closed spec fn wf(self) -> bool {
        forall|i: int, j: int|
            0 <= i < j < self.names@.len() ==> self.names@[i]@ != self.names@[j]@
    }

    /// An empty registry: no job is running.
    pub fn new() -> (r: JobRegistry)
        ensures
            r.wf(),
            r@ == Set::<Seq<char>>::empty(),
    {
        let r = JobRegistry { names: Vec::new() };
        proof {
            assert(r@ =~= Set::<Seq<char>>::empty());
        }
        r
    }

    /// Looks for `name` among the entries; returns its index.
    fn position(&self, name: &String) -> (r: Option<usize>)
        ensures
            match r {
                Some(i) => i < self.names@.len() && self.names@[i as int]@ == name@,
                None => !self@.contains(name@),
            },
    {
        let mut i: usize = 0;
        while i < self.names.len()
            invariant
                i <= self.names@.len(),
                forall|j: int| 0 <= j < i ==> self.names@[j]@ != name@,
            decreases self.names@.len() - i,
        {
            if name.eq(&self.names[i]) {
                return Some(i);
            }
            i = i + 1;
        }
        None
    }

    /// Whether a job with this name is currently registered.
    pub fn contains(&self, name: &String) -> (r: bool)
        ensures
            r == self@.contains(name@),
    {
        self.position(name).is_some()
    }

    /// Registers a job name. Returns `false`, changing nothing, when a
    /// job with this name is already running: duplicate submissions
    /// are refused rather than run side by side.
    pub fn insert(&mut self, name: String) -> (ok: bool)
        requires
            old(self).wf(),
        ensures
            final(self).wf(),
            ok == !old(self)@.contains(name@),
            final(self)@ == old(self)@.insert(name@),
    {
        match self.position(&name) {
            Some(_) => {
                proof {
                    assert(self@.insert(name@) =~= self@);
                }
                false
            },
            None => {
                let ghost pre = self@;
                let ghost pre_names = self.names@;
                let ghost n_view = name@;
                self.names.push(name);
                proof {
                    assert forall|n: Seq<char>| self@.contains(n) implies pre.insert(
                        n_view,
                    ).contains(n) by {
                        let i = choose|i: int|
                            0 <= i < self.names@.len() && self.names@[i]@ == n;
                        if i < pre_names.len() {
                            assert(pre_names[i]@ == n);
                        }
                    }
                    assert forall|n: Seq<char>| pre.insert(n_view).contains(n) implies
                        self@.contains(n) by {
                        if n == n_view {
                            assert(self.names@[pre_names.len() as int]@ == n);
                        } else {
                            let i = choose|i: int|
                                0 <= i < pre_names.len() && pre_names[i]@ == n;
                            assert(self.names@[i]@ == n);
                        }
                    }
                    assert(self@ =~= pre.insert(n_view));
                }
                true
            },
        }
    }

    /// Deregisters a job name. Returns whether it was present; either
    /// way the name is absent afterwards and no other entry changes.
    pub fn remove(&mut self, name: &String) -> (ok: bool)
        requires
            old(self).wf(),
        ensures
            final(self).wf(),
            ok == old(self)@.contains(name@),
            final(self)@ == old(self)@.remove(name@),
    {
        let ghost pre = self@;
        match self.position(name) {
            Some(i) => {
                let ghost pre_names = self.names@;
                self.names.remove(i);
                proof {
                    assert forall|n: Seq<char>| self@.contains(n) implies pre.remove(
                        name@,
                    ).contains(n) by {
                        let j = choose|j: int|
                            0 <= j < self.names@.len() && self.names@[j]@ == n;
                        if j < i {
                            assert(pre_names[j]@ == n);
                        } else {
                            assert(pre_names[j + 1]@ == n);
                        }
                    }
                    assert forall|n: Seq<char>| pre.remove(name@).contains(n) implies
                        self@.contains(n) by {
                        let j = choose|j: int|
                            0 <= j < pre_names.len() && pre_names[j]@ == n;
                        if j < i {
                            assert(self.names@[j]@ == n);
                        } else {
                            assert(self.names@[j - 1]@ == n);
                        }
                    }
                    assert(self@ =~= pre.remove(name@));
                }
                true
            },
            None => {
                proof {
                    assert(self@ =~= pre.remove(name@));
                }
                false
            },
        }
    }

    /// A snapshot of the running job names, for the status query: the
    /// returned list holds each registered name exactly once.
    pub fn names(&self) -> (r: Vec<String>)
        requires
            self.wf(),
        ensures
            forall|i: int| 0 <= i < r@.len() ==> self@.contains(#[trigger] r@[i]@),
            forall|n: Seq<char>| self@.contains(n) ==> exists|i: int|
                0 <= i < r@.len() && #[trigger] r@[i]@ == n,
            forall|i: int, j: int| 0 <= i < j < r@.len() ==> r@[i]@ != r@[j]@,
    {
        let mut r: Vec<String> = Vec::new();
        let mut i: usize = 0;
        while i < self.names.len()
            invariant
                i <= self.names@.len(),
                r@.len() == i,
                forall|j: int| 0 <= j < i ==> r@[j]@ == self.names@[j]@,
                forall|k: int, j: int|
                    0 <= k < j < self.names@.len() ==> self.names@[k]@ != self.names@[j]@,
            decreases self.names@.len() - i,
        {
            r.push(self.names[i].clone());
            i = i + 1;
        }
        proof {
            assert forall|n: Seq<char>| self@.contains(n) implies exists|k: int|
                0 <= k < r@.len() && #[trigger] r@[k]@ == n by {
                let k = choose|k: int| 0 <= k < self.names@.len() && self.names@[k]@ == n;
                assert(r@[k]@ == n);
            }
        }
        r
    }
}

} // verus!
