//! The environment variables that `getenv`, `setenv` and `unsetenv` work on.

use vstd::prelude::*;
use crate::bytes::{bytes_eq, copy_bytes};

verus! {

/// `EINVAL`: invalid argument.
pub const EINVAL: i32 = 22;

/// The environment: variable names (without their NUL) and values, each
/// name at most once.
pub struct EnvVars {
    entries: Vec<(Vec<u8>, Vec<u8>)>,
}

/// The variables after `setenv(name, value, overwrite)`: a variable that is
/// already set is left alone when `overwrite` is 0; otherwise the name is
/// bound to the value.
pub open spec fn setenv_result(
    vars: Map<Seq<u8>, Seq<u8>>,
    name: Seq<u8>,
    value: Seq<u8>,
    overwrite: int,
) -> Map<Seq<u8>, Seq<u8>> {
    if vars.dom().contains(name) && overwrite == 0 {
        vars
    } else {
        vars.insert(name, value)
    }
}

impl EnvVars {
    /// The name of the `i`-th entry.
    pub closed spec fn name_at(self, i: int) -> Seq<u8> {
        self.entries@[i].0@
    }

    /// Whether the environment holds a variable of this name.
    pub closed spec fn has(self, name: Seq<u8>) -> bool {
        exists|i: int| 0 <= i < self.entries@.len() && #[trigger] self.name_at(i) == name
    }

    /// The variables as a map from name to value.
    pub closed spec fn view(self) -> Map<Seq<u8>, Seq<u8>> {
        Map::new(
            |name: Seq<u8>| self.has(name),
            |name: Seq<u8>|
                {
                    let i = choose|i: int|
                        0 <= i < self.entries@.len() && #[trigger] self.name_at(i) == name;
                    self.entries@[i].1@
                },
        )
    }

    /// No name occurs twice.
    pub closed spec fn wf(self) -> bool {
        forall|i: int, j: int|
            0 <= i < j < self.entries@.len() ==> #[trigger] self.name_at(i) != #[trigger] self.name_at(
                j,
            )
    }

    proof fn lemma_view_at(self, i: int)
        requires
            self.wf(),
            0 <= i < self.entries@.len(),
        ensures
            self@.dom().contains(self.name_at(i)),
            self@[self.name_at(i)] == self.entries@[i].1@,
    {
        let name = self.name_at(i);
        assert(self.has(name));
        let k = choose|k: int| 0 <= k < self.entries@.len() && #[trigger] self.name_at(k) == name;
        if k != i {
            if k < i {
                assert(self.name_at(k) != self.name_at(i));
            } else {
                assert(self.name_at(i) != self.name_at(k));
            }
        }
    }

    /// An empty environment.
    pub fn new() -> (r: Self)
        ensures
            r.wf(),
            r@ == Map::<Seq<u8>, Seq<u8>>::empty(),
    {
        let r = EnvVars { entries: Vec::new() };
        assert(r@ =~= Map::<Seq<u8>, Seq<u8>>::empty());
        r
    }

    fn find(&self, name: &[u8]) -> (r: Option<usize>)
        requires
            self.wf(),
        ensures
            match r {
                Some(i) => i < self.entries@.len() && self.name_at(i as int) == name@,
                None => !self.has(name@),
            },
    {
        let mut i: usize = 0;
        while i < self.entries.len()
            invariant
                i <= self.entries@.len(),
                forall|j: int| 0 <= j < i ==> #[trigger] self.name_at(j) != name@,
            decreases self.entries.len() - i,
        {
            if bytes_eq(self.entries[i].0.as_slice(), name) {
                return Some(i);
            }
            i = i + 1;
        }
        None
    }

    /// `getenv`: the value of a variable, `None` (a null pointer) where it
    /// is not set.
    pub fn getenv(&self, name: &[u8]) -> (r: Option<&[u8]>)
        requires
            self.wf(),
        ensures
            match r {
                Some(v) => self@.dom().contains(name@) && v@ == self@[name@],
                None => !self@.dom().contains(name@),
            },
    {
        match self.find(name) {
            Some(i) => {
                proof {
                    self.lemma_view_at(i as int);
                }
                Some(self.entries[i].1.as_slice())
            },
            None => None,
        }
    }

    /// `setenv`: sets a variable, unless it is already set and `overwrite`
    /// is 0. Returns 0; `errno` is cleared.
    pub fn setenv(&mut self, name: &[u8], value: &[u8], overwrite: i32, errno: &mut i32) -> (r: i32)
        requires
            old(self).wf(),
        ensures
            final(self).wf(),
            r == 0,
            *final(errno) == 0,
            final(self)@ == setenv_result(old(self)@, name@, value@, overwrite as int),
    {
        *errno = 0;
        let ghost old_self = *self;
        match self.find(name) {
            Some(i) => {
                if overwrite == 0 {
                    proof {
                        old_self.lemma_view_at(i as int);
                    }
                    return 0;
                }
                let entry = (copy_bytes(name), copy_bytes(value));
                self.entries.set(i, entry);
                proof {
                    assert forall|a: int, b: int|
                        0 <= a < b < self.entries@.len() implies #[trigger] self.name_at(a)
                        != #[trigger] self.name_at(b) by {
                        assert(old_self.name_at(a) != old_self.name_at(b));
                    }
                    old_self.lemma_view_at(i as int);
                    assert forall|k: Seq<u8>| #[trigger] self.has(k) == old_self.has(k) by {
                        if old_self.has(k) {
                            let j = choose|j: int|
                                0 <= j < old_self.entries@.len() && #[trigger] old_self.name_at(j) == k;
                            assert(self.name_at(j) == k);
                        }
                        if self.has(k) {
                            let j = choose|j: int|
                                0 <= j < self.entries@.len() && #[trigger] self.name_at(j) == k;
                            assert(old_self.name_at(j) == k);
                        }
                    }
                    assert forall|k: Seq<u8>| self@.dom().contains(k) implies self@[k]
                        == old_self@.insert(name@, value@)[k] by {
                        let j = choose|j: int|
                            0 <= j < self.entries@.len() && #[trigger] self.name_at(j) == k;
                        self.lemma_view_at(j);
                        if j != i {
                            old_self.lemma_view_at(j);
                        }
                    }
                    assert(self@ =~= old_self@.insert(name@, value@));
                }
                0
            },
            None => {
                let entry = (copy_bytes(name), copy_bytes(value));
                self.entries.push(entry);
                proof {
                    let n = old_self.entries@.len() as int;
                    assert(self.name_at(n) == name@);
                    assert forall|a: int, b: int|
                        0 <= a < b < self.entries@.len() implies #[trigger] self.name_at(a)
                        != #[trigger] self.name_at(b) by {
                        if b < n {
                            assert(old_self.name_at(a) != old_self.name_at(b));
                        } else {
                            assert(old_self.name_at(a) == self.name_at(a));
                        }
                    }
                    assert forall|k: Seq<u8>| #[trigger] self.has(k) == (old_self.has(k) || k == name@) by {
                        if old_self.has(k) {
                            let j = choose|j: int|
                                0 <= j < old_self.entries@.len() && #[trigger] old_self.name_at(j) == k;
                            assert(self.name_at(j) == k);
                        }
                        if self.has(k) {
                            let j = choose|j: int|
                                0 <= j < self.entries@.len() && #[trigger] self.name_at(j) == k;
                            if j < n {
                                assert(old_self.name_at(j) == k);
                            }
                        }
                    }
                    assert forall|k: Seq<u8>| self@.dom().contains(k) implies self@[k]
                        == old_self@.insert(name@, value@)[k] by {
                        let j = choose|j: int|
                            0 <= j < self.entries@.len() && #[trigger] self.name_at(j) == k;
                        self.lemma_view_at(j);
                        if j < n {
                            old_self.lemma_view_at(j);
                        }
                    }
                    assert(self@ =~= old_self@.insert(name@, value@));
                }
                0
            },
        }
    }

    /// `unsetenv`: removes a variable; returns 0 and clears `errno`, or
    /// returns -1 and sets `errno` to `EINVAL` where it was not set (and
    /// nothing changes).
    pub fn unsetenv(&mut self, name: &[u8], errno: &mut i32) -> (r: i32)
        requires
            old(self).wf(),
        ensures
            final(self).wf(),
            final(self)@ == old(self)@.remove(name@),
            (r, *final(errno)) == (if old(self)@.dom().contains(name@) {
                (0i32, 0i32)
            } else {
                (-1i32, EINVAL)
            }),
    {
        let ghost old_self = *self;
        match self.find(name) {
            Some(i) => {
                self.entries.remove(i);
                proof {
                    old_self.lemma_view_at(i as int);
                    let n = old_self.entries@.len() as int;
                    assert forall|a: int| 0 <= a < self.entries@.len() implies #[trigger] self.name_at(a)
                        == old_self.name_at(if a < i { a } else { a + 1 }) by {}
                    assert forall|a: int, b: int|
                        0 <= a < b < self.entries@.len() implies #[trigger] self.name_at(a)
                        != #[trigger] self.name_at(b) by {
                        let a2 = if a < i { a } else { a + 1 };
                        let b2 = if b < i { b } else { b + 1 };
                        assert(old_self.name_at(a2) != old_self.name_at(b2));
                    }
                    assert forall|k: Seq<u8>| #[trigger] self.has(k) == (old_self.has(k) && k != name@) by {
                        if old_self.has(k) && k != name@ {
                            let j = choose|j: int|
                                0 <= j < old_self.entries@.len() && #[trigger] old_self.name_at(j) == k;
                            assert(j != i);
                            let j2 = if j < i { j } else { j - 1 };
                            assert(self.name_at(j2) == k);
                        }
                        if self.has(k) {
                            let j = choose|j: int|
                                0 <= j < self.entries@.len() && #[trigger] self.name_at(j) == k;
                            let j2 = if j < i { j } else { j + 1 };
                            assert(old_self.name_at(j2) == k);
                            assert(j2 != i as int);
                            if j2 < i {
                                assert(old_self.name_at(j2) != old_self.name_at(i as int));
                            } else {
                                assert(old_self.name_at(i as int) != old_self.name_at(j2));
                            }
                        }
                    }
                    assert forall|k: Seq<u8>| self@.dom().contains(k) implies self@[k]
                        == old_self@.remove(name@)[k] by {
                        let j = choose|j: int|
                            0 <= j < self.entries@.len() && #[trigger] self.name_at(j) == k;
                        self.lemma_view_at(j);
                        old_self.lemma_view_at(if j < i { j } else { j + 1 });
                    }
                    assert(self@ =~= old_self@.remove(name@));
                }
                *errno = 0;
                0
            },
            None => {
                proof {
                    assert(old_self@ =~= old_self@.remove(name@));
                }
                *errno = EINVAL;
                -1
            },
        }
    }
}

/// Reading a variable after `setenv` gives back the value it was set to,
/// where `setenv` was told to overwrite or the variable was not set yet.
pub proof fn lemma_getenv_after_setenv(
    vars: Map<Seq<u8>, Seq<u8>>,
    name: Seq<u8>,
    value: Seq<u8>,
    overwrite: int,
)
    requires
        overwrite != 0 || !vars.dom().contains(name),
    ensures
        setenv_result(vars, name, value, overwrite).dom().contains(name),
        setenv_result(vars, name, value, overwrite)[name] == value,
{
}

/// `setenv` without overwriting leaves a variable that is already set, and
/// with it the whole environment, unchanged.
pub proof fn lemma_setenv_no_overwrite(vars: Map<Seq<u8>, Seq<u8>>, name: Seq<u8>, value: Seq<u8>)
    requires
        vars.dom().contains(name),
    ensures
        setenv_result(vars, name, value, 0) == vars,
{
}

/// `setenv` touches no variable but the one it names.
pub proof fn lemma_setenv_keeps_others(
    vars: Map<Seq<u8>, Seq<u8>>,
    name: Seq<u8>,
    value: Seq<u8>,
    overwrite: int,
    other: Seq<u8>,
)
    requires
        other != name,
    ensures
        setenv_result(vars, name, value, overwrite).dom().contains(other) == vars.dom().contains(other),
        vars.dom().contains(other) ==> setenv_result(vars, name, value, overwrite)[other] == vars[other],
{
}

/// `unsetenv` after `setenv` of the same name leaves the environment as
/// `unsetenv` alone would have: the variable is gone and nothing else
/// changed.
pub proof fn lemma_unsetenv_undoes_setenv(
    vars: Map<Seq<u8>, Seq<u8>>,
    name: Seq<u8>,
    value: Seq<u8>,
    overwrite: int,
)
    ensures
        setenv_result(vars, name, value, overwrite).remove(name) == vars.remove(name),
{
    assert(setenv_result(vars, name, value, overwrite).remove(name) =~= vars.remove(name));
}

} // verus!
