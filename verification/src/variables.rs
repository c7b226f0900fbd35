//! The convenience variables and result slots of a session.
use crate::text::{comes_before, is_before, lemma_before_total, lemma_before_transitive, same};
use vstd::prelude::*;
use vstd::string::*;

verus! {

/// A convenience variable: its value, and the expression it was set to.
#[derive(Debug, Clone)]
pub struct UserVar {
    pub name: String,
    pub value: u64,
    pub source: String,
}

/// A variable that the debugger provides.
#[derive(Debug)]
pub struct BuiltinVar {
    pub name: String,
    pub value: u64,
    pub source: String,
}

/// The variables of a session: those of the user, in ascending order of name,
/// and the results of the last command, with the command.
#[derive(Debug, Clone)]
pub struct Variables {
    pub user: Vec<UserVar>,
    pub results: Vec<u64>,
    pub results_origin: Option<String>,
}

/// Whether a list is in strictly ascending order of name.
pub open spec fn in_order(list: Seq<UserVar>) -> bool {
    forall|i: int, j: int|
        0 <= i < j < list.len() ==> comes_before((#[trigger] list[i]).name@, (
        #[trigger] list[j]).name@)
}

/// Whether a list holds a variable of this name, value and source.
pub open spec fn holds(list: Seq<UserVar>, name: Seq<char>, value: u64, source: Seq<char>) -> bool {
    exists|i: int|
        0 <= i < list.len() && (#[trigger] list[i]).name@ == name && list[i].value == value
            && list[i].source@ == source
}

/// Whether a list holds a variable of this name.
pub open spec fn defines(list: Seq<UserVar>, name: Seq<char>) -> bool {
    exists|i: int| 0 <= i < list.len() && (#[trigger] list[i]).name@ == name
}

impl Variables {
    pub open spec fn well_formed(&self) -> bool {
        in_order(self.user@)
    }

    pub fn new() -> (r: Variables)
        ensures
            r.well_formed(),
            r.user@ == Seq::<UserVar>::empty(),
            r.results@ == Seq::<u64>::empty(),
            r.results_origin is None,
    {
        Variables { user: Vec::new(), results: Vec::new(), results_origin: None }
    }

    /// Takes the results of a command.
    pub fn set_results(&mut self, results: Vec<u64>, origin: String)
        ensures
            final(self).results == results,
            final(self).results_origin == Some(origin),
            final(self).user == old(self).user,
    {
        self.results = results;
        self.results_origin = Some(origin);
    }

    /// Where a name belongs: behind every name that comes before it.
    fn place(&self, name: &str) -> (at: usize)
        requires
            self.well_formed(),
        ensures
            at <= self.user@.len(),
            forall|i: int| 0 <= i < at ==> comes_before((#[trigger] self.user@[i]).name@, name@),
            forall|i: int|
                at <= i < self.user@.len() ==> !comes_before((#[trigger] self.user@[i]).name@, name@),
            forall|i: int|
                at < i < self.user@.len() ==> comes_before(name@, (#[trigger] self.user@[i]).name@),
            forall|i: int|
                0 <= i < self.user@.len() && i != at ==> (#[trigger] self.user@[i]).name@ != name@,
    {
        let mut at: usize = 0;
        while at < self.user.len() && is_before(self.user[at].name.as_str(), name)
            invariant
                at <= self.user@.len(),
                forall|i: int|
                    0 <= i < at ==> comes_before((#[trigger] self.user@[i]).name@, name@),
            decreases self.user@.len() - at,
        {
            at += 1;
        }
        proof {
            let list = self.user@;
            assert forall|i: int| at < i < list.len() implies comes_before(
                name@,
                (#[trigger] list[i]).name@,
            ) by {
                assert(comes_before(list[at as int].name@, list[i].name@));
                lemma_before_total(list[at as int].name@, name@);
                if list[at as int].name@ != name@ {
                    lemma_before_transitive(name@, list[at as int].name@, list[i].name@);
                }
            }
            assert forall|i: int| at <= i < list.len() implies !comes_before(
                (#[trigger] list[i]).name@,
                name@,
            ) by {
                lemma_before_total(list[i].name@, name@);
            }
            assert forall|i: int| 0 <= i < list.len() && i != at implies (
            #[trigger] list[i]).name@ != name@ by {
                lemma_before_total(list[i].name@, name@);
            }
        }
        at
    }

    /// Sets a variable, which may have been set before.
    pub fn set(&mut self, name: String, value: u64, source: String)
        requires
            old(self).well_formed(),
        ensures
            final(self).well_formed(),
            final(self).results == old(self).results,
            final(self).results_origin == old(self).results_origin,
            forall|n: Seq<char>, v: u64, s: Seq<char>| #[trigger]
                holds(final(self).user@, n, v, s) <==> if n == name@ {
                    v == value && s == source@
                } else {
                    holds(old(self).user@, n, v, s)
                },
    {
        let at: usize = self.place(name.as_str());
        let ghost before = self.user@;
        let known = at < self.user.len() && same(self.user[at].name.as_str(), name.as_str());
        let ghost added = UserVar { name, value, source };
        if known {
            self.user.set(at, UserVar { name, value, source });
            proof {
                assert(in_order(self.user@)) by {
                    assert forall|i: int, j: int| 0 <= i < j < self.user@.len() implies comes_before(
                        (#[trigger] self.user@[i]).name@,
                        (#[trigger] self.user@[j]).name@,
                    ) by {
                        assert(comes_before(before[i].name@, before[j].name@));
                    }
                }
                assert forall|n: Seq<char>, v: u64, s: Seq<char>| #[trigger]
                    holds(self.user@, n, v, s) <==> (if n == name@ {
                        v == value && s == source@
                    } else {
                        holds(before, n, v, s)
                    }) by {
                    lemma_set(before, self.user@, added, at as int, n, v, s);
                }
            }
        } else {
            proof {
                if at < before.len() {
                    lemma_before_total(before[at as int].name@, name@);
                }
            }
            self.user.insert(at, UserVar { name, value, source });
            proof {
                assert(in_order(self.user@)) by {
                    assert forall|i: int, j: int| 0 <= i < j < self.user@.len() implies comes_before(
                        (#[trigger] self.user@[i]).name@,
                        (#[trigger] self.user@[j]).name@,
                    ) by {
                        let p = if i < at {
                            i
                        } else {
                            i - 1
                        };
                        let q = if j < at {
                            j
                        } else {
                            j - 1
                        };
                        if i != at && j != at {
                            assert(comes_before(before[p].name@, before[q].name@));
                        }
                    }
                }
                assert forall|n: Seq<char>, v: u64, s: Seq<char>| #[trigger]
                    holds(self.user@, n, v, s) <==> (if n == name@ {
                        v == value && s == source@
                    } else {
                        holds(before, n, v, s)
                    }) by {
                    lemma_insert(before, added, at as int, n, v, s);
                }
            }
        }
    }

    /// Removes a variable; says whether there was one.
    pub fn unset(&mut self, name: &str) -> (r: bool)
        requires
            old(self).well_formed(),
        ensures
            final(self).well_formed(),
            final(self).results == old(self).results,
            final(self).results_origin == old(self).results_origin,
            r == defines(old(self).user@, name@),
            forall|n: Seq<char>, v: u64, s: Seq<char>| #[trigger]
                holds(final(self).user@, n, v, s) <==> n != name@ && holds(
                    old(self).user@,
                    n,
                    v,
                    s,
                ),
    {
        let at: usize = self.place(name);
        let ghost before = self.user@;
        let known = at < self.user.len() && same(self.user[at].name.as_str(), name);
        if known {
            self.user.remove(at);
            proof {
                assert(before[at as int].name@ == name@);
                assert(in_order(self.user@)) by {
                    assert forall|i: int, j: int| 0 <= i < j < self.user@.len() implies comes_before(
                        (#[trigger] self.user@[i]).name@,
                        (#[trigger] self.user@[j]).name@,
                    ) by {
                        let p = if i < at {
                            i
                        } else {
                            i + 1
                        };
                        let q = if j < at {
                            j
                        } else {
                            j + 1
                        };
                        assert(comes_before(before[p].name@, before[q].name@));
                    }
                }
                assert forall|n: Seq<char>, v: u64, s: Seq<char>| #[trigger]
                    holds(self.user@, n, v, s) <==> n != name@ && holds(before, n, v, s) by {
                    lemma_remove(before, at as int, n, v, s);
                }
            }
        } else {
            proof {
                if defines(before, name@) {
                    let i = choose|i: int| 0 <= i < before.len() && (#[trigger] before[i]).name@ == name@;
                    assert(i == at);
                }
                assert forall|n: Seq<char>, v: u64, s: Seq<char>| #[trigger]
                    holds(self.user@, n, v, s) <==> n != name@ && holds(before, n, v, s) by {
                    if holds(before, n, v, s) && n == name@ {
                        let i = choose|i: int|
                            0 <= i < before.len() && (#[trigger] before[i]).name@ == n
                                && before[i].value == v && before[i].source@ == s;
                        assert(defines(before, name@));
                    }
                }
            }
        }
        known
    }
}

proof fn lemma_set(
    before: Seq<UserVar>,
    after: Seq<UserVar>,
    added: UserVar,
    at: int,
    n: Seq<char>,
    v: u64,
    s: Seq<char>,
)
    requires
        0 <= at < before.len(),
        after == before.update(at, added),
        before[at].name@ == added.name@,
        forall|i: int|
            0 <= i < before.len() && i != at ==> (#[trigger] before[i]).name@ != added.name@,
    ensures
        holds(after, n, v, s) <==> (if n == added.name@ {
            v == added.value && s == added.source@
        } else {
            holds(before, n, v, s)
        }),
{
    if holds(after, n, v, s) {
        let i = choose|i: int|
            0 <= i < after.len() && (#[trigger] after[i]).name@ == n && after[i].value == v
                && after[i].source@ == s;
        if i != at {
            assert(before[i] == after[i]);
        }
    }
    if n == added.name@ && v == added.value && s == added.source@ {
        assert(after[at].name@ == n);
    }
    if n != added.name@ && holds(before, n, v, s) {
        let i = choose|i: int|
            0 <= i < before.len() && (#[trigger] before[i]).name@ == n && before[i].value == v
                && before[i].source@ == s;
        assert(after[i] == before[i]);
    }
}

proof fn lemma_insert(
    before: Seq<UserVar>,
    added: UserVar,
    at: int,
    n: Seq<char>,
    v: u64,
    s: Seq<char>,
)
    requires
        0 <= at <= before.len(),
        forall|i: int| 0 <= i < before.len() ==> (#[trigger] before[i]).name@ != added.name@,
    ensures
        holds(before.insert(at, added), n, v, s) <==> (if n == added.name@ {
            v == added.value && s == added.source@
        } else {
            holds(before, n, v, s)
        }),
{
    let after = before.insert(at, added);
    if holds(after, n, v, s) {
        let i = choose|i: int|
            0 <= i < after.len() && (#[trigger] after[i]).name@ == n && after[i].value == v
                && after[i].source@ == s;
        if i < at {
            assert(before[i] == after[i]);
        } else if i > at {
            assert(before[i - 1] == after[i]);
        }
    }
    if n == added.name@ && v == added.value && s == added.source@ {
        assert(after[at].name@ == n);
    }
    if n != added.name@ && holds(before, n, v, s) {
        let i = choose|i: int|
            0 <= i < before.len() && (#[trigger] before[i]).name@ == n && before[i].value == v
                && before[i].source@ == s;
        if i < at {
            assert(after[i] == before[i]);
        } else {
            assert(after[i + 1] == before[i]);
        }
    }
}

proof fn lemma_remove(before: Seq<UserVar>, at: int, n: Seq<char>, v: u64, s: Seq<char>)
    requires
        0 <= at < before.len(),
        forall|i: int|
            0 <= i < before.len() && i != at ==> (#[trigger] before[i]).name@ != before[at].name@,
    ensures
        holds(before.remove(at), n, v, s) <==> n != before[at].name@ && holds(before, n, v, s),
{
    let after = before.remove(at);
    if holds(after, n, v, s) {
        let i = choose|i: int|
            0 <= i < after.len() && (#[trigger] after[i]).name@ == n && after[i].value == v
                && after[i].source@ == s;
        if i < at {
            assert(before[i] == after[i]);
        } else {
            assert(before[i + 1] == after[i]);
        }
    }
    if n != before[at].name@ && holds(before, n, v, s) {
        let i = choose|i: int|
            0 <= i < before.len() && (#[trigger] before[i]).name@ == n && before[i].value == v
                && before[i].source@ == s;
        if i < at {
            assert(after[i] == before[i]);
        } else {
            assert(after[i - 1] == before[i]);
        }
    }
}

/// A variable has one value.
pub proof fn law_one_value(list: Seq<UserVar>, name: Seq<char>, a: u64, s: Seq<char>, b: u64, t: Seq<char>)
    requires
        in_order(list),
        holds(list, name, a, s),
        holds(list, name, b, t),
    ensures
        a == b,
        s == t,
{
    let i = choose|i: int|
        0 <= i < list.len() && (#[trigger] list[i]).name@ == name && list[i].value == a
            && list[i].source@ == s;
    let j = choose|j: int|
        0 <= j < list.len() && (#[trigger] list[j]).name@ == name && list[j].value == b
            && list[j].source@ == t;
    lemma_before_total(name, name);
    if i < j {
        assert(comes_before(list[i].name@, list[j].name@));
    } else if j < i {
        assert(comes_before(list[j].name@, list[i].name@));
    }
}

} // verus!
