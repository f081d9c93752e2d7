//! An ordered multi-value header map, as the CGI head parser needs it:
//! a name may carry several values, values keep their arrival order, and a
//! name occurs at most once among the entries.

use vstd::prelude::*;

use crate::text::str_eq;

verus! {

/// The mathematical shape of a header map: each entry pairs a name with the
/// ordered sequence of its values.
pub type HeadersView = Seq<(Seq<char>, Seq<Seq<char>>)>;

/// One header name with all its values, in arrival order.
#[derive(Debug)]
pub struct HeaderEntry {
    pub name: String,
    pub values: Vec<String>,
}

impl View for HeaderEntry {
    type V = (Seq<char>, Seq<Seq<char>>);

    open spec fn view(&self) -> (Seq<char>, Seq<Seq<char>>) {
        (self.name@, self.values.deep_view())
    }
}

/// The index of the entry named `name`, or `-1` if no entry carries it.
pub open spec fn find_name(hs: HeadersView, name: Seq<char>) -> int
    decreases hs.len(),
{
    if hs.len() == 0 {
        -1
    } else if hs[0].0 == name {
        0
    } else if find_name(hs.drop_first(), name) < 0 {
        -1
    } else {
        find_name(hs.drop_first(), name) + 1
    }
}

/// `find_name` names the first entry with the given name: at the returned
/// index the name stands, before it the name does not occur, and `-1` means
/// it occurs nowhere.
pub proof fn lemma_find_name(hs: HeadersView, name: Seq<char>)
    ensures
        find_name(hs, name) == -1 || (0 <= find_name(hs, name) < hs.len()),
        find_name(hs, name) >= 0 ==> hs[find_name(hs, name)].0 == name,
        find_name(hs, name) >= 0 ==> forall|j: int| 0 <= j < find_name(hs, name) ==> hs[j].0 != name,
        find_name(hs, name) == -1 ==> forall|j: int| 0 <= j < hs.len() ==> hs[j].0 != name,
    decreases hs.len(),
{
    if hs.len() > 0 && hs[0].0 != name {
        let t = hs.drop_first();
        lemma_find_name(t, name);
        if find_name(t, name) >= 0 {
            assert forall|j: int| 0 <= j < find_name(hs, name) implies hs[j].0 != name by {
                if j > 0 {
                    assert(hs[j] == t[j - 1]);
                }
            }
        } else {
            assert forall|j: int| 0 <= j < hs.len() implies hs[j].0 != name by {
                if j > 0 {
                    assert(hs[j] == t[j - 1]);
                }
            }
        }
    }
}

/// The map after one `name: value` line: the value joins the entry already
/// named `name`, or a fresh entry goes to the end.
pub open spec fn add_value(hs: HeadersView, name: Seq<char>, value: Seq<char>) -> HeadersView {
    let i = find_name(hs, name);
    if i < 0 {
        hs.push((name, seq![value]))
    } else {
        hs.update(i, (hs[i].0, hs[i].1.push(value)))
    }
}

/// The values stored under `name`, if any entry carries it.
pub open spec fn lookup(hs: HeadersView, name: Seq<char>) -> Option<Seq<Seq<char>>> {
    let i = find_name(hs, name);
    if i < 0 {
        None
    } else {
        Some(hs[i].1)
    }
}

/// Characterizes `find_name` by its defining property: the index of an
/// entry carrying `name` before which the name does not occur is the one
/// `find_name` yields.
proof fn lemma_find_name_at(hs: HeadersView, name: Seq<char>, i: int)
    requires
        0 <= i < hs.len(),
        hs[i].0 == name,
        forall|j: int| 0 <= j < i ==> hs[j].0 != name,
    ensures
        find_name(hs, name) == i,
{
    lemma_find_name(hs, name);
}

/// Duplicate headers accumulate in arrival order, and nothing else moves:
/// after one more `name: value` line the values under `name` gain `value`
/// at the end (a fresh entry opens with it alone), while every other name
/// keeps exactly the values it had.
pub proof fn lemma_add_value_accumulates(hs: HeadersView, name: Seq<char>, value: Seq<char>)
    ensures
        lookup(add_value(hs, name, value), name) == match lookup(hs, name) {
            None => Some(seq![value]),
            Some(vs) => Some(vs.push(value)),
        },
        forall|other: Seq<char>|
            other != name ==> #[trigger] lookup(add_value(hs, name, value), other) == lookup(
                hs,
                other,
            ),
{
    lemma_find_name(hs, name);
    let hs2 = add_value(hs, name, value);
    let f = find_name(hs, name);
    if f < 0 {
        lemma_find_name_at(hs2, name, hs.len() as int);
    } else {
        lemma_find_name_at(hs2, name, f);
    }
    assert forall|other: Seq<char>|
        other != name implies #[trigger] lookup(hs2, other) == lookup(hs, other) by {
        lemma_find_name(hs, other);
        let g = find_name(hs, other);
        if g < 0 {
            if find_name(hs2, other) >= 0 {
                lemma_find_name(hs2, other);
                let w = find_name(hs2, other);
                assert(hs2[w].0 == other);
                if w < hs.len() && w != f {
                    assert(hs2[w] == hs[w]);
                }
                assert(false);
            }
        } else {
            assert(g != f);
            assert forall|j: int| 0 <= j < g implies hs2[j].0 != other by {
                if j != f {
                    assert(hs2[j] == hs[j]);
                }
            }
            lemma_find_name_at(hs2, other, g);
            assert(hs2[g] == hs[g]);
        }
    }
}

/// The map without the entry named `name`; without such an entry it is
/// unchanged.
pub open spec fn remove_name(hs: HeadersView, name: Seq<char>) -> HeadersView {
    let i = find_name(hs, name);
    if i < 0 {
        hs
    } else {
        hs.remove(i)
    }
}

/// Whether no name occurs in two entries.
pub open spec fn distinct_names(hs: HeadersView) -> bool {
    forall|i: int, j: int| 0 <= i < j < hs.len() ==> hs[i].0 != hs[j].0
}

/// Dropping the entry named `name` touches nothing else: afterwards `name`
/// has no values, and every other name keeps exactly the values it had.
pub proof fn lemma_remove_name_forwards_rest(hs: HeadersView, name: Seq<char>)
    requires
        distinct_names(hs),
    ensures
        lookup(remove_name(hs, name), name) is None,
        forall|other: Seq<char>|
            other != name ==> #[trigger] lookup(remove_name(hs, name), other) == lookup(
                hs,
                other,
            ),
{
    lemma_find_name(hs, name);
    let f = find_name(hs, name);
    let hs2 = remove_name(hs, name);
    if f >= 0 {
        if find_name(hs2, name) >= 0 {
            lemma_find_name(hs2, name);
            let w = find_name(hs2, name);
            if w < f {
                assert(hs2[w] == hs[w]);
            } else {
                assert(hs2[w] == hs[w + 1]);
            }
            assert(false);
        }
    }
    assert forall|other: Seq<char>|
        other != name implies #[trigger] lookup(hs2, other) == lookup(hs, other) by {
        lemma_find_name(hs, other);
        let g = find_name(hs, other);
        if f < 0 {
        } else if g < 0 {
            if find_name(hs2, other) >= 0 {
                lemma_find_name(hs2, other);
                let w = find_name(hs2, other);
                if w < f {
                    assert(hs2[w] == hs[w]);
                } else {
                    assert(hs2[w] == hs[w + 1]);
                }
                assert(false);
            }
        } else if g < f {
            assert forall|j: int| 0 <= j < g implies hs2[j].0 != other by {
                assert(hs2[j] == hs[j]);
            }
            assert(hs2[g] == hs[g]);
            lemma_find_name_at(hs2, other, g);
        } else {
            assert(g != f);
            assert forall|j: int| 0 <= j < g - 1 implies hs2[j].0 != other by {
                if j < f {
                    assert(hs2[j] == hs[j]);
                } else {
                    assert(hs2[j] == hs[j + 1]);
                }
            }
            assert(hs2[g - 1] == hs[g]);
            lemma_find_name_at(hs2, other, g - 1);
        }
    }
}

/// The header map the parser accumulates into and the response carries.
#[derive(Debug)]
pub struct Headers {
    pub entries: Vec<HeaderEntry>,
}

impl View for Headers {
    type V = HeadersView;

    open spec fn view(&self) -> HeadersView {
        Seq::new(self.entries@.len(), |i: int| self.entries@[i]@)
    }
}

impl Headers {
    /// Well-formed: no name occurs in two entries.
    pub open spec fn wf(&self) -> bool {
        distinct_names(self@)
    }

    /// An empty header map.
    pub fn new() -> (r: Headers)
        ensures
            r@ == Seq::<(Seq<char>, Seq<Seq<char>>)>::empty(),
            r.wf(),
    {
        let r = Headers { entries: Vec::new() };
        proof {
            assert(r@ =~= Seq::<(Seq<char>, Seq<Seq<char>>)>::empty());
        }
        r
    }

    /// The index of the entry named `name`, if one exists.
    pub fn find(&self, name: &str) -> (r: Option<usize>)
        ensures
            r matches Some(i) ==> i == find_name(self@, name@),
            r is None ==> find_name(self@, name@) == -1,
    {
        let n: usize = self.entries.len();
        let mut i: usize = 0;
        while i < n
            invariant
                i <= n,
                n == self.entries@.len(),
                self@.len() == self.entries@.len(),
                forall|j: int| 0 <= j < i ==> #[trigger] self@[j].0 != name@,
            decreases n - i,
        {
            if str_eq(self.entries[i].name.as_str(), name) {
                proof {
                    assert(self@[i as int].0 == name@);
                    lemma_find_name(self@, name@);
                }
                return Some(i);
            }
            proof {
                assert(self@[i as int].0 == self.entries@[i as int].name@);
            }
            i = i + 1;
        }
        proof {
            lemma_find_name(self@, name@);
        }
        None
    }

    /// Records one `name: value` pair, appending the value to an entry that
    /// already carries the name, or opening a fresh entry at the end.
    pub fn add(&mut self, name: String, value: String)
        requires
            old(self).wf(),
        ensures
            final(self)@ == add_value(old(self)@, name@, value@),
            final(self).wf(),
    {
        let found = self.find(name.as_str());
        match found {
            Some(i) => {
                proof {
                    lemma_find_name(self@, name@);
                }
                let ghost before = self@;
                self.entries[i].values.push(value);
                proof {
                    assert(self@ =~~= add_value(before, name@, value@));
                    assert forall|p: int, q: int|
                        0 <= p < q < self@.len() implies self@[p].0 != self@[q].0 by {
                        assert(self@[p].0 == before[p].0);
                        assert(self@[q].0 == before[q].0);
                    }
                }
            }
            None => {
                proof {
                    lemma_find_name(self@, name@);
                }
                let ghost before = self@;
                let entry = HeaderEntry { name, values: vec![value] };
                proof {
                    assert(entry@.1 =~~= seq![value@]);
                }
                self.entries.push(entry);
                proof {
                    assert(self@ =~~= add_value(before, name@, value@));
                    assert forall|p: int, q: int|
                        0 <= p < q < self@.len() implies self@[p].0 != self@[q].0 by {
                        assert(self@[p].0 == before[p].0);
                        if q < before.len() {
                            assert(self@[q].0 == before[q].0);
                        }
                    }
                }
            }
        }
    }

    /// Hands out the values stored under `name` and drops the entry, or
    /// leaves the map unchanged when no entry carries the name.
    pub fn remove(&mut self, name: &str) -> (r: Option<Vec<String>>)
        requires
            old(self).wf(),
        ensures
            final(self)@ == remove_name(old(self)@, name@),
            final(self).wf(),
            r matches Some(vs) ==> lookup(old(self)@, name@) == Some(vs.deep_view()),
            r is None ==> lookup(old(self)@, name@) is None,
    {
        let found = self.find(name);
        match found {
            Some(i) => {
                proof {
                    lemma_find_name(self@, name@);
                }
                let ghost before = self@;
                let entry = self.entries.remove(i);
                proof {
                    assert(self@ =~~= remove_name(before, name@));
                    assert forall|p: int, q: int|
                        0 <= p < q < self@.len() implies self@[p].0 != self@[q].0 by {
                        if p < i {
                            assert(self@[p].0 == before[p].0);
                        } else {
                            assert(self@[p].0 == before[p + 1].0);
                        }
                        if q < i {
                            assert(self@[q].0 == before[q].0);
                        } else {
                            assert(self@[q].0 == before[q + 1].0);
                        }
                    }
                }
                Some(entry.values)
            }
            None => None,
        }
    }

    /// The values stored under `name`, if any entry carries it.
    pub fn get(&self, name: &str) -> (r: Option<&Vec<String>>)
        ensures
            r matches Some(vs) ==> lookup(self@, name@) == Some(vs.deep_view()),
            r is None ==> lookup(self@, name@) is None,
    {
        let found = self.find(name);
        match found {
            Some(i) => {
                proof {
                    lemma_find_name(self@, name@);
                }
                Some(&self.entries[i].values)
            }
            None => None,
        }
    }

    /// How many distinct names the map holds.
    pub fn len(&self) -> (r: usize)
        ensures
            r == self@.len(),
    {
        self.entries.len()
    }
}

} // verus!
