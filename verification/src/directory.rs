//! Directories as sequences of named values, in listing order.

use vstd::prelude::*;

verus! {

/// Where the name stands.
pub open spec fn find<V>(s: Seq<(Seq<char>, V)>, name: Seq<char>) -> Option<int>
    decreases s.len(),
{
    if s.len() == 0 {
        None
    } else {
        match find(s.drop_last(), name) {
            Some(i) => Some(i),
            None => if s.last().0 == name {
                Some(s.len() - 1)
            } else {
                None
            },
        }
    }
}

pub open spec fn lookup<V>(s: Seq<(Seq<char>, V)>, name: Seq<char>) -> Option<V> {
    match find(s, name) {
        Some(i) => Some(s[i].1),
        None => None,
    }
}

/// The value under the name, new or replaced.
pub open spec fn with_entry<V>(s: Seq<(Seq<char>, V)>, name: Seq<char>, value: V) -> Seq<
    (Seq<char>, V),
> {
    match find(s, name) {
        Some(i) => s.update(i, (name, value)),
        None => s.push((name, value)),
    }
}

pub open spec fn without_entry<V>(s: Seq<(Seq<char>, V)>, name: Seq<char>) -> Seq<(Seq<char>, V)> {
    match find(s, name) {
        Some(i) => s.remove(i),
        None => s,
    }
}

/// No name stands twice.
pub open spec fn distinct_names<V>(s: Seq<(Seq<char>, V)>) -> bool {
    forall|i: int, j: int|
        0 <= i < s.len() && 0 <= j < s.len() && (#[trigger] s[i]).0 == (#[trigger] s[j]).0 ==> i
            == j
}

pub proof fn lemma_find<V>(s: Seq<(Seq<char>, V)>, name: Seq<char>)
    ensures
        match find(s, name) {
            Some(i) => 0 <= i < s.len() && s[i].0 == name && forall|j: int|
                0 <= j < i ==> (#[trigger] s[j]).0 != name,
            None => forall|j: int| 0 <= j < s.len() ==> (#[trigger] s[j]).0 != name,
        },
    decreases s.len(),
{
    if s.len() > 0 {
        let front = s.drop_last();
        lemma_find(front, name);
        assert forall|j: int| 0 <= j < front.len() implies front[j] == #[trigger] s[j] by {}
    }
}

pub proof fn lemma_with_entry<V>(s: Seq<(Seq<char>, V)>, name: Seq<char>, value: V, other: Seq<char>)
    requires
        distinct_names(s),
    ensures
        distinct_names(with_entry(s, name, value)),
        lookup(with_entry(s, name, value), name) == Some(value),
        other != name ==> lookup(with_entry(s, name, value), other) == lookup(s, other),
{
    let n = with_entry(s, name, value);
    lemma_find(s, name);
    lemma_find(s, other);
    lemma_find(n, name);
    lemma_find(n, other);
    match find(s, name) {
        Some(i) => {
            assert(n[i].0 == name);
            if other != name {
                match find(s, other) {
                    Some(k) => {
                        assert(n[k] == s[k]);
                        let m = find(n, other)->0;
                        assert(n[m] == s[m]);
                        assert(m == k);
                    },
                    None => {
                        if find(n, other) is Some {
                            let m = find(n, other)->0;
                            assert(n[m] == s[m]);
                        }
                    },
                }
            }
        },
        None => {
            let l = s.len() as int;
            assert(n[l].0 == name);
            if find(n, name) is Some && find(n, name)->0 < l {
                assert(n[find(n, name)->0] == s[find(n, name)->0]);
            }
            if other != name {
                match find(s, other) {
                    Some(k) => {
                        assert(n[k] == s[k]);
                        let m = find(n, other)->0;
                        assert(m < l);
                        assert(n[m] == s[m]);
                        assert(m == k);
                    },
                    None => {
                        if find(n, other) is Some {
                            let m = find(n, other)->0;
                            assert(n[m] == s[m]);
                        }
                    },
                }
            }
        },
    }
}

pub proof fn lemma_without_entry<V>(s: Seq<(Seq<char>, V)>, name: Seq<char>, other: Seq<char>)
    requires
        distinct_names(s),
    ensures
        distinct_names(without_entry(s, name)),
        lookup(without_entry(s, name), name) is None,
        other != name ==> lookup(without_entry(s, name), other) == lookup(s, other),
{
    let n = without_entry(s, name);
    lemma_find(s, name);
    lemma_find(s, other);
    lemma_find(n, name);
    lemma_find(n, other);
    match find(s, name) {
        None => {},
        Some(at) => {
            assert forall|i: int| 0 <= i < n.len() implies #[trigger] n[i] == s[if i < at {
                i
            } else {
                i + 1
            }] by {}
            assert forall|i: int, j: int|
                0 <= i < n.len() && 0 <= j < n.len() && (#[trigger] n[i]).0 == (
                #[trigger] n[j]).0 implies i == j by {
                let x = if i < at {
                    i
                } else {
                    i + 1
                };
                let y = if j < at {
                    j
                } else {
                    j + 1
                };
                assert(s[x].0 == s[y].0);
            }
            if find(n, name) is Some {
                let i = find(n, name)->0;
                let x = if i < at {
                    i
                } else {
                    i + 1
                };
                assert(s[x].0 == s[at].0);
            }
            if other != name {
                match find(s, other) {
                    Some(k) => {
                        let i = if k < at {
                            k
                        } else {
                            k - 1
                        };
                        assert(n[i] == s[k]);
                        let m = find(n, other)->0;
                        assert(n[m].0 == n[i].0);
                    },
                    None => {
                        if find(n, other) is Some {
                            let m = find(n, other)->0;
                            let x = if m < at {
                                m
                            } else {
                                m + 1
                            };
                            assert(n[m] == s[x]);
                        }
                    },
                }
            }
        },
    }
}

/// What is kept of a directory stood in it.
proof fn lemma_kept_stood<V>(
    s: Seq<(Seq<char>, V)>,
    keep: spec_fn((Seq<char>, V)) -> bool,
    i: int,
) -> (k: int)
    requires
        0 <= i < s.filter(keep).len(),
    ensures
        0 <= k < s.len(),
        s[k] == s.filter(keep)[i],
    decreases s.len(),
{
    reveal(Seq::filter);
    let front = s.drop_last();
    if s.len() == 0 {
        0
    } else if i < front.filter(keep).len() {
        let k = lemma_kept_stood(front, keep, i);
        assert(front[k] == s[k]);
        k
    } else {
        s.len() - 1
    }
}

pub proof fn lemma_filtered_names<V>(
    s: Seq<(Seq<char>, V)>,
    keep: spec_fn((Seq<char>, V)) -> bool,
)
    requires
        distinct_names(s),
    ensures
        distinct_names(s.filter(keep)),
    decreases s.len(),
{
    reveal(Seq::filter);
    if s.len() > 0 {
        let front = s.drop_last();
        assert forall|i: int, j: int|
            0 <= i < front.len() && 0 <= j < front.len() && (#[trigger] front[i]).0 == (
            #[trigger] front[j]).0 implies i == j by {
            assert(front[i] == s[i] && front[j] == s[j]);
        }
        lemma_filtered_names(front, keep);
        if keep(s.last()) {
            let g = front.filter(keep);
            let f = s.filter(keep);
            let last = s.len() - 1;
            assert forall|i: int| 0 <= i < g.len() implies (#[trigger] g[i]).0 != s[last].0 by {
                let k = lemma_kept_stood(front, keep, i);
                assert(front[k] == s[k]);
            }
            assert forall|i: int, j: int|
                0 <= i < f.len() && 0 <= j < f.len() && (#[trigger] f[i]).0 == (
                #[trigger] f[j]).0 implies i == j by {
                if i < g.len() && j < g.len() {
                    assert(f[i] == g[i] && f[j] == g[j]);
                } else if i < g.len() {
                    assert(f[i] == g[i]);
                } else if j < g.len() {
                    assert(f[j] == g[j]);
                }
            }
        }
    }
}

} // verus!
