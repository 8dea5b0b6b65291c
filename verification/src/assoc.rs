//! Tables of named values.

use crate::text::same_text;
use vstd::prelude::*;

verus! {

/// The first value under a name, from position `i` on.
pub open spec fn named_from<T>(s: Seq<(String, T)>, name: Seq<char>, i: int) -> Option<T>
    decreases s.len() - i,
{
    if i >= s.len() {
        None
    } else if s[i].0@ == name {
        Some(s[i].1)
    } else {
        named_from(s, name, i + 1)
    }
}

/// The first value under a name.
pub open spec fn named<T>(s: Seq<(String, T)>, name: Seq<char>) -> Option<T> {
    named_from(s, name, 0)
}

/// Finds the first value under a name.
pub fn find_named<'a, T>(v: &'a Vec<(String, T)>, name: &str) -> (r: Option<&'a T>)
    ensures
        match r {
            Some(t) => named(v@, name@) == Some(*t),
            None => named(v@, name@) is None,
        },
{
    let mut i: usize = 0;
    while i < v.len()
        invariant
            i <= v@.len(),
            named(v@, name@) == named_from(v@, name@, i as int),
        decreases v.len() - i,
    {
        if same_text(v[i].0.as_str(), name) {
            return Some(&v[i].1);
        }
        i += 1;
    }
    None
}

proof fn lemma_named_after<T>(s: Seq<(String, T)>, name: Seq<char>, i: int, j: int)
    requires
        0 <= i <= j <= s.len(),
        forall|k: int| i <= k < j ==> (#[trigger] s[k]).0@ != name,
    ensures
        named_from(s, name, i) == named_from(s, name, j),
    decreases j - i,
{
    if i < j {
        assert(s[i].0@ != name);
        lemma_named_after(s, name, i + 1, j);
    }
}

proof fn lemma_named_at<T>(s: Seq<(String, T)>, name: Seq<char>, i: int)
    requires
        0 <= i,
    ensures
        named_from(s, name, i) is None ==> forall|k: int|
            i <= k < s.len() ==> (#[trigger] s[k]).0@ != name,
        named_from(s, name, i) is Some ==> exists|k: int|
            i <= k < s.len() && (#[trigger] s[k]).0@ == name && named_from(s, name, i) == Some(
                s[k].1,
            ) && forall|j: int| i <= j < k ==> (#[trigger] s[j]).0@ != name,
    decreases s.len() - i,
{
    if i < s.len() {
        if s[i].0@ != name {
            lemma_named_at(s, name, i + 1);
            if named_from(s, name, i + 1) is Some {
                let k = choose|k: int|
                    i + 1 <= k < s.len() && (#[trigger] s[k]).0@ == name && named_from(
                        s,
                        name,
                        i + 1,
                    ) == Some(s[k].1) && forall|j: int|
                        i + 1 <= j < k ==> (#[trigger] s[j]).0@ != name;
                assert(forall|j: int| i <= j < k ==> (#[trigger] s[j]).0@ != name);
            }
        }
    }
}

proof fn lemma_named_push<T>(s: Seq<(String, T)>, e: (String, T), name: Seq<char>)
    requires
        named(s, e.0@) is None,
    ensures
        named(s.push(e), name) == (if name == e.0@ {
            Some(e.1)
        } else {
            named(s, name)
        }),
{
    let t = s.push(e);
    lemma_named_at(s, name, 0);
    if named(s, name) is Some {
        let k = choose|k: int|
            0 <= k < s.len() && (#[trigger] s[k]).0@ == name && named(s, name) == Some(s[k].1)
                && forall|j: int| 0 <= j < k ==> (#[trigger] s[j]).0@ != name;
        assert forall|j: int| 0 <= j < k implies (#[trigger] t[j]).0@ != name by {
            assert(t[j] == s[j]);
        }
        lemma_named_after(t, name, 0, k);
        assert(t[k] == s[k]);
    } else {
        assert forall|j: int| 0 <= j < s.len() implies (#[trigger] t[j]).0@ != name by {
            assert(t[j] == s[j]);
        }
        lemma_named_after(t, name, 0, s.len() as int);
        assert(t[s.len() as int] == e);
        assert(named_from(t, name, (s.len() + 1) as int) is None);
    }
}

proof fn lemma_named_update<T>(s: Seq<(String, T)>, p: int, e: (String, T), name: Seq<char>)
    requires
        0 <= p < s.len(),
        s[p].0@ == e.0@,
        forall|j: int| 0 <= j < p ==> (#[trigger] s[j]).0@ != e.0@,
    ensures
        named(s.update(p, e), name) == (if name == e.0@ {
            Some(e.1)
        } else {
            named(s, name)
        }),
{
    let t = s.update(p, e);
    if name == e.0@ {
        assert forall|j: int| 0 <= j < p implies (#[trigger] t[j]).0@ != name by {
            assert(t[j] == s[j]);
        }
        lemma_named_after(t, name, 0, p);
        assert(t[p] == e);
    } else {
        lemma_same_elsewhere(s, t, p, name, 0);
    }
}

proof fn lemma_same_elsewhere<T>(
    s: Seq<(String, T)>,
    t: Seq<(String, T)>,
    p: int,
    name: Seq<char>,
    i: int,
)
    requires
        0 <= i,
        s.len() == t.len(),
        0 <= p < s.len(),
        s[p].0@ != name,
        t[p].0@ != name,
        forall|j: int| 0 <= j < s.len() && j != p ==> #[trigger] s[j] == t[j],
    ensures
        named_from(s, name, i) == named_from(t, name, i),
    decreases s.len() - i,
{
    if i < s.len() {
        if i != p {
            assert(s[i] == t[i]);
        }
        lemma_same_elsewhere(s, t, p, name, i + 1);
    }
}

/// Puts a value under a name, in place of the one before.
pub fn put_named<T>(v: &mut Vec<(String, T)>, name: String, value: T)
    ensures
        forall|k: Seq<char>| #[trigger]
            named(final(v)@, k) == (if k == name@ {
                Some(value)
            } else {
                named(old(v)@, k)
            }),
{
    let ghost before = v@;
    let ghost e = (name, value);
    let mut i: usize = 0;
    while i < v.len()
        invariant
            i <= v@.len(),
            v@ == before,
            before == old(v)@,
            e == (name, value),
            forall|j: int| 0 <= j < i ==> (#[trigger] before[j]).0@ != name@,
        decreases v.len() - i,
    {
        if same_text(v[i].0.as_str(), name.as_str()) {
            proof {
                assert forall|k: Seq<char>| #[trigger]
                    named(before.update(i as int, e), k) == (if k == name@ {
                        Some(value)
                    } else {
                        named(before, k)
                    }) by {
                    lemma_named_update(before, i as int, e, k);
                }
            }
            v.set(i, (name, value));
            return ;
        }
        i += 1;
    }
    proof {
        lemma_named_after(before, name@, 0, before.len() as int);
        assert forall|k: Seq<char>| #[trigger]
            named(before.push(e), k) == (if k == name@ {
                Some(value)
            } else {
                named(before, k)
            }) by {
            lemma_named_push(before, e, k);
        }
    }
    v.push((name, value));
}

proof fn lemma_named_from<T>(s: Seq<(String, T)>, name: Seq<char>, i: int)
    requires
        0 <= i,
    ensures
        match named_from(s, name, i) {
            Some(v) => exists|k: int|
                i <= k < s.len() && (#[trigger] s[k]).0@ == name && s[k].1 == v && forall|j: int|
                    i <= j < k ==> (#[trigger] s[j]).0@ != name,
            None => forall|j: int| i <= j < s.len() ==> (#[trigger] s[j]).0@ != name,
        },
    decreases s.len() - i,
{
    if i < s.len() && s[i].0@ != name {
        lemma_named_from(s, name, i + 1);
        match named_from(s, name, i + 1) {
            Some(v) => {
                let k = choose|k: int|
                    i + 1 <= k < s.len() && (#[trigger] s[k]).0@ == name && s[k].1 == v
                        && forall|j: int| i + 1 <= j < k ==> (#[trigger] s[j]).0@ != name;
                assert(s[k].0@ == name);
            },
            None => {},
        }
    } else if i < s.len() {
        assert(s[i].0@ == name);
    }
}

/// The value under a name is that of the first entry with exactly this name;
/// there is none exactly where no entry has it.
pub proof fn first_entry_counts<T>(s: Seq<(String, T)>, name: Seq<char>)
    ensures
        match named(s, name) {
            Some(v) => exists|k: int|
                0 <= k < s.len() && (#[trigger] s[k]).0@ == name && s[k].1 == v && forall|j: int|
                    0 <= j < k ==> (#[trigger] s[j]).0@ != name,
            None => forall|j: int| 0 <= j < s.len() ==> (#[trigger] s[j]).0@ != name,
        },
{
    lemma_named_from(s, name, 0);
}

} // verus!
