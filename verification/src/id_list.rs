//! Facts about lists of distinct kitty ids.
use vstd::prelude::*;

verus! {

/// A list of distinct ids, each below `n`, holds at most `n` ids.
pub proof fn lemma_distinct_below_len(s: Seq<u32>, n: u32)
    requires
        s.no_duplicates(),
        forall|i: int| 0 <= i < s.len() ==> #[trigger] s[i] < n,
    ensures
        s.len() <= n,
    decreases n,
{
    if n == 0 {
        if s.len() > 0 {
            assert(s[0] < n);
        }
    } else {
        let top = (n - 1) as u32;
        if s.contains(top) {
            let idx = choose|i: int| 0 <= i < s.len() && s[i] == top;
            let t = s.remove(idx);
            s.remove_ensures(idx);
            assert forall|i: int| 0 <= i < t.len() implies #[trigger] t[i] < top by {
                if i < idx {
                    assert(s[i] != s[idx]);
                } else {
                    assert(s[i + 1] != s[idx]);
                }
            }
            assert forall|i: int, j: int|
                0 <= i < t.len() && 0 <= j < t.len() && i != j implies t[i] != t[j] by {
                let si = if i < idx {
                    i
                } else {
                    i + 1
                };
                let sj = if j < idx {
                    j
                } else {
                    j + 1
                };
                assert(t[i] == s[si]);
                assert(t[j] == s[sj]);
            }
            lemma_distinct_below_len(t, top);
        } else {
            assert forall|i: int| 0 <= i < s.len() implies #[trigger] s[i] < top by {
                assert(s[i] != top);
            }
            lemma_distinct_below_len(s, top);
        }
    }
}

/// Taking out the element at `idx` of a list without duplicates leaves a
/// list without duplicates that holds exactly the other elements.
pub proof fn lemma_remove_distinct(s: Seq<u32>, idx: int)
    requires
        s.no_duplicates(),
        0 <= idx < s.len(),
    ensures
        s.remove(idx).no_duplicates(),
        forall|k: u32| #[trigger] s.remove(idx).contains(k) <==> (s.contains(k) && k != s[idx]),
{
    let t = s.remove(idx);
    s.remove_ensures(idx);
    assert forall|i: int, j: int|
        0 <= i < t.len() && 0 <= j < t.len() && i != j implies t[i] != t[j] by {
        let si = if i < idx {
            i
        } else {
            i + 1
        };
        let sj = if j < idx {
            j
        } else {
            j + 1
        };
        assert(t[i] == s[si]);
        assert(t[j] == s[sj]);
    }
    assert forall|k: u32| #[trigger] t.contains(k) <==> (s.contains(k) && k != s[idx]) by {
        if t.contains(k) {
            let i = choose|i: int| 0 <= i < t.len() && t[i] == k;
            let si = if i < idx {
                i
            } else {
                i + 1
            };
            assert(t[i] == s[si]);
            assert(s[si] != s[idx]);
        }
        if s.contains(k) && k != s[idx] {
            let i = choose|i: int| 0 <= i < s.len() && s[i] == k;
            if i < idx {
                assert(t[i] == k);
            } else {
                assert(i != idx);
                assert(t[i - 1] == k);
            }
        }
    }
}

/// Appending an element that a list without duplicates does not hold keeps
/// it without duplicates, and adds exactly that element.
pub proof fn lemma_push_distinct(s: Seq<u32>, x: u32)
    requires
        s.no_duplicates(),
        !s.contains(x),
    ensures
        s.push(x).no_duplicates(),
        forall|k: u32| #[trigger] s.push(x).contains(k) <==> (s.contains(k) || k == x),
{
    let t = s.push(x);
    assert forall|i: int, j: int|
        0 <= i < t.len() && 0 <= j < t.len() && i != j implies t[i] != t[j] by {
        if i < s.len() && j < s.len() {
            assert(t[i] == s[i] && t[j] == s[j]);
        } else if i < s.len() {
            assert(t[i] == s[i]);
        } else if j < s.len() {
            assert(t[j] == s[j]);
        }
    }
    assert forall|k: u32| #[trigger] t.contains(k) <==> (s.contains(k) || k == x) by {
        if t.contains(k) {
            let i = choose|i: int| 0 <= i < t.len() && t[i] == k;
            if i < s.len() {
                assert(s[i] == k);
            }
        }
        if s.contains(k) {
            let i = choose|i: int| 0 <= i < s.len() && s[i] == k;
            assert(t[i] == k);
        }
        if k == x {
            assert(t[s.len() as int] == k);
        }
    }
}

} // verus!
