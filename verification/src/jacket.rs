//! The jacket matcher's memory of recent matches.
use vstd::prelude::*;

verus! {

/// How many recent matches are remembered.
pub const RECENT_MATCHES: usize = 8;

/// The recent list after `idx` matched: `idx` moved (or put) in front, the list cut to
/// [`RECENT_MATCHES`] entries.
pub open spec fn recent_after(s: Seq<usize>, idx: usize) -> Seq<usize> {
    let moved = s.remove_value(idx).insert(0, idx);
    if moved.len() > RECENT_MATCHES {
        moved.subrange(0, RECENT_MATCHES as int)
    } else {
        moved
    }
}

/// Indices of the most recently matched images, most recent first.
#[derive(Debug)]
pub struct MatchCache {
    pub recent_indices: Vec<usize>,
}

impl MatchCache {
    /// No match yet.
    pub fn new() -> (r: MatchCache)
        ensures
            r.recent_indices@.len() == 0,
    {
        MatchCache { recent_indices: Vec::new() }
    }

    /// Records that image `idx` matched.
    pub fn update_cache(&mut self, idx: usize)
        ensures
            final(self).recent_indices@ == recent_after(old(self).recent_indices@, idx),
    {
        let ghost s = self.recent_indices@;
        let mut i: usize = 0;
        let n = self.recent_indices.len();
        while i < n && self.recent_indices[i] != idx
            invariant
                n == s.len(),
                self.recent_indices@ == s,
                i <= n,
                forall|j: int| 0 <= j < i ==> s[j] != idx,
            decreases n - i,
        {
            i = i + 1;
        }
        proof {
            s.index_of_first_ensures(idx);
        }
        if i < n {
            proof {
                assert(s[i as int] == idx);
                assert(s.contains(idx));
                let k = s.index_of_first(idx).unwrap();
                if k < i {
                } else if k > i {
                }
                assert(k == i);
            }
            self.recent_indices.remove(i);
        } else {
            assert(!s.contains(idx));
        }
        self.recent_indices.insert(0, idx);
        if self.recent_indices.len() > RECENT_MATCHES {
            self.recent_indices.truncate(RECENT_MATCHES);
        }
    }
}

/// The recent list stays free of repeats, starts with the latest match and never
/// exceeds [`RECENT_MATCHES`] entries.
pub proof fn lemma_recent_matches_distinct(s: Seq<usize>, idx: usize)
    requires
        s.no_duplicates(),
    ensures
        recent_after(s, idx).no_duplicates(),
        recent_after(s, idx)[0] == idx,
        recent_after(s, idx).len() <= RECENT_MATCHES,
        s.len() <= RECENT_MATCHES && !s.contains(idx) && s.len() < RECENT_MATCHES ==> recent_after(
            s,
            idx,
        ).len() == s.len() + 1,
{
    s.index_of_first_ensures(idx);
    let rest = s.remove_value(idx);
    match s.index_of_first(idx) {
        Some(p) => {
            s.remove_ensures(p);
            assert(forall|j: int| 0 <= j < rest.len() ==> rest[j] != idx) by {
                assert forall|j: int| 0 <= j < rest.len() implies rest[j] != idx by {
                    if j < p {
                        assert(rest[j] == s[j]);
                    } else {
                        assert(rest[j] == s[j + 1]);
                    }
                }
            }
            assert(rest.no_duplicates()) by {
                assert forall|a: int, b: int| 0 <= a < rest.len() && 0 <= b < rest.len() && a != b implies rest[a] != rest[b] by {
                    let sa = if a < p { a } else { a + 1 };
                    let sb = if b < p { b } else { b + 1 };
                    assert(rest[a] == s[sa]);
                    assert(rest[b] == s[sb]);
                }
            }
        },
        None => {
            assert(rest == s);
            assert(forall|j: int| 0 <= j < rest.len() ==> rest[j] != idx) by {
                assert forall|j: int| 0 <= j < rest.len() implies rest[j] != idx by {
                    if rest[j] == idx {
                        assert(s.contains(idx));
                    }
                }
            }
        },
    }
    let moved = rest.insert(0, idx);
    rest.insert_ensures(0, idx);
    assert(moved.no_duplicates()) by {
        assert forall|a: int, b: int| 0 <= a < moved.len() && 0 <= b < moved.len() && a != b implies moved[a] != moved[b] by {
            if a > 0 {
                assert(moved[a] == rest[a - 1]);
            }
            if b > 0 {
                assert(moved[b] == rest[b - 1]);
            }
        }
    }
}

} // verus!
