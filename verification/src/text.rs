//! Text primitives with contracts over sequences of characters.

use vstd::prelude::*;
use vstd::std_specs::iter::IteratorSpec;

verus! {

/// What each owned text of `names` holds.
pub open spec fn texts(names: Seq<String>) -> Seq<Seq<char>> {
    names.map_values(|name: String| name@)
}

/// How one text stands to another in the order of names.
#[derive(Clone, Copy, Debug, PartialEq, Eq, Structural)]
pub enum Order {
    Before,
    Same,
    After,
}

/// `a` and `b` agree on their first `k` characters, and there `a` ends while
/// `b` goes on, or `a` has the character of lower code.
pub open spec fn precedes_at(a: Seq<char>, b: Seq<char>, k: int) -> bool {
    &&& 0 <= k <= a.len()
    &&& k < b.len()
    &&& forall|j: int| 0 <= j < k ==> a[j] == b[j]
    &&& (k == a.len() || a[k] < b[k])
}

/// The order of names: character by character, a character of lower code
/// first, a proper prefix before its extensions.
pub open spec fn text_lt(a: Seq<char>, b: Seq<char>) -> bool {
    exists|k: int| precedes_at(a, b, k)
}

/// No text comes before itself.
pub proof fn lemma_text_lt_irreflexive(a: Seq<char>)
    ensures
        !text_lt(a, a),
{
}

/// Of two texts at most one comes before the other.
pub proof fn lemma_text_lt_asymmetric(a: Seq<char>, b: Seq<char>)
    requires
        text_lt(a, b),
    ensures
        !text_lt(b, a),
        a != b,
{
    let k = choose|k: int| precedes_at(a, b, k);
    if text_lt(b, a) {
        let m = choose|m: int| precedes_at(b, a, m);
        if m < k {
            assert(a[m] == b[m]);
        } else if k < m {
            assert(b[k] == a[k]);
        }
    }
}

/// The order of names is transitive.
pub proof fn lemma_text_lt_transitive(a: Seq<char>, b: Seq<char>, c: Seq<char>)
    requires
        text_lt(a, b),
        text_lt(b, c),
    ensures
        text_lt(a, c),
{
    let k = choose|k: int| precedes_at(a, b, k);
    let m = choose|m: int| precedes_at(b, c, m);
    let n = if k <= m { k } else { m };
    assert forall|j: int| 0 <= j < n implies a[j] == c[j] by {
        assert(a[j] == b[j]);
        assert(b[j] == c[j]);
    }
    if k < m {
        assert(b[k] == c[k]);
    }
    assert(precedes_at(a, c, n));
}

/// Where `a` stands to `b` in the order of names.
pub fn compare(a: &str, b: &str) -> (o: Order)
    ensures
        o is Before <==> text_lt(a@, b@),
        o is Same <==> a@ == b@,
        o is After <==> text_lt(b@, a@),
{
    let mut left = a.chars();
    let mut right = b.chars();
    let ghost mut k: int = 0;
    loop
        invariant
            0 <= k <= a@.len(),
            k <= b@.len(),
            left.remaining() == a@.skip(k),
            right.remaining() == b@.skip(k),
            forall|j: int| 0 <= j < k ==> a@[j] == b@[j],
        decreases a@.len() - k,
    {
        let x = left.next();
        let y = right.next();
        match (x, y) {
            (None, None) => {
                proof {
                    assert(a@ =~= b@);
                    lemma_text_lt_irreflexive(a@);
                }
                return Order::Same;
            },
            (None, Some(_)) => {
                proof {
                    assert(precedes_at(a@, b@, k));
                    lemma_text_lt_asymmetric(a@, b@);
                }
                return Order::Before;
            },
            (Some(_), None) => {
                proof {
                    assert(precedes_at(b@, a@, k));
                    lemma_text_lt_asymmetric(b@, a@);
                }
                return Order::After;
            },
            (Some(p), Some(q)) => {
                assert(p == a@[k] && q == b@[k]);
                if p < q {
                    proof {
                        assert(precedes_at(a@, b@, k));
                        lemma_text_lt_asymmetric(a@, b@);
                    }
                    return Order::Before;
                } else if q < p {
                    proof {
                        assert(precedes_at(b@, a@, k));
                        lemma_text_lt_asymmetric(b@, a@);
                    }
                    return Order::After;
                }
                proof {
                    k = k + 1;
                }
            },
        }
    }
}

/// Whether two texts hold the same characters.
pub fn same_text(a: &str, b: &str) -> (same: bool)
    ensures
        same == (a@ == b@),
{
    match compare(a, b) {
        Order::Same => true,
        _ => false,
    }
}

/// Whether `text` begins with `prefix`.
pub fn starts_with(text: &str, prefix: &str) -> (found: bool)
    ensures
        found == prefix@.is_prefix_of(text@),
{
    let mut rest = text.chars();
    let mut wanted = prefix.chars();
    let ghost mut k: int = 0;
    loop
        invariant
            0 <= k <= text@.len(),
            k <= prefix@.len(),
            rest.remaining() == text@.skip(k),
            wanted.remaining() == prefix@.skip(k),
            forall|j: int| 0 <= j < k ==> text@[j] == prefix@[j],
        decreases prefix@.len() - k,
    {
        match wanted.next() {
            None => {
                assert(prefix@ =~= text@.subrange(0, prefix@.len() as int));
                return true;
            },
            Some(q) => {
                match rest.next() {
                    None => {
                        return false;
                    },
                    Some(p) => {
                        assert(p == text@[k] && q == prefix@[k]);
                        if p != q {
                            proof {
                                if prefix@.len() <= text@.len() {
                                    assert(text@.subrange(0, prefix@.len() as int)[k] == text@[k]);
                                }
                            }
                            return false;
                        }
                        proof {
                            k = k + 1;
                        }
                    },
                }
            },
        }
    }
}

/// The place of the first `wanted` in `text`, if there is one.
pub fn first_index(text: &Vec<char>, wanted: char) -> (at: Option<usize>)
    ensures
        match at {
            Some(i) => i < text@.len() && text@.index_of_first(wanted) == Some(i as int),
            None => text@.index_of_first(wanted) is None,
        },
{
    let mut i: usize = 0;
    while i < text.len()
        invariant
            i <= text@.len(),
            forall|j: int| 0 <= j < i ==> text@[j] != wanted,
        decreases text@.len() - i,
    {
        if text[i] == wanted {
            proof {
                text@.index_of_first_ensures(wanted);
            }
            return Some(i);
        }
        i = i + 1;
    }
    proof {
        text@.index_of_first_ensures(wanted);
    }
    None
}

/// The place of the last `wanted` in `text`, if there is one.
pub fn last_index(text: &Vec<char>, wanted: char) -> (at: Option<usize>)
    ensures
        match at {
            Some(i) => i < text@.len() && text@.index_of_last(wanted) == Some(i as int),
            None => text@.index_of_last(wanted) is None,
        },
{
    let mut i: usize = text.len();
    while i > 0
        invariant
            i <= text@.len(),
            forall|j: int| i <= j < text@.len() ==> text@[j] != wanted,
        decreases i,
    {
        i = i - 1;
        if text[i] == wanted {
            proof {
                text@.index_of_last_ensures(wanted);
            }
            return Some(i);
        }
    }
    proof {
        text@.index_of_last_ensures(wanted);
    }
    None
}

/// `pattern` stands in `text` at place `at`.
pub open spec fn occurs_at(text: Seq<char>, pattern: Seq<char>, at: int) -> bool {
    &&& 0 <= at
    &&& at + pattern.len() <= text.len()
    &&& forall|j: int| 0 <= j < pattern.len() ==> text[at + j] == pattern[j]
}

/// `pattern` stands in `text` at place `at`, and at no place before.
pub open spec fn first_occurs_at(text: Seq<char>, pattern: Seq<char>, at: int) -> bool {
    &&& occurs_at(text, pattern, at)
    &&& forall|before: int| 0 <= before < at ==> !occurs_at(text, pattern, before)
}

/// The first place at which `pattern` stands in `text`, if it stands in it.
pub open spec fn first_occurrence(text: Seq<char>, pattern: Seq<char>) -> Option<int> {
    if exists|at: int| first_occurs_at(text, pattern, at) {
        Some(choose|at: int| first_occurs_at(text, pattern, at))
    } else {
        None
    }
}

/// A pattern that stands somewhere in a text stands at one first place.
pub proof fn lemma_first_occurrence(text: Seq<char>, pattern: Seq<char>, at: int)
    requires
        first_occurs_at(text, pattern, at),
    ensures
        first_occurrence(text, pattern) == Some(at),
{
    let chosen = choose|at: int| first_occurs_at(text, pattern, at);
    if chosen < at {
        assert(!occurs_at(text, pattern, chosen));
    } else if at < chosen {
        assert(!occurs_at(text, pattern, at));
    }
}

/// A pattern that stands nowhere in a text has no first place in it.
pub proof fn lemma_no_occurrence(text: Seq<char>, pattern: Seq<char>)
    requires
        forall|at: int| !occurs_at(text, pattern, at),
    ensures
        first_occurrence(text, pattern) is None,
{
}

/// Whether `pattern` stands at place `at` of `text`.
fn stands_at(text: &Vec<char>, pattern: &Vec<char>, at: usize) -> (stands: bool)
    requires
        at + pattern.len() <= text.len(),
    ensures
        stands == occurs_at(text@, pattern@, at as int),
{
    let mut j: usize = 0;
    while j < pattern.len()
        invariant
            j <= pattern.len(),
            at + pattern.len() <= text.len(),
            forall|k: int| 0 <= k < j ==> text@[at + k] == pattern@[k],
        decreases pattern.len() - j,
    {
        if text[at + j] != pattern[j] {
            return false;
        }
        j = j + 1;
    }
    true
}

/// The first place at which `pattern` stands in `text`, if it stands in it.
pub fn find(text: &Vec<char>, pattern: &Vec<char>) -> (at: Option<usize>)
    ensures
        match at {
            Some(i) => i + pattern@.len() <= text@.len() && first_occurrence(text@, pattern@)
                == Some(i as int),
            None => first_occurrence(text@, pattern@) is None,
        },
{
    if pattern.len() > text.len() {
        proof {
            lemma_no_occurrence(text@, pattern@);
        }
        return None;
    }
    let last = text.len() - pattern.len();
    let mut i: usize = 0;
    loop
        invariant
            i <= last,
            last == text.len() - pattern.len(),
            forall|before: int| 0 <= before < i ==> !occurs_at(text@, pattern@, before),
        decreases last - i,
    {
        if stands_at(text, pattern, i) {
            proof {
                lemma_first_occurrence(text@, pattern@, i as int);
            }
            return Some(i);
        }
        if i == last {
            proof {
                lemma_no_occurrence(text@, pattern@);
            }
            return None;
        }
        i = i + 1;
    }
}

/// The characters of `s`, in order.
pub fn chars_of(s: &str) -> (chars: Vec<char>)
    ensures
        chars@ == s@,
{
    let mut chars: Vec<char> = Vec::new();
    for c in it: s.chars()
        invariant
            chars@ == it.seq().take(it.index() as int),
            it.seq() == s@,
    {
        chars.push(c);
    }
    chars
}

} // verus!
