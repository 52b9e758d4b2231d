//! The order of strings by their characters, and insertion into a sorted
//! sequence without repeats.

use vstd::prelude::*;
use vstd::string::*;
use crate::text::texts;

verus! {

/// Whether `a` comes before `b` when both are read character by character:
/// at the first difference the smaller code point decides, and a proper
/// prefix comes first.
pub open spec fn text_lt(a: Seq<char>, b: Seq<char>) -> bool
    decreases a.len(),
{
    if b.len() == 0 {
        false
    } else if a.len() == 0 {
        true
    } else if a[0] != b[0] {
        (a[0] as int) < (b[0] as int)
    } else {
        text_lt(a.drop_first(), b.drop_first())
    }
}

/// Whether each element comes before every later one.
pub open spec fn strictly_sorted(s: Seq<Seq<char>>) -> bool {
    forall|i: int, j: int| 0 <= i < j < s.len() ==> text_lt(#[trigger] s[i], #[trigger] s[j])
}

/// A sorted sequence with `p` put in its place, unless it is there already.
pub open spec fn inserted(sorted: Seq<Seq<char>>, p: Seq<char>) -> Seq<Seq<char>>
    decreases sorted.len(),
{
    if sorted.len() == 0 {
        seq![p]
    } else if sorted[0] == p {
        sorted
    } else if text_lt(p, sorted[0]) {
        seq![p] + sorted
    } else {
        seq![sorted[0]] + inserted(sorted.drop_first(), p)
    }
}

/// No text comes before itself.
pub proof fn lemma_text_lt_irreflexive(a: Seq<char>)
    ensures
        !text_lt(a, a),
    decreases a.len(),
{
    if a.len() > 0 {
        lemma_text_lt_irreflexive(a.drop_first());
    }
}

/// The order is transitive.
pub proof fn lemma_text_lt_transitive(a: Seq<char>, b: Seq<char>, c: Seq<char>)
    requires
        text_lt(a, b),
        text_lt(b, c),
    ensures
        text_lt(a, c),
    decreases a.len(),
{
    if a.len() > 0 && b.len() > 0 && c.len() > 0 {
        if a[0] == b[0] && b[0] == c[0] {
            lemma_text_lt_transitive(a.drop_first(), b.drop_first(), c.drop_first());
        }
    }
}

/// Of two different texts one comes before the other.
pub proof fn lemma_text_lt_total(a: Seq<char>, b: Seq<char>)
    requires
        a != b,
    ensures
        text_lt(a, b) || text_lt(b, a),
    decreases a.len(),
{
    if a.len() > 0 && b.len() > 0 {
        if a[0] == b[0] {
            if a.drop_first() == b.drop_first() {
                assert(a =~= seq![a[0]] + a.drop_first());
                assert(b =~= seq![b[0]] + b.drop_first());
            }
            lemma_text_lt_total(a.drop_first(), b.drop_first());
        }
    } else if a.len() == 0 && b.len() == 0 {
        assert(a =~= b);
    }
}

/// Insertion keeps a sorted sequence sorted, keeps what it held, and adds
/// the new text and nothing else.
pub proof fn lemma_inserted(s: Seq<Seq<char>>, p: Seq<char>)
    requires
        strictly_sorted(s),
    ensures
        strictly_sorted(inserted(s, p)),
        forall|x: Seq<char>| #[trigger]
            inserted(s, p).contains(x) <==> (x == p || s.contains(x)),
    decreases s.len(),
{
    let r = inserted(s, p);
    if s.len() == 0 {
        assert(r[0] == p);
        assert forall|x: Seq<char>| r.contains(x) <==> (x == p || s.contains(x)) by {
            if r.contains(x) {
                let k = choose|k: int| 0 <= k < r.len() && r[k] == x;
            }
        }
    } else if s[0] == p {
        assert(s.contains(p));
    } else if text_lt(p, s[0]) {
        assert forall|i: int, j: int| 0 <= i < j < r.len() implies text_lt(
            #[trigger] r[i],
            #[trigger] r[j],
        ) by {
            if i == 0 {
                if j > 1 {
                    assert(text_lt(s[0], s[j - 1]));
                    lemma_text_lt_transitive(p, s[0], s[j - 1]);
                }
            } else {
                assert(text_lt(s[i - 1], s[j - 1]));
            }
        }
        assert forall|x: Seq<char>| r.contains(x) <==> (x == p || s.contains(x)) by {
            if r.contains(x) {
                let k = choose|k: int| 0 <= k < r.len() && r[k] == x;
                if k > 0 {
                    assert(s[k - 1] == x);
                }
            }
            if x == p {
                assert(r[0] == x);
            }
            if s.contains(x) {
                let k = choose|k: int| 0 <= k < s.len() && s[k] == x;
                assert(r[k + 1] == x);
            }
        }
    } else {
        let t = s.drop_first();
        let u = inserted(t, p);
        assert forall|i: int, j: int| 0 <= i < j < t.len() implies text_lt(
            #[trigger] t[i],
            #[trigger] t[j],
        ) by {
            assert(text_lt(s[i + 1], s[j + 1]));
        }
        lemma_inserted(t, p);
        lemma_text_lt_total(p, s[0]);
        assert forall|i: int, j: int| 0 <= i < j < r.len() implies text_lt(
            #[trigger] r[i],
            #[trigger] r[j],
        ) by {
            if i == 0 {
                let x = u[j - 1];
                assert(r[j] == x);
                assert(u.contains(x));
                if x != p {
                    assert(t.contains(x));
                    let k = choose|k: int| 0 <= k < t.len() && t[k] == x;
                    assert(text_lt(s[0], s[k + 1]));
                }
            } else {
                assert(text_lt(u[i - 1], u[j - 1]));
            }
        }
        assert forall|x: Seq<char>| r.contains(x) <==> (x == p || s.contains(x)) by {
            if r.contains(x) {
                let k = choose|k: int| 0 <= k < r.len() && r[k] == x;
                if k > 0 {
                    assert(u[k - 1] == x);
                    assert(u.contains(x));
                    if x != p {
                        assert(t.contains(x));
                        let m = choose|m: int| 0 <= m < t.len() && t[m] == x;
                        assert(s[m + 1] == x);
                    }
                } else {
                    assert(s[0] == x);
                }
            }
            if x == p {
                assert(u.contains(x));
                let k = choose|k: int| 0 <= k < u.len() && u[k] == x;
                assert(r[k + 1] == x);
            }
            if s.contains(x) {
                let k = choose|k: int| 0 <= k < s.len() && s[k] == x;
                if k == 0 {
                    assert(r[0] == x);
                } else {
                    assert(t[k - 1] == x);
                    assert(t.contains(x));
                    assert(u.contains(x));
                    let m = choose|m: int| 0 <= m < u.len() && u[m] == x;
                    assert(r[m + 1] == x);
                }
            }
        }
    }
}

/// A strictly sorted sequence holds no text twice.
pub proof fn lemma_sorted_is_distinct(s: Seq<Seq<char>>)
    requires
        strictly_sorted(s),
    ensures
        forall|i: int, j: int| 0 <= i < j < s.len() ==> s[i] != s[j],
{
    assert forall|i: int, j: int| 0 <= i < j < s.len() implies s[i] != s[j] by {
        assert(text_lt(s[i], s[j]));
        lemma_text_lt_irreflexive(s[i]);
    }
}

/// Whether `a` comes before `b`.
pub fn text_before(a: &str, b: &str) -> (r: bool)
    ensures
        r == text_lt(a@, b@),
{
    let la: usize = a.unicode_len();
    let lb: usize = b.unicode_len();
    let mut i: usize = 0;
    assert(a@.skip(0) =~= a@);
    assert(b@.skip(0) =~= b@);
    while i < la && i < lb
        invariant
            la == a@.len(),
            lb == b@.len(),
            i <= la,
            i <= lb,
            text_lt(a@, b@) == text_lt(a@.skip(i as int), b@.skip(i as int)),
        decreases la - i,
    {
        let ca = a.get_char(i);
        let cb = b.get_char(i);
        proof {
            assert(a@.skip(i as int)[0] == ca);
            assert(b@.skip(i as int)[0] == cb);
            assert(a@.skip(i as int).drop_first() =~= a@.skip(i + 1));
            assert(b@.skip(i as int).drop_first() =~= b@.skip(i + 1));
        }
        if ca != cb {
            return (ca as u32) < (cb as u32);
        }
        i = i + 1;
    }
    i < lb
}

/// Puts `p` in its place in a sorted vector, unless it is there already.
pub fn insert_sorted(v: &mut Vec<String>, p: String)
    ensures
        texts(final(v)@) == inserted(texts(old(v)@), p@),
{
    let ghost whole = texts(v@);
    let n: usize = v.len();
    let mut j: usize = 0;
    proof {
        assert(whole.skip(0) =~= whole);
        assert(whole.take(0) + inserted(whole, p@) =~= inserted(whole, p@));
    }
    while j < n
        invariant
            n == v@.len(),
            j <= n,
            whole == texts(v@),
            whole == texts(old(v)@),
            inserted(whole, p@) == whole.take(j as int) + inserted(whole.skip(j as int), p@),
        decreases n - j,
    {
        proof {
            assert(whole.skip(j as int)[0] == v@[j as int]@);
            assert(whole.skip(j as int).drop_first() =~= whole.skip(j + 1));
            assert(whole.take(j as int) + whole.skip(j as int) =~= whole);
            assert(whole.take(j as int) + seq![whole[j as int]] =~= whole.take(j + 1));
        }
        if v[j] == p {
            return ;
        }
        if text_before(p.as_str(), v[j].as_str()) {
            proof {
                assert(texts(v@.insert(j as int, p)) =~= whole.take(j as int) + (seq![p@]
                    + whole.skip(j as int)));
            }
            v.insert(j, p);
            return ;
        }
        proof {
            let rest = seq![whole[j as int]] + inserted(whole.skip(j + 1), p@);
            assert(whole.take(j as int) + rest =~= whole.take(j + 1) + inserted(
                whole.skip(j + 1),
                p@,
            ));
        }
        j = j + 1;
    }
    proof {
        assert(whole.skip(n as int) =~= Seq::<Seq<char>>::empty());
        assert(whole.take(n as int) =~= whole);
        assert(texts(v@.push(p)) =~= whole + seq![p@]);
    }
    v.push(p);
}

} // verus!
