//! The order of strings, and lists of strings kept sorted without repeats.
use vstd::prelude::*;
use crate::text::chars_of;

verus! {

/// `a` comes before `b` in the order of `String`: lexicographic by code point
/// (the byte order of UTF-8 agrees with it).
pub open spec fn text_lt(a: Seq<char>, b: Seq<char>) -> bool
    decreases a.len(),
{
    if a.len() == 0 {
        b.len() > 0
    } else if b.len() == 0 {
        false
    } else if a[0] != b[0] {
        (a[0] as int) < (b[0] as int)
    } else {
        text_lt(a.drop_first(), b.drop_first())
    }
}

/// No text comes before itself.
pub proof fn lemma_text_lt_irreflexive(a: Seq<char>)
    ensures
        !text_lt(a, a),
    decreases a.len(),
{
    if a.len() > 0 {
        lemma_text_lt_irreflexive(a.drop_first());
    }
}

/// Of two different texts, one comes before the other, and never both.
pub proof fn lemma_text_lt_total(a: Seq<char>, b: Seq<char>)
    ensures
        a != b ==> (text_lt(a, b) || text_lt(b, a)),
        !(text_lt(a, b) && text_lt(b, a)),
    decreases a.len(),
{
    if a.len() > 0 && b.len() > 0 {
        lemma_text_lt_total(a.drop_first(), b.drop_first());
        if a[0] == b[0] && a.drop_first() == b.drop_first() {
            assert(a =~= seq![a[0]] + a.drop_first());
            assert(b =~= seq![b[0]] + b.drop_first());
        }
        if a[0] != b[0] {
            assert((a[0] as int) != (b[0] as int));
        }
    } else if a.len() == 0 && b.len() == 0 {
        assert(a =~= b);
    }
}

/// The order is transitive.
pub proof fn lemma_text_lt_transitive(a: Seq<char>, b: Seq<char>, c: Seq<char>)
    requires
        text_lt(a, b),
        text_lt(b, c),
    ensures
        text_lt(a, c),
    decreases a.len(),
{
    if a.len() > 0 && b.len() > 0 && c.len() > 0 {
        if a[0] == b[0] && b[0] == c[0] {
            lemma_text_lt_transitive(a.drop_first(), b.drop_first(), c.drop_first());
        }
    }
}

/// Whether `a` comes before `b`.
pub fn text_less(a: &str, b: &str) -> (r: bool)
    ensures
        r == text_lt(a@, b@),
{
    let ac = chars_of(a);
    let bc = chars_of(b);
    let mut i: usize = 0;
    proof {
        assert(ac@.skip(0) =~= ac@);
        assert(bc@.skip(0) =~= bc@);
    }
    while i < ac.len() && i < bc.len()
        invariant
            ac@ == a@,
            bc@ == b@,
            i <= ac@.len(),
            i <= bc@.len(),
            ac@.take(i as int) == bc@.take(i as int),
            text_lt(ac@, bc@) == text_lt(ac@.skip(i as int), bc@.skip(i as int)),
        decreases ac@.len() - i,
    {
        let ca = ac[i];
        let cb = bc[i];
        if ca != cb {
            proof {
                let sa = ac@.skip(i as int);
                let sb = bc@.skip(i as int);
                assert(sa.len() > 0 && sb.len() > 0);
                assert(sa[0] == ca);
                assert(sb[0] == cb);
                assert(text_lt(sa, sb) == ((ca as int) < (cb as int)));
            }
            let lt = ca < cb;
            return lt;
        }
        proof {
            assert(ac@.skip(i as int).drop_first() =~= ac@.skip(i + 1));
            assert(bc@.skip(i as int).drop_first() =~= bc@.skip(i + 1));
            assert(ac@.take(i + 1) =~= ac@.take(i as int).push(ca));
            assert(bc@.take(i + 1) =~= bc@.take(i as int).push(cb));
        }
        i = i + 1;
    }
    i == ac.len() && i < bc.len()
}

/// The texts of a list of strings, as a set.
pub open spec fn text_set(v: Seq<String>) -> Set<Seq<char>> {
    Set::new(|t: Seq<char>| exists|i: int| 0 <= i < v.len() && #[trigger] v[i]@ == t)
}

/// Each string comes before every later one: sorted, without repeats.
pub open spec fn strictly_sorted(v: Seq<String>) -> bool {
    forall|i: int, j: int| 0 <= i < j < v.len() ==> text_lt(#[trigger] v[i]@, #[trigger] v[j]@)
}

/// Whether some string of `v` has the text of `t`.
pub fn contains_text(v: &Vec<String>, t: &String) -> (r: bool)
    ensures
        r == text_set(v@).contains(t@),
{
    let mut i: usize = 0;
    while i < v.len()
        invariant
            i <= v@.len(),
            forall|j: int| 0 <= j < i ==> v@[j]@ != t@,
        decreases v@.len() - i,
    {
        if v[i] == *t {
            proof { assert(v@[i as int]@ == t@); }
            return true;
        }
        i = i + 1;
    }
    false
}

/// Adds `t` to a sorted list without repeats, at its place; a text already
/// there is not added again.
pub fn insert_sorted(v: &mut Vec<String>, t: String)
    requires
        strictly_sorted(old(v)@),
    ensures
        strictly_sorted(final(v)@),
        text_set(final(v)@) == text_set(old(v)@).insert(t@),
{
    let ghost before = v@;
    let mut j: usize = 0;
    while j < v.len() && text_less(v[j].as_str(), t.as_str())
        invariant
            v@ == before,
            j <= v@.len(),
            forall|k: int| 0 <= k < j ==> text_lt(#[trigger] v@[k]@, t@),
        decreases v@.len() - j,
    {
        j = j + 1;
    }
    if j < v.len() && v[j] == t {
        proof {
            assert(text_set(before).insert(t@) =~= text_set(before));
        }
        return;
    }
    proof {
        if j < v@.len() {
            lemma_text_lt_total(v@[j as int]@, t@);
        }
    }
    v.insert(j, t);
    proof {
        let after = v@;
        assert forall|a: int, b: int| 0 <= a < b < after.len() implies text_lt(
            #[trigger] after[a]@,
            #[trigger] after[b]@,
        ) by {
            if b < j {
                assert(after[a] == before[a] && after[b] == before[b]);
            } else if b == j {
                assert(after[a] == before[a]);
            } else if a == j {
                assert(after[b] == before[b - 1]);
                if b - 1 > j {
                    lemma_text_lt_transitive(t@, before[j as int]@, before[b - 1]@);
                }
            } else if a < j {
                assert(after[a] == before[a] && after[b] == before[b - 1]);
            } else {
                assert(after[a] == before[a - 1] && after[b] == before[b - 1]);
            }
        }
        assert forall|s: Seq<char>| #[trigger] text_set(after).contains(s) <==> text_set(
            before,
        ).insert(t@).contains(s) by {
            if text_set(after).contains(s) {
                let i = choose|i: int| 0 <= i < after.len() && #[trigger] after[i]@ == s;
                if i < j {
                    assert(after[i] == before[i]);
                } else if i > j {
                    assert(after[i] == before[i - 1]);
                }
            }
            if text_set(before).contains(s) {
                let i = choose|i: int| 0 <= i < before.len() && #[trigger] before[i]@ == s;
                if i < j {
                    assert(after[i] == before[i]);
                } else {
                    assert(after[i + 1] == before[i]);
                }
            }
            if s == t@ {
                assert(after[j as int]@ == t@);
            }
        }
        assert(text_set(after) =~= text_set(before).insert(t@));
    }
}

/// Two sorted lists without repeats that hold the same texts are the same
/// list of texts: sorting and removing repeats leaves nothing to choose.
pub proof fn law_sorted_set_is_unique(a: Seq<String>, b: Seq<String>)
    requires
        strictly_sorted(a),
        strictly_sorted(b),
        text_set(a) == text_set(b),
    ensures
        a.len() == b.len(),
        forall|i: int| 0 <= i < a.len() ==> #[trigger] a[i]@ == b[i]@,
    decreases a.len() + b.len(),
{
    if a.len() > 0 && b.len() > 0 {
        let x = a[0]@;
        let y = b[0]@;
        assert(text_set(a).contains(x));
        assert(text_set(b).contains(y));
        let ib = choose|i: int| 0 <= i < b.len() && #[trigger] b[i]@ == x;
        let ia = choose|i: int| 0 <= i < a.len() && #[trigger] a[i]@ == y;
        if ib > 0 {
            assert(text_lt(b[0]@, b[ib]@));
        }
        if ia > 0 {
            assert(text_lt(a[0]@, a[ia]@));
        }
        if x != y {
            if ib > 0 && ia > 0 {
                lemma_text_lt_total(x, y);
            } else if ib == 0 {
                assert(false);
            } else {
                assert(false);
            }
        }
        assert(x == y);
        let a2 = a.drop_first();
        let b2 = b.drop_first();
        assert forall|s: Seq<char>| #[trigger] text_set(a2).contains(s) <==> text_set(b2).contains(s) by {
            if text_set(a2).contains(s) {
                let i = choose|i: int| 0 <= i < a2.len() && #[trigger] a2[i]@ == s;
                assert(a[i + 1]@ == s);
                assert(text_set(b).contains(s));
                let k = choose|k: int| 0 <= k < b.len() && #[trigger] b[k]@ == s;
                assert(text_lt(a[0]@, a[i + 1]@));
                if k == 0 {
                    lemma_text_lt_irreflexive(s);
                }
                assert(b2[k - 1]@ == s);
            }
            if text_set(b2).contains(s) {
                let i = choose|i: int| 0 <= i < b2.len() && #[trigger] b2[i]@ == s;
                assert(b[i + 1]@ == s);
                assert(text_set(a).contains(s));
                let k = choose|k: int| 0 <= k < a.len() && #[trigger] a[k]@ == s;
                assert(text_lt(b[0]@, b[i + 1]@));
                if k == 0 {
                    lemma_text_lt_irreflexive(s);
                }
                assert(a2[k - 1]@ == s);
            }
        }
        assert(text_set(a2) =~= text_set(b2));
        law_sorted_set_is_unique(a2, b2);
        assert forall|i: int| 0 <= i < a.len() implies #[trigger] a[i]@ == b[i]@ by {
            if i > 0 {
                assert(a2[i - 1] == a[i] && b2[i - 1] == b[i]);
            }
        }
    } else if a.len() > 0 {
        assert(text_set(a).contains(a[0]@));
    } else if b.len() > 0 {
        assert(text_set(b).contains(b[0]@));
    }
}

} // verus!
