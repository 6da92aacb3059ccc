//! Lists of tags as the manager edits them: joined into text, added to and
//! removed from entries in bulk, suggested while typing, and counted.
use vstd::prelude::*;
use crate::file_entry::{lemma_filter_take, normalized_tag, parsed_tag_set, FileEntry};
use crate::tags::{
    contains_text, insert_sorted, lemma_text_lt_irreflexive, lemma_text_lt_total,
    lemma_text_lt_transitive, strictly_sorted, text_less, text_lt, text_set,
};
use crate::text::{
    chars_of, contains_seq, is_run, is_run_of, is_sep, lowercase, push_char, string_of, sub_chars,
    text_eq,
};

verus! {

/// The tags of an entry, separated by single spaces.
pub open spec fn joined(tags: Seq<String>) -> Seq<char>
    decreases tags.len(),
{
    if tags.len() == 0 {
        Seq::empty()
    } else if tags.len() == 1 {
        tags[0]@
    } else {
        joined(tags.drop_last()) + seq![' '] + tags.last()@
    }
}

/// The strings of `v`, separated by single spaces, as `join(" ")` writes
/// them.
pub fn join_with_spaces(v: &Vec<String>) -> (r: String)
    ensures
        r@ == joined(v@),
{
    let mut r = String::new();
    let mut i: usize = 0;
    while i < v.len()
        invariant
            i <= v@.len(),
            r@ == joined(v@.take(i as int)),
        decreases v@.len() - i,
    {
        if i > 0 {
            push_char(&mut r, ' ');
        }
        r.append(v[i].as_str());
        proof {
            assert(v@.take(i + 1).drop_last() =~= v@.take(i as int));
            if i == 0 {
                assert(r@ =~= joined(v@.take(1)));
            } else {
                assert(r@ =~= joined(v@.take(i + 1)));
            }
        }
        i = i + 1;
    }
    proof { assert(v@.take(v@.len() as int) =~= v@); }
    r
}

/// A tag as a search word: '#' and the tag without its leading '#'s.
pub open spec fn tag_query(tag: Seq<char>) -> Seq<char> {
    seq!['#'] + strip_hashes(tag)
}

/// A text without its leading '#'s, as `trim_start_matches('#')` leaves it.
pub open spec fn strip_hashes(s: Seq<char>) -> Seq<char>
    decreases s.len(),
{
    if s.len() > 0 && s[0] == '#' {
        strip_hashes(s.drop_first())
    } else {
        s
    }
}

/// The search words of the selected tags, separated by single spaces.
pub open spec fn joined_queries(tags: Seq<String>) -> Seq<char>
    decreases tags.len(),
{
    if tags.len() == 0 {
        Seq::empty()
    } else if tags.len() == 1 {
        tag_query(tags[0]@)
    } else {
        joined_queries(tags.drop_last()) + seq![' '] + tag_query(tags.last()@)
    }
}

/// `a`, then a space and `b` when `a` is not empty.
pub open spec fn appended_word(a: Seq<char>, b: Seq<char>) -> Seq<char> {
    if a.len() == 0 {
        b
    } else {
        a + seq![' '] + b
    }
}

/// `s` without its leading '#'s.
fn strip_leading_hashes(s: &str) -> (r: Vec<char>)
    ensures
        r@ == strip_hashes(s@),
{
    let cs = chars_of(s);
    let n = cs.len();
    let mut i: usize = 0;
    proof { assert(cs@.skip(0) =~= cs@); }
    while i < n && cs[i] == '#'
        invariant
            n == cs@.len(),
            cs@ == s@,
            i <= n,
            strip_hashes(s@) == strip_hashes(cs@.skip(i as int)),
        decreases n - i,
    {
        proof { assert(cs@.skip(i as int).drop_first() =~= cs@.skip(i + 1)); }
        i = i + 1;
    }
    proof { assert(cs@.subrange(i as int, n as int) =~= cs@.skip(i as int)); }
    sub_chars(&cs, i, n)
}

/// A tag as a search word.
pub(crate) fn tag_query_of(tag: &str) -> (r: String)
    ensures
        r@ == tag_query(tag@),
{
    let mut q = String::new();
    push_char(&mut q, '#');
    let rest = string_of(&strip_leading_hashes(tag));
    q.append(rest.as_str());
    proof { assert(q@ =~= tag_query(tag@)); }
    q
}

/// `a`, then a space and `b` when `a` is not empty.
pub(crate) fn append_word(a: &String, b: &str) -> (r: String)
    ensures
        r@ == appended_word(a@, b@),
{
    if a.as_str().is_empty() {
        String::from_str(b)
    } else {
        let mut r = a.clone();
        push_char(&mut r, ' ');
        r.append(b);
        proof { assert(r@ =~= appended_word(a@, b@)); }
        r
    }
}

/// Removes the text `t` from a sorted list without repeats.
pub(crate) fn remove_sorted(v: &mut Vec<String>, t: &str)
    requires
        strictly_sorted(old(v)@),
    ensures
        strictly_sorted(final(v)@),
        text_set(final(v)@) == text_set(old(v)@).remove(t@),
{
    let mut i: usize = 0;
    while i < v.len()
        invariant
            i <= v@.len(),
            v@ == old(v)@,
            strictly_sorted(v@),
            forall|j: int| 0 <= j < i ==> #[trigger] v@[j]@ != t@,
        decreases v@.len() - i,
    {
        if text_eq(v[i].as_str(), t) {
            let ghost before = v@;
            v.remove(i);
            proof {
                assert forall|a: int, b: int| 0 <= a < b < v@.len() implies text_lt(
                    #[trigger] v@[a]@,
                    #[trigger] v@[b]@,
                ) by {
                    let a2 = if a < i { a } else { a + 1 };
                    let b2 = if b < i { b } else { b + 1 };
                    assert(text_lt(before[a2]@, before[b2]@));
                }
                assert forall|x: Seq<char>| #[trigger] text_set(v@).contains(x) <==> text_set(
                    before,
                ).remove(t@).contains(x) by {
                    if text_set(v@).contains(x) {
                        let a = choose|a: int| 0 <= a < v@.len() && #[trigger] v@[a]@ == x;
                        let a2 = if a < i { a } else { a + 1 };
                        assert(before[a2]@ == x);
                        if x == t@ {
                            if a2 < i {
                            } else {
                                assert(text_lt(before[i as int]@, before[a2]@));
                                lemma_text_lt_irreflexive(x);
                            }
                        }
                    }
                    if text_set(before).remove(t@).contains(x) {
                        let a = choose|a: int| 0 <= a < before.len() && #[trigger] before[a]@ == x;
                        assert(a != i);
                        if a < i {
                            assert(v@[a]@ == x);
                        } else {
                            assert(v@[a - 1]@ == x);
                        }
                    }
                }
                assert(text_set(v@) =~= text_set(before).remove(t@));
            }
            return;
        }
        i = i + 1;
    }
    proof {
        assert(text_set(v@) =~= text_set(v@).remove(t@));
    }
}

/// `add` holds a tag that `tags` lacks.
pub open spec fn lacks_some(tags: Seq<String>, add: Set<Seq<char>>) -> bool {
    !add.subset_of(text_set(tags))
}

/// The tags of an entry after adding `add` to them: unchanged when none is
/// missing; else sorted, without repeats, the old ones and the new.
pub open spec fn with_tags_added(tags: Seq<String>, add: Set<Seq<char>>, r: Seq<String>) -> bool {
    if lacks_some(tags, add) {
        strictly_sorted(r) && text_set(r) == text_set(tags).union(add)
    } else {
        r == tags
    }
}

/// How many of the shown entries lack one of the tags of `add`.
pub open spec fn count_lacking(entries: Seq<FileEntry>, shown: Seq<usize>, add: Set<Seq<char>>) -> nat
    decreases shown.len(),
{
    if shown.len() == 0 {
        0
    } else {
        count_lacking(entries, shown.drop_last(), add) + if lacks_some(
            entries[shown.last() as int].tags@,
            add,
        ) {
            1nat
        } else {
            0nat
        }
    }
}

/// `tags` holds a tag of `remove`.
pub open spec fn removes_some(tags: Seq<String>, remove: Set<Seq<char>>) -> bool {
    exists|j: int| 0 <= j < tags.len() && remove.contains(#[trigger] tags[j]@)
}

/// The tags that are not in `remove`, in order.
pub open spec fn kept_tags(tags: Seq<String>, remove: Set<Seq<char>>) -> Seq<String> {
    tags.filter(|t: String| !remove.contains(t@))
}

/// How many of the shown entries hold a tag of `remove`.
pub open spec fn count_removing(entries: Seq<FileEntry>, shown: Seq<usize>, remove: Set<Seq<char>>) -> nat
    decreases shown.len(),
{
    if shown.len() == 0 {
        0
    } else {
        count_removing(entries, shown.drop_last(), remove) + if removes_some(
            entries[shown.last() as int].tags@,
            remove,
        ) {
            1nat
        } else {
            0nat
        }
    }
}

/// Whether a tag is suggested for an input: its lowercase form contains the
/// input's, and the input does not already hold it.
pub open spec fn suggests(tag: Seq<char>, input: Seq<char>) -> bool {
    contains_seq(lowercase(tag), lowercase(input)) && !contains_seq(input, tag)
}

/// The tags suggested for an input, in order; none for an empty input.
pub open spec fn suggestions(tags: Seq<String>, input: Seq<char>) -> Seq<String> {
    if input.len() == 0 {
        Seq::empty()
    } else {
        tags.filter(|t: String| suggests(t@, input))
    }
}

/// How many suggestions are offered at most.
pub const SUGGESTION_LIMIT: usize = 6;

/// The texts of one more element.
pub(crate) proof fn lemma_text_set_take(s: Seq<String>, i: int)
    requires
        0 <= i < s.len(),
    ensures
        text_set(s.take(i + 1)) == text_set(s.take(i)).insert(s[i]@),
{
    assert forall|t: Seq<char>| #[trigger] text_set(s.take(i + 1)).contains(t) <==> text_set(s.take(i)).insert(
        s[i]@,
    ).contains(t) by {
        if text_set(s.take(i + 1)).contains(t) {
            let k = choose|k: int| 0 <= k < s.take(i + 1).len() && #[trigger] s.take(i + 1)[k]@ == t;
            if k < i {
                assert(s.take(i)[k]@ == t);
            }
        }
        if text_set(s.take(i)).contains(t) {
            let k = choose|k: int| 0 <= k < s.take(i).len() && #[trigger] s.take(i)[k]@ == t;
            assert(s.take(i + 1)[k]@ == t);
        }
        if t == s[i]@ {
            assert(s.take(i + 1)[i]@ == t);
        }
    }
    assert(text_set(s.take(i + 1)) =~= text_set(s.take(i)).insert(s[i]@));
}

/// Whether `add` holds a text that `tags` lacks.
pub(crate) fn lacks_any(tags: &Vec<String>, add: &Vec<String>) -> (r: bool)
    ensures
        r == lacks_some(tags@, text_set(add@)),
{
    let mut i: usize = 0;
    while i < add.len()
        invariant
            i <= add@.len(),
            forall|j: int| 0 <= j < i ==> text_set(tags@).contains(#[trigger] add@[j]@),
        decreases add@.len() - i,
    {
        if !contains_text(tags, &add[i]) {
            proof {
                assert(text_set(add@).contains(add@[i as int]@));
            }
            return true;
        }
        i = i + 1;
    }
    proof {
        assert forall|t: Seq<char>| text_set(add@).contains(t) implies text_set(tags@).contains(t) by {
            let j = choose|j: int| 0 <= j < add@.len() && #[trigger] add@[j]@ == t;
        }
    }
    false
}

/// The texts of `a` and of `b`, sorted, without repeats.
pub(crate) fn union_sorted(a: &Vec<String>, b: &Vec<String>) -> (r: Vec<String>)
    ensures
        strictly_sorted(r@),
        text_set(r@) == text_set(a@).union(text_set(b@)),
{
    let mut r: Vec<String> = Vec::new();
    let mut i: usize = 0;
    proof { assert(text_set(r@) =~= text_set(a@.take(0))); }
    while i < a.len()
        invariant
            i <= a@.len(),
            strictly_sorted(r@),
            text_set(r@) == text_set(a@.take(i as int)),
        decreases a@.len() - i,
    {
        insert_sorted(&mut r, a[i].clone());
        proof { lemma_text_set_take(a@, i as int); }
        i = i + 1;
    }
    proof {
        assert(a@.take(a@.len() as int) =~= a@);
        assert(text_set(r@) =~= text_set(a@).union(text_set(b@.take(0))));
    }
    let mut j: usize = 0;
    while j < b.len()
        invariant
            j <= b@.len(),
            strictly_sorted(r@),
            text_set(r@) == text_set(a@).union(text_set(b@.take(j as int))),
        decreases b@.len() - j,
    {
        insert_sorted(&mut r, b[j].clone());
        proof {
            lemma_text_set_take(b@, j as int);
            assert(text_set(r@) =~= text_set(a@).union(text_set(b@.take(j + 1))));
        }
        j = j + 1;
    }
    proof { assert(b@.take(b@.len() as int) =~= b@); }
    r
}

/// The tags of `tags` that are not in `remove`, in order, and whether some
/// was left out.
pub(crate) fn without_tags(tags: &Vec<String>, remove: &Vec<String>) -> (r: (Vec<String>, bool))
    ensures
        r.0@ == kept_tags(tags@, text_set(remove@)),
        r.1 == removes_some(tags@, text_set(remove@)),
{
    let ghost pred = |t: String| !text_set(remove@).contains(t@);
    let mut kept: Vec<String> = Vec::new();
    let mut dropped = false;
    let mut i: usize = 0;
    while i < tags.len()
        invariant
            i <= tags@.len(),
            pred == (|t: String| !text_set(remove@).contains(t@)),
            kept@ == tags@.take(i as int).filter(pred),
            dropped == exists|j: int| 0 <= j < i && text_set(remove@).contains(#[trigger] tags@[j]@),
        decreases tags@.len() - i,
    {
        proof { lemma_filter_take(tags@, i as int, pred); }
        if contains_text(remove, &tags[i]) {
            dropped = true;
        } else {
            kept.push(tags[i].clone());
        }
        i = i + 1;
    }
    proof { assert(tags@.take(tags@.len() as int) =~= tags@); }
    (kept, dropped)
}

/// How often `t` occurs among `tags`.
pub open spec fn count_in(tags: Seq<String>, t: Seq<char>) -> nat
    decreases tags.len(),
{
    if tags.len() == 0 {
        0
    } else {
        count_in(tags.drop_last(), t) + if tags.last()@ == t {
            1nat
        } else {
            0nat
        }
    }
}

/// How often `t` occurs among the tags of all entries.
pub open spec fn tag_count(entries: Seq<FileEntry>, t: Seq<char>) -> nat
    decreases entries.len(),
{
    if entries.len() == 0 {
        0
    } else {
        tag_count(entries.drop_last(), t) + count_in(entries.last().tags@, t)
    }
}

/// How many tags the entries hold in all.
pub open spec fn total_tags(entries: Seq<FileEntry>) -> nat
    decreases entries.len(),
{
    if entries.len() == 0 {
        0
    } else {
        total_tags(entries.drop_last()) + entries.last().tags@.len()
    }
}

/// `a` comes before `b` in the usage statistics: it is used more often, or
/// as often and comes first in the order of text.
pub open spec fn stat_before(a: (String, usize), b: (String, usize)) -> bool {
    a.1 > b.1 || (a.1 == b.1 && text_lt(a.0@, b.0@))
}

/// The tag names of a list of statistics, as a set.
pub open spec fn stat_names(v: Seq<(String, usize)>) -> Set<Seq<char>> {
    Set::new(|t: Seq<char>| exists|k: int| 0 <= k < v.len() && #[trigger] v[k].0@ == t)
}

proof fn lemma_count_in_bound(tags: Seq<String>, t: Seq<char>)
    ensures
        count_in(tags, t) <= tags.len(),
    decreases tags.len(),
{
    if tags.len() > 0 {
        lemma_count_in_bound(tags.drop_last(), t);
    }
}

proof fn lemma_tag_count_bound(entries: Seq<FileEntry>, t: Seq<char>)
    ensures
        tag_count(entries, t) <= total_tags(entries),
    decreases entries.len(),
{
    if entries.len() > 0 {
        lemma_tag_count_bound(entries.drop_last(), t);
        lemma_count_in_bound(entries.last().tags@, t);
    }
}

proof fn lemma_total_take(entries: Seq<FileEntry>, i: int)
    requires
        0 <= i <= entries.len(),
    ensures
        total_tags(entries.take(i)) <= total_tags(entries),
    decreases entries.len(),
{
    if i == entries.len() {
        assert(entries.take(i) =~= entries);
    } else {
        assert(entries.drop_last().take(i) =~= entries.take(i));
        lemma_total_take(entries.drop_last(), i);
    }
}

/// The order of statistics is transitive.
proof fn lemma_stat_before_transitive(a: (String, usize), b: (String, usize), c: (String, usize))
    requires
        stat_before(a, b),
        stat_before(b, c),
    ensures
        stat_before(a, c),
{
    if a.1 == b.1 && b.1 == c.1 {
        lemma_text_lt_transitive(a.0@, b.0@, c.0@);
    }
}

/// How often `t` occurs among the tags of all entries.
pub(crate) fn count_tag(entries: &Vec<FileEntry>, t: &String) -> (c: usize)
    requires
        total_tags(entries@) <= usize::MAX,
    ensures
        c == tag_count(entries@, t@),
{
    let mut c: usize = 0;
    let mut i: usize = 0;
    proof { assert(entries@.take(0) =~= Seq::<FileEntry>::empty()); }
    while i < entries.len()
        invariant
            i <= entries@.len(),
            total_tags(entries@) <= usize::MAX,
            c == tag_count(entries@.take(i as int), t@),
            c <= total_tags(entries@.take(i as int)),
        decreases entries@.len() - i,
    {
        let tags = &entries[i].tags;
        let ghost before = entries@.take(i as int);
        proof {
            assert(entries@.take(i + 1).drop_last() =~= before);
            lemma_total_take(entries@, i + 1);
            assert(tags@.take(0) =~= Seq::<String>::empty());
        }
        let mut j: usize = 0;
        while j < tags.len()
            invariant
                i < entries@.len(),
                *tags == entries@[i as int].tags,
                j <= tags@.len(),
                before == entries@.take(i as int),
                total_tags(before) + tags@.len() <= usize::MAX,
                c == tag_count(before, t@) + count_in(tags@.take(j as int), t@),
                c <= total_tags(before) + j,
            decreases tags@.len() - j,
        {
            proof { assert(tags@.take(j + 1).drop_last() =~= tags@.take(j as int)); }
            if tags[j] == *t {
                c = c + 1;
            }
            j = j + 1;
        }
        proof {
            assert(tags@.take(tags@.len() as int) =~= tags@);
        }
        i = i + 1;
    }
    proof { assert(entries@.take(entries@.len() as int) =~= entries@); }
    c
}

/// Each statistic comes before every later one.
pub open spec fn stat_sorted(v: Seq<(String, usize)>) -> bool {
    forall|a: int, b: int| 0 <= a < b < v.len() ==> stat_before(#[trigger] v[a], #[trigger] v[b])
}

/// Inserting a statistic for a new name at the first place where it comes
/// before the one there keeps the list ordered.
pub(crate) proof fn lemma_insert_stat(v: Seq<(String, usize)>, x: (String, usize), p: int)
    requires
        stat_sorted(v),
        0 <= p <= v.len(),
        forall|q: int| 0 <= q < p ==> stat_before(#[trigger] v[q], x),
        p < v.len() ==> !stat_before(v[p], x),
        !stat_names(v).contains(x.0@),
    ensures
        stat_sorted(v.insert(p, x)),
        stat_names(v.insert(p, x)) == stat_names(v).insert(x.0@),
{
    let w = v.insert(p, x);
    if p < v.len() {
        assert(stat_names(v).contains(v[p].0@));
        lemma_text_lt_total(v[p].0@, x.0@);
        assert(stat_before(x, v[p]));
    }
    assert forall|a: int, b: int| 0 <= a < b < w.len() implies stat_before(#[trigger] w[a], #[trigger] w[b]) by {
        if a < p {
            if b == p {
            } else if b > p {
                assert(w[b] == v[b - 1]);
            }
        } else if a == p {
            assert(w[b] == v[b - 1]);
            if b - 1 > p {
                lemma_stat_before_transitive(x, v[p], v[b - 1]);
            }
        } else {
            assert(w[a] == v[a - 1] && w[b] == v[b - 1]);
        }
    }
    assert forall|t: Seq<char>| #[trigger] stat_names(w).contains(t) <==> stat_names(v).insert(x.0@).contains(t) by {
        if stat_names(w).contains(t) {
            let k = choose|k: int| 0 <= k < w.len() && #[trigger] w[k].0@ == t;
            if k < p {
                assert(v[k].0@ == t);
            } else if k > p {
                assert(v[k - 1].0@ == t);
            }
        }
        if stat_names(v).contains(t) {
            let k = choose|k: int| 0 <= k < v.len() && #[trigger] v[k].0@ == t;
            if k < p {
                assert(w[k].0@ == t);
            } else {
                assert(w[k + 1].0@ == t);
            }
        }
        if t == x.0@ {
            assert(w[p].0@ == t);
        }
    }
    assert(stat_names(w) =~= stat_names(v).insert(x.0@));
}

/// Whether `a` comes before `b` in the usage statistics.
pub(crate) fn stat_before_exec(a: &(String, usize), b: &(String, usize)) -> (r: bool)
    ensures
        r == stat_before(*a, *b),
{
    a.1 > b.1 || (a.1 == b.1 && text_less(a.0.as_str(), b.0.as_str()))
}

/// Adding a tag to the search a second time changes nothing: the search
/// then already holds the tag's search word.
pub proof fn law_add_tag_to_search_is_idempotent(query: Seq<char>, tag: Seq<char>)
    ensures
        contains_seq(appended_word(query, tag_query(tag)), tag_query(tag)),
{
    let w = tag_query(tag);
    let s = appended_word(query, w);
    if query.len() == 0 {
        let i: int = 0;
        assert(s.subrange(i, i + w.len()) =~= w);
        assert(contains_seq(s, w));
    } else {
        let i: int = query.len() as int + 1;
        assert(s.subrange(i, i + w.len()) =~= w);
        assert(contains_seq(s, w));
    }
}

/// After tags are added to an entry, it holds them, and the tags it had.
pub proof fn law_added_tags_are_held(tags: Seq<String>, add: Set<Seq<char>>, r: Seq<String>)
    requires
        with_tags_added(tags, add, r),
    ensures
        add.subset_of(text_set(r)),
        text_set(tags).subset_of(text_set(r)),
{
}

/// After tags are removed from an entry, it holds none of them.
pub proof fn law_removed_tags_are_gone(tags: Seq<String>, remove: Set<Seq<char>>)
    ensures
        forall|j: int|
            0 <= j < kept_tags(tags, remove).len() ==> !remove.contains(
                #[trigger] kept_tags(tags, remove)[j]@,
            ),
{
    broadcast use vstd::seq_lib::group_filter_ensures;
}

/// A tag that the tag input can hold as it is: it begins with '#', holds
/// more than the '#', and holds no white space or ','.
pub open spec fn clean_tag(t: Seq<char>) -> bool {
    &&& t.len() > 1
    &&& t[0] == '#'
    &&& forall|m: int| 0 <= m < t.len() ==> !is_sep(#[trigger] t[m], true)
}

/// The pieces of tags joined by spaces are the tags.
proof fn lemma_runs_of_joined(tags: Seq<String>)
    requires
        forall|k: int| 0 <= k < tags.len() ==> clean_tag(#[trigger] tags[k]@),
    ensures
        forall|w: Seq<char>| #[trigger] is_run_of(joined(tags), w, true) == text_set(tags).contains(w),
    decreases tags.len(),
{
    let s = joined(tags);
    if tags.len() == 0 {
        assert forall|w: Seq<char>| #[trigger] is_run_of(s, w, true) == text_set(tags).contains(w) by {
            if is_run_of(s, w, true) {
                let (i, j) = choose|i: int, j: int| #[trigger] is_run(s, i, j, true) && s.subrange(i, j) == w;
            }
        }
    } else if tags.len() == 1 {
        let t = tags[0]@;
        assert(clean_tag(tags[0]@));
        assert forall|w: Seq<char>| #[trigger] is_run_of(s, w, true) == text_set(tags).contains(w) by {
            if is_run_of(s, w, true) {
                let (i, j) = choose|i: int, j: int| #[trigger] is_run(s, i, j, true) && s.subrange(i, j) == w;
                if i > 0 {
                    assert(!is_sep(t[i - 1], true));
                }
                if j < s.len() {
                    assert(!is_sep(t[j], true));
                }
                assert(s.subrange(i, j) =~= t);
                assert(tags[0]@ == w);
            }
            if text_set(tags).contains(w) {
                let k = choose|k: int| 0 <= k < tags.len() && #[trigger] tags[k]@ == w;
                assert(k == 0);
                assert(is_run(s, 0, s.len() as int, true));
                assert(s.subrange(0, s.len() as int) =~= w);
            }
        }
    } else {
        let prefix = tags.drop_last();
        let a = joined(prefix);
        let b = tags.last()@;
        assert(clean_tag(tags[tags.len() - 1]@));
        assert forall|k: int| 0 <= k < prefix.len() implies clean_tag(#[trigger] prefix[k]@) by {
            assert(clean_tag(tags[k]@));
        }
        lemma_runs_of_joined(prefix);
        let n = a.len() as int;
        assert(s == a + seq![' '] + b);
        assert(is_sep(s[n], true)) by {
            assert(s[n] == ' ');
        }
        assert forall|w: Seq<char>| #[trigger] is_run_of(s, w, true) == text_set(tags).contains(w) by {
            if is_run_of(s, w, true) {
                let (i, j) = choose|i: int, j: int| #[trigger] is_run(s, i, j, true) && s.subrange(i, j) == w;
                if i <= n {
                    if j > n {
                        assert(!is_sep(s[n], true));
                    }
                    assert forall|k: int| i <= k < j implies !is_sep(#[trigger] a[k], true) by {
                        assert(s[k] == a[k]);
                        assert(!is_sep(s[k], true));
                    }
                    if i > 0 {
                        assert(s[i - 1] == a[i - 1]);
                    }
                    if j < n {
                        assert(s[j] == a[j]);
                    }
                    assert(is_run(a, i, j, true));
                    assert(a.subrange(i, j) =~= w);
                    assert(is_run_of(a, w, true));
                    assert(text_set(prefix).contains(w));
                    let k = choose|k: int| 0 <= k < prefix.len() && #[trigger] prefix[k]@ == w;
                    assert(tags[k]@ == w);
                } else {
                    if i > n + 1 {
                        assert(s[i - 1] == b[i - 1 - n - 1]);
                        assert(!is_sep(b[i - 1 - n - 1], true));
                    }
                    if j < s.len() {
                        assert(s[j] == b[j - n - 1]);
                        assert(!is_sep(b[j - n - 1], true));
                    }
                    assert(s.subrange(i, j) =~= b);
                    assert(tags[tags.len() - 1]@ == w);
                }
            }
            if text_set(tags).contains(w) {
                let k = choose|k: int| 0 <= k < tags.len() && #[trigger] tags[k]@ == w;
                if k < tags.len() - 1 {
                    assert(prefix[k]@ == w);
                    assert(text_set(prefix).contains(w));
                    assert(is_run_of(a, w, true));
                    let (i, j) = choose|i: int, j: int| #[trigger] is_run(a, i, j, true) && a.subrange(i, j) == w;
                    assert forall|m: int| i <= m < j implies !is_sep(#[trigger] s[m], true) by {
                        assert(s[m] == a[m]);
                    }
                    if i > 0 {
                        assert(s[i - 1] == a[i - 1]);
                    }
                    if j < n {
                        assert(s[j] == a[j]);
                    }
                    assert(is_run(s, i, j, true));
                    assert(s.subrange(i, j) =~= w);
                } else {
                    let i = n + 1;
                    let j = s.len() as int;
                    assert forall|m: int| i <= m < j implies !is_sep(#[trigger] s[m], true) by {
                        assert(s[m] == b[m - n - 1]);
                    }
                    assert(is_run(s, i, j, true));
                    assert(s.subrange(i, j) =~= w);
                }
            }
        }
    }
}

/// Opening the tag editor on an entry and saving it without changes keeps
/// its tags: the tags written into the input, separated by spaces, read
/// back as the same set of tags, when each begins with '#', holds more than
/// the '#' and holds no white space or ','.
pub proof fn law_tag_edit_round_trip(tags: Seq<String>)
    requires
        forall|k: int| 0 <= k < tags.len() ==> clean_tag(#[trigger] tags[k]@),
    ensures
        parsed_tag_set(joined(tags)) == text_set(tags),
{
    lemma_runs_of_joined(tags);
    assert forall|t: Seq<char>| #[trigger] parsed_tag_set(joined(tags)).contains(t) <==> text_set(tags).contains(t) by {
        if parsed_tag_set(joined(tags)).contains(t) {
            let w = choose|w: Seq<char>| #[trigger] is_run_of(joined(tags), w, true) && normalized_tag(w) == Some(t);
            assert(text_set(tags).contains(w));
            let k = choose|k: int| 0 <= k < tags.len() && #[trigger] tags[k]@ == w;
            assert(clean_tag(tags[k]@));
        }
        if text_set(tags).contains(t) {
            let k = choose|k: int| 0 <= k < tags.len() && #[trigger] tags[k]@ == t;
            assert(clean_tag(tags[k]@));
            assert(is_run_of(joined(tags), t, true));
            assert(normalized_tag(t) == Some(t));
        }
    }
    assert(parsed_tag_set(joined(tags)) =~= text_set(tags));
}

/// Every tag that `parse_tags` reads can be written back as it is: it
/// begins with '#', holds more than the '#', and holds no white space or ','.
pub proof fn lemma_parsed_tags_are_clean(input: Seq<char>, t: Seq<char>)
    requires
        parsed_tag_set(input).contains(t),
    ensures
        clean_tag(t),
{
    let w = choose|w: Seq<char>| #[trigger] is_run_of(input, w, true) && normalized_tag(w) == Some(t);
    let (i, j) = choose|i: int, j: int| #[trigger] is_run(input, i, j, true) && input.subrange(i, j) == w;
    assert forall|m: int| 0 <= m < w.len() implies !is_sep(#[trigger] w[m], true) by {
        assert(w[m] == input[i + m]);
    }
    if w[0] != '#' {
        assert forall|m: int| 0 <= m < t.len() implies !is_sep(#[trigger] t[m], true) by {
            if m > 0 {
                assert(t[m] == w[m - 1]);
            }
        }
    }
}

/// Reading tags, writing them back separated by spaces as the tag editor
/// shows them, and reading them again gives the same tags.
pub proof fn law_parse_tags_round_trip(input: Seq<char>, tags: Seq<String>)
    requires
        text_set(tags) == parsed_tag_set(input),
    ensures
        parsed_tag_set(joined(tags)) == parsed_tag_set(input),
{
    assert forall|k: int| 0 <= k < tags.len() implies clean_tag(#[trigger] tags[k]@) by {
        assert(text_set(tags).contains(tags[k]@));
        lemma_parsed_tags_are_clean(input, tags[k]@);
    }
    law_tag_edit_round_trip(tags);
}

/// The count of a tag among a list of tags is the number of tags equal to it:
/// a tag that merely contains it, or is contained in it, adds nothing.
pub proof fn law_count_is_exact_occurrences(tags: Seq<String>, t: Seq<char>)
    ensures
        count_in(tags, t) == tags.filter(|s: String| s@ == t).len(),
    decreases tags.len(),
{
    reveal(Seq::filter);
    if tags.len() > 0 {
        law_count_is_exact_occurrences(tags.drop_last(), t);
    }
}

/// A tag is counted over the entries exactly when some entry carries it.
pub proof fn law_tag_counted_iff_in_use(entries: Seq<FileEntry>, t: Seq<char>)
    ensures
        tag_count(entries, t) > 0 <==> exists|i: int, j: int|
            0 <= i < entries.len() && 0 <= j < entries[i].tags@.len() && #[trigger] entries[i].tags@[j]@
                == t,
    decreases entries.len(),
{
    if entries.len() > 0 {
        let p = entries.drop_last();
        let last = entries.last();
        law_tag_counted_iff_in_use(p, t);
        lemma_count_in_positive(last.tags@, t);
        if tag_count(entries, t) > 0 {
            if tag_count(p, t) > 0 {
                let (i, j) = choose|i: int, j: int|
                    0 <= i < p.len() && 0 <= j < p[i].tags@.len() && #[trigger] p[i].tags@[j]@ == t;
                assert(entries[i] == p[i]);
                assert(entries[i].tags@[j]@ == t);
            } else {
                let j = choose|j: int| 0 <= j < last.tags@.len() && #[trigger] last.tags@[j]@ == t;
                assert(entries[entries.len() - 1].tags@[j]@ == t);
            }
        }
        if exists|i: int, j: int|
            0 <= i < entries.len() && 0 <= j < entries[i].tags@.len() && #[trigger] entries[i].tags@[j]@ == t {
            let (i, j) = choose|i: int, j: int|
                0 <= i < entries.len() && 0 <= j < entries[i].tags@.len() && #[trigger] entries[i].tags@[j]@
                    == t;
            if i < entries.len() - 1 {
                assert(p[i] == entries[i]);
                assert(p[i].tags@[j]@ == t);
            } else {
                assert(last.tags@[j]@ == t);
            }
        }
    }
}

/// A list counts a tag exactly when it holds it.
proof fn lemma_count_in_positive(tags: Seq<String>, t: Seq<char>)
    ensures
        count_in(tags, t) > 0 <==> exists|j: int| 0 <= j < tags.len() && #[trigger] tags[j]@ == t,
    decreases tags.len(),
{
    if tags.len() > 0 {
        let p = tags.drop_last();
        lemma_count_in_positive(p, t);
        if exists|j: int| 0 <= j < p.len() && #[trigger] p[j]@ == t {
            let j = choose|j: int| 0 <= j < p.len() && #[trigger] p[j]@ == t;
            assert(tags[j] == p[j]);
        }
        if exists|j: int| 0 <= j < tags.len() && #[trigger] tags[j]@ == t {
            let j = choose|j: int| 0 <= j < tags.len() && #[trigger] tags[j]@ == t;
            if j < tags.len() - 1 {
                assert(p[j] == tags[j]);
            }
        }
    }
}

/// Removing tags drops exactly the tags equal to one of them: every other
/// tag of the entry is kept, every kept tag was the entry's, and when the
/// entry holds none of them its tags stay as they were.
pub proof fn law_remove_drops_only_equal_tags(tags: Seq<String>, remove: Set<Seq<char>>)
    ensures
        forall|j: int|
            0 <= j < tags.len() && !remove.contains(#[trigger] tags[j]@) ==> kept_tags(tags, remove).contains(
                tags[j],
            ),
        forall|x: String| #[trigger] kept_tags(tags, remove).contains(x) ==> tags.contains(x) && !remove.contains(
            x@,
        ),
        (forall|j: int| 0 <= j < tags.len() ==> !remove.contains(#[trigger] tags[j]@)) ==> kept_tags(tags, remove)
            == tags,
{
    broadcast use vstd::seq_lib::group_filter_ensures;
    let pred = |t: String| !remove.contains(t@);
    assert forall|j: int|
        0 <= j < tags.len() && !remove.contains(#[trigger] tags[j]@) implies kept_tags(tags, remove).contains(
        tags[j],
    ) by {
        tags.lemma_filter_contains(pred, j);
    }
    assert forall|x: String| #[trigger] kept_tags(tags, remove).contains(x) implies tags.contains(x)
        && !remove.contains(x@) by {
        tags.lemma_filter_contains_rev(pred, x);
        let k = choose|k: int| 0 <= k < kept_tags(tags, remove).len() && kept_tags(tags, remove)[k] == x;
        assert(pred(kept_tags(tags, remove)[k]));
    }
    if forall|j: int| 0 <= j < tags.len() ==> !remove.contains(#[trigger] tags[j]@) {
        lemma_filter_all_kept(tags, pred);
    }
}

/// Filtering by a predicate that every element meets keeps them all.
proof fn lemma_filter_all_kept(s: Seq<String>, pred: spec_fn(String) -> bool)
    requires
        forall|j: int| 0 <= j < s.len() ==> pred(#[trigger] s[j]),
    ensures
        s.filter(pred) == s,
    decreases s.len(),
{
    reveal(Seq::filter);
    if s.len() > 0 {
        let p = s.drop_last();
        assert forall|j: int| 0 <= j < p.len() implies pred(#[trigger] p[j]) by {
            assert(p[j] == s[j]);
        }
        lemma_filter_all_kept(p, pred);
        assert(pred(s[s.len() - 1]));
        assert(p.push(s.last()) =~= s);
    }
}

} // verus!
