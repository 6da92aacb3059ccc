//! Searching the entries: what a search shows, the tags in use, and the
//! list a search selects, with its laws.
use vstd::prelude::*;
use crate::file_entry::{entry_matches, hash_tags_of, starts_with_hash, FileEntry};
use crate::tags::{insert_sorted, strictly_sorted, text_set};
use crate::text::{
    chars_of, contains_seq, is_run, is_run_of, lowercase, split_runs, string_of, text_contains,
    to_lowercase,
};

verus! {

/// Every tag that some entry carries.
pub open spec fn tags_in_use(entries: Seq<FileEntry>) -> Set<Seq<char>> {
    Set::new(
        |t: Seq<char>|
            exists|i: int, j: int|
                0 <= i < entries.len() && 0 <= j < entries[i].tags@.len()
                    && #[trigger] entries[i].tags@[j]@ == t,
    )
}

/// The tags carried by the first `i` entries and the first `j` tags of entry
/// `i`.
spec fn tags_before(entries: Seq<FileEntry>, i: int, j: int) -> Set<Seq<char>> {
    Set::new(
        |t: Seq<char>|
            exists|a: int, b: int|
                0 <= a < entries.len() && 0 <= b < entries[a].tags@.len() && (a < i || (a == i
                    && b < j)) && #[trigger] entries[a].tags@[b]@ == t,
    )
}

/// One word of a search: a word that starts with '#' must occur in one of the
/// entry's '#' tags, lowercased; any other word must match the entry (see
/// `entry_matches`).
pub open spec fn word_matches(e: FileEntry, w: Seq<char>) -> bool {
    if w.len() > 0 && w[0] == '#' {
        exists|k: int|
            0 <= k < hash_tags_of(e.tags@).len() && contains_seq(
                lowercase(#[trigger] hash_tags_of(e.tags@)[k]@),
                w,
            )
    } else {
        entry_matches(e, w)
    }
}

/// An entry is shown for a search when the search is empty, or when every
/// word of the lowercased search matches it.
pub open spec fn search_matches(e: FileEntry, query: Seq<char>) -> bool {
    query.len() == 0 || forall|w: Seq<char>|
        #[trigger] is_run_of(lowercase(query), w, false) ==> word_matches(e, w)
}

/// The indices, in order, of the first `n` entries that a search shows.
pub open spec fn matching_indices(entries: Seq<FileEntry>, query: Seq<char>, n: int) -> Seq<usize>
    decreases n,
{
    if n <= 0 {
        Seq::empty()
    } else {
        let rest = matching_indices(entries, query, n - 1);
        if search_matches(entries[n - 1], query) {
            rest.push((n - 1) as usize)
        } else {
            rest
        }
    }
}

/// The list a search shows: the indices of the entries it matches, in order.
pub open spec fn filter_result(entries: Seq<FileEntry>, query: Seq<char>) -> Seq<usize> {
    matching_indices(entries, query, entries.len() as int)
}

/// Whether the lowercased form of one of the tags contains `part`.
fn some_tag_contains(tags: &Vec<String>, part: &str) -> (r: bool)
    ensures
        r == exists|k: int| 0 <= k < tags@.len() && contains_seq(lowercase(#[trigger] tags@[k]@), part@),
{
    let mut h: usize = 0;
    while h < tags.len()
        invariant
            h <= tags@.len(),
            forall|q: int| 0 <= q < h ==> !contains_seq(lowercase(#[trigger] tags@[q]@), part@),
        decreases tags@.len() - h,
    {
        let tag_lower = to_lowercase(tags[h].as_str());
        if text_contains(tag_lower.as_str(), part) {
            return true;
        }
        h = h + 1;
    }
    false
}

/// Whether a search shows an entry.
pub fn search_query_matches(entry: &FileEntry, query: &str) -> (r: bool)
    ensures
        r == search_matches(*entry, query@),
{
    if query.is_empty() {
        return true;
    }
    let query_lower = to_lowercase(query);
    let qc = chars_of(query_lower.as_str());
    let parts = split_runs(&qc, false);
    let mut k: usize = 0;
    while k < parts.len()
        invariant
            k <= parts@.len(),
            query@.len() > 0,
            qc@ == lowercase(query@),
            forall|t: int| 0 <= t < parts@.len() ==> is_run_of(qc@, #[trigger] parts@[t]@, false),
            forall|i: int, j: int|
                #[trigger] is_run(qc@, i, j, false) ==> exists|t: int|
                    0 <= t < parts@.len() && #[trigger] parts@[t]@ == qc@.subrange(i, j),
            forall|m: int| 0 <= m < k ==> word_matches(*entry, #[trigger] parts@[m]@),
        decreases parts@.len() - k,
    {
        let part = string_of(&parts[k]);
        let found = if starts_with_hash(part.as_str()) {
            let (hash_tags, _) = entry.get_tag_categories();
            some_tag_contains(&hash_tags, part.as_str())
        } else {
            entry.matches_query(part.as_str())
        };
        if !found {
            proof {
                assert(is_run_of(lowercase(query@), parts@[k as int]@, false));
                assert(!word_matches(*entry, parts@[k as int]@));
            }
            return false;
        }
        k = k + 1;
    }
    proof {
        assert forall|w: Seq<char>| #[trigger] is_run_of(lowercase(query@), w, false) implies word_matches(
            *entry,
            w,
        ) by {
            let (i, j) = choose|i: int, j: int| #[trigger] is_run(qc@, i, j, false) && qc@.subrange(i, j) == w;
            let t = choose|t: int| 0 <= t < parts@.len() && #[trigger] parts@[t]@ == qc@.subrange(i, j);
            assert(word_matches(*entry, parts@[t]@));
        }
    }
    true
}


/// The indices of the entries that a search shows, in order.
pub(crate) fn compute_filter(entries: &Vec<FileEntry>, query: &str) -> (r: Vec<usize>)
    ensures
        r@ == filter_result(entries@, query@),
{
    let mut r: Vec<usize> = Vec::new();
    let mut i: usize = 0;
    while i < entries.len()
        invariant
            i <= entries@.len(),
            r@ == matching_indices(entries@, query@, i as int),
        decreases entries@.len() - i,
    {
        if search_query_matches(&entries[i], query) {
            r.push(i);
        }
        i = i + 1;
    }
    r
}

/// The tags in use, sorted, without repeats.
pub(crate) fn tag_set_of(entries: &Vec<FileEntry>) -> (r: Vec<String>)
    ensures
        strictly_sorted(r@),
        text_set(r@) == tags_in_use(entries@),
{
    let mut r: Vec<String> = Vec::new();
    let mut i: usize = 0;
    proof {
        assert(text_set(r@) =~= tags_before(entries@, 0, 0));
    }
    while i < entries.len()
        invariant
            i <= entries@.len(),
            strictly_sorted(r@),
            text_set(r@) == tags_before(entries@, i as int, 0),
        decreases entries@.len() - i,
    {
        let tags = &entries[i].tags;
        let mut j: usize = 0;
        while j < tags.len()
            invariant
                i < entries@.len(),
                *tags == entries@[i as int].tags,
                j <= tags@.len(),
                strictly_sorted(r@),
                text_set(r@) == tags_before(entries@, i as int, j as int),
            decreases tags@.len() - j,
        {
            insert_sorted(&mut r, tags[j].clone());
            proof {
                assert(text_set(r@) =~= tags_before(entries@, i as int, j + 1)) by {
                    assert forall|t: Seq<char>|
                        #[trigger] tags_before(entries@, i as int, j + 1).contains(t) implies text_set(
                        r@,
                    ).contains(t) by {
                        let (a, b) = choose|a: int, b: int|
                            0 <= a < entries@.len() && 0 <= b < entries@[a].tags@.len() && (a < i
                                || (a == i && b < j + 1)) && #[trigger] entries@[a].tags@[b]@ == t;
                        if a < i || b < j {
                            assert(tags_before(entries@, i as int, j as int).contains(t));
                        }
                    }
                    assert forall|t: Seq<char>| #[trigger] text_set(r@).contains(t) implies tags_before(
                        entries@,
                        i as int,
                        j + 1,
                    ).contains(t) by {
                        if t == tags@[j as int]@ {
                            assert(entries@[i as int].tags@[j as int]@ == t);
                        } else {
                            assert(tags_before(entries@, i as int, j as int).contains(t));
                            let (a, b) = choose|a: int, b: int|
                                0 <= a < entries@.len() && 0 <= b < entries@[a].tags@.len() && (a
                                    < i || (a == i && b < j)) && #[trigger] entries@[a].tags@[b]@
                                    == t;
                            assert(entries@[a].tags@[b]@ == t);
                        }
                    }
                }
            }
            j = j + 1;
        }
        proof {
            assert(text_set(r@) =~= tags_before(entries@, i + 1, 0)) by {
                assert forall|t: Seq<char>| #[trigger] tags_before(entries@, i + 1, 0).contains(t) implies tags_before(
                    entries@,
                    i as int,
                    j as int,
                ).contains(t) by {
                    let (a, b) = choose|a: int, b: int|
                        0 <= a < entries@.len() && 0 <= b < entries@[a].tags@.len() && (a < i + 1
                            || (a == i + 1 && b < 0)) && #[trigger] entries@[a].tags@[b]@ == t;
                    assert(entries@[a].tags@[b]@ == t);
                }
                assert forall|t: Seq<char>| #[trigger] tags_before(entries@, i as int, j as int).contains(t) implies tags_before(
                    entries@,
                    i + 1,
                    0,
                ).contains(t) by {
                    let (a, b) = choose|a: int, b: int|
                        0 <= a < entries@.len() && 0 <= b < entries@[a].tags@.len() && (a < i
                            || (a == i && b < j)) && #[trigger] entries@[a].tags@[b]@ == t;
                    assert(entries@[a].tags@[b]@ == t);
                }
            }
        }
        i = i + 1;
    }
    proof {
        assert(text_set(r@) =~= tags_in_use(entries@)) by {
            assert forall|t: Seq<char>| #[trigger] tags_in_use(entries@).contains(t) implies tags_before(
                entries@,
                i as int,
                0,
            ).contains(t) by {
                let (a, b) = choose|a: int, b: int|
                    0 <= a < entries@.len() && 0 <= b < entries@[a].tags@.len()
                        && #[trigger] entries@[a].tags@[b]@ == t;
                assert(entries@[a].tags@[b]@ == t);
            }
            assert forall|t: Seq<char>| #[trigger] tags_before(entries@, i as int, 0).contains(t) implies tags_in_use(
                entries@,
            ).contains(t) by {
                let (a, b) = choose|a: int, b: int|
                    0 <= a < entries@.len() && 0 <= b < entries@[a].tags@.len() && (a < i || (a
                        == i && b < 0)) && #[trigger] entries@[a].tags@[b]@ == t;
                assert(entries@[a].tags@[b]@ == t);
            }
        }
    }
    r
}

/// The list a search shows holds indices of entries, increasing.
pub proof fn lemma_matching_indices(entries: Seq<FileEntry>, query: Seq<char>, n: int)
    requires
        0 <= n <= entries.len() <= usize::MAX,
    ensures
        forall|k: int|
            0 <= k < matching_indices(entries, query, n).len() ==> #[trigger] matching_indices(
                entries,
                query,
                n,
            )[k] < n,
        forall|a: int, b: int|
            0 <= a < b < matching_indices(entries, query, n).len() ==> #[trigger] matching_indices(
                entries,
                query,
                n,
            )[a] < #[trigger] matching_indices(entries, query, n)[b],
    decreases n,
{
    if n > 0 {
        lemma_matching_indices(entries, query, n - 1);
        let rest = matching_indices(entries, query, n - 1);
        let all = matching_indices(entries, query, n);
        if search_matches(entries[n - 1], query) {
            assert(all == rest.push((n - 1) as usize));
            assert forall|k: int| 0 <= k < all.len() implies #[trigger] all[k] < n by {
                if k < rest.len() {
                    assert(all[k] == rest[k]);
                }
            }
            assert forall|a: int, b: int| 0 <= a < b < all.len() implies #[trigger] all[a] < #[trigger] all[b] by {
                assert(all[a] == rest[a]);
                if b < rest.len() {
                    assert(all[b] == rest[b]);
                }
            }
        }
    }
}

/// An empty search shows every entry, in order.
pub proof fn law_empty_search_shows_all(entries: Seq<FileEntry>)
    requires
        entries.len() <= usize::MAX,
    ensures
        filter_result(entries, Seq::<char>::empty()) == Seq::new(entries.len(), |i: int| i as usize),
{
    lemma_empty_search_prefix(entries, entries.len() as int);
    assert(filter_result(entries, Seq::<char>::empty()) =~= Seq::new(
        entries.len(),
        |i: int| i as usize,
    ));
}

proof fn lemma_empty_search_prefix(entries: Seq<FileEntry>, n: int)
    requires
        0 <= n <= entries.len() <= usize::MAX,
    ensures
        matching_indices(entries, Seq::<char>::empty(), n) =~= Seq::new(n as nat, |i: int| i as usize),
    decreases n,
{
    if n > 0 {
        lemma_empty_search_prefix(entries, n - 1);
        assert(search_matches(entries[n - 1], Seq::<char>::empty()));
    }
}

/// The list a search shows holds exactly the entries the search matches,
/// each once, in order.
pub proof fn law_search_shows_exactly_matches(entries: Seq<FileEntry>, query: Seq<char>)
    requires
        entries.len() <= usize::MAX,
    ensures
        forall|k: int|
            0 <= k < filter_result(entries, query).len() ==> #[trigger] filter_result(entries, query)[k]
                < entries.len() && search_matches(
                entries[filter_result(entries, query)[k] as int],
                query,
            ),
        forall|a: int, b: int|
            0 <= a < b < filter_result(entries, query).len() ==> #[trigger] filter_result(
                entries,
                query,
            )[a] < #[trigger] filter_result(entries, query)[b],
        forall|i: int|
            0 <= i < entries.len() && search_matches(#[trigger] entries[i], query) ==> filter_result(
                entries,
                query,
            ).contains(i as usize),
{
    lemma_matching_indices(entries, query, entries.len() as int);
    lemma_matching_complete(entries, query, entries.len() as int);
}

proof fn lemma_matching_complete(entries: Seq<FileEntry>, query: Seq<char>, n: int)
    requires
        0 <= n <= entries.len() <= usize::MAX,
    ensures
        forall|k: int|
            0 <= k < matching_indices(entries, query, n).len() ==> search_matches(
                entries[#[trigger] matching_indices(entries, query, n)[k] as int],
                query,
            ),
        forall|i: int|
            0 <= i < n && search_matches(#[trigger] entries[i], query) ==> matching_indices(
                entries,
                query,
                n,
            ).contains(i as usize),
    decreases n,
{
    if n > 0 {
        lemma_matching_complete(entries, query, n - 1);
        let rest = matching_indices(entries, query, n - 1);
        let all = matching_indices(entries, query, n);
        if search_matches(entries[n - 1], query) {
            assert forall|k: int| 0 <= k < all.len() implies search_matches(
                entries[#[trigger] all[k] as int],
                query,
            ) by {
                if k < rest.len() {
                    assert(all[k] == rest[k]);
                }
            }
            assert forall|i: int| 0 <= i < n && search_matches(#[trigger] entries[i], query) implies all.contains(
                i as usize,
            ) by {
                if i < n - 1 {
                    let k = choose|k: int| 0 <= k < rest.len() && rest[k] == i as usize;
                    assert(all[k] == i as usize);
                } else {
                    assert(all[rest.len() as int] == i as usize);
                }
            }
        }
    }
}

/// A search word that starts with '#' matches an entry exactly when one of
/// the entry's tags that start with '#' contains it once lowercased: the
/// case of a tag's letters never decides.
pub proof fn law_hash_word_searches_lowercased_tags(e: FileEntry, w: Seq<char>)
    requires
        w.len() > 0,
        w[0] == '#',
    ensures
        word_matches(e, w) <==> exists|j: int|
            0 <= j < e.tags@.len() && e.tags@[j]@.len() > 0 && e.tags@[j]@[0] == '#' && contains_seq(
                lowercase(#[trigger] e.tags@[j]@),
                w,
            ),
{
    broadcast use vstd::seq_lib::group_filter_ensures;
    let pred = |t: String| t@.len() > 0 && t@[0] == '#';
    let hs = hash_tags_of(e.tags@);
    assert(hs == e.tags@.filter(pred));
    if word_matches(e, w) {
        let k = choose|k: int| 0 <= k < hs.len() && contains_seq(lowercase(#[trigger] hs[k]@), w);
        assert(hs.contains(hs[k]));
        e.tags@.lemma_filter_contains_rev(pred, hs[k]);
        let j = choose|j: int| 0 <= j < e.tags@.len() && e.tags@[j] == hs[k];
        assert(pred(hs[k]));
        assert(contains_seq(lowercase(e.tags@[j]@), w));
    }
    if exists|j: int|
        0 <= j < e.tags@.len() && e.tags@[j]@.len() > 0 && e.tags@[j]@[0] == '#' && contains_seq(
            lowercase(#[trigger] e.tags@[j]@),
            w,
        ) {
        let j = choose|j: int|
            0 <= j < e.tags@.len() && e.tags@[j]@.len() > 0 && e.tags@[j]@[0] == '#' && contains_seq(
                lowercase(#[trigger] e.tags@[j]@),
                w,
            );
        assert(pred(e.tags@[j]));
        assert(hs.contains(e.tags@[j]));
        let k = choose|k: int| 0 <= k < hs.len() && hs[k] == e.tags@[j];
        assert(contains_seq(lowercase(hs[k]@), w));
    }
}

} // verus!
