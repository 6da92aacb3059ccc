//! The entries of the manager: files, folders, web links and collections,
//! with their tags, their search by text and by pinyin, and the migration of
//! data written by older versions.
use vstd::prelude::*;
use pinyin::ToPinyin;
use crate::tags::{insert_sorted, strictly_sorted, text_set};
use crate::text::{
    chars_of, contains_seq, is_run_of, lowercase, parse_usize, parsed_usize, push_char, split_runs,
    string_of, text_contains, to_lowercase, to_uppercase, uppercase,
};

verus! {

/// The kind of an entry.
#[derive(Clone, Copy, Debug, PartialEq, Eq, Structural)]
pub enum EntryType {
    File,
    Directory,
    WebLink,
    Collection,
}

impl Default for EntryType {
    fn default() -> (r: Self)
        ensures
            r == EntryType::File,
    {
        EntryType::File
    }
}

/// An entry: a path (or URL, or virtual path of a collection) with its name,
/// optional nickname and description, tags, kind, and for a collection the
/// ids of its children. Paths are kept as their text.
#[derive(Clone)]
pub struct FileEntry {
    pub path: String,
    pub name: String,
    pub nickname: Option<String>,
    pub description: Option<String>,
    pub tags: Vec<String>,
    pub entry_type: EntryType,
    pub url: Option<String>,
    pub child_entries: Vec<String>,
    pub is_directory: bool,
    pub id: String,
    pub legacy_child_entries: Vec<usize>,
}

/// A fresh id: `Uuid::new_v4` in its hyphenated lowercase form. Which id
/// comes out is chance; its shape is what uuid's `Display` writes: 36
/// characters, with '-' at positions 8, 13, 18 and 23.
#[verifier::external_body]
fn generate_id() -> (r: String)
    ensures
        r@.len() == 36,
        r@[8] == '-' && r@[13] == '-' && r@[18] == '-' && r@[23] == '-',
{
    uuid::Uuid::new_v4().to_string()
}

/// A fresh id for an entry, in the hyphenated form of a random UUID.
pub fn new_entry_id() -> (r: String)
    ensures
        r@.len() == 36,
        r@[8] == '-' && r@[13] == '-' && r@[18] == '-' && r@[23] == '-',
{
    generate_id()
}

/// A copy of an optional string.
pub fn copy_opt(o: &Option<String>) -> (r: Option<String>)
    ensures
        r == *o,
{
    match o {
        Some(s) => Some(s.clone()),
        None => None,
    }
}

/// A copy of a list of strings.
pub fn copy_strings(v: &Vec<String>) -> (r: Vec<String>)
    ensures
        r@ == v@,
{
    let mut r: Vec<String> = Vec::new();
    let mut i: usize = 0;
    while i < v.len()
        invariant
            i <= v@.len(),
            r@ == v@.take(i as int),
        decreases v@.len() - i,
    {
        r.push(v[i].clone());
        i = i + 1;
        proof { assert(r@ =~= v@.take(i as int)); }
    }
    proof { assert(v@.take(v@.len() as int) =~= v@); }
    r
}

/// A copy of a list of indices.
pub fn copy_indices(v: &Vec<usize>) -> (r: Vec<usize>)
    ensures
        r@ == v@,
{
    let mut r: Vec<usize> = Vec::new();
    let mut i: usize = 0;
    while i < v.len()
        invariant
            i <= v@.len(),
            r@ == v@.take(i as int),
        decreases v@.len() - i,
    {
        r.push(v[i]);
        i = i + 1;
        proof { assert(r@ =~= v@.take(i as int)); }
    }
    proof { assert(v@.take(v@.len() as int) =~= v@); }
    r
}

/// The pinyin of a character, in plain letters without tone, as the pinyin
/// crate's `plain` gives it; `None` for a character without pinyin.
pub uninterp spec fn pinyin_plain(c: char) -> Option<Seq<char>>;

/// `char::to_pinyin` then `Pinyin::plain`: the result is named by
/// `pinyin_plain`.
#[verifier::external_body]
fn plain_pinyin_of(c: char) -> (r: Option<String>)
    ensures
        match r {
            Some(p) => pinyin_plain(c) == Some(p@),
            None => pinyin_plain(c) is None,
        },
{
    match c.to_pinyin() {
        Some(p) => Some(p.plain().to_string()),
        None => None,
    }
}

/// `char::to_pinyin` then `Pinyin::first_letter`, which the crate's source
/// writes as the first character of the plain pinyin.
#[verifier::external_body]
fn first_letter_of(c: char) -> (r: Option<String>)
    ensures
        match r {
            Some(f) => pinyin_plain(c) is Some && pinyin_plain(c)->0.len() > 0 && f@
                == pinyin_plain(c)->0.take(1),
            None => pinyin_plain(c) is None,
        },
{
    match c.to_pinyin() {
        Some(p) => Some(p.first_letter().to_string()),
        None => None,
    }
}

/// The uppercased first letters of the pinyin of each character, in order;
/// a character without pinyin (a Latin letter, a digit) stands for itself.
pub open spec fn initials_of(text: Seq<char>) -> Seq<char>
    decreases text.len(),
{
    if text.len() == 0 {
        Seq::empty()
    } else {
        initials_of(text.drop_last()) + match pinyin_plain(text.last()) {
            Some(p) => uppercase(p.take(1)),
            None => seq![text.last()],
        }
    }
}

/// The plain pinyin of each character, in order; a character without pinyin
/// stands for itself.
pub open spec fn full_pinyin_of(text: Seq<char>) -> Seq<char>
    decreases text.len(),
{
    if text.len() == 0 {
        Seq::empty()
    } else {
        full_pinyin_of(text.drop_last()) + match pinyin_plain(text.last()) {
            Some(p) => p,
            None => seq![text.last()],
        }
    }
}

/// The query, lowercased, occurs in the lowercased pinyin initials or the
/// lowercased full pinyin of the text; never for an empty text or query.
pub open spec fn pinyin_matches(text: Seq<char>, query: Seq<char>) -> bool {
    &&& query.len() > 0
    &&& text.len() > 0
    &&& {
        ||| contains_seq(lowercase(initials_of(text)), lowercase(query))
        ||| contains_seq(lowercase(full_pinyin_of(text)), lowercase(query))
    }
}

/// The query matches a text: by lowercased substring, or by pinyin.
pub open spec fn text_matches(text: Seq<char>, query: Seq<char>) -> bool {
    contains_seq(lowercase(text), lowercase(query)) || pinyin_matches(text, query)
}

/// What `matches_query` answers: an empty query matches every entry; else the
/// name, the nickname, a tag (by lowercased substring only), the
/// description or the URL of a web link must match.
pub open spec fn entry_matches(e: FileEntry, query: Seq<char>) -> bool {
    ||| query.len() == 0
    ||| text_matches(e.name@, query)
    ||| (e.nickname matches Some(n) && text_matches(n@, query))
    ||| exists|i: int|
        0 <= i < e.tags@.len() && contains_seq(lowercase(#[trigger] e.tags@[i]@), lowercase(query))
    ||| (e.description matches Some(d) && text_matches(d@, query))
    ||| (e.url matches Some(u) && text_matches(u@, query))
}

/// No character of the text has pinyin.
pub open spec fn without_pinyin(text: Seq<char>) -> bool {
    forall|i: int| 0 <= i < text.len() ==> #[trigger] pinyin_plain(text[i]) is None
}

/// The pinyin forms of a text without pinyin are the text itself.
proof fn lemma_pinyin_of_plain_text(text: Seq<char>)
    requires
        without_pinyin(text),
    ensures
        initials_of(text) == text,
        full_pinyin_of(text) == text,
    decreases text.len(),
{
    if text.len() > 0 {
        let p = text.drop_last();
        assert forall|i: int| 0 <= i < p.len() implies #[trigger] pinyin_plain(p[i]) is None by {
            assert(p[i] == text[i]);
        }
        lemma_pinyin_of_plain_text(p);
        assert(pinyin_plain(text[text.len() - 1]) is None);
        assert(p + seq![text.last()] =~= text);
    }
}

/// A text none of whose characters has pinyin matches a query exactly when
/// its lowercased form contains the lowercased query.
pub proof fn law_plain_text_matches_by_substring(text: Seq<char>, query: Seq<char>)
    requires
        without_pinyin(text),
    ensures
        text_matches(text, query) == contains_seq(lowercase(text), lowercase(query)),
{
    lemma_pinyin_of_plain_text(text);
}

/// For an entry without a URL whose name, nickname and description have no
/// pinyin, the search is plain: an empty query matches, else the lowercased
/// query must occur in the lowercased name, nickname, a tag or the
/// description. The path is never searched.
pub proof fn law_plain_entry_search(e: FileEntry, query: Seq<char>)
    requires
        e.url is None,
        without_pinyin(e.name@),
        e.nickname matches Some(n) ==> without_pinyin(n@),
        e.description matches Some(d) ==> without_pinyin(d@),
    ensures
        entry_matches(e, query) == {
            ||| query.len() == 0
            ||| contains_seq(lowercase(e.name@), lowercase(query))
            ||| (e.nickname matches Some(n) && contains_seq(lowercase(n@), lowercase(query)))
            ||| exists|i: int|
                0 <= i < e.tags@.len() && contains_seq(lowercase(#[trigger] e.tags@[i]@), lowercase(query))
            ||| (e.description matches Some(d) && contains_seq(lowercase(d@), lowercase(query)))
        },
{
    law_plain_text_matches_by_substring(e.name@, query);
    if let Some(n) = e.nickname {
        law_plain_text_matches_by_substring(n@, query);
    }
    if let Some(d) = e.description {
        law_plain_text_matches_by_substring(d@, query);
    }
}

/// Every searched text is searched by its pinyin too: a query found in the
/// lowercased pinyin initials or full pinyin of the name, the nickname, the
/// description or the URL finds the entry, as it does in the text itself.
pub proof fn law_every_text_field_searched_by_pinyin(e: FileEntry, query: Seq<char>)
    ensures
        ({
            let found_in = |t: Seq<char>| t.len() > 0 && query.len() > 0 && (contains_seq(
                lowercase(initials_of(t)),
                lowercase(query),
            ) || contains_seq(lowercase(full_pinyin_of(t)), lowercase(query))
                || contains_seq(lowercase(t), lowercase(query)));
            &&& found_in(e.name@) ==> entry_matches(e, query)
            &&& (e.nickname matches Some(n) && found_in(n@)) ==> entry_matches(e, query)
            &&& (e.description matches Some(d) && found_in(d@)) ==> entry_matches(e, query)
            &&& (e.url matches Some(u) && found_in(u@)) ==> entry_matches(e, query)
        }),
{
}

/// The tag a piece of tag input stands for: a piece that starts with '#' is
/// the tag itself (a lone '#' is none), any other gets '#' in front.
pub open spec fn normalized_tag(p: Seq<char>) -> Option<Seq<char>> {
    if p.len() > 0 && p[0] == '#' {
        if p.len() > 1 {
            Some(p)
        } else {
            None
        }
    } else {
        Some(seq!['#'] + p)
    }
}

/// The tags that `parse_tags` finds in an input: those of its pieces, the
/// input being split at white space and at ','.
pub open spec fn parsed_tag_set(input: Seq<char>) -> Set<Seq<char>> {
    Set::new(|t: Seq<char>| exists|w: Seq<char>| #[trigger] is_run_of(input, w, true) && normalized_tag(w) == Some(t))
}

/// The tags a list of pieces stands for, from its first `k` pieces.
spec fn tags_of_pieces(pieces: Seq<Vec<char>>, k: int) -> Set<Seq<char>> {
    Set::new(|t: Seq<char>| exists|m: int| 0 <= m < k && normalized_tag(#[trigger] pieces[m]@) == Some(t))
}

/// The indices that the children's ids give when read as decimal numbers;
/// ids that are not numbers give nothing.
pub open spec fn parsed_indices(children: Seq<String>) -> Seq<usize>
    decreases children.len(),
{
    if children.len() == 0 {
        Seq::empty()
    } else {
        let rest = parsed_indices(children.drop_last());
        match parsed_usize(children.last()@) {
            Some(n) => rest.push(n),
            None => rest,
        }
    }
}

/// The tags that begin with '#', in order.
pub open spec fn hash_tags_of(tags: Seq<String>) -> Seq<String> {
    tags.filter(|t: String| t@.len() > 0 && t@[0] == '#')
}

/// The children without those whose id is `id`.
pub open spec fn children_without(children: Seq<String>, id: Seq<char>) -> Seq<String> {
    children.filter(|x: String| x@ != id)
}

/// Whether `s` begins with '#'.
pub fn starts_with_hash(s: &str) -> (r: bool)
    ensures
        r == (s@.len() > 0 && s@[0] == '#'),
{
    s.unicode_len() > 0 && s.get_char(0) == '#'
}

/// `a` and `b` agree on every field but the list of children.
pub open spec fn same_but_children(a: FileEntry, b: FileEntry) -> bool {
    &&& a.path == b.path
    &&& a.name == b.name
    &&& a.nickname == b.nickname
    &&& a.description == b.description
    &&& a.tags == b.tags
    &&& a.entry_type == b.entry_type
    &&& a.url == b.url
    &&& a.is_directory == b.is_directory
    &&& a.id == b.id
    &&& a.legacy_child_entries == b.legacy_child_entries
}

impl FileEntry {
    /// A file or folder entry with a fresh id and no nickname.
    pub fn new(
        path: String,
        name: String,
        description: Option<String>,
        tags: Vec<String>,
        is_directory: bool,
    ) -> (e: Self)
        ensures
            e.path == path,
            e.name == name,
            e.nickname is None,
            e.description == description,
            e.tags == tags,
            e.entry_type == (if is_directory {
                EntryType::Directory
            } else {
                EntryType::File
            }),
            e.url is None,
            e.child_entries@.len() == 0,
            e.is_directory == is_directory,
            e.id@.len() == 36,
            e.legacy_child_entries@.len() == 0,
    {
        let entry_type = if is_directory {
            EntryType::Directory
        } else {
            EntryType::File
        };
        FileEntry {
            path,
            name,
            nickname: None,
            description,
            tags,
            entry_type,
            url: None,
            child_entries: Vec::new(),
            is_directory,
            id: generate_id(),
            legacy_child_entries: Vec::new(),
        }
    }

    /// A file or folder entry with a fresh id and the given nickname.
    pub fn new_with_nickname(
        path: String,
        name: String,
        nickname: Option<String>,
        description: Option<String>,
        tags: Vec<String>,
        is_directory: bool,
    ) -> (e: Self)
        ensures
            e.path == path,
            e.name == name,
            e.nickname == nickname,
            e.description == description,
            e.tags == tags,
            e.entry_type == (if is_directory {
                EntryType::Directory
            } else {
                EntryType::File
            }),
            e.url is None,
            e.child_entries@.len() == 0,
            e.is_directory == is_directory,
            e.id@.len() == 36,
            e.legacy_child_entries@.len() == 0,
    {
        let entry_type = if is_directory {
            EntryType::Directory
        } else {
            EntryType::File
        };
        FileEntry {
            path,
            name,
            nickname,
            description,
            tags,
            entry_type,
            url: None,
            child_entries: Vec::new(),
            is_directory,
            id: generate_id(),
            legacy_child_entries: Vec::new(),
        }
    }

    /// A web link entry: the URL is also its path, for display.
    pub fn new_web_link(
        name: String,
        url: String,
        nickname: Option<String>,
        description: Option<String>,
        tags: Vec<String>,
    ) -> (e: Self)
        ensures
            e.path@ == url@,
            e.name == name,
            e.nickname == nickname,
            e.description == description,
            e.tags == tags,
            e.entry_type == EntryType::WebLink,
            e.url == Some(url),
            e.child_entries@.len() == 0,
            !e.is_directory,
            e.id@.len() == 36,
            e.legacy_child_entries@.len() == 0,
    {
        FileEntry {
            path: url.clone(),
            name,
            nickname,
            description,
            tags,
            entry_type: EntryType::WebLink,
            url: Some(url),
            child_entries: Vec::new(),
            is_directory: false,
            id: generate_id(),
            legacy_child_entries: Vec::new(),
        }
    }

    /// A collection entry holding the given children's ids; its path is the
    /// virtual `collection://` followed by its name.
    pub fn new_collection(
        name: String,
        nickname: Option<String>,
        description: Option<String>,
        tags: Vec<String>,
        child_entry_ids: Vec<String>,
    ) -> (e: Self)
        ensures
            e.path@ == "collection://"@ + name@,
            e.name == name,
            e.nickname == nickname,
            e.description == description,
            e.tags == tags,
            e.entry_type == EntryType::Collection,
            e.url is None,
            e.child_entries == child_entry_ids,
            !e.is_directory,
            e.id@.len() == 36,
            e.legacy_child_entries@.len() == 0,
    {
        let mut path = String::from_str("collection://");
        path.append(name.as_str());
        FileEntry {
            path,
            name,
            nickname,
            description,
            tags,
            entry_type: EntryType::Collection,
            url: None,
            child_entries: child_entry_ids,
            is_directory: false,
            id: generate_id(),
            legacy_child_entries: Vec::new(),
        }
    }

    /// A copy of the entry, field by field.
    pub fn duplicate(&self) -> (r: Self)
        ensures
            r.path@ == self.path@,
            r.name@ == self.name@,
            r.nickname == self.nickname,
            r.description == self.description,
            r.tags@ == self.tags@,
            r.entry_type == self.entry_type,
            r.url == self.url,
            r.child_entries@ == self.child_entries@,
            r.is_directory == self.is_directory,
            r.id@ == self.id@,
            r.legacy_child_entries@ == self.legacy_child_entries@,
    {
        FileEntry {
            path: self.path.clone(),
            name: self.name.clone(),
            nickname: copy_opt(&self.nickname),
            description: copy_opt(&self.description),
            tags: copy_strings(&self.tags),
            entry_type: self.entry_type,
            url: copy_opt(&self.url),
            child_entries: copy_strings(&self.child_entries),
            is_directory: self.is_directory,
            id: self.id.clone(),
            legacy_child_entries: copy_indices(&self.legacy_child_entries),
        }
    }
}

/// One more element of a filtered sequence.
pub proof fn lemma_filter_take<A>(s: Seq<A>, i: int, pred: spec_fn(A) -> bool)
    requires
        0 <= i < s.len(),
    ensures
        s.take(i + 1).filter(pred) == if pred(s[i]) {
            s.take(i).filter(pred).push(s[i])
        } else {
            s.take(i).filter(pred)
        },
{
    reveal_with_fuel(Seq::filter, 1);
    assert(s.take(i + 1).drop_last() =~= s.take(i));
}

/// `r` is `e` brought up to date (see `FileEntry::migrate_from_old`).
pub open spec fn migrated(e: FileEntry, r: FileEntry) -> bool {
    &&& r.entry_type == (if e.entry_type == EntryType::File && e.is_directory {
        EntryType::Directory
    } else {
        e.entry_type
    })
    &&& e.id@.len() == 0 ==> r.id@.len() == 36
    &&& e.id@.len() != 0 ==> r.id == e.id
    &&& ({
        let idx = parsed_indices(e.child_entries@);
        if e.child_entries@.len() > 0 && e.legacy_child_entries@.len() == 0 && idx.len() > 0 {
            r.legacy_child_entries@ == idx && r.child_entries@.len() == 0
        } else {
            r.legacy_child_entries == e.legacy_child_entries && r.child_entries
                == e.child_entries
        }
    })
    &&& r.path == e.path
    &&& r.name == e.name
    &&& r.nickname == e.nickname
    &&& r.description == e.description
    &&& r.tags == e.tags
    &&& r.url == e.url
    &&& r.is_directory == e.is_directory
}

/// Migrating an entry a second time changes nothing more: data brought up
/// to date stays as it is.
pub proof fn law_migration_is_idempotent(e: FileEntry, r: FileEntry, r2: FileEntry)
    requires
        migrated(e, r),
        migrated(r, r2),
    ensures
        r2.entry_type == r.entry_type,
        r2.id == r.id,
        r2.child_entries == r.child_entries,
        r2.legacy_child_entries == r.legacy_child_entries,
        r2.path == r.path && r2.name == r.name && r2.tags == r.tags,
{
}

impl FileEntry {
    /// Brings an entry written by an older version up to date: a `File` that
    /// is a directory becomes a `Directory`; an empty id is replaced by a
    /// fresh one; children given as decimal indices, when no old indices are
    /// kept yet, are moved to the old indices (the ids that are numbers, in
    /// order) and the children are emptied, to be resolved later.
    pub fn migrate_from_old(self) -> (r: Self)
        ensures
            migrated(self, r),
    {
        let mut e = self;
        if e.entry_type == EntryType::File && e.is_directory {
            e.entry_type = EntryType::Directory;
        }
        if e.id.as_str().is_empty() {
            e.id = generate_id();
        }
        if !e.child_entries.is_empty() && e.legacy_child_entries.is_empty() {
            let mut legacy_indices: Vec<usize> = Vec::new();
            let mut i: usize = 0;
            while i < e.child_entries.len()
                invariant
                    i <= e.child_entries@.len(),
                    legacy_indices@ == parsed_indices(e.child_entries@.take(i as int)),
                decreases e.child_entries@.len() - i,
            {
                proof {
                    assert(e.child_entries@.take(i + 1).drop_last() =~= e.child_entries@.take(i as int));
                }
                if let Some(index) = parse_usize(e.child_entries[i].as_str()) {
                    legacy_indices.push(index);
                }
                i = i + 1;
            }
            proof { assert(e.child_entries@.take(e.child_entries@.len() as int) =~= e.child_entries@); }
            if !legacy_indices.is_empty() {
                e.legacy_child_entries = legacy_indices;
                e.child_entries.clear();
            }
        }
        e
    }

    /// Adds a child id to a collection, once; other entries are left as
    /// they are.
    pub fn add_child_entry(&mut self, entry_id: &str)
        ensures
            same_but_children(*old(self), *final(self)),
            if old(self).entry_type == EntryType::Collection && !text_set(
                old(self).child_entries@,
            ).contains(entry_id@) {
                &&& final(self).child_entries@.len() == old(self).child_entries@.len() + 1
                &&& final(self).child_entries@.drop_last() == old(self).child_entries@
                &&& final(self).child_entries@.last()@ == entry_id@
            } else {
                final(self).child_entries == old(self).child_entries
            },
    {
        if self.entry_type == EntryType::Collection {
            let id = String::from_str(entry_id);
            if !crate::tags::contains_text(&self.child_entries, &id) {
                let ghost before = self.child_entries@;
                self.child_entries.push(id);
                proof { assert(self.child_entries@.drop_last() =~= before); }
            }
        }
    }

    /// Removes every child with the given id from a collection; other
    /// entries are left as they are.
    pub fn remove_child_entry(&mut self, entry_id: &str)
        ensures
            same_but_children(*old(self), *final(self)),
            if old(self).entry_type == EntryType::Collection {
                final(self).child_entries@ == children_without(old(self).child_entries@, entry_id@)
            } else {
                final(self).child_entries == old(self).child_entries
            },
    {
        if self.entry_type == EntryType::Collection {
            let ghost pred = |x: String| x@ != entry_id@;
            let id = String::from_str(entry_id);
            let mut kept: Vec<String> = Vec::new();
            let mut i: usize = 0;
            while i < self.child_entries.len()
                invariant
                    id@ == entry_id@,
                    i <= self.child_entries@.len(),
                    pred == (|x: String| x@ != entry_id@),
                    kept@ == self.child_entries@.take(i as int).filter(pred),
                decreases self.child_entries@.len() - i,
            {
                proof { lemma_filter_take(self.child_entries@, i as int, pred); }
                if self.child_entries[i] != id {
                    kept.push(self.child_entries[i].clone());
                }
                i = i + 1;
            }
            proof { assert(self.child_entries@.take(self.child_entries@.len() as int) =~= self.child_entries@); }
            self.child_entries = kept;
        }
    }

    /// The ids of the children.
    pub fn get_child_entries(&self) -> (r: &Vec<String>)
        ensures
            *r == self.child_entries,
    {
        &self.child_entries
    }

    /// Whether old indices wait to be turned into ids.
    pub fn has_legacy_child_entries(&self) -> (r: bool)
        ensures
            r == (self.legacy_child_entries@.len() > 0),
    {
        !self.legacy_child_entries.is_empty()
    }

    /// The old indices that wait to be turned into ids.
    pub fn get_legacy_child_entries(&self) -> (r: &Vec<usize>)
        ensures
            *r == self.legacy_child_entries,
    {
        &self.legacy_child_entries
    }

    /// Forgets the old indices.
    pub fn clear_legacy_child_entries(&mut self)
        ensures
            final(self).legacy_child_entries@.len() == 0,
            final(self).path == old(self).path,
            final(self).name == old(self).name,
            final(self).nickname == old(self).nickname,
            final(self).description == old(self).description,
            final(self).tags == old(self).tags,
            final(self).entry_type == old(self).entry_type,
            final(self).url == old(self).url,
            final(self).child_entries == old(self).child_entries,
            final(self).is_directory == old(self).is_directory,
            final(self).id == old(self).id,
    {
        self.legacy_child_entries.clear();
    }

    /// The uppercased first pinyin letters of the text's characters; other
    /// characters as they are.
    fn to_pinyin_initials(text: &str) -> (r: String)
        ensures
            r@ == initials_of(text@),
    {
        let cs = chars_of(text);
        let mut r = String::new();
        let mut i: usize = 0;
        while i < cs.len()
            invariant
                i <= cs@.len(),
                r@ == initials_of(cs@.take(i as int)),
            decreases cs@.len() - i,
        {
            proof {
                assert(cs@.take(i + 1).drop_last() =~= cs@.take(i as int));
            }
            match first_letter_of(cs[i]) {
                Some(letter) => {
                    let up = to_uppercase(letter.as_str());
                    r.append(up.as_str());
                },
                None => {
                    push_char(&mut r, cs[i]);
                    proof { assert(r@ =~= initials_of(cs@.take(i as int)) + seq![cs@[i as int]]); }
                },
            }
            i = i + 1;
        }
        proof { assert(cs@.take(cs@.len() as int) =~= cs@); }
        r
    }

    /// The plain pinyin of the text's characters, run together; other
    /// characters as they are.
    fn to_full_pinyin(text: &str) -> (r: String)
        ensures
            r@ == full_pinyin_of(text@),
    {
        let cs = chars_of(text);
        let mut r = String::new();
        let mut i: usize = 0;
        while i < cs.len()
            invariant
                i <= cs@.len(),
                r@ == full_pinyin_of(cs@.take(i as int)),
            decreases cs@.len() - i,
        {
            proof {
                assert(cs@.take(i + 1).drop_last() =~= cs@.take(i as int));
            }
            match plain_pinyin_of(cs[i]) {
                Some(p) => {
                    r.append(p.as_str());
                },
                None => {
                    push_char(&mut r, cs[i]);
                    proof { assert(r@ =~= full_pinyin_of(cs@.take(i as int)) + seq![cs@[i as int]]); }
                },
            }
            i = i + 1;
        }
        proof { assert(cs@.take(cs@.len() as int) =~= cs@); }
        r
    }

    /// Whether the query matches the text's pinyin initials or full pinyin.
    fn matches_pinyin(&self, text: &str, query: &str) -> (r: bool)
        ensures
            r == pinyin_matches(text@, query@),
    {
        if query.is_empty() || text.is_empty() {
            return false;
        }
        let query_lower = to_lowercase(query);
        let initials = Self::to_pinyin_initials(text);
        let initials_lower = to_lowercase(initials.as_str());
        if text_contains(initials_lower.as_str(), query_lower.as_str()) {
            return true;
        }
        let full = Self::to_full_pinyin(text);
        let full_lower = to_lowercase(full.as_str());
        if text_contains(full_lower.as_str(), query_lower.as_str()) {
            return true;
        }
        false
    }

    /// Whether a text matches the query by lowercased substring or pinyin.
    fn text_matches_query(&self, text: &str, query: &str, query_lower: &str) -> (r: bool)
        requires
            query_lower@ == lowercase(query@),
        ensures
            r == text_matches(text@, query@),
    {
        let text_lower = to_lowercase(text);
        text_contains(text_lower.as_str(), query_lower) || self.matches_pinyin(text, query)
    }

    /// Whether the entry matches a search word: see `entry_matches`.
    pub fn matches_query(&self, query: &str) -> (r: bool)
        ensures
            r == entry_matches(*self, query@),
    {
        if query.is_empty() {
            return true;
        }
        let query_lower = to_lowercase(query);
        if self.text_matches_query(self.name.as_str(), query, query_lower.as_str()) {
            return true;
        }
        if let Some(nickname) = &self.nickname {
            if self.text_matches_query(nickname.as_str(), query, query_lower.as_str()) {
                return true;
            }
        }
        let mut i: usize = 0;
        while i < self.tags.len()
            invariant
                i <= self.tags@.len(),
                query_lower@ == lowercase(query@),
                forall|j: int|
                    0 <= j < i ==> !contains_seq(lowercase(#[trigger] self.tags@[j]@), lowercase(query@)),
            decreases self.tags@.len() - i,
        {
            let tag_lower = to_lowercase(self.tags[i].as_str());
            if text_contains(tag_lower.as_str(), query_lower.as_str()) {
                return true;
            }
            i = i + 1;
        }
        if let Some(description) = &self.description {
            if self.text_matches_query(description.as_str(), query, query_lower.as_str()) {
                return true;
            }
        }
        if let Some(url) = &self.url {
            if self.text_matches_query(url.as_str(), query, query_lower.as_str()) {
                return true;
            }
        }
        false
    }

    /// Reads tags from text: the text is cut at white space and ',', every
    /// piece stands for a tag (see `normalized_tag`), and the tags come out
    /// sorted without repeats.
    pub fn parse_tags(tag_input: &str) -> (r: Vec<String>)
        ensures
            strictly_sorted(r@),
            text_set(r@) == parsed_tag_set(tag_input@),
    {
        let cs = chars_of(tag_input);
        let pieces = split_runs(&cs, true);
        let mut tags: Vec<String> = Vec::new();
        let mut k: usize = 0;
        proof {
            assert(text_set(tags@) =~= tags_of_pieces(pieces@, 0));
        }
        while k < pieces.len()
            invariant
                k <= pieces@.len(),
                strictly_sorted(tags@),
                text_set(tags@) == tags_of_pieces(pieces@, k as int),
            decreases pieces@.len() - k,
        {
            let piece = &pieces[k];
            let ghost before = text_set(tags@);
            let ghost n = normalized_tag(pieces@[k as int]@);
            if piece.len() > 0 && piece[0] == '#' {
                if piece.len() > 1 {
                    let t = string_of(piece);
                    assert(n == Some(t@));
                    insert_sorted(&mut tags, t);
                } else {
                    assert(n is None);
                }
            } else {
                let mut tag = String::from_str("#");
                proof { reveal_strlit("#"); }
                let rest = string_of(piece);
                tag.append(rest.as_str());
                assert(tag@ =~= seq!['#'] + piece@);
                assert(n == Some(tag@));
                insert_sorted(&mut tags, tag);
            }
            assert(text_set(tags@) == match n {
                Some(t) => before.insert(t),
                None => before,
            });
            proof {
                assert forall|t: Seq<char>| #[trigger] tags_of_pieces(pieces@, k + 1).contains(t)
                    <==> (tags_of_pieces(pieces@, k as int).contains(t) || n == Some(t)) by {
                    if tags_of_pieces(pieces@, k + 1).contains(t) {
                        let m = choose|m: int| 0 <= m < k + 1 && normalized_tag(#[trigger] pieces@[m]@) == Some(t);
                        if m < k {
                            assert(tags_of_pieces(pieces@, k as int).contains(t));
                        }
                    }
                    if tags_of_pieces(pieces@, k as int).contains(t) {
                        let m = choose|m: int| 0 <= m < k && normalized_tag(#[trigger] pieces@[m]@) == Some(t);
                        assert(0 <= m < k + 1);
                    }
                }
                assert(text_set(tags@) =~= tags_of_pieces(pieces@, k + 1));
            }
            k = k + 1;
        }
        proof {
            assert forall|t: Seq<char>| #[trigger] text_set(tags@).contains(t) <==> parsed_tag_set(
                tag_input@,
            ).contains(t) by {
                if tags_of_pieces(pieces@, pieces@.len() as int).contains(t) {
                    let m = choose|m: int|
                        0 <= m < pieces@.len() && normalized_tag(#[trigger] pieces@[m]@) == Some(t);
                    assert(is_run_of(cs@, pieces@[m]@, true));
                }
                if parsed_tag_set(tag_input@).contains(t) {
                    let w = choose|w: Seq<char>| #[trigger] is_run_of(tag_input@, w, true) && normalized_tag(w) == Some(t);
                    let (i, j) = choose|i: int, j: int| #[trigger] crate::text::is_run(cs@, i, j, true) && cs@.subrange(i, j) == w;
                    let m = choose|m: int| 0 <= m < pieces@.len() && #[trigger] pieces@[m]@ == cs@.subrange(i, j);
                    assert(normalized_tag(pieces@[m]@) == Some(t));
                }
            }
            assert(text_set(tags@) =~= parsed_tag_set(tag_input@));
        }
        tags
    }

    /// The tags that begin with '#', in order, and an empty list of path
    /// tags.
    pub fn get_tag_categories(&self) -> (r: (Vec<String>, Vec<String>))
        ensures
            r.0@ == hash_tags_of(self.tags@),
            r.1@.len() == 0,
    {
        let ghost pred = |t: String| t@.len() > 0 && t@[0] == '#';
        let mut hash_tags: Vec<String> = Vec::new();
        let path_tags: Vec<String> = Vec::new();
        let mut i: usize = 0;
        while i < self.tags.len()
            invariant
                i <= self.tags@.len(),
                pred == (|t: String| t@.len() > 0 && t@[0] == '#'),
                hash_tags@ == self.tags@.take(i as int).filter(pred),
            decreases self.tags@.len() - i,
        {
            proof { lemma_filter_take(self.tags@, i as int, pred); }
            if starts_with_hash(self.tags[i].as_str()) {
                hash_tags.push(self.tags[i].clone());
            }
            i = i + 1;
        }
        proof { assert(self.tags@.take(self.tags@.len() as int) =~= self.tags@); }
        (hash_tags, path_tags)
    }
}

} // verus!
