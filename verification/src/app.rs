//! The manager's state apart from drawing it: the entries, the search and
//! the list it selects, the set of tags in use, the forms and panels, and
//! every change the user can make to them.
use vstd::prelude::*;
use std::collections::HashSet;
use crate::config::{AppConfig, UserData};
use crate::file_entry::{lemma_filter_take, parsed_tag_set, EntryType, FileEntry};
use crate::paths::{file_name_of, path_file_name, paths_equal, same_path};
use crate::search::{
    compute_filter, filter_result, law_search_shows_exactly_matches, lemma_matching_indices,
    search_matches, search_query_matches,
    tag_set_of, tags_in_use,
};
use crate::tag_lists::{
    append_word, appended_word, clean_tag, law_tag_edit_round_trip, count_lacking, count_removing, lacks_some, count_tag, joined, joined_queries,
    join_with_spaces, kept_tags, lacks_any, lemma_insert_stat, lemma_text_set_take, removes_some,
    remove_sorted, stat_before, stat_before_exec, stat_names, stat_sorted, suggestions, suggests,
    tag_count, tag_query, tag_query_of, total_tags, union_sorted, with_tags_added, without_tags,
    SUGGESTION_LIMIT,
};
use crate::tags::{
    contains_text, insert_sorted, law_sorted_set_is_unique, lemma_text_lt_irreflexive,
    strictly_sorted, text_lt, text_set,
};
use crate::text::{
    chars_of, contains_seq, find_seq, lemma_find_from, lemma_utf8_len, lowercase, push_char,
    seq_contains, string_of, sub_chars, text_contains, text_eq, text_starts_with, to_lowercase,
};
use crate::theme::{theme_from_name, theme_name, ThemeMode};
use crate::urls::{host_chars, site_name, valid_url};

verus! {

/// The name given to an entry whose path has no last component.
pub open spec fn unnamed() -> Seq<char> {
    "未命名"@
}

/// The name a path gives an entry by default: its last component.
pub open spec fn default_entry_name(path: Seq<char>) -> Seq<char> {
    match path_file_name(path) {
        Some(n) => n,
        None => unnamed(),
    }
}

/// An optional string, as text.
pub open spec fn opt_text(o: Option<String>) -> Option<Seq<char>> {
    match o {
        Some(s) => Some(s@),
        None => None,
    }
}

/// An optional string as it is put into an input: empty when there is none.
pub open spec fn input_text(o: Option<String>) -> Seq<char> {
    match o {
        Some(s) => s@,
        None => Seq::<char>::empty(),
    }
}

/// An input as an optional value: none when it is empty.
pub open spec fn nonempty(s: Seq<char>) -> Option<Seq<char>> {
    if s.len() == 0 {
        None
    } else {
        Some(s)
    }
}

/// The input as an optional value.
fn nonempty_text(s: &String) -> (r: Option<String>)
    ensures
        opt_text(r) == nonempty(s@),
{
    if s.as_str().is_empty() {
        None
    } else {
        Some(s.clone())
    }
}

/// What a row's link opens: a URL, or a path.
pub enum OpenTarget {
    Url(String),
    Path(String),
}

/// The entry the add form describes, once added: `app` is the manager
/// before the addition.
pub open spec fn added_entry(e: FileEntry, app: FileManagerApp, path_is_dir: bool) -> bool {
    let path = app.add_path_input@;
    let web = app.add_entry_type == EntryType::WebLink;
    let dir = !web && (app.add_entry_type == EntryType::Directory || path_is_dir);
    &&& e.path@ == path
    &&& e.name@ == (if app.add_name_input@.len() > 0 {
        app.add_name_input@
    } else if web {
        site_name(path)
    } else {
        default_entry_name(path)
    })
    &&& opt_text(e.nickname) == nonempty(app.add_nickname_input@)
    &&& opt_text(e.description) == nonempty(app.add_description_input@)
    &&& strictly_sorted(e.tags@)
    &&& text_set(e.tags@) == parsed_tag_set(app.add_tags_input@)
    &&& e.entry_type == (if web {
        EntryType::WebLink
    } else if dir {
        EntryType::Directory
    } else {
        EntryType::File
    })
    &&& opt_text(e.url) == (if web {
        Some(path)
    } else {
        None
    })
    &&& e.is_directory == dir
    &&& e.id@.len() == 36
    &&& e.child_entries@.len() == 0
    &&& e.legacy_child_entries@.len() == 0
}

/// Whatever the kind of entry the add form adds (file, folder or web link),
/// the entry carries the form's path, its nickname and description when they
/// are not empty (and none when they are), and exactly the tags read from
/// its tag input, sorted without repeats.
pub proof fn law_add_form_fields_carry_over(e: FileEntry, app: FileManagerApp, path_is_dir: bool)
    requires
        added_entry(e, app, path_is_dir),
    ensures
        e.path@ == app.add_path_input@,
        app.add_nickname_input@.len() == 0 ==> e.nickname is None,
        app.add_nickname_input@.len() > 0 ==> (e.nickname matches Some(n) && n@ == app.add_nickname_input@),
        app.add_description_input@.len() == 0 ==> e.description is None,
        app.add_description_input@.len() > 0 ==> (e.description matches Some(d) && d@
            == app.add_description_input@),
        strictly_sorted(e.tags@),
        text_set(e.tags@) == parsed_tag_set(app.add_tags_input@),
{
}

/// Some entry has a path equal to `p`.
pub open spec fn has_path(es: Seq<FileEntry>, p: Seq<char>) -> bool {
    exists|k: int| 0 <= k < es.len() && same_path(#[trigger] es[k].path@, p)
}

/// The entries after merging `imp` into `es` in order: an imported entry is
/// added unless an entry with an equal path is already there (one added
/// before it included).
pub open spec fn merged(es: Seq<FileEntry>, imp: Seq<FileEntry>) -> Seq<FileEntry>
    decreases imp.len(),
{
    if imp.len() == 0 {
        es
    } else {
        let m = merged(es, imp.drop_last());
        if has_path(m, imp.last().path@) {
            m
        } else {
            m.push(imp.last())
        }
    }
}

/// Whether some entry has a path equal to `p`.
fn has_path_exec(es: &Vec<FileEntry>, p: &str) -> (r: bool)
    ensures
        r == has_path(es@, p@),
{
    let mut k: usize = 0;
    while k < es.len()
        invariant
            k <= es@.len(),
            forall|j: int| 0 <= j < k ==> !same_path(#[trigger] es@[j].path@, p@),
        decreases es@.len() - k,
    {
        if paths_equal(es[k].path.as_str(), p) {
            return true;
        }
        k = k + 1;
    }
    false
}

/// The panels of the side bar, of which at most one is open.
#[derive(Clone, Copy, Debug, PartialEq, Eq, Structural)]
pub enum Panel {
    AddDialog,
    TagEditor,
    Settings,
    ImportExport,
    TagManager,
}

/// The panel a name stands for, as the buttons name them.
pub open spec fn panel_named(name: Seq<char>) -> Option<Panel> {
    if name == "add_dialog"@ {
        Some(Panel::AddDialog)
    } else if name == "tag_editor"@ {
        Some(Panel::TagEditor)
    } else if name == "settings"@ {
        Some(Panel::Settings)
    } else if name == "import_export"@ {
        Some(Panel::ImportExport)
    } else if name == "tag_manager"@ {
        Some(Panel::TagManager)
    } else {
        None
    }
}

/// The state of the manager's window apart from drawing it. The entries,
/// the tags in use, the list the last search shows and the selected tags
/// are kept consistent (`wf`) by the methods; the inputs of the forms, the
/// search box and the panel flags are the user's to edit.
pub struct FileManagerApp {
    pub entries: Vec<FileEntry>,
    pub all_tags: Vec<String>,
    pub filtered_indices: Vec<usize>,
    pub last_search_query: String,
    pub selected_tags: Vec<String>,
    pub expanded_entries: HashSet<usize>,
    pub data_version: String,
    pub search_query: String,
    pub config: AppConfig,
    pub theme_mode: ThemeMode,
    pub compact_mode: bool,
    pub show_settings: bool,
    pub add_path_input: String,
    pub add_name_input: String,
    pub add_nickname_input: String,
    pub add_tags_input: String,
    pub add_description_input: String,
    pub show_add_dialog: bool,
    pub add_entry_type: EntryType,
    pub show_tag_editor: bool,
    pub editing_entry_index: Option<usize>,
    pub custom_config_path: String,
    pub custom_data_path: String,
    pub show_import_export: bool,
    pub import_merge_mode: bool,
    pub export_status: String,
    pub import_status: String,
    pub show_tag_manager: bool,
    pub tag_cloud_filter: String,
    pub batch_tag_input: String,
    pub show_tag_suggestions: bool,
}

impl FileManagerApp {
    /// The manager is consistent: the tags are exactly those in use, the
    /// list is what the last search shows, and the selected tags are sorted.
    pub open spec fn wf(&self) -> bool {
        &&& strictly_sorted(self.all_tags@)
        &&& text_set(self.all_tags@) == tags_in_use(self.entries@)
        &&& self.filtered_indices@ == filter_result(self.entries@, self.last_search_query@)
        &&& strictly_sorted(self.selected_tags@)
    }

    /// Which panel is open, if any (the first of them when several are).
    pub open spec fn open_panel(&self) -> Option<Panel> {
        if self.show_add_dialog {
            Some(Panel::AddDialog)
        } else if self.show_tag_editor {
            Some(Panel::TagEditor)
        } else if self.show_import_export {
            Some(Panel::ImportExport)
        } else if self.show_tag_manager {
            Some(Panel::TagManager)
        } else if self.show_settings {
            Some(Panel::Settings)
        } else {
            None
        }
    }

    /// A manager over the loaded configuration and user data: every entry
    /// shown, the theme the configuration names, compact rows, merging
    /// imports, and the configured data path in its input.
    pub fn new(config: AppConfig, user_data: UserData) -> (app: Self)
        ensures
            app.wf(),
            app.entries@ == user_data.entries@,
            app.data_version == user_data.version,
            app.last_search_query@ == Seq::<char>::empty(),
            app.search_query@ == Seq::<char>::empty(),
            app.filtered_indices@ == filter_result(user_data.entries@, Seq::<char>::empty()),
            app.selected_tags@.len() == 0,
            app.expanded_entries@.is_empty(),
            app.theme_mode == theme_from_name(config.theme_mode@),
            app.compact_mode,
            app.import_merge_mode,
            app.add_entry_type == EntryType::File,
            app.editing_entry_index is None,
            app.open_panel() is None,
            app.custom_data_path@ == match config.data_file_path {
                Some(p) => p@,
                None => Seq::<char>::empty(),
            },
            app.config == config,
            app.add_path_input@.len() == 0 && app.add_name_input@.len() == 0
                && app.add_nickname_input@.len() == 0 && app.add_tags_input@.len() == 0
                && app.add_description_input@.len() == 0 && app.custom_config_path@.len() == 0
                && app.export_status@.len() == 0 && app.import_status@.len() == 0
                && app.tag_cloud_filter@.len() == 0 && app.batch_tag_input@.len() == 0,
            !app.show_tag_suggestions,
    {
        let entries = user_data.entries;
        let all_tags = tag_set_of(&entries);
        proof {
            reveal_strlit("");
            assert(""@ =~= Seq::<char>::empty());
        }
        let filtered_indices = compute_filter(&entries, "");
        let theme_mode = ThemeMode::from_name(config.theme_mode.as_str());
        let custom_data_path = match &config.data_file_path {
            Some(p) => p.clone(),
            None => String::new(),
        };
        FileManagerApp {
            entries,
            all_tags,
            filtered_indices,
            last_search_query: String::new(),
            selected_tags: Vec::new(),
            expanded_entries: HashSet::new(),
            data_version: user_data.version,
            search_query: String::new(),
            config,
            theme_mode,
            compact_mode: true,
            show_settings: false,
            add_path_input: String::new(),
            add_name_input: String::new(),
            add_nickname_input: String::new(),
            add_tags_input: String::new(),
            add_description_input: String::new(),
            show_add_dialog: false,
            add_entry_type: EntryType::File,
            show_tag_editor: false,
            editing_entry_index: None,
            custom_config_path: String::new(),
            custom_data_path,
            show_import_export: false,
            import_merge_mode: true,
            export_status: String::new(),
            import_status: String::new(),
            show_tag_manager: false,
            tag_cloud_filter: String::new(),
            batch_tag_input: String::new(),
            show_tag_suggestions: false,
        }
    }

    /// Closes every panel, then opens the one named (no panel for an unknown
    /// name).
    pub fn toggle_panel(&mut self, panel_name: &str)
        ensures
            final(self).show_add_dialog == (panel_named(panel_name@) == Some(Panel::AddDialog)),
            final(self).show_tag_editor == (panel_named(panel_name@) == Some(Panel::TagEditor)),
            final(self).show_settings == (panel_named(panel_name@) == Some(Panel::Settings)),
            final(self).show_import_export == (panel_named(panel_name@) == Some(
                Panel::ImportExport,
            )),
            final(self).show_tag_manager == (panel_named(panel_name@) == Some(Panel::TagManager)),
            final(self).open_panel() == panel_named(panel_name@),
            *final(self) == (FileManagerApp {
                show_add_dialog: final(self).show_add_dialog,
                show_tag_editor: final(self).show_tag_editor,
                show_settings: final(self).show_settings,
                show_import_export: final(self).show_import_export,
                show_tag_manager: final(self).show_tag_manager,
                ..*old(self)
            }),
    {
        self.show_add_dialog = false;
        self.show_tag_editor = false;
        self.show_settings = false;
        self.show_import_export = false;
        self.show_tag_manager = false;
        proof {
            reveal_strlit("add_dialog");
            reveal_strlit("tag_editor");
            reveal_strlit("settings");
            reveal_strlit("import_export");
            reveal_strlit("tag_manager");
        }
        if text_eq(panel_name, "add_dialog") {
            self.show_add_dialog = true;
        } else if text_eq(panel_name, "tag_editor") {
            self.show_tag_editor = true;
        } else if text_eq(panel_name, "settings") {
            self.show_settings = true;
        } else if text_eq(panel_name, "import_export") {
            self.show_import_export = true;
        } else if text_eq(panel_name, "tag_manager") {
            self.show_tag_manager = true;
        }
    }

    /// Whether some panel is open.
    pub fn any_panel_open(&self) -> (r: bool)
        ensures
            r == (self.open_panel() is Some),
    {
        self.show_add_dialog || self.show_tag_editor || self.show_settings
            || self.show_import_export || self.show_tag_manager
    }

    /// Closes every panel.
    pub fn close_panels(&mut self)
        ensures
            final(self).open_panel() is None,
            !final(self).show_add_dialog && !final(self).show_tag_editor
                && !final(self).show_settings && !final(self).show_import_export
                && !final(self).show_tag_manager,
            *final(self) == (FileManagerApp {
                show_add_dialog: false,
                show_tag_editor: false,
                show_settings: false,
                show_import_export: false,
                show_tag_manager: false,
                ..*old(self)
            }),
    {
        self.show_add_dialog = false;
        self.show_tag_editor = false;
        self.show_settings = false;
        self.show_import_export = false;
        self.show_tag_manager = false;
    }

    /// The entries, in order.
    pub fn entries(&self) -> (r: &Vec<FileEntry>)
        ensures
            r@ == self.entries@,
    {
        &self.entries
    }

    /// The tags in use, sorted.
    pub fn all_tags(&self) -> (r: &Vec<String>)
        requires
            self.wf(),
        ensures
            r@ == self.all_tags@,
            strictly_sorted(r@),
            text_set(r@) == tags_in_use(self.entries@),
    {
        &self.all_tags
    }

    /// The indices of the entries the list shows, in order.
    pub fn filtered_indices(&self) -> (r: &Vec<usize>)
        requires
            self.wf(),
        ensures
            r@ == self.filtered_indices@,
            r@ == filter_result(self.entries@, self.last_search_query@),
    {
        &self.filtered_indices
    }

    /// Whether the search in the box differs from the one the list shows.
    pub fn search_changed(&self) -> (r: bool)
        ensures
            r == (self.search_query@ != self.last_search_query@),
    {
        !text_eq(self.search_query.as_str(), self.last_search_query.as_str())
    }

    /// Whether the search in the box shows `entry`.
    pub fn matches_search_query(&self, entry: &FileEntry) -> (r: bool)
        ensures
            r == search_matches(*entry, self.search_query@),
    {
        search_query_matches(entry, self.search_query.as_str())
    }

    /// Recomputes the list for the search in the box.
    pub fn force_update_filter(&mut self)
        requires
            strictly_sorted(old(self).all_tags@),
            text_set(old(self).all_tags@) == tags_in_use(old(self).entries@),
            strictly_sorted(old(self).selected_tags@),
        ensures
            final(self).wf(),
            final(self).last_search_query@ == old(self).search_query@,
            final(self).filtered_indices@ == filter_result(old(self).entries@, old(self).search_query@),
            *final(self) == (FileManagerApp {
                filtered_indices: final(self).filtered_indices,
                last_search_query: final(self).last_search_query,
                ..*old(self)
            }),
    {
        self.filtered_indices = compute_filter(&self.entries, self.search_query.as_str());
        self.last_search_query = self.search_query.clone();
    }

    /// Recomputes the list when the search in the box has changed since.
    pub fn update_filter(&mut self)
        requires
            old(self).wf(),
        ensures
            final(self).wf(),
            final(self).last_search_query@ == old(self).search_query@,
            final(self).filtered_indices@ == filter_result(old(self).entries@, old(self).search_query@),
            *final(self) == (FileManagerApp {
                filtered_indices: final(self).filtered_indices,
                last_search_query: final(self).last_search_query,
                ..*old(self)
            }),
    {
        if self.search_changed() {
            self.force_update_filter();
        }
    }
}

impl FileManagerApp {
    /// Recomputes the tags in use and the list for the search in the box,
    /// after the entries changed.
    fn refresh(&mut self)
        requires
            strictly_sorted(old(self).selected_tags@),
        ensures
            final(self).wf(),
            final(self).last_search_query@ == old(self).search_query@,
            *final(self) == (FileManagerApp {
                all_tags: final(self).all_tags,
                filtered_indices: final(self).filtered_indices,
                last_search_query: final(self).last_search_query,
                ..*old(self)
            }),
    {
        self.all_tags = tag_set_of(&self.entries);
        self.filtered_indices = compute_filter(&self.entries, self.search_query.as_str());
        self.last_search_query = self.search_query.clone();
    }

    /// Whether the add form may add a web link with this URL.
    pub fn is_valid_url(&self, url: &str) -> (r: bool)
        ensures
            r == valid_url(url@),
    {
        if url.is_empty() {
            return false;
        }
        proof {
            reveal_strlit("http://");
            reveal_strlit("https://");
            reveal_strlit("ftp://");
        }
        if !(text_starts_with(url, "http://") || text_starts_with(url, "https://")
            || text_starts_with(url, "ftp://")) {
            return false;
        }
        let uc = chars_of(url);
        let ul = uc.len();
        let sep: Vec<char> = vec![':', '/', '/'];
        proof { assert(sep@ =~= seq![':', '/', '/']); }
        match find_seq(&uc, &sep) {
            Some(ds) => {
                proof { lemma_find_from(uc@, sep@, 0); }
                let rest = sub_chars(&uc, ds + 3, ul);
                proof { assert(rest@ =~= url@.skip(ds + 3)); }
                if rest.len() == 0 || rest[0] == '/' {
                    return false;
                }
                let host = host_chars(&rest);
                let dot: Vec<char> = vec!['.'];
                proof { assert(dot@ =~= seq!['.']); }
                let has_dot = seq_contains(&host, &dot);
                proof { lemma_utf8_len(host@); }
                if host.len() > 3 {
                    return has_dot;
                }
                let host_text = string_of(&host);
                has_dot && host_text.as_str().len() > 3
            },
            None => false,
        }
    }

    /// The site a URL names, offered as the name of a new web link.
    pub fn extract_site_name(&self, url: &str) -> (r: String)
        ensures
            r@ == site_name(url@),
    {
        let uc = chars_of(url);
        let ul = uc.len();
        let sep: Vec<char> = vec![':', '/', '/'];
        proof { assert(sep@ =~= seq![':', '/', '/']); }
        match find_seq(&uc, &sep) {
            Some(ds) => {
                proof { lemma_find_from(uc@, sep@, 0); }
                let rest = sub_chars(&uc, ds + 3, ul);
                proof { assert(rest@ =~= url@.skip(ds + 3)); }
                let host = host_chars(&rest);
                let host_text = string_of(&host);
                proof { reveal_strlit("www."); }
                if text_starts_with(host_text.as_str(), "www.") {
                    let tail = sub_chars(&host, 4, host.len());
                    proof { assert(tail@ =~= host@.skip(4)); }
                    string_of(&tail)
                } else {
                    host_text
                }
            },
            None => String::from_str(url),
        }
    }

    /// After the URL input changed: an empty name input takes the site's
    /// name when the URL is valid.
    pub fn url_input_changed(&mut self)
        ensures
            *final(self) == (FileManagerApp { add_name_input: final(self).add_name_input, ..*old(self) }),
            final(self).add_name_input@ == (if old(self).add_name_input@.len() == 0 && valid_url(
                old(self).add_path_input@,
            ) {
                site_name(old(self).add_path_input@)
            } else {
                old(self).add_name_input@
            }),
    {
        if self.add_name_input.as_str().is_empty() && self.is_valid_url(self.add_path_input.as_str()) {
            self.add_name_input = self.extract_site_name(self.add_path_input.as_str());
        }
    }

    /// Whether the add form may add its entry: a path is given, and for a web
    /// link it is a valid URL.
    pub fn can_add(&self) -> (r: bool)
        ensures
            r == (self.add_path_input@.len() > 0 && (self.add_entry_type == EntryType::WebLink
                ==> valid_url(self.add_path_input@))),
    {
        match self.add_entry_type {
            EntryType::WebLink => !self.add_path_input.as_str().is_empty() && self.is_valid_url(
                self.add_path_input.as_str(),
            ),
            _ => !self.add_path_input.as_str().is_empty(),
        }
    }

    /// Closes the add form and empties it.
    pub fn cancel_add(&mut self)
        ensures
            *final(self) == (FileManagerApp {
                show_add_dialog: false,
                add_path_input: final(self).add_path_input,
                add_name_input: final(self).add_name_input,
                add_nickname_input: final(self).add_nickname_input,
                add_tags_input: final(self).add_tags_input,
                add_description_input: final(self).add_description_input,
                add_entry_type: EntryType::File,
                ..*old(self)
            }),
            final(self).add_path_input@.len() == 0 && final(self).add_name_input@.len() == 0
                && final(self).add_nickname_input@.len() == 0
                && final(self).add_tags_input@.len() == 0
                && final(self).add_description_input@.len() == 0,
    {
        self.show_add_dialog = false;
        self.add_path_input = String::new();
        self.add_name_input = String::new();
        self.add_nickname_input = String::new();
        self.add_tags_input = String::new();
        self.add_description_input = String::new();
        self.add_entry_type = EntryType::File;
    }

    /// Adds the entry the add form describes, when a path is given; then
    /// empties and closes the form. Whether the path is a folder on disk is
    /// `path_is_dir`; a folder entry is a folder whatever it says.
    pub fn add_entry(&mut self, path_is_dir: bool) -> (r: bool)
        requires
            old(self).wf(),
        ensures
            final(self).wf(),
            r == (old(self).add_path_input@.len() > 0),
            !r ==> *final(self) == *old(self),
            r ==> {
                &&& final(self).entries@.len() == old(self).entries@.len() + 1
                &&& final(self).entries@.drop_last() == old(self).entries@
                &&& added_entry(final(self).entries@.last(), *old(self), path_is_dir)
                &&& final(self).add_path_input@.len() == 0
                &&& final(self).add_name_input@.len() == 0
                &&& final(self).add_nickname_input@.len() == 0
                &&& final(self).add_tags_input@.len() == 0
                &&& final(self).add_description_input@.len() == 0
                &&& final(self).last_search_query@ == old(self).search_query@
                &&& *final(self) == (FileManagerApp {
                    entries: final(self).entries,
                    all_tags: final(self).all_tags,
                    filtered_indices: final(self).filtered_indices,
                    last_search_query: final(self).last_search_query,
                    add_path_input: final(self).add_path_input,
                    add_name_input: final(self).add_name_input,
                    add_nickname_input: final(self).add_nickname_input,
                    add_tags_input: final(self).add_tags_input,
                    add_description_input: final(self).add_description_input,
                    add_entry_type: EntryType::File,
                    show_add_dialog: false,
                    ..*old(self)
                })
            },
    {
        if self.add_path_input.as_str().is_empty() {
            return false;
        }
        let tags = FileEntry::parse_tags(self.add_tags_input.as_str());
        let description = nonempty_text(&self.add_description_input);
        let nickname = nonempty_text(&self.add_nickname_input);
        let entry = match self.add_entry_type {
            EntryType::WebLink => {
                let name = if self.add_name_input.as_str().is_empty() {
                    self.extract_site_name(self.add_path_input.as_str())
                } else {
                    self.add_name_input.clone()
                };
                FileEntry::new_web_link(name, self.add_path_input.clone(), nickname, description, tags)
            },
            _ => {
                let name = if self.add_name_input.as_str().is_empty() {
                    match file_name_of(self.add_path_input.as_str()) {
                        Some(n) => n,
                        None => String::from_str("未命名"),
                    }
                } else {
                    self.add_name_input.clone()
                };
                let is_directory = match self.add_entry_type {
                    EntryType::Directory => true,
                    _ => path_is_dir,
                };
                FileEntry::new_with_nickname(
                    self.add_path_input.clone(),
                    name,
                    nickname,
                    description,
                    tags,
                    is_directory,
                )
            },
        };
        proof { reveal_strlit("未命名"); }
        self.entries.push(entry);
        self.add_path_input = String::new();
        self.add_name_input = String::new();
        self.add_nickname_input = String::new();
        self.add_tags_input = String::new();
        self.add_description_input = String::new();
        self.add_entry_type = EntryType::File;
        self.show_add_dialog = false;
        self.refresh();
        true
    }

    /// Removes the entry at `index`, when there is one.
    pub fn remove_entry(&mut self, index: usize) -> (r: bool)
        requires
            old(self).wf(),
        ensures
            final(self).wf(),
            r == (index < old(self).entries@.len()),
            !r ==> *final(self) == *old(self),
            r ==> final(self).entries@ == old(self).entries@.remove(index as int)
                && final(self).last_search_query@ == old(self).search_query@
                && *final(self) == (FileManagerApp {
                entries: final(self).entries,
                all_tags: final(self).all_tags,
                filtered_indices: final(self).filtered_indices,
                last_search_query: final(self).last_search_query,
                ..*old(self)
            }),
    {
        if index < self.entries.len() {
            self.entries.remove(index);
            self.refresh();
            true
        } else {
            false
        }
    }

    /// What opening the entry at `index` opens: a web link its URL (nothing
    /// when it has none), any other entry its path.
    pub fn open_target(&self, index: usize) -> (r: Option<OpenTarget>)
        ensures
            index >= self.entries@.len() ==> r is None,
            index < self.entries@.len() ==> {
                let e = self.entries@[index as int];
                if e.entry_type == EntryType::WebLink {
                    match e.url {
                        Some(u) => r == Some(OpenTarget::Url(u)),
                        None => r is None,
                    }
                } else {
                    r == Some(OpenTarget::Path(e.path))
                }
            },
    {
        if index >= self.entries.len() {
            return None;
        }
        let e = &self.entries[index];
        match e.entry_type {
            EntryType::WebLink => match &e.url {
                Some(u) => Some(OpenTarget::Url(u.clone())),
                None => None,
            },
            _ => Some(OpenTarget::Path(e.path.clone())),
        }
    }

    /// Opens the tag editor on the entry at `index`, with its tags, nickname
    /// and description in the inputs.
    pub fn edit_entry_tags(&mut self, index: usize)
        ensures
            index >= old(self).entries@.len() ==> *final(self) == *old(self),
            index < old(self).entries@.len() ==> {
                let e = old(self).entries@[index as int];
                &&& final(self).editing_entry_index == Some(index)
                &&& final(self).add_tags_input@ == joined(e.tags@)
                &&& final(self).add_nickname_input@ == input_text(e.nickname)
                &&& final(self).add_description_input@ == input_text(e.description)
                &&& *final(self) == (FileManagerApp {
                    editing_entry_index: Some(index),
                    add_tags_input: final(self).add_tags_input,
                    add_nickname_input: final(self).add_nickname_input,
                    add_description_input: final(self).add_description_input,
                    show_tag_editor: true,
                    ..*old(self)
                })
            },
    {
        if index < self.entries.len() {
            self.editing_entry_index = Some(index);
            let tags = join_with_spaces(&self.entries[index].tags);
            let nickname = match &self.entries[index].nickname {
                Some(n) => n.clone(),
                None => String::new(),
            };
            let description = match &self.entries[index].description {
                Some(d) => d.clone(),
                None => String::new(),
            };
            self.add_tags_input = tags;
            self.add_nickname_input = nickname;
            self.add_description_input = description;
            self.show_tag_editor = true;
        }
    }

    /// Closes the tag editor and empties its inputs.
    pub fn cancel_tag_edit(&mut self)
        ensures
            *final(self) == (FileManagerApp {
                show_tag_editor: false,
                editing_entry_index: None,
                add_tags_input: final(self).add_tags_input,
                add_nickname_input: final(self).add_nickname_input,
                add_description_input: final(self).add_description_input,
                ..*old(self)
            }),
            final(self).add_tags_input@.len() == 0 && final(self).add_nickname_input@.len() == 0
                && final(self).add_description_input@.len() == 0,
    {
        self.show_tag_editor = false;
        self.editing_entry_index = None;
        self.add_tags_input = String::new();
        self.add_nickname_input = String::new();
        self.add_description_input = String::new();
    }

    /// Expands the row of the entry at `index`.
    pub fn expand_entry(&mut self, index: usize)
        ensures
            final(self).expanded_entries@ == old(self).expanded_entries@.insert(index),
            *final(self) == (FileManagerApp { expanded_entries: final(self).expanded_entries, ..*old(self) }),
    {
        broadcast use vstd::std_specs::hash::group_hash_axioms;
        self.expanded_entries.insert(index);
    }

    /// Collapses the row of the entry at `index`.
    pub fn collapse_entry(&mut self, index: usize)
        ensures
            final(self).expanded_entries@ == old(self).expanded_entries@.remove(index),
            *final(self) == (FileManagerApp { expanded_entries: final(self).expanded_entries, ..*old(self) }),
    {
        broadcast use vstd::std_specs::hash::group_hash_axioms;
        self.expanded_entries.remove(&index);
    }

    /// Whether the row of the entry at `index` is expanded.
    pub fn is_expanded(&self, index: usize) -> (r: bool)
        ensures
            r == self.expanded_entries@.contains(index),
    {
        broadcast use vstd::std_specs::hash::group_hash_axioms;
        self.expanded_entries.contains(&index)
    }

    /// Adds a file or folder dropped on the window, named after its last
    /// component, without tags.
    pub fn add_dropped_path(&mut self, path: String, is_directory: bool)
        requires
            old(self).wf(),
        ensures
            final(self).wf(),
            final(self).entries@.len() == old(self).entries@.len() + 1,
            final(self).entries@.drop_last() == old(self).entries@,
            ({
                let e = final(self).entries@.last();
                &&& e.path == path
                &&& e.name@ == default_entry_name(path@)
                &&& e.nickname is None
                &&& e.description is None
                &&& e.tags@.len() == 0
                &&& e.entry_type == (if is_directory {
                    EntryType::Directory
                } else {
                    EntryType::File
                })
                &&& e.is_directory == is_directory
                &&& e.id@.len() == 36
            }),
            final(self).last_search_query@ == old(self).search_query@,
            *final(self) == (FileManagerApp {
                entries: final(self).entries,
                all_tags: final(self).all_tags,
                filtered_indices: final(self).filtered_indices,
                last_search_query: final(self).last_search_query,
                ..*old(self)
            }),
    {
        let name = match file_name_of(path.as_str()) {
            Some(n) => n,
            None => String::from_str("未命名"),
        };
        proof { reveal_strlit("未命名"); }
        let entry = FileEntry::new(path, name, None, Vec::new(), is_directory);
        self.entries.push(entry);
        self.refresh();
    }

    /// Removes every entry.
    pub fn clear_all_entries(&mut self)
        requires
            old(self).wf(),
        ensures
            final(self).wf(),
            final(self).entries@.len() == 0,
            final(self).all_tags@.len() == 0,
            final(self).filtered_indices@.len() == 0,
            final(self).last_search_query@ == old(self).search_query@,
            *final(self) == (FileManagerApp {
                entries: final(self).entries,
                all_tags: final(self).all_tags,
                filtered_indices: final(self).filtered_indices,
                last_search_query: final(self).last_search_query,
                ..*old(self)
            }),
    {
        self.entries = Vec::new();
        self.refresh();
        proof {
            if self.all_tags@.len() > 0 {
                assert(text_set(self.all_tags@).contains(self.all_tags@[0]@));
            }
        }
    }
}

impl FileManagerApp {
    /// Saves the tag editor's inputs into the entry being edited, when there
    /// is one: its tags, nickname and description; then closes the editor
    /// and empties its tag and description inputs.
    pub fn save_entry_edit(&mut self) -> (r: bool)
        requires
            old(self).wf(),
        ensures
            final(self).wf(),
            r == (old(self).editing_entry_index matches Some(i) && i < old(self).entries@.len()),
            r ==> {
                let i = old(self).editing_entry_index->0 as int;
                let e = final(self).entries@[i];
                &&& final(self).entries@.len() == old(self).entries@.len()
                &&& forall|j: int|
                    0 <= j < old(self).entries@.len() && j != i ==> final(self).entries@[j]
                        == old(self).entries@[j]
                &&& e == (FileEntry {
                    tags: e.tags,
                    nickname: e.nickname,
                    description: e.description,
                    ..old(self).entries@[i]
                })
                &&& strictly_sorted(e.tags@)
                &&& text_set(e.tags@) == parsed_tag_set(old(self).add_tags_input@)
                &&& opt_text(e.nickname) == nonempty(old(self).add_nickname_input@)
                &&& opt_text(e.description) == nonempty(old(self).add_description_input@)
                &&& final(self).last_search_query@ == old(self).search_query@
            },
            !r ==> final(self).entries == old(self).entries && final(self).all_tags
                == old(self).all_tags && final(self).filtered_indices == old(self).filtered_indices
                && final(self).last_search_query == old(self).last_search_query,
            final(self).add_tags_input@.len() == 0,
            final(self).add_description_input@.len() == 0,
            *final(self) == (FileManagerApp {
                entries: final(self).entries,
                all_tags: final(self).all_tags,
                filtered_indices: final(self).filtered_indices,
                last_search_query: final(self).last_search_query,
                show_tag_editor: false,
                editing_entry_index: None,
                add_tags_input: final(self).add_tags_input,
                add_description_input: final(self).add_description_input,
                ..*old(self)
            }),
    {
        let mut saved = false;
        if let Some(index) = self.editing_entry_index {
            if index < self.entries.len() {
                let new_tags = FileEntry::parse_tags(self.add_tags_input.as_str());
                let new_nickname = nonempty_text(&self.add_nickname_input);
                let new_description = nonempty_text(&self.add_description_input);
                let mut e = self.entries.remove(index);
                e.tags = new_tags;
                e.nickname = new_nickname;
                e.description = new_description;
                self.entries.insert(index, e);
                self.refresh();
                saved = true;
            }
        }
        self.show_tag_editor = false;
        self.editing_entry_index = None;
        self.add_tags_input = String::new();
        self.add_description_input = String::new();
        saved
    }

    /// Takes in imported entries: in merge mode each is added unless an entry
    /// with an equal path is there (see `merged`); otherwise they replace
    /// all entries. Answers how many entries were imported.
    pub fn import_entries(&mut self, imported: Vec<FileEntry>) -> (r: usize)
        requires
            old(self).wf(),
        ensures
            final(self).wf(),
            r == imported@.len(),
            final(self).entries@ == if old(self).import_merge_mode {
                merged(old(self).entries@, imported@)
            } else {
                imported@
            },
            final(self).last_search_query@ == old(self).search_query@,
            *final(self) == (FileManagerApp {
                entries: final(self).entries,
                all_tags: final(self).all_tags,
                filtered_indices: final(self).filtered_indices,
                last_search_query: final(self).last_search_query,
                ..*old(self)
            }),
    {
        let count = imported.len();
        if self.import_merge_mode {
            let ghost all = imported@;
            let mut rest = imported;
            let mut k: usize = 0;
            while rest.len() > 0
                invariant
                    all.len() == count,
                    k + rest@.len() == all.len(),
                    rest@ == all.skip(k as int),
                    self.entries@ == merged(old(self).entries@, all.take(k as int)),
                    *self == (FileManagerApp { entries: self.entries, ..*old(self) }),
                decreases rest@.len(),
            {
                let e = rest.remove(0);
                proof {
                    assert(all.take(k + 1).drop_last() =~= all.take(k as int));
                    assert(all.take(k + 1).last() == e);
                    assert(rest@ =~= all.skip(k + 1));
                }
                if !has_path_exec(&self.entries, e.path.as_str()) {
                    self.entries.push(e);
                }
                k = k + 1;
            }
            proof { assert(all.take(k as int) =~= all); }
        } else {
            self.entries = imported;
        }
        self.refresh();
        count
    }

    /// Writes the theme's name and the display mode into the configuration,
    /// as they are saved.
    pub fn sync_config(&mut self)
        ensures
            final(self).config.theme_mode@ == theme_name(old(self).theme_mode),
            *final(self) == (FileManagerApp {
                config: AppConfig {
                    theme_mode: final(self).config.theme_mode,
                    compact_mode: old(self).compact_mode,
                    ..old(self).config
                },
                ..*old(self)
            }),
    {
        self.config.theme_mode = self.theme_mode.name();
        self.config.compact_mode = self.compact_mode;
    }

    /// Searches for one tag alone.
    pub fn search_for_tag(&mut self, tag: &str)
        requires
            old(self).wf(),
        ensures
            final(self).wf(),
            final(self).search_query@ == tag_query(tag@),
            final(self).last_search_query@ == tag_query(tag@),
            *final(self) == (FileManagerApp {
                search_query: final(self).search_query,
                filtered_indices: final(self).filtered_indices,
                last_search_query: final(self).last_search_query,
                ..*old(self)
            }),
    {
        self.search_query = tag_query_of(tag);
        self.force_update_filter();
    }

    /// Adds a tag to the search, unless its search word is already in it.
    pub fn add_tag_to_search(&mut self, tag: &str) -> (r: bool)
        requires
            old(self).wf(),
        ensures
            final(self).wf(),
            r == !contains_seq(old(self).search_query@, tag_query(tag@)),
            !r ==> *final(self) == *old(self),
            r ==> final(self).search_query@ == appended_word(old(self).search_query@, tag_query(tag@))
                && final(self).last_search_query@ == final(self).search_query@
                && *final(self) == (FileManagerApp {
                search_query: final(self).search_query,
                filtered_indices: final(self).filtered_indices,
                last_search_query: final(self).last_search_query,
                ..*old(self)
            }),
    {
        let q = tag_query_of(tag);
        if text_contains(self.search_query.as_str(), q.as_str()) {
            return false;
        }
        self.search_query = append_word(&self.search_query, q.as_str());
        self.force_update_filter();
        true
    }

    /// Searches for the selected tags, all of them.
    pub fn filter_by_selected_tags(&mut self)
        requires
            old(self).wf(),
        ensures
            final(self).wf(),
            final(self).search_query@ == joined_queries(old(self).selected_tags@),
            final(self).last_search_query@ == final(self).search_query@,
            *final(self) == (FileManagerApp {
                search_query: final(self).search_query,
                filtered_indices: final(self).filtered_indices,
                last_search_query: final(self).last_search_query,
                ..*old(self)
            }),
    {
        let mut q = String::new();
        let mut i: usize = 0;
        while i < self.selected_tags.len()
            invariant
                i <= self.selected_tags@.len(),
                q@ == joined_queries(self.selected_tags@.take(i as int)),
            decreases self.selected_tags@.len() - i,
        {
            if i > 0 {
                push_char(&mut q, ' ');
            }
            let w = tag_query_of(self.selected_tags[i].as_str());
            q.append(w.as_str());
            proof {
                let t = self.selected_tags@.take(i + 1);
                assert(t.drop_last() =~= self.selected_tags@.take(i as int));
                assert(q@ =~= joined_queries(t));
            }
            i = i + 1;
        }
        proof { assert(self.selected_tags@.take(self.selected_tags@.len() as int) =~= self.selected_tags@); }
        self.search_query = q;
        self.force_update_filter();
    }

    /// Selects or unselects a tag in the tag manager.
    pub fn set_tag_selected(&mut self, tag: &str, selected: bool)
        requires
            old(self).wf(),
        ensures
            final(self).wf(),
            text_set(final(self).selected_tags@) == if selected {
                text_set(old(self).selected_tags@).insert(tag@)
            } else {
                text_set(old(self).selected_tags@).remove(tag@)
            },
            *final(self) == (FileManagerApp { selected_tags: final(self).selected_tags, ..*old(self) }),
    {
        if selected {
            insert_sorted(&mut self.selected_tags, String::from_str(tag));
        } else {
            remove_sorted(&mut self.selected_tags, tag);
        }
    }

    /// Unselects every tag.
    pub fn clear_selected_tags(&mut self)
        requires
            old(self).wf(),
        ensures
            final(self).wf(),
            final(self).selected_tags@.len() == 0,
            *final(self) == (FileManagerApp { selected_tags: final(self).selected_tags, ..*old(self) }),
    {
        self.selected_tags = Vec::new();
    }

    /// Whether a tag is selected.
    pub fn is_tag_selected(&self, tag: &String) -> (r: bool)
        ensures
            r == text_set(self.selected_tags@).contains(tag@),
    {
        contains_text(&self.selected_tags, tag)
    }

    /// Whether the tag manager's filter shows a tag: an empty filter shows
    /// all, else the lowercased tag must contain the lowercased filter.
    pub fn tag_cloud_shows(&self, tag: &str) -> (r: bool)
        ensures
            r == (self.tag_cloud_filter@.len() == 0 || contains_seq(
                lowercase(tag@),
                lowercase(self.tag_cloud_filter@),
            )),
    {
        if self.tag_cloud_filter.as_str().is_empty() {
            return true;
        }
        let t = to_lowercase(tag);
        let f = to_lowercase(self.tag_cloud_filter.as_str());
        text_contains(t.as_str(), f.as_str())
    }

    /// Adds a suggested tag to the tag input, unless the input already holds
    /// it.
    pub fn accept_tag_suggestion(&mut self, tag: &str)
        ensures
            final(self).add_tags_input@ == if contains_seq(old(self).add_tags_input@, tag@) {
                old(self).add_tags_input@
            } else {
                appended_word(old(self).add_tags_input@, tag@)
            },
            *final(self) == (FileManagerApp { add_tags_input: final(self).add_tags_input, ..*old(self) }),
    {
        if !text_contains(self.add_tags_input.as_str(), tag) {
            self.add_tags_input = append_word(&self.add_tags_input, tag);
        }
    }
}

/// What adding the tags read from `tag_text` to the shown entries does:
/// `after` is consistent; each shown entry gets the tags (see
/// `with_tags_added`), the others stay as they were; `r` counts the shown
/// entries that lacked one of them; with none, nothing changes, else the
/// tags in use and the list are recomputed for the search in the box.
pub open spec fn batch_tags_added(
    before: FileManagerApp,
    tag_text: Seq<char>,
    r: usize,
    after: FileManagerApp,
) -> bool {
    let add = parsed_tag_set(tag_text);
    let shown = before.filtered_indices@;
    &&& after.wf()
    &&& after.entries@.len() == before.entries@.len()
    &&& forall|i: int|
        #![trigger after.entries@[i]]
        0 <= i < before.entries@.len() ==> if shown.contains(i as usize) {
            &&& after.entries@[i] == (FileEntry { tags: after.entries@[i].tags, ..before.entries@[i] })
            &&& with_tags_added(before.entries@[i].tags@, add, after.entries@[i].tags@)
        } else {
            after.entries@[i] == before.entries@[i]
        }
    &&& r == count_lacking(before.entries@, shown, add)
    &&& r == 0 ==> after == before
    &&& r > 0 ==> after.last_search_query@ == before.search_query@ && after == (FileManagerApp {
        entries: after.entries,
        all_tags: after.all_tags,
        filtered_indices: after.filtered_indices,
        last_search_query: after.last_search_query,
        ..before
    })
}

impl FileManagerApp {
    /// Adds the tags read from `tag_text` to every entry the list shows:
    /// an entry that lacks one of them gets its tags sorted, without
    /// repeats, the new ones included; the others are left as they are.
    /// Answers how many entries changed; when some did, the tags in use and
    /// the list are recomputed.
    #[verifier::spinoff_prover]
    #[verifier::rlimit(40)]
    pub fn batch_add_tags(&mut self, tag_text: &str) -> (r: usize)
        requires
            old(self).wf(),
        ensures
            batch_tags_added(*old(self), tag_text@, r, *final(self)),
    {
        let new_tags = FileEntry::parse_tags(tag_text);
        let ghost add = parsed_tag_set(tag_text@);
        let ghost shown = self.filtered_indices@;
        let n = self.entries.len();
        proof { lemma_matching_indices(self.entries@, self.last_search_query@, self.entries@.len() as int); }
        let mut modified: usize = 0;
        let mut k: usize = 0;
        while k < self.filtered_indices.len()
            invariant
                n == old(self).entries@.len(),
                text_set(new_tags@) == add,
                shown == old(self).filtered_indices@,
                self.filtered_indices == old(self).filtered_indices,
                k <= shown.len(),
                modified <= k,
                forall|m: int| 0 <= m < shown.len() ==> #[trigger] shown[m] < old(self).entries@.len(),
                forall|a: int, b: int| 0 <= a < b < shown.len() ==> #[trigger] shown[a] < #[trigger] shown[b],
                self.entries@.len() == old(self).entries@.len(),
                forall|i: int|
                    #![trigger self.entries@[i]]
                    0 <= i < old(self).entries@.len() ==> if shown.take(k as int).contains(i as usize) {
                        &&& self.entries@[i] == (FileEntry {
                            tags: self.entries@[i].tags,
                            ..old(self).entries@[i]
                        })
                        &&& with_tags_added(old(self).entries@[i].tags@, add, self.entries@[i].tags@)
                    } else {
                        self.entries@[i] == old(self).entries@[i]
                    },
                modified == count_lacking(old(self).entries@, shown.take(k as int), add),
                modified == 0 ==> self.entries == old(self).entries,
                *self == (FileManagerApp { entries: self.entries, ..*old(self) }),
            decreases shown.len() - k,
        {
            let idx = self.filtered_indices[k];
            proof {
                assert(shown.take(k + 1).drop_last() =~= shown.take(k as int));
                assert(!shown.take(k as int).contains(idx)) by {
                    if shown.take(k as int).contains(idx) {
                        let m = choose|m: int| 0 <= m < k && #[trigger] shown.take(k as int)[m] == idx;
                        assert(shown[m] < shown[k as int]);
                    }
                }
                assert(self.entries@[idx as int] == old(self).entries@[idx as int]);
            }
            let lacking = lacks_any(&self.entries[idx].tags, &new_tags);
            if lacking {
                let merged_tags = union_sorted(&self.entries[idx].tags, &new_tags);
                let mut e = self.entries.remove(idx);
                e.tags = merged_tags;
                self.entries.insert(idx, e);
                modified = modified + 1;
            }
            proof {
                assert forall|i: int|
                    #![trigger self.entries@[i]]
                    0 <= i < old(self).entries@.len() && i != idx implies (shown.take(k + 1).contains(
                        i as usize,
                    ) <==> shown.take(k as int).contains(i as usize)) by {
                    if shown.take(k + 1).contains(i as usize) {
                        let m = choose|m: int| 0 <= m < k + 1 && #[trigger] shown.take(k + 1)[m] == i as usize;
                        if m == k {
                            assert(shown.take(k + 1)[m] == idx);
                        }
                        assert(shown.take(k as int)[m] == i as usize);
                    }
                    if shown.take(k as int).contains(i as usize) {
                        let m = choose|m: int| 0 <= m < k && #[trigger] shown.take(k as int)[m] == i as usize;
                        assert(shown.take(k + 1)[m] == i as usize);
                    }
                }
                assert(shown.take(k + 1)[k as int] == idx);
            }
            k = k + 1;
        }
        proof { assert(shown.take(k as int) =~= shown); }
        if modified > 0 {
            self.refresh();
        }
        modified
    }

    /// Removes the tags read from `tag_text` from every entry the list
    /// shows, keeping the order of the others. Answers how many entries
    /// changed; when some did, the tags in use and the list are recomputed.
    #[verifier::spinoff_prover]
    #[verifier::rlimit(40)]
    pub fn batch_remove_tags(&mut self, tag_text: &str) -> (r: usize)
        requires
            old(self).wf(),
        ensures
            final(self).wf(),
            ({
                let remove = parsed_tag_set(tag_text@);
                let shown = old(self).filtered_indices@;
                &&& final(self).entries@.len() == old(self).entries@.len()
                &&& forall|i: int|
                    #![trigger final(self).entries@[i]]
                    0 <= i < old(self).entries@.len() ==> if shown.contains(i as usize)
                        && removes_some(old(self).entries@[i].tags@, remove) {
                        &&& final(self).entries@[i] == (FileEntry {
                            tags: final(self).entries@[i].tags,
                            ..old(self).entries@[i]
                        })
                        &&& final(self).entries@[i].tags@ == kept_tags(
                            old(self).entries@[i].tags@,
                            remove,
                        )
                    } else {
                        final(self).entries@[i] == old(self).entries@[i]
                    }
                &&& r == count_removing(old(self).entries@, shown, remove)
            }),
            r == 0 ==> *final(self) == *old(self),
            r > 0 ==> final(self).last_search_query@ == old(self).search_query@ && *final(self) == (
            FileManagerApp {
                entries: final(self).entries,
                all_tags: final(self).all_tags,
                filtered_indices: final(self).filtered_indices,
                last_search_query: final(self).last_search_query,
                ..*old(self)
            }),
    {
        let remove_tags = FileEntry::parse_tags(tag_text);
        let ghost remove = parsed_tag_set(tag_text@);
        let ghost shown = self.filtered_indices@;
        let n = self.entries.len();
        proof { lemma_matching_indices(self.entries@, self.last_search_query@, self.entries@.len() as int); }
        let mut modified: usize = 0;
        let mut k: usize = 0;
        while k < self.filtered_indices.len()
            invariant
                n == old(self).entries@.len(),
                text_set(remove_tags@) == remove,
                shown == old(self).filtered_indices@,
                self.filtered_indices == old(self).filtered_indices,
                k <= shown.len(),
                modified <= k,
                forall|m: int| 0 <= m < shown.len() ==> #[trigger] shown[m] < old(self).entries@.len(),
                forall|a: int, b: int| 0 <= a < b < shown.len() ==> #[trigger] shown[a] < #[trigger] shown[b],
                self.entries@.len() == old(self).entries@.len(),
                forall|i: int|
                    #![trigger self.entries@[i]]
                    0 <= i < old(self).entries@.len() ==> if shown.take(k as int).contains(i as usize)
                        && removes_some(old(self).entries@[i].tags@, remove) {
                        &&& self.entries@[i] == (FileEntry {
                            tags: self.entries@[i].tags,
                            ..old(self).entries@[i]
                        })
                        &&& self.entries@[i].tags@ == kept_tags(old(self).entries@[i].tags@, remove)
                    } else {
                        self.entries@[i] == old(self).entries@[i]
                    },
                modified == count_removing(old(self).entries@, shown.take(k as int), remove),
                modified == 0 ==> self.entries == old(self).entries,
                *self == (FileManagerApp { entries: self.entries, ..*old(self) }),
            decreases shown.len() - k,
        {
            let idx = self.filtered_indices[k];
            proof {
                assert(shown.take(k + 1).drop_last() =~= shown.take(k as int));
                assert(!shown.take(k as int).contains(idx)) by {
                    if shown.take(k as int).contains(idx) {
                        let m = choose|m: int| 0 <= m < k && #[trigger] shown.take(k as int)[m] == idx;
                        assert(shown[m] < shown[k as int]);
                    }
                }
                assert(self.entries@[idx as int] == old(self).entries@[idx as int]);
            }
            let (kept, dropped) = without_tags(&self.entries[idx].tags, &remove_tags);
            if dropped {
                let mut e = self.entries.remove(idx);
                e.tags = kept;
                self.entries.insert(idx, e);
                modified = modified + 1;
            }
            proof {
                assert forall|i: int|
                    #![trigger self.entries@[i]]
                    0 <= i < old(self).entries@.len() && i != idx implies (shown.take(k + 1).contains(
                        i as usize,
                    ) <==> shown.take(k as int).contains(i as usize)) by {
                    if shown.take(k + 1).contains(i as usize) {
                        let m = choose|m: int| 0 <= m < k + 1 && #[trigger] shown.take(k + 1)[m] == i as usize;
                        if m == k {
                            assert(shown.take(k + 1)[m] == idx);
                        }
                        assert(shown.take(k as int)[m] == i as usize);
                    }
                    if shown.take(k as int).contains(i as usize) {
                        let m = choose|m: int| 0 <= m < k && #[trigger] shown.take(k as int)[m] == i as usize;
                        assert(shown.take(k + 1)[m] == i as usize);
                    }
                }
                assert(shown.take(k + 1)[k as int] == idx);
            }
            k = k + 1;
        }
        proof { assert(shown.take(k as int) =~= shown); }
        if modified > 0 {
            self.refresh();
        }
        modified
    }

    /// The tags in use suggested for an input (see `suggests`), in order, at
    /// most `SUGGESTION_LIMIT` of them.
    pub fn tag_suggestions(&self, input_text: &str) -> (r: Vec<String>)
        ensures
            r@ == if suggestions(self.all_tags@, input_text@).len() <= SUGGESTION_LIMIT {
                suggestions(self.all_tags@, input_text@)
            } else {
                suggestions(self.all_tags@, input_text@).take(SUGGESTION_LIMIT as int)
            },
    {
        let mut r: Vec<String> = Vec::new();
        if input_text.is_empty() {
            return r;
        }
        let input_lower = to_lowercase(input_text);
        let ghost pred = |t: String| suggests(t@, input_text@);
        let mut i: usize = 0;
        while i < self.all_tags.len()
            invariant
                i <= self.all_tags@.len(),
                input_text@.len() > 0,
                input_lower@ == lowercase(input_text@),
                pred == (|t: String| suggests(t@, input_text@)),
                r@ == self.all_tags@.take(i as int).filter(pred),
            decreases self.all_tags@.len() - i,
        {
            proof { lemma_filter_take(self.all_tags@, i as int, pred); }
            let tag_lower = to_lowercase(self.all_tags[i].as_str());
            if text_contains(tag_lower.as_str(), input_lower.as_str()) && !text_contains(
                input_text,
                self.all_tags[i].as_str(),
            ) {
                r.push(self.all_tags[i].clone());
            }
            i = i + 1;
        }
        proof { assert(self.all_tags@.take(self.all_tags@.len() as int) =~= self.all_tags@); }
        r.truncate(SUGGESTION_LIMIT);
        r
    }
}

impl FileManagerApp {
    /// How often each tag in use occurs, most used first, tags used as often
    /// in the order of text.
    pub fn get_tag_usage_stats(&self) -> (r: Vec<(String, usize)>)
        requires
            self.wf(),
            total_tags(self.entries@) <= usize::MAX,
        ensures
            stat_sorted(r@),
            forall|k: int| 0 <= k < r@.len() ==> #[trigger] r@[k].1 == tag_count(self.entries@, r@[k].0@),
            stat_names(r@) == tags_in_use(self.entries@),
    {
        let mut out: Vec<(String, usize)> = Vec::new();
        let mut i: usize = 0;
        proof { assert(stat_names(out@) =~= text_set(self.all_tags@.take(0))); }
        while i < self.all_tags.len()
            invariant
                i <= self.all_tags@.len(),
                self.wf(),
                total_tags(self.entries@) <= usize::MAX,
                stat_sorted(out@),
                forall|k: int| 0 <= k < out@.len() ==> #[trigger] out@[k].1 == tag_count(self.entries@, out@[k].0@),
                stat_names(out@) == text_set(self.all_tags@.take(i as int)),
            decreases self.all_tags@.len() - i,
        {
            let t = &self.all_tags[i];
            let c = count_tag(&self.entries, t);
            let x = (t.clone(), c);
            proof {
                if stat_names(out@).contains(x.0@) {
                    let j = choose|j: int| 0 <= j < i && #[trigger] self.all_tags@.take(i as int)[j]@ == x.0@;
                    assert(text_lt(self.all_tags@[j]@, self.all_tags@[i as int]@));
                    lemma_text_lt_irreflexive(x.0@);
                }
            }
            let mut p: usize = 0;
            while p < out.len() && stat_before_exec(&out[p], &x)
                invariant
                    p <= out@.len(),
                    forall|q: int| 0 <= q < p ==> stat_before(#[trigger] out@[q], x),
                decreases out@.len() - p,
            {
                p = p + 1;
            }
            let ghost before = out@;
            out.insert(p, x);
            proof {
                lemma_insert_stat(before, x, p as int);
                lemma_text_set_take(self.all_tags@, i as int);
                assert forall|k: int| 0 <= k < out@.len() implies #[trigger] out@[k].1 == tag_count(
                    self.entries@,
                    out@[k].0@,
                ) by {
                    if k < p {
                        assert(out@[k] == before[k]);
                    } else if k > p {
                        assert(out@[k] == before[k - 1]);
                    }
                }
            }
            i = i + 1;
        }
        proof { assert(self.all_tags@.take(self.all_tags@.len() as int) =~= self.all_tags@); }
        out
    }
}

/// Merging imported entries keeps every entry that was there, in place.
pub proof fn law_merge_keeps_existing(es: Seq<FileEntry>, imp: Seq<FileEntry>)
    ensures
        merged(es, imp).len() >= es.len(),
        merged(es, imp).take(es.len() as int) == es,
        merged(es, imp).len() <= es.len() + imp.len(),
    decreases imp.len(),
{
    if imp.len() > 0 {
        law_merge_keeps_existing(es, imp.drop_last());
        let m = merged(es, imp.drop_last());
        if !has_path(m, imp.last().path@) {
            assert(m.push(imp.last()).take(es.len() as int) =~= m.take(es.len() as int));
        }
    } else {
        assert(es.take(es.len() as int) =~= es);
    }
}

/// Removing the entry just added gives back the entries there were.
pub proof fn law_remove_undoes_add(es: Seq<FileEntry>, added: Seq<FileEntry>)
    requires
        added.len() == es.len() + 1,
        added.drop_last() == es,
    ensures
        added.remove(es.len() as int) == es,
{
    assert(added.remove(es.len() as int) =~= es);
}

/// No shown entry lacks a tag of `add` exactly when none is counted.
proof fn lemma_count_lacking_zero(entries: Seq<FileEntry>, shown: Seq<usize>, add: Set<Seq<char>>)
    ensures
        count_lacking(entries, shown, add) == 0 <==> forall|m: int|
            0 <= m < shown.len() ==> !lacks_some(entries[#[trigger] shown[m] as int].tags@, add),
    decreases shown.len(),
{
    if shown.len() > 0 {
        let p = shown.drop_last();
        lemma_count_lacking_zero(entries, p, add);
        assert forall|m: int| 0 <= m < p.len() implies #[trigger] p[m] == shown[m] by {}
        if count_lacking(entries, shown, add) == 0 {
            assert forall|m: int| 0 <= m < shown.len() implies !lacks_some(
                entries[#[trigger] shown[m] as int].tags@,
                add,
            ) by {
                if m < p.len() {
                    assert(p[m] == shown[m]);
                }
            }
        } else {
            if forall|m: int| 0 <= m < shown.len() ==> !lacks_some(entries[#[trigger] shown[m] as int].tags@, add) {
                assert forall|m: int| 0 <= m < p.len() implies !lacks_some(
                    entries[#[trigger] p[m] as int].tags@,
                    add,
                ) by {
                    assert(p[m] == shown[m]);
                }
                assert(!lacks_some(entries[shown[shown.len() - 1] as int].tags@, add));
            }
        }
    }
}

/// Adding the same tags to the shown entries a second time changes nothing,
/// when the list was up to date with the search in the box: every entry the
/// list shows afterwards already carries them.
pub proof fn law_batch_add_tags_idempotent(
    a0: FileManagerApp,
    tag_text: Seq<char>,
    r1: usize,
    a1: FileManagerApp,
    r2: usize,
    a2: FileManagerApp,
)
    requires
        a0.wf(),
        a0.last_search_query@ == a0.search_query@,
        batch_tags_added(a0, tag_text, r1, a1),
        batch_tags_added(a1, tag_text, r2, a2),
    ensures
        r2 == 0,
        a2 == a1,
{
    let add = parsed_tag_set(tag_text);
    let shown = a0.filtered_indices@;
    let shown1 = a1.filtered_indices@;
    lemma_count_lacking_zero(a1.entries@, shown1, add);
    if r1 == 0 {
        lemma_count_lacking_zero(a0.entries@, shown, add);
    } else {
        let q = a0.search_query@;
        assert(a0.entries@.len() == a0.entries.len());
        assert(a1.entries@.len() == a1.entries.len());
        law_search_shows_exactly_matches(a0.entries@, q);
        law_search_shows_exactly_matches(a1.entries@, q);
        assert forall|m: int| 0 <= m < shown1.len() implies !lacks_some(
            a1.entries@[#[trigger] shown1[m] as int].tags@,
            add,
        ) by {
            let j = shown1[m] as int;
            assert(search_matches(a1.entries@[j], q));
            if shown.contains(j as usize) {
                assert(with_tags_added(a0.entries@[j].tags@, add, a1.entries@[j].tags@));
                if lacks_some(a0.entries@[j].tags@, add) {
                    assert(add.subset_of(text_set(a1.entries@[j].tags@)));
                }
            } else {
                assert(a1.entries@[j] == a0.entries@[j]);
                assert(search_matches(a0.entries@[j], q));
                assert(shown.contains(j as usize));
            }
        }
    }
}

/// Opening the tag editor on an entry and saving without changes keeps the
/// entry: the inputs it fills read back as the same tags, nickname and
/// description, when its tags are sorted without repeats and can be written
/// back as they are (see `clean_tag`), and its nickname and description are
/// not empty texts.
pub proof fn law_edit_then_save_keeps_entry(e: FileEntry, saved_tags: Seq<String>)
    requires
        strictly_sorted(e.tags@),
        forall|k: int| 0 <= k < e.tags@.len() ==> clean_tag(#[trigger] e.tags@[k]@),
        e.nickname matches Some(n) ==> n@.len() > 0,
        e.description matches Some(d) ==> d@.len() > 0,
        strictly_sorted(saved_tags),
        text_set(saved_tags) == parsed_tag_set(joined(e.tags@)),
    ensures
        saved_tags.len() == e.tags@.len(),
        forall|k: int| 0 <= k < saved_tags.len() ==> #[trigger] saved_tags[k]@ == e.tags@[k]@,
        nonempty(input_text(e.nickname)) == opt_text(e.nickname),
        nonempty(input_text(e.description)) == opt_text(e.description),
{
    law_tag_edit_round_trip(e.tags@);
    law_sorted_set_is_unique(saved_tags, e.tags@);
}

} // verus!
