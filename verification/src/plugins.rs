//! What plugins are handed by the manager: a context with the data folders
//! and shared values, the items they add to context menus, what is told of
//! a loaded plugin, and the manager's bookkeeping of which plugins are
//! loaded, in what order, and which are enabled.
use vstd::prelude::*;
use crate::file_entry::lemma_filter_take;
use crate::paths::{join_path, path_joined};
use crate::string_map::StringMap;
use crate::tag_lists::remove_sorted;
use crate::tags::{contains_text, insert_sorted, strictly_sorted, text_set};
use crate::text::text_eq;

verus! {

/// The context given to plugins: the application's data folder, the folder
/// under it where plugins keep their data, and values shared between
/// plugins.
pub struct PluginContext {
    pub app_data_dir: String,
    pub plugin_data_dir: String,
    pub shared_data: StringMap,
}

impl PluginContext {
    /// A context over the application's data folder: the plugins' folder is
    /// its `plugins` subfolder, and nothing is shared yet.
    pub fn new(app_data_dir: String) -> (c: Self)
        ensures
            c.app_data_dir == app_data_dir,
            c.plugin_data_dir@ == path_joined(app_data_dir@, "plugins"@),
            c.shared_data@ == Map::<Seq<char>, Seq<char>>::empty(),
    {
        let plugin_data_dir = join_path(app_data_dir.as_str(), "plugins");
        PluginContext { app_data_dir, plugin_data_dir, shared_data: StringMap::new() }
    }

    /// Shares `value` under `key`, replacing an earlier value.
    pub fn set_shared_data(&mut self, key: &str, value: &str)
        ensures
            final(self).shared_data@ == old(self).shared_data@.insert(key@, value@),
            final(self).app_data_dir == old(self).app_data_dir,
            final(self).plugin_data_dir == old(self).plugin_data_dir,
    {
        self.shared_data.set(key, value);
    }

    /// The value shared under `key`, if there is one.
    pub fn get_shared_data(&self, key: &str) -> (r: Option<&String>)
        ensures
            match r {
                Some(v) => self.shared_data@.contains_key(key@) && v@ == self.shared_data@[key@],
                None => !self.shared_data@.contains_key(key@),
            },
    {
        self.shared_data.get(key)
    }

    /// The folder where the named plugin keeps its data.
    pub fn get_plugin_data_dir(&self, plugin_name: &str) -> (r: String)
        ensures
            r@ == path_joined(self.plugin_data_dir@, plugin_name@),
    {
        join_path(self.plugin_data_dir.as_str(), plugin_name)
    }
}

/// An item a plugin adds to the context menu of an entry.
pub struct ContextMenuItem {
    pub id: String,
    pub label: String,
    pub icon: Option<String>,
    pub shortcut: Option<String>,
    pub enabled: bool,
}

impl ContextMenuItem {
    /// An enabled item without icon or shortcut.
    pub fn new(id: &str, label: &str) -> (item: Self)
        ensures
            item.id@ == id@,
            item.label@ == label@,
            item.icon is None,
            item.shortcut is None,
            item.enabled,
    {
        ContextMenuItem {
            id: String::from_str(id),
            label: String::from_str(label),
            icon: None,
            shortcut: None,
            enabled: true,
        }
    }

    /// The item with an icon.
    pub fn with_icon(self, icon: &str) -> (item: Self)
        ensures
            item.icon matches Some(i) && i@ == icon@,
            item.id == self.id && item.label == self.label && item.shortcut == self.shortcut
                && item.enabled == self.enabled,
    {
        ContextMenuItem { icon: Some(String::from_str(icon)), ..self }
    }

    /// The item with a keyboard shortcut.
    pub fn with_shortcut(self, shortcut: &str) -> (item: Self)
        ensures
            item.shortcut matches Some(s) && s@ == shortcut@,
            item.id == self.id && item.label == self.label && item.icon == self.icon
                && item.enabled == self.enabled,
    {
        ContextMenuItem { shortcut: Some(String::from_str(shortcut)), ..self }
    }

    /// The item, enabled or not.
    pub fn enabled(self, enabled: bool) -> (item: Self)
        ensures
            item.enabled == enabled,
            item.id == self.id && item.label == self.label && item.icon == self.icon
                && item.shortcut == self.shortcut,
    {
        ContextMenuItem { enabled, ..self }
    }
}

/// What is told of a loaded plugin.
pub struct PluginInfo {
    pub name: String,
    pub version: String,
    pub description: String,
    pub author: String,
    pub enabled: bool,
    pub loaded: bool,
}

/// `prefix`, the name, then `suffix`: how the manager's errors name a plugin.
pub open spec fn quoted(prefix: Seq<char>, name: Seq<char>, suffix: Seq<char>) -> Seq<char> {
    prefix + name + suffix
}

/// The error for registering a plugin whose name is taken.
pub open spec fn already_loaded_error(name: Seq<char>) -> Seq<char> {
    quoted("插件 '"@, name, "' 已存在"@)
}

/// The error for a plugin that is not loaded.
pub open spec fn not_loaded_error(name: Seq<char>) -> Seq<char> {
    quoted("插件 '"@, name, "' 不存在"@)
}

/// The error for a loaded plugin without a saved configuration.
pub open spec fn no_config_error(name: Seq<char>) -> Seq<char> {
    quoted("插件 '"@, name, "' 配置不存在"@)
}

/// The error for a context menu item that no plugin handled.
pub open spec fn unhandled_item_error(item_id: Seq<char>) -> Seq<char> {
    quoted("未找到处理上下文菜单项 '"@, item_id, "' 的插件"@)
}

/// `prefix`, the name, then `suffix`.
fn quote(prefix: &str, name: &str, suffix: &str) -> (r: String)
    ensures
        r@ == quoted(prefix@, name@, suffix@),
{
    let mut r = String::from_str(prefix);
    r.append(name);
    r.append(suffix);
    r
}

/// The error for a context menu item that no plugin handled.
pub fn unhandled_item_message(item_id: &str) -> (r: String)
    ensures
        r@ == unhandled_item_error(item_id@),
{
    quote("未找到处理上下文菜单项 '", item_id, "' 的插件")
}

/// No two names of the list are the same text.
pub open spec fn names_distinct(v: Seq<String>) -> bool {
    forall|i: int, j: int| 0 <= i < v.len() && 0 <= j < v.len() && i != j ==> #[trigger] v[i]@ != #[trigger] v[j]@
}

/// The names of the list other than `name`, in order.
pub open spec fn without_name(v: Seq<String>, name: Seq<char>) -> Seq<String> {
    v.filter(|s: String| s@ != name)
}

/// The bookkeeping of the plugin manager: the plugins loaded, in the order
/// they were registered, the plugins with a saved configuration, and those
/// whose saved configuration disables them. The plugins themselves, which
/// are the user's code, and their settings are kept beside it; the manager
/// asks this registry what to do and tells it what was done.
pub struct PluginRegistry {
    pub order: Vec<String>,
    pub configured: Vec<String>,
    pub disabled: Vec<String>,
}

impl PluginRegistry {
    /// The registry is consistent: loaded names are distinct, the sets are
    /// sorted, and a disabled plugin has a saved configuration.
    pub open spec fn wf(&self) -> bool {
        &&& names_distinct(self.order@)
        &&& strictly_sorted(self.configured@)
        &&& strictly_sorted(self.disabled@)
        &&& text_set(self.disabled@).subset_of(text_set(self.configured@))
    }

    /// Whether a plugin of that name is loaded.
    pub open spec fn loaded(&self, name: Seq<char>) -> bool {
        text_set(self.order@).contains(name)
    }

    /// Whether a plugin is enabled: its saved configuration says so, and a
    /// plugin without one is enabled.
    pub open spec fn enabled(&self, name: Seq<char>) -> bool {
        !text_set(self.disabled@).contains(name)
    }

    /// An empty registry.
    pub fn new() -> (r: Self)
        ensures
            r.wf(),
            r.order@.len() == 0,
            r.configured@.len() == 0,
            r.disabled@.len() == 0,
    {
        PluginRegistry { order: Vec::new(), configured: Vec::new(), disabled: Vec::new() }
    }

    /// Whether a plugin of that name is loaded.
    pub fn is_loaded(&self, name: &str) -> (r: bool)
        ensures
            r == self.loaded(name@),
    {
        let mut i: usize = 0;
        while i < self.order.len()
            invariant
                i <= self.order@.len(),
                forall|j: int| 0 <= j < i ==> #[trigger] self.order@[j]@ != name@,
            decreases self.order@.len() - i,
        {
            if text_eq(self.order[i].as_str(), name) {
                proof { assert(text_set(self.order@).contains(self.order@[i as int]@)); }
                return true;
            }
            i = i + 1;
        }
        false
    }

    /// Whether a plugin is enabled.
    pub fn is_enabled(&self, name: &str) -> (r: bool)
        ensures
            r == self.enabled(name@),
    {
        !contains_text(&self.disabled, &String::from_str(name))
    }

    /// Whether a plugin has a saved configuration.
    pub fn has_config(&self, name: &str) -> (r: bool)
        ensures
            r == text_set(self.configured@).contains(name@),
    {
        contains_text(&self.configured, &String::from_str(name))
    }

    /// What registering a plugin of that name needs: an error when the name
    /// is taken; else whether it is to be initialized, which it is unless
    /// its saved configuration disables it.
    pub fn register_check(&self, name: &str) -> (r: Result<bool, String>)
        ensures
            self.loaded(name@) ==> (r matches Err(e) && e@ == already_loaded_error(name@)),
            !self.loaded(name@) ==> r == Ok::<bool, String>(self.enabled(name@)),
    {
        if self.is_loaded(name) {
            return Err(quote("插件 '", name, "' 已存在"));
        }
        Ok(self.is_enabled(name))
    }

    /// Records that a plugin was registered, enabled or not.
    pub fn record_registered(&mut self, name: &str, enabled: bool)
        requires
            old(self).wf(),
            !old(self).loaded(name@),
        ensures
            final(self).wf(),
            final(self).order@.len() == old(self).order@.len() + 1,
            final(self).order@.drop_last() == old(self).order@,
            final(self).order@.last()@ == name@,
            text_set(final(self).configured@) == text_set(old(self).configured@).insert(name@),
            text_set(final(self).disabled@) == if enabled {
                text_set(old(self).disabled@).remove(name@)
            } else {
                text_set(old(self).disabled@).insert(name@)
            },
    {
        let ghost before = self.order@;
        self.order.push(String::from_str(name));
        proof {
            assert(self.order@.drop_last() =~= before);
            assert forall|i: int, j: int|
                0 <= i < self.order@.len() && 0 <= j < self.order@.len() && i != j
                implies #[trigger] self.order@[i]@ != #[trigger] self.order@[j]@ by {
                if i < before.len() && j < before.len() {
                    assert(self.order@[i] == before[i] && self.order@[j] == before[j]);
                } else if i < before.len() {
                    assert(text_set(before).contains(before[i]@));
                } else {
                    assert(text_set(before).contains(before[j]@));
                }
            }
        }
        self.set_enabled(name, enabled);
    }

    /// Records a plugin's saved configuration, enabled or not.
    pub fn set_enabled(&mut self, name: &str, enabled: bool)
        requires
            old(self).wf(),
        ensures
            final(self).wf(),
            final(self).order == old(self).order,
            text_set(final(self).configured@) == text_set(old(self).configured@).insert(name@),
            text_set(final(self).disabled@) == if enabled {
                text_set(old(self).disabled@).remove(name@)
            } else {
                text_set(old(self).disabled@).insert(name@)
            },
    {
        insert_sorted(&mut self.configured, String::from_str(name));
        if enabled {
            remove_sorted(&mut self.disabled, name);
        } else {
            insert_sorted(&mut self.disabled, String::from_str(name));
        }
    }

    /// What unregistering, or setting the configuration of, a plugin needs:
    /// an error when it is not loaded.
    pub fn loaded_check(&self, name: &str) -> (r: Result<(), String>)
        ensures
            self.loaded(name@) ==> r is Ok,
            !self.loaded(name@) ==> (r matches Err(e) && e@ == not_loaded_error(name@)),
    {
        if self.is_loaded(name) {
            Ok(())
        } else {
            Err(quote("插件 '", name, "' 不存在"))
        }
    }

    /// Records that a plugin's object is gone while its saved configuration
    /// stays: it leaves the order.
    pub fn record_dropped(&mut self, name: &str)
        requires
            old(self).wf(),
        ensures
            final(self).wf(),
            final(self).order@ == without_name(old(self).order@, name@),
            final(self).configured == old(self).configured,
            final(self).disabled == old(self).disabled,
    {
        let ghost pred = |s: String| s@ != name@;
        let ghost before = self.order@;
        let mut kept: Vec<String> = Vec::new();
        let mut i: usize = 0;
        while i < self.order.len()
            invariant
                i <= self.order@.len(),
                self.order@ == before,
                pred == (|s: String| s@ != name@),
                kept@ == before.take(i as int).filter(pred),
            decreases self.order@.len() - i,
        {
            proof { lemma_filter_take(before, i as int, pred); }
            if !text_eq(self.order[i].as_str(), name) {
                kept.push(self.order[i].clone());
            }
            i = i + 1;
        }
        proof {
            assert(before.take(before.len() as int) =~= before);
            lemma_filter_keeps_distinct(before, pred);
        }
        self.order = kept;
    }

    /// Records that a plugin was unregistered: it leaves the order and its
    /// saved configuration is forgotten.
    pub fn record_unregistered(&mut self, name: &str)
        requires
            old(self).wf(),
        ensures
            final(self).wf(),
            final(self).order@ == without_name(old(self).order@, name@),
            text_set(final(self).configured@) == text_set(old(self).configured@).remove(name@),
            text_set(final(self).disabled@) == text_set(old(self).disabled@).remove(name@),
    {
        self.record_dropped(name);
        remove_sorted(&mut self.configured, name);
        remove_sorted(&mut self.disabled, name);
    }

    /// What enabling (`enable`) or disabling a plugin needs: an error when
    /// it is not loaded or has no saved configuration; else whether it must
    /// be initialized (or shut down), which it must when its state changes.
    pub fn toggle_check(&self, name: &str, enable: bool) -> (r: Result<bool, String>)
        ensures
            !self.loaded(name@) ==> (r matches Err(e) && e@ == not_loaded_error(name@)),
            self.loaded(name@) && !text_set(self.configured@).contains(name@) ==> (r matches Err(
                e,
            ) && e@ == no_config_error(name@)),
            self.loaded(name@) && text_set(self.configured@).contains(name@) ==> r == Ok::<
                bool,
                String,
            >(self.enabled(name@) != enable),
    {
        if !self.is_loaded(name) {
            return Err(quote("插件 '", name, "' 不存在"));
        }
        if !self.has_config(name) {
            return Err(quote("插件 '", name, "' 配置不存在"));
        }
        Ok(self.is_enabled(name) != enable)
    }

    /// The loaded plugins that are enabled, in the order they were
    /// registered: the order in which the manager asks them.
    pub fn enabled_in_order(&self) -> (r: Vec<String>)
        requires
            self.wf(),
        ensures
            r@ == self.order@.filter(|s: String| !text_set(self.disabled@).contains(s@)),
    {
        let ghost pred = |s: String| !text_set(self.disabled@).contains(s@);
        let mut r: Vec<String> = Vec::new();
        let mut i: usize = 0;
        while i < self.order.len()
            invariant
                i <= self.order@.len(),
                pred == (|s: String| !text_set(self.disabled@).contains(s@)),
                r@ == self.order@.take(i as int).filter(pred),
            decreases self.order@.len() - i,
        {
            proof { lemma_filter_take(self.order@, i as int, pred); }
            if !contains_text(&self.disabled, &self.order[i]) {
                r.push(self.order[i].clone());
            }
            i = i + 1;
        }
        proof { assert(self.order@.take(self.order@.len() as int) =~= self.order@); }
        r
    }

    /// Replaces every saved configuration by those read back: each name with
    /// whether it is enabled.
    pub fn replace_configs(&mut self, configs: &Vec<(String, bool)>)
        requires
            old(self).wf(),
        ensures
            final(self).wf(),
            final(self).order == old(self).order,
            text_set(final(self).configured@) == Set::new(
                |t: Seq<char>| exists|k: int| 0 <= k < configs@.len() && #[trigger] configs@[k].0@ == t,
            ),
            text_set(final(self).disabled@) == Set::new(
                |t: Seq<char>|
                    exists|k: int|
                        0 <= k < configs@.len() && #[trigger] configs@[k].0@ == t && !configs@[k].1,
            ),
    {
        let mut configured: Vec<String> = Vec::new();
        let mut disabled: Vec<String> = Vec::new();
        let mut i: usize = 0;
        proof {
            assert(text_set(configured@) =~= Set::new(
                |t: Seq<char>| exists|k: int| 0 <= k < 0 && #[trigger] configs@[k].0@ == t,
            ));
        }
        while i < configs.len()
            invariant
                i <= configs@.len(),
                strictly_sorted(configured@),
                strictly_sorted(disabled@),
                text_set(configured@) == Set::new(
                    |t: Seq<char>| exists|k: int| 0 <= k < i && #[trigger] configs@[k].0@ == t,
                ),
                text_set(disabled@) == Set::new(
                    |t: Seq<char>|
                        exists|k: int| 0 <= k < i && #[trigger] configs@[k].0@ == t && !configs@[k].1,
                ),
            decreases configs@.len() - i,
        {
            let ghost c0 = text_set(configured@);
            let ghost d0 = text_set(disabled@);
            insert_sorted(&mut configured, configs[i].0.clone());
            if !configs[i].1 {
                insert_sorted(&mut disabled, configs[i].0.clone());
            }
            proof {
                let ci = Set::new(
                    |t: Seq<char>| exists|k: int| 0 <= k < i + 1 && #[trigger] configs@[k].0@ == t,
                );
                let di = Set::new(
                    |t: Seq<char>|
                        exists|k: int|
                            0 <= k < i + 1 && #[trigger] configs@[k].0@ == t && !configs@[k].1,
                );
                assert forall|t: Seq<char>| text_set(configured@).contains(t) <==> ci.contains(t) by {
                    if ci.contains(t) {
                        let k = choose|k: int| 0 <= k < i + 1 && #[trigger] configs@[k].0@ == t;
                        if k < i {
                            assert(c0.contains(t));
                        }
                    }
                }
                assert forall|t: Seq<char>| text_set(disabled@).contains(t) <==> di.contains(t) by {
                    if di.contains(t) {
                        let k = choose|k: int|
                            0 <= k < i + 1 && #[trigger] configs@[k].0@ == t && !configs@[k].1;
                        if k < i {
                            assert(d0.contains(t));
                        }
                    }
                }
                assert(text_set(configured@) =~= ci);
                assert(text_set(disabled@) =~= di);
            }
            i = i + 1;
        }
        self.configured = configured;
        self.disabled = disabled;
        proof {
            assert forall|t: Seq<char>| text_set(self.disabled@).contains(t) implies text_set(
                self.configured@,
            ).contains(t) by {
                let k = choose|k: int|
                    0 <= k < configs@.len() && #[trigger] configs@[k].0@ == t && !configs@[k].1;
            }
        }
    }
}

/// Leaving names out of a list of distinct names keeps them distinct.
proof fn lemma_filter_keeps_distinct(v: Seq<String>, pred: spec_fn(String) -> bool)
    requires
        names_distinct(v),
    ensures
        names_distinct(v.filter(pred)),
    decreases v.len(),
{
    reveal_with_fuel(Seq::filter, 1);
    if v.len() > 0 {
        let p = v.drop_last();
        assert forall|i: int, j: int| 0 <= i < p.len() && 0 <= j < p.len() && i != j implies #[trigger] p[i]@ != #[trigger] p[j]@ by {
            assert(p[i] == v[i] && p[j] == v[j]);
        }
        lemma_filter_keeps_distinct(p, pred);
        broadcast use vstd::seq_lib::group_filter_ensures;
        if pred(v.last()) {
            let f = p.filter(pred);
            assert forall|k: int| 0 <= k < f.len() implies #[trigger] f[k]@ != v.last()@ by {
                assert(p.contains(f[k])) by {
                    lemma_filter_member(p, pred, k);
                }
                let m = choose|m: int| 0 <= m < p.len() && p[m] == f[k];
                assert(v[m] == p[m]);
            }
        }
    }
}

/// What a filter keeps comes from the list.
proof fn lemma_filter_member(v: Seq<String>, pred: spec_fn(String) -> bool, k: int)
    requires
        0 <= k < v.filter(pred).len(),
    ensures
        v.contains(v.filter(pred)[k]),
    decreases v.len(),
{
    reveal_with_fuel(Seq::filter, 1);
    if v.len() > 0 {
        let p = v.drop_last();
        if k < p.filter(pred).len() {
            lemma_filter_member(p, pred, k);
            let m = choose|m: int| 0 <= m < p.len() && p[m] == p.filter(pred)[k];
            assert(v[m] == p[m]);
        } else {
            assert(v[v.len() - 1] == v.last());
        }
    }
}

/// Registering a plugin and then unregistering it leaves the loaded
/// plugins as they were.
pub proof fn law_unregister_undoes_register(order: Seq<String>, added: Seq<String>, name: Seq<char>)
    requires
        !text_set(order).contains(name),
        added.len() == order.len() + 1,
        added.drop_last() == order,
        added.last()@ == name,
    ensures
        without_name(added, name) == order,
{
    reveal_with_fuel(Seq::filter, 1);
    assert(added.drop_last() == order);
    lemma_filter_none(order, name);
}

/// A list without `name` loses nothing when `name` is left out.
proof fn lemma_filter_none(v: Seq<String>, name: Seq<char>)
    requires
        !text_set(v).contains(name),
    ensures
        without_name(v, name) == v,
    decreases v.len(),
{
    reveal_with_fuel(Seq::filter, 1);
    if v.len() > 0 {
        let p = v.drop_last();
        assert(!text_set(p).contains(name)) by {
            if text_set(p).contains(name) {
                let k = choose|k: int| 0 <= k < p.len() && #[trigger] p[k]@ == name;
                assert(v[k] == p[k]);
            }
        }
        lemma_filter_none(p, name);
        assert(text_set(v).contains(v.last()@));
        assert(v =~= p.push(v.last()));
    } else {
        assert(v.filter(|s: String| s@ != name) =~= v);
    }
}

} // verus!
