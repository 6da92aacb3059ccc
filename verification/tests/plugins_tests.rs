use file_manager::plugins::{ContextMenuItem, PluginContext, PluginInfo};

#[test]
fn test_context_menu_item() {
    let item = ContextMenuItem::new("test_id", "Test Item")
        .with_icon("🔍")
        .with_shortcut("Ctrl+T")
        .enabled(true);
    assert_eq!(item.id, "test_id");
    assert_eq!(item.label, "Test Item");
    assert_eq!(item.icon, Some("🔍".to_string()));
    assert_eq!(item.shortcut, Some("Ctrl+T".to_string()));
    assert!(item.enabled);
}

#[test]
fn context_menu_item_defaults_and_disabling() {
    let item = ContextMenuItem::new("a", "A");
    assert_eq!(item.icon, None);
    assert_eq!(item.shortcut, None);
    assert!(item.enabled);
    let item = item.enabled(false);
    assert!(!item.enabled);
    assert_eq!(item.id, "a");
}

#[test]
fn test_plugin_context() {
    let temp_dir = "/tmp/app_data".to_string();
    let mut context = PluginContext::new(temp_dir.clone());
    context.set_shared_data("key1", "value1");
    assert_eq!(context.get_shared_data("key1"), Some(&"value1".to_string()));
    let plugin_dir = context.get_plugin_data_dir("test_plugin");
    assert_eq!(plugin_dir, "/tmp/app_data/plugins/test_plugin");
    assert_eq!(context.plugin_data_dir, "/tmp/app_data/plugins");
}

#[test]
fn shared_data_is_replaced_and_missing_keys_are_none() {
    let mut context = PluginContext::new("/data".to_string());
    assert_eq!(context.get_shared_data("k"), None);
    context.set_shared_data("k", "1");
    context.set_shared_data("k", "2");
    assert_eq!(context.get_shared_data("k"), Some(&"2".to_string()));
    assert_eq!(context.get_plugin_data_dir("/abs"), "/abs");
}

#[test]
fn plugin_info_holds_its_fields() {
    let info = PluginInfo {
        name: "Search Plugin".to_string(),
        version: "1.0.0".to_string(),
        description: "d".to_string(),
        author: "a".to_string(),
        enabled: true,
        loaded: true,
    };
    assert_eq!(info.name, "Search Plugin");
    assert!(info.enabled && info.loaded);
}

use file_manager::plugins::{unhandled_item_message, PluginRegistry};

#[test]
fn plugin_registry_lifecycle() {
    let mut registry = PluginRegistry::new();
    let name = "Search Plugin";
    assert_eq!(registry.register_check(name), Ok(true));
    registry.record_registered(name, true);
    assert_eq!(registry.order, vec![name.to_string()]);
    assert_eq!(
        registry.register_check(name),
        Err("插件 'Search Plugin' 已存在".to_string())
    );
    assert_eq!(registry.toggle_check(name, false), Ok(true));
    registry.set_enabled(name, false);
    assert!(!registry.is_enabled(name));
    assert!(registry.enabled_in_order().is_empty());
    assert_eq!(registry.toggle_check(name, false), Ok(false));
    assert_eq!(registry.toggle_check(name, true), Ok(true));
    registry.set_enabled(name, true);
    assert_eq!(registry.enabled_in_order(), vec![name.to_string()]);
    assert_eq!(registry.loaded_check(name), Ok(()));
    registry.record_unregistered(name);
    assert!(registry.order.is_empty());
    assert!(!registry.has_config(name));
    assert_eq!(
        registry.loaded_check(name),
        Err("插件 'Search Plugin' 不存在".to_string())
    );
}

#[test]
fn registry_keeps_order_and_saved_configs() {
    let mut registry = PluginRegistry::new();
    registry.replace_configs(&vec![("B".to_string(), false), ("C".to_string(), true)]);
    assert_eq!(registry.register_check("B"), Ok(false));
    registry.record_registered("B", false);
    registry.record_registered("A", true);
    assert_eq!(registry.order, vec!["B".to_string(), "A".to_string()]);
    assert_eq!(registry.enabled_in_order(), vec!["A".to_string()]);
    registry.replace_configs(&vec![]);
    assert_eq!(
        registry.toggle_check("A", false),
        Err("插件 'A' 配置不存在".to_string())
    );
    assert_eq!(
        registry.toggle_check("Z", true),
        Err("插件 'Z' 不存在".to_string())
    );
    registry.record_dropped("B");
    assert_eq!(registry.order, vec!["A".to_string()]);
}

#[test]
fn unhandled_menu_item_message() {
    assert_eq!(
        unhandled_item_message("search_similar"),
        "未找到处理上下文菜单项 'search_similar' 的插件"
    );
}
