use jackdaw::api::lifecycle::ExtensionCatalog;
use jackdaw::editor::extensions_config::{extensions_to_enable, ExtensionsConfig};

fn catalog() -> ExtensionCatalog<()> {
    let mut c = ExtensionCatalog::new();
    c.register("jackdaw.core_windows".to_string(), ());
    c.register("jackdaw.inspector".to_string(), ());
    c.register("sample".to_string(), ());
    c
}

#[test]
fn first_run_enables_everything() {
    assert_eq!(
        extensions_to_enable(&catalog(), &None),
        vec!["jackdaw.core_windows".to_string(), "jackdaw.inspector".to_string(), "sample".to_string()]
    );
}

#[test]
fn a_persisted_list_enables_the_listed_catalog_entries_in_catalog_order() {
    let persisted = Some(vec!["sample".to_string(), "gone".to_string(), "jackdaw.core_windows".to_string()]);
    assert_eq!(
        extensions_to_enable(&catalog(), &persisted),
        vec!["jackdaw.core_windows".to_string(), "sample".to_string()]
    );
}

#[test]
fn an_empty_persisted_list_enables_nothing() {
    assert!(extensions_to_enable(&catalog(), &Some(Vec::new())).is_empty());
}

#[test]
fn the_default_config_is_empty() {
    assert!(ExtensionsConfig::default().enabled.is_empty());
}
