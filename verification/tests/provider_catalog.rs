use xai_grok_pager::provider_catalog::{
    account_suffix, ConfiguredProvider, ProviderCatalog, ProviderCommandStatus, ProviderEntry,
    ProviderSelection, NATIVE_PROVIDER_ID,
};

fn provider(id: &str, order: Option<i64>, command: Option<&str>, executable: bool) -> ConfiguredProvider {
    ConfiguredProvider {
        id: id.to_string(),
        order,
        label: None,
        account: None,
        command: command.map(str::to_string),
        command_executable: executable,
    }
}

fn ids(catalog: &ProviderCatalog) -> Vec<String> {
    catalog
        .entries
        .iter()
        .map(|entry| entry.selection.catalog_id().to_string())
        .collect()
}

#[test]
fn native_entry_is_first_and_found_by_grok() {
    let catalog = ProviderCatalog::load(&vec![provider("relay", None, Some("relay"), true)], None);
    let native = &catalog.entries[0];
    assert_eq!(native.selection, ProviderSelection::Native);
    assert_eq!(native.label, "Grok");
    assert_eq!(native.account, None);
    assert_eq!(native.command_status, ProviderCommandStatus::BuiltIn);
    assert!(native.active);
    assert_eq!(NATIVE_PROVIDER_ID, "grok");
    assert_eq!(catalog.find("grok").map(|e| e.selection.clone()), Some(ProviderSelection::Native));
    assert_eq!(catalog.entries.len(), 2);
}

#[test]
fn empty_config_gives_only_native() {
    let catalog = ProviderCatalog::load(&vec![], Some("acme"));
    assert_eq!(catalog.entries.len(), 1);
    assert!(!catalog.entries[0].active);
}

#[test]
fn explicit_order_first_then_declaration_order() {
    let configured = vec![
        provider("a", None, None, false),
        provider("b", Some(2), None, false),
        provider("c", Some(1), None, false),
        provider("d", None, None, false),
        provider("e", Some(1), None, false),
        provider("f", Some(-5), None, false),
    ];
    let catalog = ProviderCatalog::load(&configured, None);
    assert_eq!(ids(&catalog), vec!["grok", "f", "c", "e", "b", "a", "d"]);
}

#[test]
fn catalog_is_determined_by_its_inputs() {
    let configured = vec![
        provider("x", Some(3), Some("x"), true),
        provider("y", None, Some("y"), false),
        provider("z", Some(3), None, true),
    ];
    let first = ProviderCatalog::load(&configured, Some("y"));
    let second = ProviderCatalog::load(&configured, Some("y"));
    assert_eq!(first, second);
    assert_eq!(ids(&first), vec!["grok", "x", "z", "y"]);
}

#[test]
fn each_provider_listed_once() {
    let configured = vec![
        provider("one", Some(1), None, false),
        provider("two", None, None, false),
        provider("three", Some(0), None, false),
    ];
    let catalog = ProviderCatalog::load(&configured, None);
    let mut listed = ids(&catalog);
    listed.sort();
    assert_eq!(listed, vec!["grok", "one", "three", "two"]);
}

#[test]
fn labels_accounts_and_status_from_config() {
    let configured = vec![
        ConfiguredProvider {
            id: "acme-c1".to_string(),
            order: None,
            label: Some("Acme".to_string()),
            account: None,
            command: Some("acme-agent".to_string()),
            command_executable: true,
        },
        ConfiguredProvider {
            id: "relay".to_string(),
            order: None,
            label: None,
            account: Some("work".to_string()),
            command: Some("relay-agent".to_string()),
            command_executable: false,
        },
        ConfiguredProvider {
            id: "zephyr".to_string(),
            order: None,
            label: None,
            account: None,
            command: None,
            command_executable: true,
        },
    ];
    let catalog = ProviderCatalog::load(&configured, Some("relay"));
    let acme = &catalog.entries[1];
    assert_eq!(acme.selection, ProviderSelection::External("acme-c1".to_string()));
    assert_eq!(acme.label, "Acme");
    assert_eq!(acme.account.as_deref(), Some("c1"));
    assert_eq!(acme.command_status, ProviderCommandStatus::Available);
    assert!(!acme.active);
    let relay = &catalog.entries[2];
    assert_eq!(relay.label, "relay");
    assert_eq!(relay.account.as_deref(), Some("work"));
    assert_eq!(relay.command_status, ProviderCommandStatus::Missing);
    assert!(relay.active);
    let zephyr = &catalog.entries[3];
    assert_eq!(zephyr.account, None);
    assert_eq!(zephyr.command_status, ProviderCommandStatus::Missing);
    assert!(!catalog.entries[0].active);
}

#[test]
fn at_most_one_entry_active() {
    let configured = vec![
        provider("a", None, None, false),
        provider("b", None, None, false),
        provider("c", None, None, false),
    ];
    let catalog = ProviderCatalog::load(&configured, Some("b"));
    let active: Vec<String> = catalog
        .entries
        .iter()
        .filter(|e| e.active)
        .map(|e| e.selection.catalog_id().to_string())
        .collect();
    assert_eq!(active, vec!["b"]);
    let unknown = ProviderCatalog::load(&configured, Some("nope"));
    assert!(unknown.entries.iter().all(|e| !e.active));
}

#[test]
fn provider_id_and_catalog_id() {
    assert_eq!(ProviderSelection::Native.provider_id(), None);
    assert_eq!(ProviderSelection::Native.catalog_id(), "grok");
    let external = ProviderSelection::External("acme-c1".to_string());
    assert_eq!(external.provider_id(), Some("acme-c1"));
    assert_eq!(external.catalog_id(), "acme-c1");
}

#[test]
fn is_selectable_per_status() {
    assert!(ProviderCommandStatus::BuiltIn.is_selectable());
    assert!(ProviderCommandStatus::Available.is_selectable());
    assert!(!ProviderCommandStatus::Missing.is_selectable());
}

fn entry(label: &str, account: Option<&str>) -> ProviderEntry {
    ProviderEntry {
        selection: ProviderSelection::External("id".to_string()),
        label: label.to_string(),
        account: account.map(str::to_string),
        command_status: ProviderCommandStatus::Available,
        active: false,
    }
}

#[test]
fn row_label_joins_label_and_account() {
    assert_eq!(entry("Acme", Some("c1")).row_label(), "Acme · c1");
    assert_eq!(entry("Acme", Some("")).row_label(), "Acme");
    assert_eq!(entry("Acme", None).row_label(), "Acme");
}

#[test]
fn account_suffix_after_first_dash() {
    assert_eq!(account_suffix("acme-c1").as_deref(), Some("c1"));
    assert_eq!(account_suffix("relay"), None);
    assert_eq!(account_suffix("a-b-c").as_deref(), Some("b-c"));
    assert_eq!(account_suffix("-c1"), None);
    assert_eq!(account_suffix("acme-"), None);
    assert_eq!(account_suffix(""), None);
    assert_eq!(account_suffix("é-ü").as_deref(), Some("ü"));
}

fn sample_catalog() -> ProviderCatalog {
    let configured = vec![
        ConfiguredProvider {
            id: "alpha".to_string(),
            order: None,
            label: Some("beta".to_string()),
            account: None,
            command: Some("alpha".to_string()),
            command_executable: true,
        },
        ConfiguredProvider {
            id: "beta".to_string(),
            order: None,
            label: None,
            account: None,
            command: None,
            command_executable: false,
        },
        ConfiguredProvider {
            id: "acme-c1".to_string(),
            order: None,
            label: Some("Acme".to_string()),
            account: None,
            command: Some("acme".to_string()),
            command_executable: true,
        },
    ];
    ProviderCatalog::load(&configured, None)
}

fn resolved(catalog: &ProviderCatalog, query: &str) -> Option<String> {
    catalog
        .resolve(query)
        .map(|e| e.selection.catalog_id().to_string())
}

#[test]
fn find_by_exact_catalog_id() {
    let catalog = sample_catalog();
    assert_eq!(catalog.find("beta").map(|e| e.selection.catalog_id()), Some("beta"));
    assert!(catalog.find("BETA").is_none());
    assert!(catalog.find(" beta").is_none());
    assert!(catalog.find("missing").is_none());
}

#[test]
fn resolve_prefers_exact_id_over_earlier_loose_match() {
    let catalog = sample_catalog();
    assert_eq!(resolved(&catalog, "beta").as_deref(), Some("beta"));
    assert_eq!(resolved(&catalog, "BETA").as_deref(), Some("alpha"));
}

#[test]
fn resolve_matches_label_and_row_text_ignoring_ascii_case() {
    let catalog = sample_catalog();
    assert_eq!(resolved(&catalog, "acme").as_deref(), Some("acme-c1"));
    assert_eq!(resolved(&catalog, "ACME · C1").as_deref(), Some("acme-c1"));
    assert_eq!(resolved(&catalog, "Acme-C1").as_deref(), Some("acme-c1"));
    assert_eq!(resolved(&catalog, "GROK").as_deref(), Some("grok"));
    assert_eq!(resolved(&catalog, "acm"), None);
}

#[test]
fn resolve_ignores_surrounding_space() {
    let catalog = sample_catalog();
    assert_eq!(resolved(&catalog, "  acme-c1\t\n").as_deref(), Some("acme-c1"));
    assert_eq!(resolved(&catalog, "\u{3000}beta\u{a0}").as_deref(), Some("beta"));
    assert_eq!(resolved(&catalog, " Acme "), resolved(&catalog, "Acme"));
}

#[test]
fn resolve_blank_is_none() {
    let catalog = sample_catalog();
    assert_eq!(resolved(&catalog, ""), None);
    assert_eq!(resolved(&catalog, "   \t"), None);
}

#[test]
fn default_catalog_is_empty() {
    assert!(ProviderCatalog::default().entries.is_empty());
}
