use xai_grok_pager::provider_catalog::{
    ConfiguredProvider, ProviderCatalog, ProviderCommandStatus, ProviderEntry, ProviderSelection,
};
use xai_grok_pager::provider_command::{
    build_provider_items, provider_row_display, Action, AppCtx, ArgItem, CommandExecCtx,
    CommandResult, ProviderCommand,
};

fn catalog() -> ProviderCatalog {
    let configured = vec![
        ConfiguredProvider {
            id: "acme-c1".to_string(),
            order: Some(1),
            label: Some("Acme".to_string()),
            account: None,
            command: Some("acme".to_string()),
            command_executable: true,
        },
        ConfiguredProvider {
            id: "relay".to_string(),
            order: None,
            label: None,
            account: None,
            command: Some("relay".to_string()),
            command_executable: false,
        },
    ];
    ProviderCatalog::load(&configured, Some("acme-c1"))
}

#[test]
fn command_metadata() {
    let command = ProviderCommand;
    assert_eq!(command.name(), "provider");
    assert_eq!(command.aliases(), &["p"]);
    assert_eq!(command.description(), "Switch agent provider");
    assert!(!command.session_scoped());
    assert!(command.offered_when_session_less());
    assert_eq!(command.usage(), "/provider <id or label>");
    assert!(command.takes_args());
    assert!(command.args_required());
    assert_eq!(command.arg_placeholder(), Some("<provider>"));
}

#[test]
fn items_one_per_entry_in_order() {
    let items = build_provider_items(&catalog());
    assert_eq!(
        items,
        vec![
            ArgItem {
                display: "Grok".to_string(),
                match_text: "grok Grok ".to_string(),
                insert_text: "grok".to_string(),
                description: String::new(),
            },
            ArgItem {
                display: "Acme (current) · c1".to_string(),
                match_text: "acme-c1 Acme c1".to_string(),
                insert_text: "acme-c1".to_string(),
                description: String::new(),
            },
            ArgItem {
                display: "relay".to_string(),
                match_text: "relay relay ".to_string(),
                insert_text: "relay".to_string(),
                description: "not installed".to_string(),
            },
        ]
    );
}

fn entry(active: bool, account: Option<&str>) -> ProviderEntry {
    ProviderEntry {
        selection: ProviderSelection::External("acme-c1".to_string()),
        label: "Acme".to_string(),
        account: account.map(str::to_string),
        command_status: ProviderCommandStatus::Available,
        active,
    }
}

#[test]
fn row_display_marks_current_before_account() {
    assert_eq!(provider_row_display(&entry(true, Some("c1"))), "Acme (current) · c1");
    assert_eq!(provider_row_display(&entry(true, Some(""))), "Acme (current)");
    assert_eq!(provider_row_display(&entry(true, None)), "Acme (current)");
    assert_eq!(provider_row_display(&entry(false, Some("c1"))), "Acme · c1");
    assert_eq!(provider_row_display(&entry(false, None)), "Acme");
}

#[test]
fn suggestions_none_for_empty_catalog() {
    let command = ProviderCommand;
    assert_eq!(command.suggest_provider_args(&AppCtx, &ProviderCatalog::default(), ""), None);
    let items = command.suggest_provider_args(&AppCtx, &catalog(), "cl").unwrap();
    assert_eq!(items.len(), 3);
    assert_eq!(items[1].insert_text, "acme-c1");
}

fn item(insert_text: &str) -> ArgItem {
    ArgItem {
        display: String::new(),
        match_text: String::new(),
        insert_text: insert_text.to_string(),
        description: String::new(),
    }
}

#[test]
fn selectable_follows_entry_status() {
    let command = ProviderCommand;
    let catalog = catalog();
    let items = build_provider_items(&catalog);
    let gates: Vec<bool> = items
        .iter()
        .map(|item| command.arg_item_selectable(&catalog, item))
        .collect();
    assert_eq!(gates, vec![true, true, false]);
    assert!(!command.arg_item_selectable(&catalog, &item("  relay ")));
    assert!(command.arg_item_selectable(&catalog, &item("unknown")));
    assert!(command.arg_item_selectable(&catalog, &item("RELAY")));
}

#[test]
fn picker_insert_text_resolves_to_its_row() {
    let catalog = catalog();
    for (index, item) in build_provider_items(&catalog).iter().enumerate() {
        let resolved = catalog.resolve(&item.insert_text).unwrap();
        assert_eq!(resolved, &catalog.entries[index]);
    }
}

#[test]
fn run_blank_is_usage_error() {
    let command = ProviderCommand;
    assert_eq!(
        command.run(&mut CommandExecCtx, "  \t "),
        CommandResult::Error("Usage: /provider <id or label>".to_string())
    );
    assert_eq!(
        command.run(&mut CommandExecCtx, ""),
        CommandResult::Error("Usage: /provider <id or label>".to_string())
    );
}

#[test]
fn run_switches_with_trimmed_query() {
    let command = ProviderCommand;
    assert_eq!(
        command.run(&mut CommandExecCtx, "  Acme · c1 \n"),
        CommandResult::Action(Action::SwitchProvider { query: "Acme · c1".to_string() })
    );
    assert_eq!(
        command.run(&mut CommandExecCtx, "relay"),
        CommandResult::Action(Action::SwitchProvider { query: "relay".to_string() })
    );
}

#[test]
fn run_query_resolves_like_typed_input() {
    let command = ProviderCommand;
    let catalog = catalog();
    let typed = "  ACME ";
    match command.run(&mut CommandExecCtx, typed) {
        CommandResult::Action(Action::SwitchProvider { query }) => {
            assert_eq!(catalog.resolve(&query), catalog.resolve(typed));
            assert_eq!(catalog.resolve(&query).unwrap().selection.catalog_id(), "acme-c1");
        }
        other => panic!("unexpected {other:?}"),
    }
}
