//! `/provider` (alias `/p`) — switch agent provider / account.
//!
//! The command offers one picker row per catalog entry, gates selection on
//! the entry's command status, and turns typed arguments into a switch
//! action whose query the router resolves against the live catalog.

use vstd::prelude::*;
use crate::provider_catalog::{
    first_with_id, ProviderCatalog, ProviderEntry,
};
use crate::text::{trim, trimmed};

verus! {

/// Application state a command may consult while offering suggestions; the
/// `/provider` command reads nothing from it.
pub struct AppCtx;

/// Application state a command may touch while it runs; the `/provider`
/// command touches nothing in it.
pub struct CommandExecCtx;

/// One argument suggestion offered by a slash command.
#[derive(Debug, Clone, PartialEq, Eq)]
pub struct ArgItem {
    /// Text shown in the picker row.
    pub display: String,
    /// Text typed input is matched against.
    pub match_text: String,
    /// Text inserted as the argument when the row is chosen.
    pub insert_text: String,
    /// Secondary text shown beside the row.
    pub description: String,
}

/// What the application does in response to a command.
#[derive(Debug, Clone, PartialEq, Eq)]
pub enum Action {
    /// Relaunch on the provider that `query` resolves to in the live catalog.
    SwitchProvider { query: String },
}

/// Outcome of running a slash command.
#[derive(Debug, Clone, PartialEq, Eq)]
pub enum CommandResult {
    /// The command was rejected; the message says why.
    Error(String),
    /// The command asks the application to act.
    Action(Action),
}

/// Usage line of the command.
pub open spec fn usage_text() -> Seq<char> {
    "/provider <id or label>"@
}

/// Message of the error a blank argument gets.
pub open spec fn usage_error_text() -> Seq<char> {
    "Usage: /provider <id or label>"@
}

/// Description of a row whose launch command is missing.
pub open spec fn not_installed_text() -> Seq<char> {
    "not installed"@
}

/// Picker label: active rows place `(current)` after the provider label, so
/// truncating a long account does not hide it; other rows show the row label.
pub open spec fn row_display_view(e: ProviderEntry) -> Seq<char> {
    if e.active {
        match e.account {
            Some(account) => if account@.len() > 0 {
                e.label@ + " (current) · "@ + account@
            } else {
                e.label@ + " (current)"@
            },
            None => e.label@ + " (current)"@,
        }
    } else {
        e.row_label_view()
    }
}

/// The account text of an entry, empty when it has none.
pub open spec fn account_or_empty(e: ProviderEntry) -> Seq<char> {
    match e.account {
        Some(account) => account@,
        None => Seq::empty(),
    }
}

/// `item` is the picker row of entry `e`.
pub open spec fn is_item_for(item: ArgItem, e: ProviderEntry) -> bool {
    &&& item.display@ == row_display_view(e)
    &&& item.match_text@ == e.selection.catalog_id_view() + " "@ + e.label@ + " "@ + account_or_empty(e)
    &&& item.insert_text@ == e.selection.catalog_id_view()
    &&& item.description@ == (if e.command_status.selectable() {
        Seq::<char>::empty()
    } else {
        not_installed_text()
    })
}

/// Whether a row may be chosen: the status of the entry its trimmed insert
/// text names, and yes when it names none.
pub open spec fn item_selectable(entries: Seq<ProviderEntry>, item: ArgItem) -> bool {
    let k = first_with_id(entries, trimmed(item.insert_text@), 0);
    if k < entries.len() {
        entries[k].command_status.selectable()
    } else {
        true
    }
}

/// Picker label. Active rows place `(current)` after the provider label so
/// truncation on long account text does not hide it.
pub fn provider_row_display(entry: &ProviderEntry) -> (r: String)
    ensures
        r@ == row_display_view(*entry),
{
    if entry.active {
        match &entry.account {
            Some(account) => {
                if !account.as_str().is_empty() {
                    let mut display = entry.label.clone();
                    display.append(" (current) · ");
                    display.append(account.as_str());
                    display
                } else {
                    let mut display = entry.label.clone();
                    display.append(" (current)");
                    display
                }
            },
            None => {
                let mut display = entry.label.clone();
                display.append(" (current)");
                display
            },
        }
    } else {
        entry.row_label()
    }
}

/// The picker row of one entry.
fn provider_item(entry: &ProviderEntry) -> (item: ArgItem)
    ensures
        is_item_for(item, *entry),
{
    let catalog_id = entry.selection.catalog_id();
    let display = provider_row_display(entry);
    let description = if entry.command_status.is_selectable() {
        String::new()
    } else {
        "not installed".to_owned()
    };
    let mut match_text = catalog_id.to_owned();
    match_text.append(" ");
    match_text.append(entry.label.as_str());
    match_text.append(" ");
    match &entry.account {
        Some(account) => match_text.append(account.as_str()),
        None => {
            proof {
                assert(match_text@ + Seq::<char>::empty() =~= match_text@);
            }
        },
    }
    ArgItem { display, match_text, insert_text: catalog_id.to_owned(), description }
}

/// One picker row per catalog entry, in catalog order.
pub fn build_provider_items(catalog: &ProviderCatalog) -> (items: Vec<ArgItem>)
    ensures
        items.len() == catalog.entries.len(),
        forall|i: int| 0 <= i < items.len() ==> is_item_for(#[trigger] items@[i], catalog.entries@[i]),
{
    let mut items: Vec<ArgItem> = Vec::new();
    let mut i: usize = 0;
    while i < catalog.entries.len()
        invariant
            i <= catalog.entries.len(),
            items.len() == i,
            forall|k: int| 0 <= k < i ==> is_item_for(#[trigger] items@[k], catalog.entries@[k]),
        decreases catalog.entries.len() - i,
    {
        let item = provider_item(&catalog.entries[i]);
        items.push(item);
        i += 1;
    }
    items
}

/// Switch the running pager to another configured agent provider.
pub struct ProviderCommand;

impl ProviderCommand {
    /// The command's name.
    pub fn name(&self) -> (r: &str)
        ensures
            r@ == "provider"@,
    {
        "provider"
    }

    /// Other names the command answers to.
    pub fn aliases(&self) -> (r: &[&str])
        ensures
            r@.len() == 1,
            r@[0]@ == "p"@,
    {
        let aliases: &[&str] = &["p"];
        aliases
    }

    /// One-line description.
    pub fn description(&self) -> (r: &str)
        ensures
            r@ == "Switch agent provider"@,
    {
        "Switch agent provider"
    }

    /// The command does not need a session.
    pub fn session_scoped(&self) -> (r: bool)
        ensures
            !r,
    {
        false
    }

    /// The command is offered before any session exists.
    pub fn offered_when_session_less(&self) -> (r: bool)
        ensures
            r,
    {
        true
    }

    /// Usage line.
    pub fn usage(&self) -> (r: &str)
        ensures
            r@ == usage_text(),
    {
        "/provider <id or label>"
    }

    /// The command takes an argument.
    pub fn takes_args(&self) -> (r: bool)
        ensures
            r,
    {
        true
    }

    /// The argument is required.
    pub fn args_required(&self) -> (r: bool)
        ensures
            r,
    {
        true
    }

    /// Placeholder shown for the missing argument.
    pub fn arg_placeholder(&self) -> (r: Option<&str>)
        ensures
            r matches Some(p) && p@ == "<provider>"@,
    {
        Some("<provider>")
    }

    /// Picker rows for the argument: none when the catalog is empty, else one
    /// row per entry in catalog order, whatever has been typed so far.
    pub fn suggest_provider_args(
        &self,
        _ctx: &AppCtx,
        catalog: &ProviderCatalog,
        _args_query: &str,
    ) -> (r: Option<Vec<ArgItem>>)
        ensures
            catalog.entries.len() == 0 ==> r is None,
            catalog.entries.len() > 0 ==> (r matches Some(items) && items.len() == catalog.entries.len()
                && forall|i: int| 0 <= i < items.len() ==> is_item_for(#[trigger] items@[i], catalog.entries@[i])),
    {
        if catalog.entries.len() == 0 {
            return None;
        }
        Some(build_provider_items(catalog))
    }

    /// A row may be chosen when the entry its insert text names can start,
    /// and when it names no entry.
    pub fn arg_item_selectable(&self, catalog: &ProviderCatalog, item: &ArgItem) -> (r: bool)
        ensures
            r == item_selectable(catalog.entries@, *item),
    {
        match catalog.find(trim(item.insert_text.as_str())) {
            Some(entry) => entry.command_status.is_selectable(),
            None => true,
        }
    }

    /// The catalog lives in the application view, so the raw query travels
    /// with the action and the router resolves it against the live catalog.
    pub fn run(&self, _ctx: &mut CommandExecCtx, args: &str) -> (r: CommandResult)
        ensures
            trimmed(args@).len() == 0 ==> (r matches CommandResult::Error(message) && message@
                == usage_error_text()),
            trimmed(args@).len() > 0 ==> (r matches CommandResult::Action(
                Action::SwitchProvider { query },
            ) && query@ == trimmed(args@)),
    {
        let trimmed_args = trim(args);
        if trimmed_args.is_empty() {
            return CommandResult::Error("Usage: /provider <id or label>".to_owned());
        }
        CommandResult::Action(Action::SwitchProvider { query: trimmed_args.to_owned() })
    }
}

} // verus!
