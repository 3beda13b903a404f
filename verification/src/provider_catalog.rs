//! Ordered catalog of selectable agent providers.
//!
//! The catalog pairs the native Grok agent with the providers configured under
//! `[external_providers]`, so that a provider picker has one ordered list with
//! stable ids, display labels, account slots and per-entry command
//! availability. Only what the launch command resolves to is consulted;
//! provider environment values are not part of the model at all.

use vstd::prelude::*;
use crate::text::{
    ascii_ci_eq, first_dash, lemma_first_dash_at, lemma_first_dash_none, trimmed, eq_ignore_ascii_case,
    split_once_dash, str_eq, trim,
};

verus! {

/// Catalog id of the built-in agent (not a `--provider` value).
pub const NATIVE_PROVIDER_ID: &'static str = "grok";

/// The characters of [`NATIVE_PROVIDER_ID`].
pub open spec fn native_id() -> Seq<char> {
    NATIVE_PROVIDER_ID@
}

/// Display label of the built-in agent.
pub open spec fn native_label() -> Seq<char> {
    "Grok"@
}

/// Separator between label and account in a row label.
pub open spec fn account_separator() -> Seq<char> {
    " · "@
}

/// The characters of an optional string slice.
pub open spec fn opt_str_view(o: Option<&str>) -> Option<Seq<char>> {
    match o {
        Some(s) => Some(s@),
        None => None,
    }
}

/// The characters of an optional string.
pub open spec fn opt_string_view(o: Option<String>) -> Option<Seq<char>> {
    match o {
        Some(s) => Some(s@),
        None => None,
    }
}

/// Which agent a catalog entry launches.
#[derive(Debug, Clone, PartialEq, Eq)]
pub enum ProviderSelection {
    /// The built-in Grok agent — relaunch without `--provider`.
    Native,
    /// A configured external ACP provider — relaunch with `--provider <id>`.
    External(String),
}

impl ProviderSelection {
    /// The `--provider` value: none for the native agent.
    pub open spec fn provider_id_view(self) -> Option<Seq<char>> {
        match self {
            ProviderSelection::Native => None,
            ProviderSelection::External(id) => Some(id@),
        }
    }

    /// The stable list key: `"grok"` for the native agent, else the id.
    pub open spec fn catalog_id_view(self) -> Seq<char> {
        match self {
            ProviderSelection::Native => native_id(),
            ProviderSelection::External(id) => id@,
        }
    }

    /// The `--provider` value, or `None` for the native agent.
    pub fn provider_id(&self) -> (r: Option<&str>)
        ensures
            opt_str_view(r) == self.provider_id_view(),
    {
        match self {
            ProviderSelection::Native => None,
            ProviderSelection::External(id) => Some(id.as_str()),
        }
    }

    /// Stable id usable as a list key (`"grok"` for the native agent).
    pub fn catalog_id(&self) -> (r: &str)
        ensures
            r@ == self.catalog_id_view(),
    {
        match self {
            ProviderSelection::Native => NATIVE_PROVIDER_ID,
            ProviderSelection::External(id) => id.as_str(),
        }
    }
}

/// Whether the entry's launch command can actually be executed.
#[derive(Debug, Clone, PartialEq, Eq, Structural)]
pub enum ProviderCommandStatus {
    /// The native agent is built in — nothing to resolve.
    BuiltIn,
    /// The command resolved to an executable file.
    Available,
    /// The command was not found on `PATH` (or at its absolute path).
    Missing,
}

impl ProviderCommandStatus {
    /// Selecting an entry with this status can be expected to start it.
    pub open spec fn selectable(self) -> bool {
        !(self is Missing)
    }

    /// True when selecting this entry can be expected to start.
    pub fn is_selectable(&self) -> (r: bool)
        ensures
            r == self.selectable(),
    {
        match self {
            ProviderCommandStatus::BuiltIn | ProviderCommandStatus::Available => true,
            ProviderCommandStatus::Missing => false,
        }
    }
}

/// One selectable row in the provider picker.
#[derive(Debug, Clone, PartialEq, Eq)]
pub struct ProviderEntry {
    /// What a switch to this entry launches.
    pub selection: ProviderSelection,
    /// Human-facing name (config `label`, else the id).
    pub label: String,
    /// Account slot for the entry (config `account`, else the id segment
    /// after the first `-`). Display text only, never a credential.
    pub account: Option<String>,
    /// Whether the launch command resolves to an executable.
    pub command_status: ProviderCommandStatus,
    /// Whether this entry is the provider the running process was started on.
    pub active: bool,
}

impl ProviderEntry {
    /// `"label · account"`, or just the label when the account is absent or empty.
    pub open spec fn row_label_view(self) -> Seq<char> {
        match self.account {
            Some(account) => if account@.len() > 0 {
                self.label@ + account_separator() + account@
            } else {
                self.label@
            },
            None => self.label@,
        }
    }

    /// Row text for pickers and typed matching: `"label · account"`, or just
    /// the label when the entry has no account slot.
    pub fn row_label(&self) -> (r: String)
        ensures
            r@ == self.row_label_view(),
            self.account is Some && self.account->0@.len() > 0 ==> r@ == self.label@ + " · "@ + self.account->0@,
            self.account is Some && self.account->0@.len() == 0 ==> r@ == self.label@,
            self.account is None ==> r@ == self.label@,
    {
        match &self.account {
            Some(account) => {
                if !account.as_str().is_empty() {
                    let mut row = self.label.clone();
                    row.append(" · ");
                    row.append(account.as_str());
                    row
                } else {
                    self.label.clone()
                }
            },
            None => self.label.clone(),
        }
    }
}

/// One table of `[external_providers]` as the catalog reads it: the table's
/// key, the `order`, `label`, `account` and `command` values where they are
/// present with the expected type, and whether the launch command was found
/// to resolve to an executable file.
#[derive(Debug, Clone, PartialEq, Eq)]
pub struct ConfiguredProvider {
    /// The provider id (the table key).
    pub id: String,
    /// Explicit position, smaller first.
    pub order: Option<i64>,
    /// Display label.
    pub label: Option<String>,
    /// Account slot.
    pub account: Option<String>,
    /// Launch command.
    pub command: Option<String>,
    /// Whether `command` resolved to an executable file when it was probed.
    pub command_executable: bool,
}

/// Account slot derived from an id: the text after the first `-`, when the
/// text before it and the text after it are both nonempty.
pub open spec fn account_suffix_of(id: Seq<char>) -> Option<Seq<char>> {
    let k = first_dash(id, 0);
    if 0 < k && k + 1 < id.len() {
        Some(id.subrange(k + 1, id.len() as int))
    } else {
        None
    }
}

/// Label of a configured provider: its `label`, else its id.
pub open spec fn configured_label(c: ConfiguredProvider) -> Seq<char> {
    match c.label {
        Some(label) => label@,
        None => c.id@,
    }
}

/// Account of a configured provider: its `account`, else the id suffix.
pub open spec fn configured_account(c: ConfiguredProvider) -> Option<Seq<char>> {
    match c.account {
        Some(account) => Some(account@),
        None => account_suffix_of(c.id@),
    }
}

/// Command status of a configured provider.
pub open spec fn configured_status(c: ConfiguredProvider) -> ProviderCommandStatus {
    if c.command is Some && c.command_executable {
        ProviderCommandStatus::Available
    } else {
        ProviderCommandStatus::Missing
    }
}

/// `e` is the native entry for a process started on `active`.
pub open spec fn is_native_entry(e: ProviderEntry, active: Option<Seq<char>>) -> bool {
    &&& e.selection is Native
    &&& e.label@ == native_label()
    &&& e.account is None
    &&& e.command_status == ProviderCommandStatus::BuiltIn
    &&& e.active == (active is None)
}

/// `e` is the entry of configured provider `c` for a process started on `active`.
pub open spec fn is_entry_for(e: ProviderEntry, c: ConfiguredProvider, active: Option<Seq<char>>) -> bool {
    &&& e.selection is External
    &&& e.selection.catalog_id_view() == c.id@
    &&& e.label@ == configured_label(c)
    &&& opt_string_view(e.account) == configured_account(c)
    &&& e.command_status == configured_status(c)
    &&& e.active == (active == Some(c.id@))
}

/// Configured provider `i` comes before configured provider `j`: providers
/// with an explicit `order` come first, by ascending order, then the others;
/// ties go by declaration position.
pub open spec fn precedes(cs: Seq<ConfiguredProvider>, i: int, j: int) -> bool {
    match (cs[i].order, cs[j].order) {
        (Some(a), Some(b)) => a < b || (a == b && i < j),
        (Some(_), None) => true,
        (None, Some(_)) => false,
        (None, None) => i < j,
    }
}

/// `perm` lists every position of `cs` once, in `precedes` order.
pub open spec fn is_arrangement(cs: Seq<ConfiguredProvider>, perm: Seq<int>) -> bool {
    &&& perm.len() == cs.len()
    &&& forall|k: int| 0 <= k < perm.len() ==> 0 <= #[trigger] perm[k] < cs.len()
    &&& forall|x: int| 0 <= x < cs.len() ==> #[trigger] perm.contains(x)
    &&& forall|a: int, b: int|
        0 <= a < b < perm.len() ==> precedes(cs, #[trigger] perm[a], #[trigger] perm[b])
}

/// `entries` is the catalog of `cs` for a process started on `active`: the
/// native entry first, then one entry per configured provider in `precedes`
/// order.
pub open spec fn is_catalog_of(
    entries: Seq<ProviderEntry>,
    cs: Seq<ConfiguredProvider>,
    active: Option<Seq<char>>,
) -> bool {
    &&& entries.len() == cs.len() + 1
    &&& is_native_entry(entries[0], active)
    &&& exists|perm: Seq<int>|
        {
            &&& is_arrangement(cs, perm)
            &&& forall|k: int|
                0 <= k < cs.len() ==> is_entry_for(#[trigger] entries[k + 1], cs[perm[k]], active)
        }
}

/// Position of the first entry at or after `from` whose catalog id is `id`,
/// or `s.len()` when there is none.
pub open spec fn first_with_id(s: Seq<ProviderEntry>, id: Seq<char>, from: int) -> int
    decreases s.len() - from,
{
    if from >= s.len() {
        s.len() as int
    } else if s[from].selection.catalog_id_view() == id {
        from
    } else {
        first_with_id(s, id, from + 1)
    }
}

/// The entry matches `q` up to ASCII case on its id, its label or its row label.
pub open spec fn loosely_matches(e: ProviderEntry, q: Seq<char>) -> bool {
    ||| ascii_ci_eq(e.selection.catalog_id_view(), q)
    ||| ascii_ci_eq(e.label@, q)
    ||| ascii_ci_eq(e.row_label_view(), q)
}

/// Position of the first entry at or after `from` that loosely matches `q`,
/// or `s.len()` when there is none.
pub open spec fn first_loose_match(s: Seq<ProviderEntry>, q: Seq<char>, from: int) -> int
    decreases s.len() - from,
{
    if from >= s.len() {
        s.len() as int
    } else if loosely_matches(s[from], q) {
        from
    } else {
        first_loose_match(s, q, from + 1)
    }
}

/// Position of the entry typed `/provider` input resolves to, or `s.len()`:
/// blank input resolves to nothing; otherwise the first exact catalog id
/// match of the trimmed input, else the first loose match.
pub open spec fn resolved_index(s: Seq<ProviderEntry>, query: Seq<char>) -> int {
    let q = trimmed(query);
    if q.len() == 0 {
        s.len() as int
    } else if first_with_id(s, q, 0) < s.len() {
        first_with_id(s, q, 0)
    } else {
        first_loose_match(s, q, 0)
    }
}

/// `/provider`-style account suffix of an id: `acme-c1` gives `c1`, `relay`
/// gives nothing.
pub fn account_suffix(id: &str) -> (r: Option<String>)
    ensures
        opt_string_view(r) == account_suffix_of(id@),
{
    match split_once_dash(id) {
        Some((family, account)) => {
            proof {
                let s = id@;
                let k = family@.len() as int;
                assert(s[k] == '-');
                assert forall|j: int| 0 <= j < k implies s[j] != '-' by {
                    assert(s[j] == family@[j]);
                }
                lemma_first_dash_at(s, 0, k);
                assert(s.subrange(k + 1, s.len() as int) =~= account@);
            }
            if !family.is_empty() && !account.is_empty() {
                Some(account.to_owned())
            } else {
                None
            }
        },
        None => {
            proof {
                assert forall|j: int| 0 <= j < id@.len() implies id@[j] != '-' by {
                    if id@[j] == '-' {
                        assert(id@.contains('-'));
                    }
                }
                lemma_first_dash_none(id@, 0);
            }
            None
        },
    }
}

/// Whether configured provider `i` comes before configured provider `j`.
fn precedes_exec(cs: &Vec<ConfiguredProvider>, i: usize, j: usize) -> (r: bool)
    requires
        i < cs.len(),
        j < cs.len(),
    ensures
        r == precedes(cs@, i as int, j as int),
{
    match (cs[i].order, cs[j].order) {
        (Some(a), Some(b)) => a < b || (a == b && i < j),
        (Some(_), None) => true,
        (None, Some(_)) => false,
        (None, None) => i < j,
    }
}

/// `precedes` is a strict total order on the positions of `cs`.
pub proof fn lemma_precedes_strict_total(cs: Seq<ConfiguredProvider>)
    ensures
        forall|i: int| !#[trigger] precedes(cs, i, i),
        forall|i: int, j: int| #[trigger] precedes(cs, i, j) ==> !precedes(cs, j, i),
        forall|i: int, j: int| i != j ==> #[trigger] precedes(cs, i, j) || precedes(cs, j, i),
        forall|i: int, j: int, k: int|
            #[trigger] precedes(cs, i, j) && #[trigger] precedes(cs, j, k) ==> precedes(cs, i, k),
{
}

/// Build the entry of one configured provider.
fn configured_entry(c: &ConfiguredProvider, active_provider: Option<&str>) -> (e: ProviderEntry)
    ensures
        is_entry_for(e, *c, opt_str_view(active_provider)),
{
    let label = match &c.label {
        Some(label) => label.clone(),
        None => c.id.clone(),
    };
    let account = match &c.account {
        Some(account) => Some(account.clone()),
        None => account_suffix(c.id.as_str()),
    };
    let command_status = if c.command.is_some() && c.command_executable {
        ProviderCommandStatus::Available
    } else {
        ProviderCommandStatus::Missing
    };
    let active = match active_provider {
        Some(provider) => str_eq(provider, c.id.as_str()),
        None => false,
    };
    ProviderEntry {
        selection: ProviderSelection::External(c.id.clone()),
        label,
        account,
        command_status,
        active,
    }
}

/// Positions `0..n` of `cs` in `precedes` order.
fn arrange(cs: &Vec<ConfiguredProvider>) -> (order: Vec<usize>)
    ensures
        is_arrangement(cs@, order@.map_values(|v: usize| v as int)),
{
    let n = cs.len();
    let mut order: Vec<usize> = Vec::new();
    let mut i: usize = 0;
    while i < n
        invariant
            i <= n,
            n == cs.len(),
            order.len() == i,
            forall|k: int| 0 <= k < i ==> order@[k] == k,
        decreases n - i,
    {
        order.push(i);
        i += 1;
    }
    proof {
        lemma_precedes_strict_total(cs@);
        assert forall|x: int| 0 <= x < n implies #[trigger] order@.contains(x as usize) by {
            assert(order@[x] == x);
        }
        assert forall|a: int, b: int| 0 <= a < n && 0 <= b < n && a != b implies #[trigger] order@[a] != #[trigger] order@[b] by {
            assert(order@[a] == a);
            assert(order@[b] == b);
        }
    }
    let mut i: usize = 1;
    while i < n
        invariant
            n == cs.len(),
            order.len() == n,
            forall|k: int| 0 <= k < n ==> #[trigger] order@[k] < n,
            forall|x: int| 0 <= x < n ==> #[trigger] order@.contains(x as usize),
            forall|a: int, b: int| 0 <= a < n && 0 <= b < n && a != b ==> #[trigger] order@[a] != #[trigger] order@[b],
            forall|a: int, b: int|
                0 <= a < b < i && b < n ==> precedes(cs@, #[trigger] order@[a] as int, #[trigger] order@[b] as int),
            forall|i: int| !#[trigger] precedes(cs@, i, i),
            forall|i: int, j: int| #[trigger] precedes(cs@, i, j) ==> !precedes(cs@, j, i),
            forall|i: int, j: int| i != j ==> #[trigger] precedes(cs@, i, j) || precedes(cs@, j, i),
            forall|i: int, j: int, k: int|
                #[trigger] precedes(cs@, i, j) && #[trigger] precedes(cs@, j, k) ==> precedes(cs@, i, k),
        decreases n - i,
    {
        let mut j: usize = i;
        while j > 0 && precedes_exec(cs, order[j], order[j - 1])
            invariant
                n == cs.len(),
                order.len() == n,
                0 <= j <= i < n,
                forall|k: int| 0 <= k < n ==> #[trigger] order@[k] < n,
                forall|x: int| 0 <= x < n ==> #[trigger] order@.contains(x as usize),
                forall|a: int, b: int| 0 <= a < n && 0 <= b < n && a != b ==> #[trigger] order@[a] != #[trigger] order@[b],
                forall|a: int, b: int|
                    0 <= a < b < j ==> precedes(cs@, #[trigger] order@[a] as int, #[trigger] order@[b] as int),
                forall|a: int, b: int|
                    j < a < b <= i ==> precedes(cs@, #[trigger] order@[a] as int, #[trigger] order@[b] as int),
                forall|a: int, b: int|
                    0 <= a < j < b <= i ==> precedes(cs@, #[trigger] order@[a] as int, #[trigger] order@[b] as int),
                forall|b: int| j < b <= i ==> precedes(cs@, order@[j as int] as int, #[trigger] order@[b] as int),
                forall|i: int| !#[trigger] precedes(cs@, i, i),
                forall|i: int, j: int| #[trigger] precedes(cs@, i, j) ==> !precedes(cs@, j, i),
                forall|i: int, j: int| i != j ==> #[trigger] precedes(cs@, i, j) || precedes(cs@, j, i),
                forall|i: int, j: int, k: int|
                    #[trigger] precedes(cs@, i, j) && #[trigger] precedes(cs@, j, k) ==> precedes(cs@, i, k),
            decreases j,
        {
            let moving = order[j];
            let before = order[j - 1];
            let ghost old_order = order@;
            order.set(j, before);
            order.set(j - 1, moving);
            proof {
                assert forall|x: int| 0 <= x < n implies #[trigger] order@.contains(x as usize) by {
                    assert(old_order.contains(x as usize));
                    let w = choose|w: int| 0 <= w < old_order.len() && old_order[w] == x as usize;
                    if w == j as int {
                        assert(order@[j - 1] == x as usize);
                    } else if w == j - 1 {
                        assert(order@[j as int] == x as usize);
                    } else {
                        assert(order@[w] == x as usize);
                    }
                }
                assert forall|a: int, b: int| 0 <= a < n && 0 <= b < n && a != b implies #[trigger] order@[a] != #[trigger] order@[b] by {
                    let oa = if a == j as int { j - 1 } else if a == j - 1 { j as int } else { a };
                    let ob = if b == j as int { j - 1 } else if b == j - 1 { j as int } else { b };
                    assert(order@[a] == old_order[oa]);
                    assert(order@[b] == old_order[ob]);
                }
                assert forall|a: int, b: int| j - 1 < a < b <= i implies precedes(cs@, #[trigger] order@[a] as int, #[trigger] order@[b] as int) by {
                    if a == j as int {
                        assert(precedes(cs@, old_order[j - 1] as int, old_order[b] as int));
                    }
                }
                assert forall|a: int, b: int| 0 <= a < j - 1 < b <= i implies precedes(cs@, #[trigger] order@[a] as int, #[trigger] order@[b] as int) by {
                    if b == j as int {
                        assert(precedes(cs@, old_order[a] as int, old_order[j - 1] as int));
                    } else {
                        assert(precedes(cs@, old_order[a] as int, old_order[b] as int));
                    }
                }
                assert forall|b: int| j - 1 < b <= i implies precedes(cs@, order@[j - 1] as int, #[trigger] order@[b] as int) by {
                    if b > j {
                        assert(precedes(cs@, old_order[j as int] as int, old_order[b] as int));
                    }
                }
            }
            j -= 1;
        }
        proof {
            if j > 0 {
                assert(order@[j - 1] != order@[j as int]);
                assert(precedes(cs@, order@[j - 1] as int, order@[j as int] as int));
            }
            assert forall|a: int, b: int|
                0 <= a < b < i + 1 && b < n implies precedes(cs@, #[trigger] order@[a] as int, #[trigger] order@[b] as int) by {
                if b < j {
                } else if b == j {
                    if a < j - 1 {
                        assert(precedes(cs@, order@[a] as int, order@[j - 1] as int));
                    }
                } else if a < j {
                } else if a == j {
                } else {
                }
            }
        }
        i += 1;
    }
    let ghost perm = order@.map_values(|v: usize| v as int);
    proof {
        assert forall|x: int| 0 <= x < cs.len() implies #[trigger] perm.contains(x) by {
            assert(order@.contains(x as usize));
            let w = choose|w: int| 0 <= w < order@.len() && order@[w] == x as usize;
            assert(perm[w] == x);
        }
        assert forall|a: int, b: int| 0 <= a < b < perm.len() implies precedes(cs@, #[trigger] perm[a], #[trigger] perm[b]) by {
            if n > 0 {
                assert(precedes(cs@, order@[a] as int, order@[b] as int));
            }
        }
    }
    order
}

/// Ordered provider list plus the active selection.
#[derive(Debug, Clone, PartialEq, Eq)]
pub struct ProviderCatalog {
    /// Native agent first, then configured providers in `order` then config
    /// declaration order.
    pub entries: Vec<ProviderEntry>,
}

impl Default for ProviderCatalog {
    fn default() -> (catalog: Self)
        ensures
            catalog.entries@.len() == 0,
    {
        ProviderCatalog { entries: Vec::new() }
    }
}

impl ProviderCatalog {
    /// Build the catalog from the configured providers, in declaration order.
    ///
    /// `active_provider` is the `--provider` value this process started with
    /// (`None` = native Grok).
    pub fn load(configured: &Vec<ConfiguredProvider>, active_provider: Option<&str>) -> (catalog: Self)
        ensures
            is_catalog_of(catalog.entries@, configured@, opt_str_view(active_provider)),
    {
        let ghost active = opt_str_view(active_provider);
        let mut entries: Vec<ProviderEntry> = Vec::new();
        entries.push(
            ProviderEntry {
                selection: ProviderSelection::Native,
                label: "Grok".to_owned(),
                account: None,
                command_status: ProviderCommandStatus::BuiltIn,
                active: active_provider.is_none(),
            },
        );
        let order = arrange(configured);
        let ghost perm = order@.map_values(|v: usize| v as int);
        let n = configured.len();
        let mut k: usize = 0;
        while k < n
            invariant
                n == configured.len(),
                order.len() == n,
                perm == order@.map_values(|v: usize| v as int),
                active == opt_str_view(active_provider),
                is_arrangement(configured@, perm),
                entries.len() == k + 1,
                k <= n,
                is_native_entry(entries@[0], active),
                forall|m: int|
                    0 <= m < k ==> is_entry_for(#[trigger] entries@[m + 1], configured@[perm[m]], active),
            decreases n - k,
        {
            assert(perm[k as int] == order@[k as int] as int);
            let entry = configured_entry(&configured[order[k]], active_provider);
            let ghost before = entries@;
            entries.push(entry);
            proof {
                assert forall|m: int| 0 <= m < k + 1 implies is_entry_for(#[trigger] entries@[m + 1], configured@[perm[m]], active) by {
                    if m < k {
                        assert(entries@[m + 1] == before[m + 1]);
                    } else {
                        assert(entries@[m + 1] == entry);
                        assert(perm[m] == order@[m] as int);
                    }
                }
            }
            k += 1;
        }
        ProviderCatalog { entries }
    }

    /// Look up an entry by catalog id (`"grok"` selects the native agent).
    pub fn find(&self, catalog_id: &str) -> (r: Option<&ProviderEntry>)
        ensures
            ({
                let k = first_with_id(self.entries@, catalog_id@, 0);
                if k < self.entries@.len() {
                    r matches Some(e) && *e == self.entries@[k]
                } else {
                    r is None
                }
            }),
    {
        let mut i: usize = 0;
        while i < self.entries.len()
            invariant
                i <= self.entries.len(),
                first_with_id(self.entries@, catalog_id@, 0) == first_with_id(self.entries@, catalog_id@, i as int),
            decreases self.entries.len() - i,
        {
            if str_eq(self.entries[i].selection.catalog_id(), catalog_id) {
                return Some(&self.entries[i]);
            }
            i += 1;
        }
        None
    }

    /// Resolve typed `/provider` input: exact catalog id first, then a
    /// case-insensitive match on the id, the label, or the rendered
    /// "label · account" row text.
    pub fn resolve(&self, query: &str) -> (r: Option<&ProviderEntry>)
        ensures
            ({
                let k = resolved_index(self.entries@, query@);
                if k < self.entries@.len() {
                    r matches Some(e) && *e == self.entries@[k]
                } else {
                    r is None
                }
            }),
    {
        let q = trim(query);
        if q.is_empty() {
            return None;
        }
        if let Some(entry) = self.find(q) {
            return Some(entry);
        }
        let mut i: usize = 0;
        while i < self.entries.len()
            invariant
                i <= self.entries.len(),
                q@ == trimmed(query@),
                q@.len() > 0,
                first_with_id(self.entries@, q@, 0) >= self.entries@.len(),
                first_loose_match(self.entries@, q@, 0) == first_loose_match(self.entries@, q@, i as int),
            decreases self.entries.len() - i,
        {
            let entry = &self.entries[i];
            if eq_ignore_ascii_case(entry.selection.catalog_id(), q)
                || eq_ignore_ascii_case(entry.label.as_str(), q)
                || eq_ignore_ascii_case(entry.row_label().as_str(), q)
            {
                return Some(entry);
            }
            i += 1;
        }
        None
    }
}

} // verus!
