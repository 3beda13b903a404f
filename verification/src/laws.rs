//! Properties of the catalog and of the `/provider` command that span several
//! functions or every input.

use vstd::prelude::*;
use crate::provider_catalog::{
    first_with_id, is_arrangement, is_catalog_of, is_entry_for, is_native_entry,
    lemma_precedes_strict_total, native_id, opt_string_view, precedes, resolved_index,
    ConfiguredProvider, ProviderEntry, ProviderSelection,
};
use crate::provider_catalog::{first_loose_match, loosely_matches, ProviderCommandStatus};
use crate::provider_command::{
    account_or_empty, is_item_for, item_selectable, row_display_view, ArgItem,
};
use crate::text::{
    ascii_ci_eq, first_dash, lemma_first_dash_at, lemma_first_dash_none, lemma_trimmed_idempotent,
    trimmed,
};

verus! {

/// Two arrangements of the same configured providers agree up to position `k`.
proof fn lemma_arrangements_agree_to(cs: Seq<ConfiguredProvider>, p1: Seq<int>, p2: Seq<int>, k: int)
    requires
        is_arrangement(cs, p1),
        is_arrangement(cs, p2),
        0 <= k < cs.len(),
    ensures
        forall|m: int| 0 <= m <= k ==> p1[m] == p2[m],
    decreases k,
{
    lemma_precedes_strict_total(cs);
    if k > 0 {
        lemma_arrangements_agree_to(cs, p1, p2, k - 1);
    }
    let a = p1[k];
    let b = p2[k];
    if a != b {
        assert(p2.contains(a));
        let w = choose|w: int| 0 <= w < p2.len() && p2[w] == a;
        if w < k {
            assert(p1[w] == a);
            assert(precedes(cs, p1[w], p1[k]));
        }
        assert(w > k);
        assert(precedes(cs, b, a));
        assert(p1.contains(b));
        let v = choose|v: int| 0 <= v < p1.len() && p1[v] == b;
        if v < k {
            assert(p2[v] == b);
            assert(precedes(cs, p2[v], p2[k]));
        }
        assert(v > k);
        assert(precedes(cs, a, b));
    }
}

/// The order of configured providers in a catalog is fully determined by
/// their `order` values and declaration positions: any two arrangements of
/// the same providers are the same.
pub proof fn law_arrangement_is_unique(cs: Seq<ConfiguredProvider>, p1: Seq<int>, p2: Seq<int>)
    requires
        is_arrangement(cs, p1),
        is_arrangement(cs, p2),
    ensures
        p1 == p2,
{
    if cs.len() > 0 {
        lemma_arrangements_agree_to(cs, p1, p2, cs.len() - 1);
    }
    assert(p1 =~= p2);
}

/// The same, stated of two entries.
pub open spec fn same_entry(a: ProviderEntry, b: ProviderEntry) -> bool {
    &&& (a.selection is Native) == (b.selection is Native)
    &&& a.selection.catalog_id_view() == b.selection.catalog_id_view()
    &&& a.label@ == b.label@
    &&& opt_string_view(a.account) == opt_string_view(b.account)
    &&& a.command_status == b.command_status
    &&& a.active == b.active
}

/// A catalog is determined by the configured providers and the active
/// provider: two catalogs of the same inputs show the same rows in the same
/// order.
pub proof fn law_catalog_is_determined(
    cs: Seq<ConfiguredProvider>,
    active: Option<Seq<char>>,
    e1: Seq<ProviderEntry>,
    e2: Seq<ProviderEntry>,
)
    requires
        is_catalog_of(e1, cs, active),
        is_catalog_of(e2, cs, active),
    ensures
        e1.len() == e2.len(),
        forall|k: int| 0 <= k < e1.len() ==> same_entry(#[trigger] e1[k], e2[k]),
{
    let p1 = choose|perm: Seq<int>|
        {
            &&& is_arrangement(cs, perm)
            &&& forall|k: int| 0 <= k < cs.len() ==> is_entry_for(#[trigger] e1[k + 1], cs[perm[k]], active)
        };
    let p2 = choose|perm: Seq<int>|
        {
            &&& is_arrangement(cs, perm)
            &&& forall|k: int| 0 <= k < cs.len() ==> is_entry_for(#[trigger] e2[k + 1], cs[perm[k]], active)
        };
    law_arrangement_is_unique(cs, p1, p2);
    assert forall|k: int| 0 <= k < e1.len() implies same_entry(#[trigger] e1[k], e2[k]) by {
        if k > 0 {
            assert(is_entry_for(e1[(k - 1) + 1], cs[p1[k - 1]], active));
            assert(is_entry_for(e2[(k - 1) + 1], cs[p2[k - 1]], active));
        }
    }
}

/// The native agent is the first entry of every catalog, and the only
/// native one; catalog id `"grok"` finds it.
pub proof fn law_native_entry_comes_first(
    entries: Seq<ProviderEntry>,
    cs: Seq<ConfiguredProvider>,
    active: Option<Seq<char>>,
)
    requires
        is_catalog_of(entries, cs, active),
    ensures
        entries.len() == cs.len() + 1,
        entries[0].selection is Native,
        entries[0].selection.provider_id_view() is None,
        entries[0].selection.catalog_id_view() == "grok"@,
        entries[0].label@ == "Grok"@,
        entries[0].account is None,
        entries[0].command_status == ProviderCommandStatus::BuiltIn,
        entries[0].active <==> active is None,
        forall|k: int| 0 < k < entries.len() ==> (#[trigger] entries[k]).selection is External,
        first_with_id(entries, native_id(), 0) == 0,
{
    let perm = choose|perm: Seq<int>|
        {
            &&& is_arrangement(cs, perm)
            &&& forall|k: int| 0 <= k < cs.len() ==> is_entry_for(#[trigger] entries[k + 1], cs[perm[k]], active)
        };
    assert forall|k: int| 0 < k < entries.len() implies (#[trigger] entries[k]).selection is External by {
        assert(is_entry_for(entries[(k - 1) + 1], cs[perm[k - 1]], active));
    }
}

/// Every configured provider has exactly one row: for each position of `cs`
/// there is a row built from it, and distinct rows come from distinct
/// positions.
pub proof fn law_each_provider_listed_once(
    entries: Seq<ProviderEntry>,
    cs: Seq<ConfiguredProvider>,
    active: Option<Seq<char>>,
)
    requires
        is_catalog_of(entries, cs, active),
    ensures
        exists|perm: Seq<int>|
            {
                &&& perm.len() == cs.len()
                &&& forall|x: int| 0 <= x < cs.len() ==> #[trigger] perm.contains(x)
                &&& forall|a: int, b: int| 0 <= a < b < perm.len() ==> #[trigger] perm[a] != #[trigger] perm[b]
                &&& forall|k: int| 0 <= k < cs.len() ==> is_entry_for(#[trigger] entries[k + 1], cs[perm[k]], active)
            },
{
    lemma_precedes_strict_total(cs);
    let perm = choose|perm: Seq<int>|
        {
            &&& is_arrangement(cs, perm)
            &&& forall|k: int| 0 <= k < cs.len() ==> is_entry_for(#[trigger] entries[k + 1], cs[perm[k]], active)
        };
    assert forall|a: int, b: int| 0 <= a < b < perm.len() implies #[trigger] perm[a] != #[trigger] perm[b] by {
        assert(precedes(cs, perm[a], perm[b]));
    }
}

/// When the configured ids are distinct, at most one row is marked active;
/// the native row is the active one exactly when the process was started
/// without `--provider`, and a configured provider's row is the active one
/// exactly when the process was started on its id.
pub proof fn law_at_most_one_active(
    entries: Seq<ProviderEntry>,
    cs: Seq<ConfiguredProvider>,
    active: Option<Seq<char>>,
)
    requires
        is_catalog_of(entries, cs, active),
        forall|i: int, j: int| 0 <= i < j < cs.len() ==> (#[trigger] cs[i]).id@ != (#[trigger] cs[j]).id@,
    ensures
        forall|a: int, b: int|
            0 <= a < b < entries.len() ==> !((#[trigger] entries[a]).active && (#[trigger] entries[b]).active),
        entries[0].active <==> active is None,
        forall|k: int|
            0 < k < entries.len() ==> ((#[trigger] entries[k]).active <==> active
                == Some(entries[k].selection.catalog_id_view())),
{
    lemma_precedes_strict_total(cs);
    let perm = choose|perm: Seq<int>|
        {
            &&& is_arrangement(cs, perm)
            &&& forall|k: int| 0 <= k < cs.len() ==> is_entry_for(#[trigger] entries[k + 1], cs[perm[k]], active)
        };
    assert forall|k: int| 0 < k < entries.len() implies ((#[trigger] entries[k]).active <==> active
        == Some(entries[k].selection.catalog_id_view())) by {
        assert(is_entry_for(entries[(k - 1) + 1], cs[perm[k - 1]], active));
    }
    assert forall|a: int, b: int| 0 <= a < b < entries.len() implies !((#[trigger] entries[a]).active
        && (#[trigger] entries[b]).active) by {
        assert(is_entry_for(entries[(b - 1) + 1], cs[perm[b - 1]], active));
        if a > 0 {
            assert(is_entry_for(entries[(a - 1) + 1], cs[perm[a - 1]], active));
            assert(precedes(cs, perm[a - 1], perm[b - 1]));
            if entries[a].active && entries[b].active {
                let i = perm[a - 1];
                let j = perm[b - 1];
                assert(cs[i].id@ == cs[j].id@);
                if i < j {
                    assert(cs[i].id@ != cs[j].id@);
                } else {
                    assert(cs[j].id@ != cs[i].id@);
                }
            }
        }
    }
}

/// The first entry with catalog id `id` at or after `from` does not lie
/// beyond an entry `k` that has it, and has it.
proof fn lemma_first_with_id_bound(s: Seq<ProviderEntry>, id: Seq<char>, from: int, k: int)
    requires
        0 <= from <= k < s.len(),
        s[k].selection.catalog_id_view() == id,
    ensures
        from <= first_with_id(s, id, from) <= k,
        s[first_with_id(s, id, from)].selection.catalog_id_view() == id,
        forall|j: int| from <= j < first_with_id(s, id, from) ==> s[j].selection.catalog_id_view() != id,
    decreases k - from,
{
    if s[from].selection.catalog_id_view() != id {
        lemma_first_with_id_bound(s, id, from + 1, k);
    }
}

/// Typed input resolves exactly as the same input without surrounding white
/// space does.
pub proof fn law_resolve_ignores_surrounding_space(s: Seq<ProviderEntry>, query: Seq<char>)
    ensures
        resolved_index(s, trimmed(query)) == resolved_index(s, query),
{
    lemma_trimmed_idempotent(query);
}

/// Typing a catalog id (one that is nonempty and has no surrounding white
/// space) resolves to the first entry with that id, even when another entry
/// matches it loosely earlier.
pub proof fn law_resolve_prefers_exact_id(s: Seq<ProviderEntry>, k: int)
    requires
        0 <= k < s.len(),
        s[k].selection.catalog_id_view().len() > 0,
        trimmed(s[k].selection.catalog_id_view()) == s[k].selection.catalog_id_view(),
    ensures
        ({
            let id = s[k].selection.catalog_id_view();
            let r = resolved_index(s, id);
            &&& r <= k
            &&& s[r].selection.catalog_id_view() == id
            &&& forall|j: int| 0 <= j < r ==> s[j].selection.catalog_id_view() != id
        }),
{
    lemma_first_with_id_bound(s, s[k].selection.catalog_id_view(), 0, k);
}

/// When catalog ids are distinct and free of surrounding white space, the
/// picker row offered for entry `k` may be chosen exactly when entry `k`'s
/// command can start, and choosing it (typing its insert text) resolves to
/// entry `k`.
pub proof fn law_picker_row_gates_on_its_entry(s: Seq<ProviderEntry>, k: int, item: ArgItem)
    requires
        0 <= k < s.len(),
        is_item_for(item, s[k]),
        trimmed(s[k].selection.catalog_id_view()) == s[k].selection.catalog_id_view(),
        forall|i: int, j: int|
            0 <= i < j < s.len() ==> (#[trigger] s[i]).selection.catalog_id_view() != (#[trigger] s[j]).selection.catalog_id_view(),
    ensures
        item_selectable(s, item) == s[k].command_status.selectable(),
        item.insert_text@.len() > 0 ==> resolved_index(s, item.insert_text@) == k,
{
    let id = item.insert_text@;
    lemma_first_with_id_bound(s, id, 0, k);
    let r = first_with_id(s, id, 0);
    if r < k {
        assert(s[r].selection.catalog_id_view() != s[k].selection.catalog_id_view());
    }
}

/// Rows of configured providers follow their `order` values: a row without
/// an `order` is followed only by rows without one; of two rows that both
/// have one, the earlier has the smaller or equal value, and a strictly
/// smaller value always comes first, whatever the values are; rows with the
/// same `order` (or none) keep declaration order.
pub proof fn law_rows_follow_explicit_order(
    entries: Seq<ProviderEntry>,
    cs: Seq<ConfiguredProvider>,
    active: Option<Seq<char>>,
)
    requires
        is_catalog_of(entries, cs, active),
    ensures
        exists|perm: Seq<int>|
            {
                &&& perm.len() == cs.len()
                &&& forall|k: int| 0 <= k < cs.len() ==> 0 <= #[trigger] perm[k] < cs.len()
                &&& forall|k: int| 0 <= k < cs.len() ==> is_entry_for(#[trigger] entries[k + 1], cs[perm[k]], active)
                &&& forall|k1: int, k2: int|
                    0 <= k1 < k2 < cs.len() ==> {
                        &&& (cs[#[trigger] perm[k1]].order is None ==> cs[#[trigger] perm[k2]].order is None && perm[k1] < perm[k2])
                        &&& (cs[perm[k1]].order is Some && cs[perm[k2]].order is Some ==> cs[perm[k1]].order->0 <= cs[perm[k2]].order->0)
                        &&& (cs[perm[k1]].order == cs[perm[k2]].order ==> perm[k1] < perm[k2])
                    }
                &&& forall|k1: int, k2: int|
                    0 <= k1 < cs.len() && 0 <= k2 < cs.len() && cs[#[trigger] perm[k1]].order is Some
                        && cs[#[trigger] perm[k2]].order is Some && cs[perm[k1]].order->0 < cs[perm[k2]].order->0 ==> k1 < k2
            },
{
    let perm = choose|perm: Seq<int>|
        {
            &&& is_arrangement(cs, perm)
            &&& forall|k: int| 0 <= k < cs.len() ==> is_entry_for(#[trigger] entries[k + 1], cs[perm[k]], active)
        };
    assert forall|k1: int, k2: int| 0 <= k1 < k2 < cs.len() implies {
        &&& (cs[#[trigger] perm[k1]].order is None ==> cs[#[trigger] perm[k2]].order is None && perm[k1] < perm[k2])
        &&& (cs[perm[k1]].order is Some && cs[perm[k2]].order is Some ==> cs[perm[k1]].order->0 <= cs[perm[k2]].order->0)
        &&& (cs[perm[k1]].order == cs[perm[k2]].order ==> perm[k1] < perm[k2])
    } by {
        assert(precedes(cs, perm[k1], perm[k2]));
    }
    assert forall|k1: int, k2: int|
        0 <= k1 < cs.len() && 0 <= k2 < cs.len() && cs[#[trigger] perm[k1]].order is Some
            && cs[#[trigger] perm[k2]].order is Some && cs[perm[k1]].order->0 < cs[perm[k2]].order->0 implies k1 < k2 by {
        if k2 < k1 {
            assert(precedes(cs, perm[k2], perm[k1]));
        }
        if k1 == k2 {
            assert(cs[perm[k1]].order->0 == cs[perm[k2]].order->0);
        }
    }
}

/// The row of a configured provider shows its configured fields: its id, its
/// `label` or else its id, its `account` or else (whether or not a label is
/// set) the text after the first `-` of its id when the text before and the
/// text after are both nonempty, and no account when the id has no `-`; its
/// command counts as available exactly when one is set and resolved.
pub proof fn law_row_fields_of_configured_provider(
    e: ProviderEntry,
    c: ConfiguredProvider,
    active: Option<Seq<char>>,
    family: Seq<char>,
    suffix: Seq<char>,
)
    requires
        is_entry_for(e, c, active),
    ensures
        e.selection.catalog_id_view() == c.id@,
        e.selection.provider_id_view() == Some(c.id@),
        c.label matches Some(label) ==> e.label@ == label@,
        c.label is None ==> e.label@ == c.id@,
        c.account matches Some(account) ==> opt_string_view(e.account) == Some(account@),
        c.account is None && c.id@ == family + seq!['-'] + suffix && family.len() > 0 && !family.contains('-')
            && suffix.len() > 0 ==> opt_string_view(e.account) == Some(suffix),
        c.account is None && !c.id@.contains('-') ==> e.account is None,
        (e.command_status == ProviderCommandStatus::Available) <==> (c.command is Some && c.command_executable),
        (e.command_status == ProviderCommandStatus::Missing) <==> !(c.command is Some && c.command_executable),
        e.active <==> active == Some(c.id@),
{
    let id = c.id@;
    if c.account is None && id == family + seq!['-'] + suffix && family.len() > 0 && !family.contains('-')
        && suffix.len() > 0 {
        let k = family.len() as int;
        assert(id[k] == '-');
        assert forall|j: int| 0 <= j < k implies id[j] != '-' by {
            assert(id[j] == family[j]);
            if family[j] == '-' {
                assert(family.contains('-'));
            }
        }
        lemma_first_dash_at(id, 0, k);
        assert(id.subrange(k + 1, id.len() as int) =~= suffix);
    }
    if c.account is None && !id.contains('-') {
        assert forall|j: int| 0 <= j < id.len() implies id[j] != '-' by {
            if id[j] == '-' {
                assert(id.contains('-'));
            }
        }
        lemma_first_dash_none(id, 0);
    }
}

/// The row label is `label · account` whenever the account is present and
/// nonempty, and the label alone otherwise, whatever the entry selects.
pub proof fn law_row_label_joins_label_and_account(e: ProviderEntry)
    ensures
        e.account is Some && e.account->0@.len() > 0 ==> e.row_label_view() == e.label@ + " · "@ + e.account->0@,
        !(e.account is Some && e.account->0@.len() > 0) ==> e.row_label_view() == e.label@,
{
}

/// Every active row, the native one included, shows its label followed by
/// ` (current)` first in the picker, then ` · account` when it has a
/// nonempty account; an inactive row shows its row label.
pub proof fn law_active_row_marked_current(e: ProviderEntry)
    ensures
        e.active ==> (e.label@ + " (current)"@).is_prefix_of(row_display_view(e)),
        e.active && (e.account is Some && e.account->0@.len() > 0) ==> row_display_view(e)
            == e.label@ + " (current)"@ + " · "@ + e.account->0@,
        e.active && !(e.account is Some && e.account->0@.len() > 0) ==> row_display_view(e)
            == e.label@ + " (current)"@,
        !e.active ==> row_display_view(e) == e.row_label_view(),
{
    reveal_strlit(" (current) · ");
    reveal_strlit(" (current)");
    reveal_strlit(" · ");
    assert(" (current) · "@ =~= " (current)"@ + " · "@);
    let head = e.label@ + " (current)"@;
    if e.active {
        match e.account {
            Some(account) => {
                if account@.len() > 0 {
                    assert(row_display_view(e) =~= head + " · "@ + account@);
                    assert(head.is_prefix_of(row_display_view(e))) by {
                        assert forall|i: int| 0 <= i < head.len() implies head[i] == row_display_view(e)[i] by {
                            assert((head + " · "@ + account@)[i] == head[i]);
                        }
                    }
                } else {
                    assert(head.is_prefix_of(row_display_view(e)));
                }
            },
            None => {
                assert(head.is_prefix_of(row_display_view(e)));
            },
        }
    }
}

/// No entry has catalog id `q` at or after `from`.
proof fn lemma_first_with_id_none(s: Seq<ProviderEntry>, q: Seq<char>, from: int)
    requires
        0 <= from,
        forall|j: int| from <= j < s.len() ==> (#[trigger] s[j]).selection.catalog_id_view() != q,
    ensures
        first_with_id(s, q, from) == s.len(),
    decreases s.len() - from,
{
    if from < s.len() {
        lemma_first_with_id_none(s, q, from + 1);
    }
}

/// The first loose match at or after `from` is at `k`.
proof fn lemma_first_loose_at(s: Seq<ProviderEntry>, q: Seq<char>, from: int, k: int)
    requires
        0 <= from <= k < s.len(),
        loosely_matches(s[k], q),
        forall|j: int| from <= j < k ==> !loosely_matches(#[trigger] s[j], q),
    ensures
        first_loose_match(s, q, from) == k,
    decreases k - from,
{
    if from < k {
        lemma_first_loose_at(s, q, from + 1, k);
    }
}

/// When no catalog id equals the trimmed input, the input resolves to the
/// first entry whose catalog id, label or row label equals it up to ASCII
/// case, whatever that entry's command status; when none does, to nothing.
pub proof fn law_resolve_loose_match_ignores_status(s: Seq<ProviderEntry>, query: Seq<char>, k: int)
    requires
        trimmed(query).len() > 0,
        forall|j: int| 0 <= j < s.len() ==> (#[trigger] s[j]).selection.catalog_id_view() != trimmed(query),
    ensures
        0 <= k < s.len()
            && ({
                let e = s[k];
                ||| ascii_ci_eq(e.selection.catalog_id_view(), trimmed(query))
                ||| ascii_ci_eq(e.label@, trimmed(query))
                ||| ascii_ci_eq(e.row_label_view(), trimmed(query))
            })
            && (forall|j: int| 0 <= j < k ==> !{
                let e = #[trigger] s[j];
                ||| ascii_ci_eq(e.selection.catalog_id_view(), trimmed(query))
                ||| ascii_ci_eq(e.label@, trimmed(query))
                ||| ascii_ci_eq(e.row_label_view(), trimmed(query))
            }) ==> resolved_index(s, query) == k,
        (forall|j: int| 0 <= j < s.len() ==> !{
            let e = #[trigger] s[j];
            ||| ascii_ci_eq(e.selection.catalog_id_view(), trimmed(query))
            ||| ascii_ci_eq(e.label@, trimmed(query))
            ||| ascii_ci_eq(e.row_label_view(), trimmed(query))
        }) ==> resolved_index(s, query) == s.len(),
{
    let q = trimmed(query);
    lemma_first_with_id_none(s, q, 0);
    if 0 <= k < s.len() && loosely_matches(s[k], q) && (forall|j: int| 0 <= j < k ==> !loosely_matches(#[trigger] s[j], q)) {
        lemma_first_loose_at(s, q, 0, k);
    }
    if forall|j: int| 0 <= j < s.len() ==> !loosely_matches(#[trigger] s[j], q) {
        lemma_first_loose_none(s, q, 0);
    }
}

/// No entry loosely matches `q` at or after `from`.
proof fn lemma_first_loose_none(s: Seq<ProviderEntry>, q: Seq<char>, from: int)
    requires
        0 <= from,
        forall|j: int| 0 <= j < s.len() ==> !loosely_matches(#[trigger] s[j], q),
    ensures
        first_loose_match(s, q, from) == s.len(),
    decreases s.len() - from,
{
    if from < s.len() {
        lemma_first_loose_none(s, q, from + 1);
    }
}

/// Blank input (empty once surrounding white space is removed) resolves to
/// no entry.
pub proof fn law_resolve_blank_is_nothing(s: Seq<ProviderEntry>, query: Seq<char>)
    requires
        trimmed(query).len() == 0,
    ensures
        resolved_index(s, query) == s.len(),
{
}

/// Looking up a catalog id gives the first entry that has exactly that id,
/// and nothing only when no entry has it.
pub proof fn law_find_gives_first_exact_id(s: Seq<ProviderEntry>, id: Seq<char>)
    ensures
        0 <= first_with_id(s, id, 0) <= s.len(),
        first_with_id(s, id, 0) < s.len() ==> s[first_with_id(s, id, 0)].selection.catalog_id_view() == id,
        forall|j: int| 0 <= j < first_with_id(s, id, 0) && j < s.len() ==> (#[trigger] s[j]).selection.catalog_id_view() != id,
{
    lemma_first_with_id_scan(s, id, 0);
}

proof fn lemma_first_with_id_scan(s: Seq<ProviderEntry>, id: Seq<char>, from: int)
    requires
        0 <= from <= s.len(),
    ensures
        from <= first_with_id(s, id, from) <= s.len(),
        first_with_id(s, id, from) < s.len() ==> s[first_with_id(s, id, from)].selection.catalog_id_view() == id,
        forall|j: int| from <= j < first_with_id(s, id, from) && j < s.len() ==> (#[trigger] s[j]).selection.catalog_id_view() != id,
    decreases s.len() - from,
{
    if from < s.len() && s[from].selection.catalog_id_view() != id {
        lemma_first_with_id_scan(s, id, from + 1);
    }
}

/// Built-in and available commands can be selected; missing ones cannot.
pub proof fn law_selectable_statuses(status: ProviderCommandStatus)
    ensures
        status == ProviderCommandStatus::BuiltIn ==> status.selectable(),
        status == ProviderCommandStatus::Available ==> status.selectable(),
        status == ProviderCommandStatus::Missing ==> !status.selectable(),
{
}

/// The picker row of an entry inserts its catalog id, is matched on
/// `id label account` (account empty when absent), and is described as
/// "not installed" exactly when its command is missing, with no description
/// otherwise.
pub proof fn law_picker_row_fields(item: ArgItem, e: ProviderEntry)
    requires
        is_item_for(item, e),
    ensures
        item.insert_text@ == e.selection.catalog_id_view(),
        e.selection is Native ==> item.insert_text@ == "grok"@,
        e.selection is External ==> Some(item.insert_text@) == e.selection.provider_id_view(),
        item.match_text@ == e.selection.catalog_id_view() + " "@ + e.label@ + " "@ + account_or_empty(e),
        e.account is None ==> item.match_text@ == e.selection.catalog_id_view() + " "@ + e.label@ + " "@,
        e.command_status == ProviderCommandStatus::Missing ==> item.description@ == "not installed"@,
        e.command_status != ProviderCommandStatus::Missing ==> item.description@.len() == 0,
        item.display@ == row_display_view(e),
{
    if e.account is None {
        assert(account_or_empty(e) =~= Seq::<char>::empty());
        assert(e.selection.catalog_id_view() + " "@ + e.label@ + " "@ + Seq::<char>::empty()
            =~= e.selection.catalog_id_view() + " "@ + e.label@ + " "@);
    }
}

} // verus!
