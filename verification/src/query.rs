//! The query engine: three read-only operations over the catalog and a
//! configuration snapshot. List groups entries by category in the fixed
//! enumeration order, search matches a case-insensitive substring query and
//! sorts by name, and info looks one entry up by case-insensitive exact
//! name. Rendering of the results belongs to the presentation layer.

use crate::filters::{
    parse_category_filter, parse_status_filter, spec_category_of, spec_status_of, FilterKind,
    IntegrationsError,
};
use crate::model::{
    eval_status, spec_all_categories, spec_status, Config, IntegrationCategory, IntegrationStatus,
};
use crate::registry::{all_integrations, catalog, views_of, EntryModel, IntegrationEntry};
use crate::text::{
    contains_ignore_case, eq_ignore_case, lex_leq, lemma_lex_leq_total, lemma_lex_leq_trans,
    normalize_seq, str_contains_ignore_case, str_eq, str_eq_ignore_case, str_lex_leq,
};
use vstd::prelude::*;

verus! {

broadcast use vstd::seq_lib::group_to_multiset_ensures;

/// A catalog entry together with its status under the queried
/// configuration.
#[derive(Debug, Clone, Copy)]
pub struct ListedEntry {
    pub entry: IntegrationEntry,
    pub status: IntegrationStatus,
}

impl View for ListedEntry {
    type V = (EntryModel, IntegrationStatus);

    open spec fn view(&self) -> (EntryModel, IntegrationStatus) {
        (self.entry@, self.status)
    }
}

/// The models of a sequence of listed entries.
pub open spec fn listed_views(s: Seq<ListedEntry>) -> Seq<(EntryModel, IntegrationStatus)> {
    Seq::new(s.len(), |i: int| s[i]@)
}

/// One group of the list operation: a category and its surviving entries,
/// in catalog declaration order.
#[derive(Debug, Clone)]
pub struct CategoryGroup {
    pub category: IntegrationCategory,
    pub entries: Vec<ListedEntry>,
}

/// The models of a sequence of groups.
pub open spec fn group_views(s: Seq<CategoryGroup>) -> Seq<
    (IntegrationCategory, Seq<(EntryModel, IntegrationStatus)>),
> {
    Seq::new(s.len(), |i: int| (s[i].category, listed_views(s[i].entries@)))
}

/// The detail result of the info operation: the entry, its evaluated
/// status, and its setup hint if it has one.
#[derive(Debug, Clone, Copy)]
pub struct IntegrationDetails {
    pub entry: IntegrationEntry,
    pub status: IntegrationStatus,
    pub hint: Option<&'static str>,
}

/// A query command, as handed over by the CLI layer.
#[derive(Debug, Clone)]
pub enum IntegrationCommands {
    List { category: Option<String>, status: Option<String> },
    Search { query: String, category: Option<String>, status: Option<String> },
    Info { name: String },
}

/// The result of one query command.
#[derive(Debug, Clone)]
pub enum CommandOutput {
    Listing(Vec<CategoryGroup>),
    SearchResults(Vec<ListedEntry>),
    Details(IntegrationDetails),
}

/// Whether an entry passes an already-normalized status filter under a
/// configuration.
pub open spec fn passes_status(
    m: EntryModel,
    c: Config,
    sf: Option<IntegrationStatus>,
) -> bool {
    match sf {
        Some(s) => spec_status(m.status_rule, c) == s,
        None => true,
    }
}

/// Whether a category passes an already-normalized category filter.
pub open spec fn passes_cat_filter(k: IntegrationCategory, cf: Option<IntegrationCategory>) -> bool {
    match cf {
        Some(j) => j == k,
        None => true,
    }
}

/// Whether a query matches an entry: case-insensitive substring match on
/// the name or the description. An empty query matches every entry.
pub open spec fn matches_query(m: EntryModel, q: Seq<char>) -> bool {
    contains_ignore_case(m.name, q) || contains_ignore_case(m.description, q)
}

/// The entries of category `k` that survive the status filter, in the
/// order they stand in `s`, each with its evaluated status.
pub open spec fn spec_group(
    s: Seq<EntryModel>,
    k: IntegrationCategory,
    c: Config,
    sf: Option<IntegrationStatus>,
) -> Seq<(EntryModel, IntegrationStatus)>
    decreases s.len(),
{
    if s.len() == 0 {
        Seq::empty()
    } else {
        let rest = spec_group(s.drop_last(), k, c, sf);
        let m = s.last();
        if m.category == k && passes_status(m, c, sf) {
            rest.push((m, spec_status(m.status_rule, c)))
        } else {
            rest
        }
    }
}

/// The groups of the list operation for the given categories, in their
/// order, keeping only categories that pass the category filter and have
/// at least one surviving entry.
pub open spec fn spec_groups_over(
    cats: Seq<IntegrationCategory>,
    c: Config,
    cf: Option<IntegrationCategory>,
    sf: Option<IntegrationStatus>,
) -> Seq<(IntegrationCategory, Seq<(EntryModel, IntegrationStatus)>)>
    decreases cats.len(),
{
    if cats.len() == 0 {
        Seq::empty()
    } else {
        let rest = spec_groups_over(cats.drop_last(), c, cf, sf);
        let k = cats.last();
        let g = if passes_cat_filter(k, cf) {
            spec_group(catalog(), k, c, sf)
        } else {
            Seq::empty()
        };
        if g.len() > 0 {
            rest.push((k, g))
        } else {
            rest
        }
    }
}

/// The full grouped result of the list operation.
pub open spec fn spec_list_groups(
    c: Config,
    cf: Option<IntegrationCategory>,
    sf: Option<IntegrationStatus>,
) -> Seq<(IntegrationCategory, Seq<(EntryModel, IntegrationStatus)>)> {
    spec_groups_over(spec_all_categories(), c, cf, sf)
}

/// The entries of `s` that match the query and both filters, in the order
/// they stand in `s`, each with its evaluated status.
pub open spec fn spec_search(
    s: Seq<EntryModel>,
    q: Seq<char>,
    c: Config,
    cf: Option<IntegrationCategory>,
    sf: Option<IntegrationStatus>,
) -> Seq<(EntryModel, IntegrationStatus)>
    decreases s.len(),
{
    if s.len() == 0 {
        Seq::empty()
    } else {
        let rest = spec_search(s.drop_last(), q, c, cf, sf);
        let m = s.last();
        if matches_query(m, q) && passes_cat_filter(m.category, cf) && passes_status(m, c, sf) {
            rest.push((m, spec_status(m.status_rule, c)))
        } else {
            rest
        }
    }
}

/// Search results come out sorted by name, ascending, in code-point order.
pub open spec fn sorted_by_names(s: Seq<(EntryModel, IntegrationStatus)>) -> bool {
    forall|i: int, j: int| 0 <= i < j < s.len() ==> lex_leq(s[i].0.name, s[j].0.name)
}

/// The first entry of `s` whose name equals `q` up to case.
pub open spec fn first_match(s: Seq<EntryModel>, q: Seq<char>) -> Option<EntryModel>
    decreases s.len(),
{
    if s.len() == 0 {
        None
    } else if eq_ignore_case(s[0].name, q) {
        Some(s[0])
    } else {
        first_match(s.drop_first(), q)
    }
}

/// The view of an optional borrowed filter string.
pub open spec fn opt_str_view(o: Option<&str>) -> Option<Seq<char>> {
    match o {
        Some(s) => Some(s@),
        None => None,
    }
}

/// The view of an optional owned filter string.
pub open spec fn opt_string_view(o: Option<String>) -> Option<Seq<char>> {
    match o {
        Some(s) => Some(s@),
        None => None,
    }
}

/// Outcome of normalizing an optional category filter: `None` for an
/// invalid token, otherwise the canonical filter, if any.
pub open spec fn cat_filter_outcome(cfs: Option<Seq<char>>) -> Option<
    Option<IntegrationCategory>,
> {
    match cfs {
        None => Some(None),
        Some(s) => match spec_category_of(normalize_seq(s)) {
            Some(k) => Some(Some(k)),
            None => None,
        },
    }
}

/// Outcome of normalizing an optional status filter.
pub open spec fn status_filter_outcome(sfs: Option<Seq<char>>) -> Option<
    Option<IntegrationStatus>,
> {
    match sfs {
        None => Some(None),
        Some(s) => match spec_status_of(normalize_seq(s)) {
            Some(k) => Some(Some(k)),
            None => None,
        },
    }
}

/// What the list operation owes: an invalid category filter fails with
/// that input's error before the status filter is looked at; an invalid
/// status filter fails with that input's error; otherwise the grouped
/// result is exactly `spec_list_groups`.
pub open spec fn list_post(
    c: Config,
    cfs: Option<Seq<char>>,
    sfs: Option<Seq<char>>,
    r: Result<Vec<CategoryGroup>, IntegrationsError>,
) -> bool {
    match cat_filter_outcome(cfs) {
        None => r matches Err(IntegrationsError::InvalidFilter { kind, input }) && kind
            == FilterKind::Category && Some(input@) == cfs,
        Some(cf) => match status_filter_outcome(sfs) {
            None => r matches Err(IntegrationsError::InvalidFilter { kind, input }) && kind
                == FilterKind::Status && Some(input@) == sfs,
            Some(sf) => r matches Ok(groups) && group_views(groups@) == spec_list_groups(
                c,
                cf,
                sf,
            ),
        },
    }
}

/// What the search operation owes: filter errors as for list; otherwise a
/// result holding exactly the matching entries (as a multiset) sorted by
/// name ascending.
pub open spec fn search_post(
    c: Config,
    q: Seq<char>,
    cfs: Option<Seq<char>>,
    sfs: Option<Seq<char>>,
    r: Result<Vec<ListedEntry>, IntegrationsError>,
) -> bool {
    match cat_filter_outcome(cfs) {
        None => r matches Err(IntegrationsError::InvalidFilter { kind, input }) && kind
            == FilterKind::Category && Some(input@) == cfs,
        Some(cf) => match status_filter_outcome(sfs) {
            None => r matches Err(IntegrationsError::InvalidFilter { kind, input }) && kind
                == FilterKind::Status && Some(input@) == sfs,
            Some(sf) => r matches Ok(results) && listed_views(results@).to_multiset()
                == spec_search(catalog(), q, c, cf, sf).to_multiset() && sorted_by_names(
                listed_views(results@),
            ),
        },
    }
}

/// What the info operation owes: the first case-insensitive name match
/// with its status and hint, or an unknown-integration error that
/// preserves the requested name.
pub open spec fn info_post(
    c: Config,
    q: Seq<char>,
    r: Result<IntegrationDetails, IntegrationsError>,
) -> bool {
    match first_match(catalog(), q) {
        Some(m) => r matches Ok(d) && d.entry@ == m && d.status == spec_status(m.status_rule, c)
            && hint_matches(d.hint, spec_setup_hint(m.name, spec_status(m.status_rule, c))),
        None => r matches Err(IntegrationsError::UnknownIntegration { input }) && input@ == q,
    }
}

/// Whether an optional hint string spells an optional hint text.
pub open spec fn hint_matches(h: Option<&'static str>, s: Option<Seq<char>>) -> bool {
    match (h, s) {
        (Some(a), Some(b)) => a@ == b,
        (None, None) => true,
        _ => false,
    }
}

/// Lists integrations grouped by category: normalizes both filters, keeps
/// each entry iff it passes both, groups survivors by category in the
/// fixed enumeration order, and preserves catalog declaration order within
/// a group. An empty result is a successful outcome.
pub fn list_integrations(
    config: &Config,
    category_filter: Option<&str>,
    status_filter: Option<&str>,
) -> (r: Result<Vec<CategoryGroup>, IntegrationsError>)
    ensures
        list_post(*config, opt_str_view(category_filter), opt_str_view(status_filter), r),
{
    let category_match: Option<IntegrationCategory> = match category_filter {
        Some(cs) => match parse_category_filter(cs) {
            Ok(k) => Some(k),
            Err(e) => {
                return Err(e);
            },
        },
        None => None,
    };
    let status_match: Option<IntegrationStatus> = match status_filter {
        Some(ss) => match parse_status_filter(ss) {
            Ok(s) => Some(s),
            Err(e) => {
                return Err(e);
            },
        },
        None => None,
    };
    let entries = all_integrations();
    let cats = IntegrationCategory::all();
    let mut groups: Vec<CategoryGroup> = Vec::new();
    let mut ci: usize = 0;
    while ci < cats.len()
        invariant
            cats@ == spec_all_categories(),
            views_of(entries@) == catalog(),
            ci <= cats@.len(),
            group_views(groups@) == spec_groups_over(
                spec_all_categories().subrange(0, ci as int),
                *config,
                category_match,
                status_match,
            ),
        decreases cats@.len() - ci,
    {
        let k = cats[ci];
        let wanted = match category_match {
            Some(j) => j == k,
            None => true,
        };
        if wanted {
            let mut g: Vec<ListedEntry> = Vec::new();
            let mut ei: usize = 0;
            while ei < entries.len()
                invariant
                    views_of(entries@) == catalog(),
                    ei <= entries@.len(),
                    listed_views(g@) == spec_group(
                        catalog().subrange(0, ei as int),
                        k,
                        *config,
                        status_match,
                    ),
                decreases entries@.len() - ei,
            {
                let e = entries[ei];
                proof {
                    assert(e@ == views_of(entries@)[ei as int]);
                }
                let keep_status = match status_match {
                    Some(s) => eval_status(e.status_rule, config) == s,
                    None => true,
                };
                let ghost pre_g = g@;
                if e.category == k && keep_status {
                    let st = eval_status(e.status_rule, config);
                    g.push(ListedEntry { entry: e, status: st });
                }
                proof {
                    let pre = catalog().subrange(0, ei as int);
                    let post = catalog().subrange(0, ei + 1 as int);
                    assert(post.drop_last() =~= pre);
                    assert(post.last() == catalog()[ei as int]);
                    if e@.category == k && passes_status(e@, *config, status_match) {
                        assert(listed_views(g@) =~= listed_views(pre_g).push(
                            (e@, spec_status(e@.status_rule, *config)),
                        ));
                    } else {
                        assert(listed_views(g@) == listed_views(pre_g));
                    }
                }
                ei += 1;
            }
            proof {
                assert(catalog().subrange(0, catalog().len() as int) =~= catalog());
            }
            let ghost pre_groups = groups@;
            if g.len() > 0 {
                groups.push(CategoryGroup { category: k, entries: g });
                proof {
                    assert(group_views(groups@) =~= group_views(pre_groups).push(
                        (k, spec_group(catalog(), k, *config, status_match)),
                    ));
                }
            } else {
                proof {
                    assert(spec_group(catalog(), k, *config, status_match).len() == 0);
                }
            }
        }
        proof {
            let pre = spec_all_categories().subrange(0, ci as int);
            let post = spec_all_categories().subrange(0, ci + 1 as int);
            assert(post.drop_last() =~= pre);
            assert(post.last() == spec_all_categories()[ci as int]);
        }
        ci += 1;
    }
    proof {
        assert(spec_all_categories().subrange(0, spec_all_categories().len() as int)
            =~= spec_all_categories());
    }
    Ok(groups)
}

/// Inserts each entry into an output kept sorted by name: an insertion
/// sort, preserving the entries as a multiset.
fn sort_entries_by_name(v: Vec<ListedEntry>) -> (r: Vec<ListedEntry>)
    ensures
        listed_views(r@).to_multiset() == listed_views(v@).to_multiset(),
        sorted_by_names(listed_views(r@)),
{
    let mut out: Vec<ListedEntry> = Vec::new();
    let mut i: usize = 0;
    while i < v.len()
        invariant
            i <= v@.len(),
            listed_views(out@).to_multiset() == listed_views(v@.subrange(0, i as int)).to_multiset(),
            sorted_by_names(listed_views(out@)),
        decreases v@.len() - i,
    {
        let x = v[i];
        let mut p: usize = 0;
        while p < out.len() && str_lex_leq(out[p].entry.name, x.entry.name)
            invariant
                p <= out@.len(),
                forall|t: int| 0 <= t < p ==> lex_leq(listed_views(out@)[t].0.name, x@.0.name),
                sorted_by_names(listed_views(out@)),
            decreases out@.len() - p,
        {
            p += 1;
        }
        let ghost pre_out = out@;
        out.insert(p, x);
        proof {
            let lv_pre = listed_views(pre_out);
            let lv_post = listed_views(out@);
            assert(lv_post =~= lv_pre.insert(p as int, x@));
            vstd::seq_lib::to_multiset_insert(lv_pre, p as int, x@);
            // the prefix of v grows by x
            let sub_pre = v@.subrange(0, i as int);
            let sub_post = v@.subrange(0, i + 1 as int);
            assert(sub_post.drop_last() =~= sub_pre);
            assert(listed_views(sub_post) =~= listed_views(sub_pre).push(x@));
            // sortedness: everything left of p is no later than x, and x is
            // no later than everything from p on
            if p < lv_pre.len() {
                lemma_lex_leq_total(lv_pre[p as int].0.name, x@.0.name);
                assert forall|t: int| p <= t < lv_pre.len() implies lex_leq(
                    x@.0.name,
                    lv_pre[t].0.name,
                ) by {
                    if p < t {
                        assert(lex_leq(lv_pre[p as int].0.name, lv_pre[t].0.name));
                        lemma_lex_leq_trans(x@.0.name, lv_pre[p as int].0.name, lv_pre[t].0.name);
                    }
                }
            }
            assert forall|a: int, b: int| 0 <= a < b < lv_post.len() implies lex_leq(
                lv_post[a].0.name,
                lv_post[b].0.name,
            ) by {
                if b < p {
                } else if a < p && b == p {
                } else if a < p && b > p {
                    assert(lex_leq(lv_pre[a].0.name, lv_pre[b - 1].0.name) || lex_leq(
                        x@.0.name,
                        lv_pre[b - 1].0.name,
                    ));
                } else if a == p {
                    assert(lex_leq(x@.0.name, lv_pre[b - 1].0.name));
                } else {
                    assert(lex_leq(lv_pre[a - 1].0.name, lv_pre[b - 1].0.name));
                }
            }
        }
        i += 1;
    }
    proof {
        assert(v@.subrange(0, v@.len() as int) =~= v@);
    }
    out
}

/// Searches integrations: normalizes both filters, keeps each entry iff
/// the query matches its name or description case-insensitively and both
/// filters pass, and returns the survivors sorted by name ascending. An
/// empty query matches every entry; an empty result is a successful
/// outcome.
pub fn search_integrations(
    config: &Config,
    query: &str,
    category_filter: Option<&str>,
    status_filter: Option<&str>,
) -> (r: Result<Vec<ListedEntry>, IntegrationsError>)
    ensures
        search_post(*config, query@, opt_str_view(category_filter), opt_str_view(status_filter), r),
{
    let category_match: Option<IntegrationCategory> = match category_filter {
        Some(cs) => match parse_category_filter(cs) {
            Ok(k) => Some(k),
            Err(e) => {
                return Err(e);
            },
        },
        None => None,
    };
    let status_match: Option<IntegrationStatus> = match status_filter {
        Some(ss) => match parse_status_filter(ss) {
            Ok(s) => Some(s),
            Err(e) => {
                return Err(e);
            },
        },
        None => None,
    };
    let entries = all_integrations();
    let mut results: Vec<ListedEntry> = Vec::new();
    let mut ei: usize = 0;
    while ei < entries.len()
        invariant
            views_of(entries@) == catalog(),
            ei <= entries@.len(),
            listed_views(results@) == spec_search(
                catalog().subrange(0, ei as int),
                query@,
                *config,
                category_match,
                status_match,
            ),
        decreases entries@.len() - ei,
    {
        let e = entries[ei];
        proof {
            assert(e@ == views_of(entries@)[ei as int]);
        }
        let hit = str_contains_ignore_case(e.name, query) || str_contains_ignore_case(
            e.description,
            query,
        );
        let keep_cat = match category_match {
            Some(j) => e.category == j,
            None => true,
        };
        let keep_status = match status_match {
            Some(s) => eval_status(e.status_rule, config) == s,
            None => true,
        };
        let ghost pre = results@;
        if hit && keep_cat && keep_status {
            let st = eval_status(e.status_rule, config);
            results.push(ListedEntry { entry: e, status: st });
        }
        proof {
            let pre_cat = catalog().subrange(0, ei as int);
            let post_cat = catalog().subrange(0, ei + 1 as int);
            assert(post_cat.drop_last() =~= pre_cat);
            assert(post_cat.last() == catalog()[ei as int]);
            if matches_query(e@, query@) && passes_cat_filter(e@.category, category_match)
                && passes_status(e@, *config, status_match) {
                assert(listed_views(results@) =~= listed_views(pre).push(
                    (e@, spec_status(e@.status_rule, *config)),
                ));
            } else {
                assert(listed_views(results@) == listed_views(pre));
            }
        }
        ei += 1;
    }
    proof {
        assert(catalog().subrange(0, catalog().len() as int) =~= catalog());
    }
    let sorted = sort_entries_by_name(results);
    Ok(sorted)
}

/// The per-entry setup hint text, keyed by exact entry name. An entry
/// without a specific hint gets the generic planned-integration hint if
/// its status is coming-soon, and otherwise no hint.
pub open spec fn spec_setup_hint(name: Seq<char>, status: IntegrationStatus) -> Option<Seq<char>> {
    if name == "Telegram"@ {
        Some(
            "Setup:\n  1. Message @BotFather on Telegram\n  2. Create a bot and copy the token\n  3. Run: zeroclaw onboard --channels-only\n  4. Start: zeroclaw channel start"@,
        )
    } else if name == "Discord"@ {
        Some(
            "Setup:\n  1. Go to https://discord.com/developers/applications\n  2. Create app -> Bot -> Copy token\n  3. Enable MESSAGE CONTENT intent\n  4. Run: zeroclaw onboard --channels-only"@,
        )
    } else if name == "Slack"@ {
        Some(
            "Setup:\n  1. Go to https://api.slack.com/apps\n  2. Create app -> Bot Token Scopes -> Install\n  3. Run: zeroclaw onboard --channels-only"@,
        )
    } else if name == "OpenRouter"@ {
        Some(
            "Setup:\n  1. Get API key at https://openrouter.ai/keys\n  2. Run: zeroclaw onboard\n  Access 200+ models with one key."@,
        )
    } else if name == "Ollama"@ {
        Some(
            "Setup:\n  1. Install: brew install ollama\n  2. Pull a model: ollama pull llama3\n  3. Set provider to 'ollama' in config.toml"@,
        )
    } else if name == "iMessage"@ {
        Some(
            "Setup (macOS only):\n  Uses AppleScript bridge to send/receive iMessages.\n  Requires Full Disk Access in System Settings -> Privacy."@,
        )
    } else if name == "GitHub"@ {
        Some(
            "Setup:\n  1. Create a personal access token at https://github.com/settings/tokens\n  2. Add to config: [integrations.github] token = \"ghp_...\""@,
        )
    } else if name == "Browser"@ {
        Some(
            "Built-in:\n  ZeroClaw can control Chrome/Chromium for web tasks.\n  Uses headless browser automation."@,
        )
    } else if name == "Cron"@ {
        Some(
            "Built-in:\n  Schedule tasks in ~/.zeroclaw/workspace/cron/\n  Run: zeroclaw cron list"@,
        )
    } else if name == "Webhooks"@ {
        Some("Built-in:\n  HTTP endpoint for external triggers.\n  Run: zeroclaw gateway"@)
    } else if status == IntegrationStatus::ComingSoon {
        Some(
            "This integration is planned. Stay tuned!\nTrack progress: https://github.com/theonlyhennygod/zeroclaw"@,
        )
    } else {
        None
    }
}

/// The setup hint of an entry, by exact name match.
pub fn setup_hint(name: &str, status: IntegrationStatus) -> (r: Option<&'static str>)
    ensures
        hint_matches(r, spec_setup_hint(name@, status)),
{
    if str_eq(name, "Telegram") {
        Some(
            "Setup:\n  1. Message @BotFather on Telegram\n  2. Create a bot and copy the token\n  3. Run: zeroclaw onboard --channels-only\n  4. Start: zeroclaw channel start",
        )
    } else if str_eq(name, "Discord") {
        Some(
            "Setup:\n  1. Go to https://discord.com/developers/applications\n  2. Create app -> Bot -> Copy token\n  3. Enable MESSAGE CONTENT intent\n  4. Run: zeroclaw onboard --channels-only",
        )
    } else if str_eq(name, "Slack") {
        Some(
            "Setup:\n  1. Go to https://api.slack.com/apps\n  2. Create app -> Bot Token Scopes -> Install\n  3. Run: zeroclaw onboard --channels-only",
        )
    } else if str_eq(name, "OpenRouter") {
        Some(
            "Setup:\n  1. Get API key at https://openrouter.ai/keys\n  2. Run: zeroclaw onboard\n  Access 200+ models with one key.",
        )
    } else if str_eq(name, "Ollama") {
        Some(
            "Setup:\n  1. Install: brew install ollama\n  2. Pull a model: ollama pull llama3\n  3. Set provider to 'ollama' in config.toml",
        )
    } else if str_eq(name, "iMessage") {
        Some(
            "Setup (macOS only):\n  Uses AppleScript bridge to send/receive iMessages.\n  Requires Full Disk Access in System Settings -> Privacy.",
        )
    } else if str_eq(name, "GitHub") {
        Some(
            "Setup:\n  1. Create a personal access token at https://github.com/settings/tokens\n  2. Add to config: [integrations.github] token = \"ghp_...\"",
        )
    } else if str_eq(name, "Browser") {
        Some(
            "Built-in:\n  ZeroClaw can control Chrome/Chromium for web tasks.\n  Uses headless browser automation.",
        )
    } else if str_eq(name, "Cron") {
        Some(
            "Built-in:\n  Schedule tasks in ~/.zeroclaw/workspace/cron/\n  Run: zeroclaw cron list",
        )
    } else if str_eq(name, "Webhooks") {
        Some("Built-in:\n  HTTP endpoint for external triggers.\n  Run: zeroclaw gateway")
    } else if status == IntegrationStatus::ComingSoon {
        Some(
            "This integration is planned. Stay tuned!\nTrack progress: https://github.com/theonlyhennygod/zeroclaw",
        )
    } else {
        None
    }
}

/// Looks one integration up by case-insensitive exact name match and
/// returns it with its evaluated status and setup hint. An unknown name is
/// an error that preserves the requested string.
pub fn show_integration_info(config: &Config, name: &str) -> (r: Result<
    IntegrationDetails,
    IntegrationsError,
>)
    ensures
        info_post(*config, name@, r),
{
    let entries = all_integrations();
    proof {
        assert(catalog().skip(0) =~= catalog());
    }
    let mut i: usize = 0;
    while i < entries.len()
        invariant
            views_of(entries@) == catalog(),
            i <= entries@.len(),
            first_match(catalog(), name@) == first_match(catalog().skip(i as int), name@),
        decreases entries@.len() - i,
    {
        let e = entries[i];
        proof {
            assert(e@ == views_of(entries@)[i as int]);
            assert(catalog().skip(i as int)[0] == catalog()[i as int]);
        }
        if str_eq_ignore_case(e.name, name) {
            let status = eval_status(e.status_rule, config);
            let hint = setup_hint(e.name, status);
            return Ok(IntegrationDetails { entry: e, status, hint });
        }
        proof {
            assert(catalog().skip(i as int).drop_first() =~= catalog().skip(i + 1 as int));
        }
        i += 1;
    }
    proof {
        assert(catalog().skip(entries@.len() as int).len() == 0);
    }
    Err(IntegrationsError::UnknownIntegration { input: name.to_owned() })
}

/// Dispatches one query command against the catalog and a configuration
/// snapshot.
pub fn handle_command(command: IntegrationCommands, config: &Config) -> (r: Result<
    CommandOutput,
    IntegrationsError,
>)
    ensures
        match command {
            IntegrationCommands::List { category, status } => match r {
                Ok(out) => out matches CommandOutput::Listing(groups) && list_post(
                    *config,
                    opt_string_view(category),
                    opt_string_view(status),
                    Ok(groups),
                ),
                Err(e) => list_post(
                    *config,
                    opt_string_view(category),
                    opt_string_view(status),
                    Err(e),
                ),
            },
            IntegrationCommands::Search { query, category, status } => match r {
                Ok(out) => out matches CommandOutput::SearchResults(results) && search_post(
                    *config,
                    query@,
                    opt_string_view(category),
                    opt_string_view(status),
                    Ok(results),
                ),
                Err(e) => search_post(
                    *config,
                    query@,
                    opt_string_view(category),
                    opt_string_view(status),
                    Err(e),
                ),
            },
            IntegrationCommands::Info { name } => match r {
                Ok(out) => out matches CommandOutput::Details(d) && info_post(
                    *config,
                    name@,
                    Ok(d),
                ),
                Err(e) => info_post(*config, name@, Err(e)),
            },
        },
{
    match command {
        IntegrationCommands::List { category, status } => {
            let category_ref: Option<&str> = match &category {
                Some(s) => Some(s.as_str()),
                None => None,
            };
            let status_ref: Option<&str> = match &status {
                Some(s) => Some(s.as_str()),
                None => None,
            };
            match list_integrations(config, category_ref, status_ref) {
                Ok(groups) => Ok(CommandOutput::Listing(groups)),
                Err(e) => Err(e),
            }
        },
        IntegrationCommands::Search { query, category, status } => {
            let category_ref: Option<&str> = match &category {
                Some(s) => Some(s.as_str()),
                None => None,
            };
            let status_ref: Option<&str> = match &status {
                Some(s) => Some(s.as_str()),
                None => None,
            };
            match search_integrations(config, query.as_str(), category_ref, status_ref) {
                Ok(results) => Ok(CommandOutput::SearchResults(results)),
                Err(e) => Err(e),
            }
        },
        IntegrationCommands::Info { name } => {
            match show_integration_info(config, name.as_str()) {
                Ok(d) => Ok(CommandOutput::Details(d)),
                Err(e) => Err(e),
            }
        },
    }
}

} // verus!

