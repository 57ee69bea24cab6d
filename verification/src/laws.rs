//! Laws of the library, stated and proved once and for all: normalization
//! is insensitive to case and to hyphens and underscores, listing without
//! filters covers the catalog exactly once, filtered listings hold only
//! what passes both filters, and an empty search query keeps every entry.

use crate::model::{spec_status, Config, IntegrationCategory, IntegrationStatus};
use crate::query::{
    matches_query, passes_cat_filter, passes_status, spec_group, spec_groups_over,
    spec_list_groups, spec_search,
};
use crate::registry::{catalog, EntryModel};
use crate::text::{
    eq_ignore_case, is_separator, is_substring, lower_char, lower_seq, normalize_seq,
};
use vstd::prelude::*;

verus! {

/// Case folding one more character: the canonical form grows by its
/// lowercase form unless it is a separator.
proof fn lemma_normalize_push(s: Seq<char>, c: char)
    ensures
        normalize_seq(s.push(c)) == if is_separator(lower_char(c)) {
            normalize_seq(s)
        } else {
            normalize_seq(s).push(lower_char(c))
        },
{
    assert(s.push(c).drop_last() =~= s);
    assert(s.push(c).last() == c);
}

/// Case folding is idempotent on characters.
proof fn lemma_lower_char_idempotent(c: char)
    ensures
        lower_char(lower_char(c)) == lower_char(c),
{
}

/// Changing the case of the input does not change its canonical form.
pub proof fn lemma_normalize_case_insensitive(s: Seq<char>)
    ensures
        normalize_seq(lower_seq(s)) == normalize_seq(s),
    decreases s.len(),
{
    if s.len() == 0 {
        assert(lower_seq(s) =~= s);
    } else {
        let rest = s.drop_last();
        lemma_normalize_case_insensitive(rest);
        lemma_lower_char_idempotent(s.last());
        assert(lower_seq(s).drop_last() =~= lower_seq(rest));
        assert(lower_seq(s).last() == lower_char(s.last()));
    }
}

/// The canonical form is computed piecewise: it distributes over
/// concatenation.
pub proof fn lemma_normalize_concat(a: Seq<char>, b: Seq<char>)
    ensures
        normalize_seq(a + b) == normalize_seq(a) + normalize_seq(b),
    decreases b.len(),
{
    if b.len() == 0 {
        assert(a + b =~= a);
        assert(normalize_seq(b) == Seq::<char>::empty());
        assert(normalize_seq(a) + normalize_seq(b) =~= normalize_seq(a));
    } else {
        lemma_normalize_concat(a, b.drop_last());
        assert((a + b).drop_last() =~= a + b.drop_last());
        assert((a + b).last() == b.last());
        if !is_separator(lower_char(b.last())) {
            assert((normalize_seq(a) + normalize_seq(b.drop_last())).push(lower_char(b.last()))
                =~= normalize_seq(a) + normalize_seq(b.drop_last()).push(lower_char(b.last())));
        }
    }
}

/// Inserting a hyphen or an underscore anywhere does not change the
/// canonical form.
pub proof fn lemma_normalize_separator_transparent(a: Seq<char>, b: Seq<char>, c: char)
    requires
        is_separator(c),
    ensures
        normalize_seq(a + seq![c] + b) == normalize_seq(a + b),
{
    lemma_normalize_concat(a + seq![c], b);
    lemma_normalize_concat(a, seq![c]);
    lemma_normalize_concat(a, b);
    reveal_with_fuel(normalize_seq, 3);
    assert(lower_char(c) == c);
    assert(seq![c].drop_last() =~= Seq::<char>::empty());
    assert(normalize_seq(seq![c]) =~= Seq::<char>::empty());
    assert(normalize_seq(a) + Seq::<char>::empty() =~= normalize_seq(a));
}

/// Normalization is idempotent: a canonical form is its own canonical
/// form.
pub proof fn lemma_normalize_idempotent(s: Seq<char>)
    ensures
        normalize_seq(normalize_seq(s)) == normalize_seq(s),
    decreases s.len(),
{
    if s.len() == 0 {
    } else {
        let rest = s.drop_last();
        lemma_normalize_idempotent(rest);
        let lc = lower_char(s.last());
        if is_separator(lc) {
        } else {
            lemma_lower_char_idempotent(s.last());
            lemma_normalize_push(normalize_seq(rest), lc);
        }
    }
}

/// The entry components of a group's pairs.
pub open spec fn pair_entries(s: Seq<(EntryModel, IntegrationStatus)>) -> Seq<EntryModel> {
    Seq::new(s.len(), |i: int| s[i].0)
}

/// All entries of a grouped listing, in output order.
pub open spec fn groups_entries(
    gs: Seq<(IntegrationCategory, Seq<(EntryModel, IntegrationStatus)>)>,
) -> Seq<EntryModel>
    decreases gs.len(),
{
    if gs.len() == 0 {
        Seq::empty()
    } else {
        groups_entries(gs.drop_last()) + pair_entries(gs.last().1)
    }
}

/// Listing with no filters covers the catalog exactly: reading the groups
/// in order, and each group's entries in order, yields every catalog
/// entry exactly once, in declaration order.
#[verifier::rlimit(100)]
#[verifier::spinoff_prover]
pub proof fn lemma_list_no_filters_covers_catalog(c: Config)
    ensures
        groups_entries(spec_list_groups(c, None, None)) == catalog(),
{
    reveal_with_fuel(spec_group, 19);
    reveal_with_fuel(spec_groups_over, 11);
    reveal_with_fuel(groups_entries, 11);
    assert(pair_entries(spec_group(catalog(), IntegrationCategory::Chat, c, None))
        =~= catalog().subrange(0, 5));
    assert(pair_entries(spec_group(catalog(), IntegrationCategory::AiModel, c, None))
        =~= catalog().subrange(5, 7));
    assert(pair_entries(spec_group(catalog(), IntegrationCategory::Productivity, c, None))
        =~= catalog().subrange(7, 9));
    assert(pair_entries(spec_group(catalog(), IntegrationCategory::MusicAudio, c, None))
        =~= catalog().subrange(9, 10));
    assert(pair_entries(spec_group(catalog(), IntegrationCategory::SmartHome, c, None))
        =~= catalog().subrange(10, 11));
    assert(pair_entries(spec_group(catalog(), IntegrationCategory::ToolsAutomation, c, None))
        =~= catalog().subrange(11, 14));
    assert(pair_entries(spec_group(catalog(), IntegrationCategory::MediaCreative, c, None))
        =~= catalog().subrange(14, 15));
    assert(pair_entries(spec_group(catalog(), IntegrationCategory::Social, c, None))
        =~= catalog().subrange(15, 16));
    assert(pair_entries(spec_group(catalog(), IntegrationCategory::Platform, c, None))
        =~= catalog().subrange(16, 17));
    assert(groups_entries(spec_list_groups(c, None, None)) =~= catalog());
}

/// Every pair of a group satisfies the group's category, the status
/// filter, and carries the status the configuration assigns its entry.
proof fn lemma_spec_group_sound(
    s: Seq<EntryModel>,
    k: IntegrationCategory,
    c: Config,
    sf: Option<IntegrationStatus>,
)
    ensures
        forall|i: int|
            0 <= i < spec_group(s, k, c, sf).len() ==> {
                let p = #[trigger] spec_group(s, k, c, sf)[i];
                p.0.category == k && passes_status(p.0, c, sf) && p.1 == spec_status(
                    p.0.status_rule,
                    c,
                )
            },
    decreases s.len(),
{
    if s.len() == 0 {
    } else {
        lemma_spec_group_sound(s.drop_last(), k, c, sf);
    }
}

/// Every group of a listing passes the category filter, is non-empty, and
/// holds exactly its category's surviving entries.
proof fn lemma_groups_over_sound(
    cats: Seq<IntegrationCategory>,
    c: Config,
    cf: Option<IntegrationCategory>,
    sf: Option<IntegrationStatus>,
)
    ensures
        forall|gi: int|
            0 <= gi < spec_groups_over(cats, c, cf, sf).len() ==> {
                let g = #[trigger] spec_groups_over(cats, c, cf, sf)[gi];
                passes_cat_filter(g.0, cf) && g.1.len() > 0 && g.1 == spec_group(
                    catalog(),
                    g.0,
                    c,
                    sf,
                )
            },
    decreases cats.len(),
{
    if cats.len() == 0 {
    } else {
        lemma_groups_over_sound(cats.drop_last(), c, cf, sf);
        let pre = spec_groups_over(cats.drop_last(), c, cf, sf);
        let cur = spec_groups_over(cats, c, cf, sf);
        assert forall|gi: int| 0 <= gi < cur.len() implies {
            let g = #[trigger] cur[gi];
            passes_cat_filter(g.0, cf) && g.1.len() > 0 && g.1 == spec_group(catalog(), g.0, c, sf)
        } by {
            if gi < pre.len() {
                assert(cur[gi] == pre[gi]);
            }
        }
    }
}

/// Listing under filters is sound: every entry of every group has the
/// group's category, that category passes the category filter, the entry
/// passes the status filter, and its paired status is the one the
/// configuration assigns. Both filters act together as a logical and.
pub proof fn lemma_list_filters_sound(
    c: Config,
    cf: Option<IntegrationCategory>,
    sf: Option<IntegrationStatus>,
)
    ensures
        forall|gi: int, i: int|
            #![trigger spec_list_groups(c, cf, sf)[gi].1[i]]
            (0 <= gi < spec_list_groups(c, cf, sf).len() && 0 <= i < spec_list_groups(
                c,
                cf,
                sf,
            )[gi].1.len()) ==> {
                let g = spec_list_groups(c, cf, sf)[gi];
                let p = g.1[i];
                passes_cat_filter(g.0, cf) && p.0.category == g.0 && passes_status(p.0, c, sf)
                    && p.1 == spec_status(p.0.status_rule, c)
            },
{
    lemma_groups_over_sound(crate::model::spec_all_categories(), c, cf, sf);
    assert forall|gi: int, i: int|
        #![trigger spec_list_groups(c, cf, sf)[gi].1[i]]
        (0 <= gi < spec_list_groups(c, cf, sf).len() && 0 <= i < spec_list_groups(
            c,
            cf,
            sf,
        )[gi].1.len()) implies {
        let g = spec_list_groups(c, cf, sf)[gi];
        let p = g.1[i];
        passes_cat_filter(g.0, cf) && p.0.category == g.0 && passes_status(p.0, c, sf) && p.1
            == spec_status(p.0.status_rule, c)
    } by {
        let g = spec_list_groups(c, cf, sf)[gi];
        lemma_spec_group_sound(catalog(), g.0, c, sf);
    }
}

/// An entry of category `k` that passes the status filter stands in that
/// category's group.
proof fn lemma_spec_group_complete(
    s: Seq<EntryModel>,
    k: IntegrationCategory,
    c: Config,
    sf: Option<IntegrationStatus>,
    i: int,
)
    requires
        0 <= i < s.len(),
        s[i].category == k,
        passes_status(s[i], c, sf),
    ensures
        exists|t: int|
            0 <= t < spec_group(s, k, c, sf).len() && #[trigger] spec_group(s, k, c, sf)[t].0
                == s[i],
    decreases s.len(),
{
    let g = spec_group(s, k, c, sf);
    if i == s.len() - 1 {
        assert(g[g.len() - 1].0 == s[i]);
    } else {
        lemma_spec_group_complete(s.drop_last(), k, c, sf, i);
        let rest = spec_group(s.drop_last(), k, c, sf);
        let t = choose|t: int| 0 <= t < rest.len() && #[trigger] rest[t].0 == s.drop_last()[i];
        assert(g[t].0 == s[i]);
    }
}

/// A category of the listing order whose group is non-empty and passes
/// the category filter appears among the output groups.
proof fn lemma_groups_over_complete(
    cats: Seq<IntegrationCategory>,
    c: Config,
    cf: Option<IntegrationCategory>,
    sf: Option<IntegrationStatus>,
    ki: int,
)
    requires
        0 <= ki < cats.len(),
        passes_cat_filter(cats[ki], cf),
        spec_group(catalog(), cats[ki], c, sf).len() > 0,
    ensures
        exists|gi: int|
            0 <= gi < spec_groups_over(cats, c, cf, sf).len() && #[trigger] spec_groups_over(
                cats,
                c,
                cf,
                sf,
            )[gi] == (cats[ki], spec_group(catalog(), cats[ki], c, sf)),
    decreases cats.len(),
{
    let out = spec_groups_over(cats, c, cf, sf);
    if ki == cats.len() - 1 {
        assert(cats.last() == cats[ki]);
        assert(out[out.len() - 1] == (cats[ki], spec_group(catalog(), cats[ki], c, sf)));
    } else {
        lemma_groups_over_complete(cats.drop_last(), c, cf, sf, ki);
        let pre = spec_groups_over(cats.drop_last(), c, cf, sf);
        let gi = choose|gi: int|
            0 <= gi < pre.len() && #[trigger] pre[gi] == (
                cats.drop_last()[ki],
                spec_group(catalog(), cats.drop_last()[ki], c, sf),
            );
        assert(out[gi] == (cats[ki], spec_group(catalog(), cats[ki], c, sf)));
    }
}

/// Every category stands in the fixed enumeration order.
proof fn lemma_all_categories_complete(k: IntegrationCategory)
    ensures
        exists|ki: int|
            0 <= ki < crate::model::spec_all_categories().len()
                && #[trigger] crate::model::spec_all_categories()[ki] == k,
{
    let cats = crate::model::spec_all_categories();
    match k {
        IntegrationCategory::Chat => {
            assert(cats[0] == k);
        },
        IntegrationCategory::AiModel => {
            assert(cats[1] == k);
        },
        IntegrationCategory::Productivity => {
            assert(cats[2] == k);
        },
        IntegrationCategory::MusicAudio => {
            assert(cats[3] == k);
        },
        IntegrationCategory::SmartHome => {
            assert(cats[4] == k);
        },
        IntegrationCategory::ToolsAutomation => {
            assert(cats[5] == k);
        },
        IntegrationCategory::MediaCreative => {
            assert(cats[6] == k);
        },
        IntegrationCategory::Social => {
            assert(cats[7] == k);
        },
        IntegrationCategory::Platform => {
            assert(cats[8] == k);
        },
    }
}

/// Listing under filters is complete: every catalog entry that passes
/// both filters appears in some output group.
pub proof fn lemma_list_filters_complete(
    c: Config,
    cf: Option<IntegrationCategory>,
    sf: Option<IntegrationStatus>,
    i: int,
)
    requires
        0 <= i < catalog().len(),
        passes_cat_filter(catalog()[i].category, cf),
        passes_status(catalog()[i], c, sf),
    ensures
        exists|gi: int, t: int|
            0 <= gi < spec_list_groups(c, cf, sf).len() && 0 <= t < spec_list_groups(
                c,
                cf,
                sf,
            )[gi].1.len() && (#[trigger] spec_list_groups(c, cf, sf)[gi].1[t]).0 == catalog()[i],
{
    let m = catalog()[i];
    let k = m.category;
    let cats = crate::model::spec_all_categories();
    lemma_spec_group_complete(catalog(), k, c, sf, i);
    lemma_all_categories_complete(k);
    let ki = choose|ki: int| 0 <= ki < cats.len() && #[trigger] cats[ki] == k;
    lemma_groups_over_complete(cats, c, cf, sf, ki);
    let gi = choose|gi: int|
        0 <= gi < spec_groups_over(cats, c, cf, sf).len() && #[trigger] spec_groups_over(
            cats,
            c,
            cf,
            sf,
        )[gi] == (cats[ki], spec_group(catalog(), cats[ki], c, sf));
    let t = choose|t: int|
        0 <= t < spec_group(catalog(), k, c, sf).len() && #[trigger] spec_group(
            catalog(),
            k,
            c,
            sf,
        )[t].0 == m;
    assert(spec_list_groups(c, cf, sf)[gi].1[t].0 == m);
}


/// The catalog is curated so that no two entry names collide under
/// case-insensitive comparison: an info lookup matches at most one entry.
#[verifier::rlimit(100)]
#[verifier::spinoff_prover]
pub proof fn lemma_catalog_names_unique()
    ensures
        forall|i: int, j: int|
            0 <= i < j < catalog().len() ==> !eq_ignore_case(
                #[trigger] catalog()[i].name,
                #[trigger] catalog()[j].name,
            ),
{
    reveal_strlit("Telegram");
    reveal_strlit("Discord");
    reveal_strlit("Slack");
    reveal_strlit("iMessage");
    reveal_strlit("WhatsApp");
    reveal_strlit("OpenRouter");
    reveal_strlit("Ollama");
    reveal_strlit("GitHub");
    reveal_strlit("Notion");
    reveal_strlit("Spotify");
    reveal_strlit("Home Assistant");
    reveal_strlit("Browser");
    reveal_strlit("Cron");
    reveal_strlit("Webhooks");
    reveal_strlit("ComfyUI");
    reveal_strlit("Mastodon");
    reveal_strlit("Matrix");
    assert(!eq_ignore_case("Telegram"@, "iMessage"@)) by {
        assert(lower_seq("Telegram"@)[0] != lower_seq("iMessage"@)[0]);
    }
    assert(!eq_ignore_case("Telegram"@, "WhatsApp"@)) by {
        assert(lower_seq("Telegram"@)[0] != lower_seq("WhatsApp"@)[0]);
    }
    assert(!eq_ignore_case("Telegram"@, "Webhooks"@)) by {
        assert(lower_seq("Telegram"@)[0] != lower_seq("Webhooks"@)[0]);
    }
    assert(!eq_ignore_case("Telegram"@, "Mastodon"@)) by {
        assert(lower_seq("Telegram"@)[0] != lower_seq("Mastodon"@)[0]);
    }
    assert(!eq_ignore_case("iMessage"@, "WhatsApp"@)) by {
        assert(lower_seq("iMessage"@)[0] != lower_seq("WhatsApp"@)[0]);
    }
    assert(!eq_ignore_case("iMessage"@, "Webhooks"@)) by {
        assert(lower_seq("iMessage"@)[0] != lower_seq("Webhooks"@)[0]);
    }
    assert(!eq_ignore_case("iMessage"@, "Mastodon"@)) by {
        assert(lower_seq("iMessage"@)[0] != lower_seq("Mastodon"@)[0]);
    }
    assert(!eq_ignore_case("WhatsApp"@, "Webhooks"@)) by {
        assert(lower_seq("WhatsApp"@)[1] != lower_seq("Webhooks"@)[1]);
    }
    assert(!eq_ignore_case("WhatsApp"@, "Mastodon"@)) by {
        assert(lower_seq("WhatsApp"@)[0] != lower_seq("Mastodon"@)[0]);
    }
    assert(!eq_ignore_case("Webhooks"@, "Mastodon"@)) by {
        assert(lower_seq("Webhooks"@)[0] != lower_seq("Mastodon"@)[0]);
    }
    assert(!eq_ignore_case("Discord"@, "Spotify"@)) by {
        assert(lower_seq("Discord"@)[0] != lower_seq("Spotify"@)[0]);
    }
    assert(!eq_ignore_case("Discord"@, "Browser"@)) by {
        assert(lower_seq("Discord"@)[0] != lower_seq("Browser"@)[0]);
    }
    assert(!eq_ignore_case("Discord"@, "ComfyUI"@)) by {
        assert(lower_seq("Discord"@)[0] != lower_seq("ComfyUI"@)[0]);
    }
    assert(!eq_ignore_case("Spotify"@, "Browser"@)) by {
        assert(lower_seq("Spotify"@)[0] != lower_seq("Browser"@)[0]);
    }
    assert(!eq_ignore_case("Spotify"@, "ComfyUI"@)) by {
        assert(lower_seq("Spotify"@)[0] != lower_seq("ComfyUI"@)[0]);
    }
    assert(!eq_ignore_case("Browser"@, "ComfyUI"@)) by {
        assert(lower_seq("Browser"@)[0] != lower_seq("ComfyUI"@)[0]);
    }
    assert(!eq_ignore_case("Ollama"@, "GitHub"@)) by {
        assert(lower_seq("Ollama"@)[0] != lower_seq("GitHub"@)[0]);
    }
    assert(!eq_ignore_case("Ollama"@, "Notion"@)) by {
        assert(lower_seq("Ollama"@)[0] != lower_seq("Notion"@)[0]);
    }
    assert(!eq_ignore_case("Ollama"@, "Matrix"@)) by {
        assert(lower_seq("Ollama"@)[0] != lower_seq("Matrix"@)[0]);
    }
    assert(!eq_ignore_case("GitHub"@, "Notion"@)) by {
        assert(lower_seq("GitHub"@)[0] != lower_seq("Notion"@)[0]);
    }
    assert(!eq_ignore_case("GitHub"@, "Matrix"@)) by {
        assert(lower_seq("GitHub"@)[0] != lower_seq("Matrix"@)[0]);
    }
    assert(!eq_ignore_case("Notion"@, "Matrix"@)) by {
        assert(lower_seq("Notion"@)[0] != lower_seq("Matrix"@)[0]);
    }
    assert forall|i: int, j: int| 0 <= i < j < catalog().len() implies !eq_ignore_case(
        #[trigger] catalog()[i].name,
        #[trigger] catalog()[j].name,
    ) by {
        if eq_ignore_case(catalog()[i].name, catalog()[j].name) {
            assert(lower_seq(catalog()[i].name).len() == lower_seq(catalog()[j].name).len());
        }
    }
}

/// An empty query matches every entry.
pub proof fn lemma_empty_query_matches(m: EntryModel)
    ensures
        matches_query(m, Seq::<char>::empty()),
{
    let needle = lower_seq(Seq::<char>::empty());
    let hay = lower_seq(m.name);
    assert(needle.len() == 0);
    assert(hay.subrange(0, 0 + needle.len() as int) =~= needle);
    assert(0 <= 0 && 0 + needle.len() <= hay.len() && hay.subrange(0, 0 + needle.len() as int)
        == needle);
    assert(is_substring(needle, hay));
}

/// Searching with an empty query and no filters keeps every catalog
/// entry; the search contract then returns them sorted by name.
pub proof fn lemma_search_empty_query_keeps_all(c: Config)
    ensures
        pair_entries(spec_search(catalog(), Seq::<char>::empty(), c, None, None)) == catalog(),
{
    lemma_search_empty_keeps_all(catalog(), c);
}

/// Helper for the empty-query law, by induction over the entries.
proof fn lemma_search_empty_keeps_all(s: Seq<EntryModel>, c: Config)
    ensures
        pair_entries(spec_search(s, Seq::<char>::empty(), c, None, None)) == s,
    decreases s.len(),
{
    if s.len() == 0 {
        assert(pair_entries(spec_search(s, Seq::<char>::empty(), c, None, None)) =~= s);
    } else {
        lemma_search_empty_keeps_all(s.drop_last(), c);
        lemma_empty_query_matches(s.last());
        let q = Seq::<char>::empty();
        let rest = spec_search(s.drop_last(), q, c, None, None);
        assert(matches_query(s.last(), q) && passes_cat_filter(s.last().category, None)
            && passes_status(s.last(), c, None));
        assert(spec_search(s, q, c, None, None) == rest.push(
            (s.last(), spec_status(s.last().status_rule, c)),
        ));
        assert forall|i: int| 0 <= i < s.len() implies pair_entries(
            spec_search(s, q, c, None, None),
        )[i] == s[i] by {
            if i < s.len() - 1 {
                assert(pair_entries(rest)[i] == s.drop_last()[i]);
            }
        }
        assert(pair_entries(spec_search(s, q, c, None, None)) =~= s);
    }
}

} // verus!
