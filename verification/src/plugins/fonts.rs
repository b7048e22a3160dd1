//! Font search: lists the system font families whose name contains the query.
use vstd::prelude::*;

use super::{action_is, make_action, opt_text_is, Action, ResultItem};
use crate::text::{chars_contain, chars_of, lowercase, seq_contains, to_lowercase};

verus! {

/// At most this many fonts are listed for one query.
pub const MAX_FONT_RESULTS: usize = 20;

#[verifier::external_type_specification]
#[verifier::external_body]
pub struct ExSystemSource(font_kit::source::SystemSource);

/// Calls font_kit's `SystemSource::new`, which opens the platform's font
/// database. Nothing is claimed of the source.
#[verifier::external_body]
fn open_system_source() -> font_kit::source::SystemSource {
    font_kit::source::SystemSource::new()
}

/// Calls font_kit's `SystemSource::all_families`; `None` stands for its error.
/// The families depend on the fonts installed. The contract assumes the
/// fontconfig source, which `SystemSource` is on Linux (on every target but
/// macOS, iOS, Windows, Android, OpenHarmony and wasm). On success that source
/// sorts and deduplicates the list, so no family occurs twice, and it reports an
/// error rather than an empty list. The Core Text (macOS) and DirectWrite
/// (Windows) sources promise neither, so on those systems the contract does not
/// hold.
#[verifier::external_body]
fn all_font_families(source: &font_kit::source::SystemSource) -> (r: Option<Vec<String>>)
    ensures
        r matches Some(v) ==> v@.len() > 0 && forall|i: int, j: int|
            0 <= i < v@.len() && 0 <= j < v@.len() && i != j ==> #[trigger] v@[i]@
                != #[trigger] v@[j]@,
{
    match source.all_families() {
        Ok(families) => Some(families),
        Err(_) => None,
    }
}

/// The family `family` matches the query: its lower-cased name contains the
/// lower-cased query.
pub open spec fn family_matches(family: Seq<char>, query: Seq<char>) -> bool {
    seq_contains(lowercase(family), lowercase(query))
}

/// The families of `fams` that match `query`, in their order.
pub open spec fn matching_families(fams: Seq<Seq<char>>, query: Seq<char>) -> Seq<Seq<char>>
    decreases fams.len(),
{
    if fams.len() == 0 {
        Seq::empty()
    } else {
        let earlier = matching_families(fams.drop_last(), query);
        if family_matches(fams.last(), query) {
            earlier.push(fams.last())
        } else {
            earlier
        }
    }
}

/// The result listed for the font family `family`.
pub open spec fn is_font_item(r: ResultItem, family: Seq<char>) -> bool {
    &&& r.id@ == "font-"@ + family
    &&& r.title@ == family
    &&& opt_text_is(r.subtitle, "System Font"@)
    &&& opt_text_is(r.icon, "font-x-generic-symbolic"@)
    &&& r.category@ == "Fonts"@
    &&& r.score == 90
    &&& r.actions@.len() == 2
    &&& action_is(r.actions@[0], "Copy Font Name"@, "copy-to-clipboard"@, family)
    &&& action_is(
        r.actions@[1],
        "Preview Font"@,
        "run-command"@,
        "gnome-font-viewer --family '"@ + family + "'"@,
    )
}

/// `r` is the result listed for some font family that matches `query`.
pub open spec fn is_font_result_for(r: ResultItem, query: Seq<char>) -> bool {
    exists|f: Seq<char>| is_font_item(r, f) && family_matches(f, query)
}

/// `r` lists, in order, the results for the first `MAX_FONT_RESULTS` families of
/// `fams` that match `query`.
pub open spec fn is_font_listing(r: Seq<ResultItem>, fams: Seq<Seq<char>>, query: Seq<char>) -> bool {
    let m = matching_families(fams, query);
    &&& r.len() == if m.len() < MAX_FONT_RESULTS {
        m.len()
    } else {
        MAX_FONT_RESULTS as nat
    }
    &&& forall|i: int| 0 <= i < r.len() ==> is_font_item(#[trigger] r[i], m[i])
}

/// No family name occurs twice in `fams`.
pub open spec fn distinct_families(fams: Seq<Seq<char>>) -> bool {
    forall|i: int, j: int|
        0 <= i < fams.len() && 0 <= j < fams.len() && i != j ==> #[trigger] fams[i] != #[trigger] fams[j]
}

/// The texts of a list of strings.
pub open spec fn texts(v: Seq<String>) -> Seq<Seq<char>> {
    v.map_values(|s: String| s@)
}

/// The matches among the first `k` families are the first matches among all.
pub proof fn lemma_matching_prefix(fams: Seq<Seq<char>>, query: Seq<char>, k: int)
    requires
        0 <= k <= fams.len(),
    ensures
        matching_families(fams.take(k), query).is_prefix_of(matching_families(fams, query)),
    decreases fams.len(),
{
    if k == fams.len() {
        assert(fams.take(k) =~= fams);
    } else {
        lemma_matching_prefix(fams.drop_last(), query, k);
        assert(fams.drop_last().take(k) =~= fams.take(k));
    }
}

/// The search plugin for installed fonts.
pub struct FontSearchPlugin;

impl FontSearchPlugin {
    pub fn new() -> (r: Self) {
        FontSearchPlugin
    }

    /// The plugin's identifier.
    pub fn id(&self) -> (r: &'static str)
        ensures
            r@ == "fonts"@,
    {
        "fonts"
    }

    /// The plugin's display name.
    pub fn name(&self) -> (r: &'static str)
        ensures
            r@ == "Font Search"@,
    {
        "Font Search"
    }

    /// The keyword that selects this plugin alone.
    pub fn mode_keyword(&self) -> (r: Option<&'static str>)
        ensures
            r matches Some(k) && k@ == "font"@,
    {
        Some("font")
    }

    /// The plugin only answers when its keyword selects it.
    pub fn is_mode_only(&self) -> (r: bool)
        ensures
            r,
    {
        true
    }

    /// The fonts installed on the system whose family name contains `query_text`,
    /// ignoring case; none for an empty query (the font database is then not
    /// consulted) or when the font database cannot be listed. Otherwise the
    /// listing of the first `MAX_FONT_RESULTS` matches among the distinct families
    /// that the system reported.
    pub fn query(&self, query_text: &str) -> (r: Vec<ResultItem>)
        ensures
            query_text@.len() == 0 ==> r@.len() == 0,
            r@.len() <= MAX_FONT_RESULTS,
            forall|i: int| 0 <= i < r@.len() ==> is_font_result_for(#[trigger] r@[i], query_text@),
            exists|listed: Option<Seq<Seq<char>>>|
                (listed matches Some(f) ==> f.len() > 0 && distinct_families(f))
                    && #[trigger] is_font_answer(r@, listed, query_text@),
    {
        if query_text.unicode_len() == 0 {
            let r: Vec<ResultItem> = Vec::new();
            assert(is_font_answer(r@, None, query_text@));
            return r;
        }
        let source = open_system_source();
        let families = all_font_families(&source);
        let r = font_query_results(query_text, &families);
        proof {
            let listed = listed_texts(families);
            if let Some(v) = families {
                let fams = texts(v@);
                assert(distinct_families(fams)) by {
                    assert forall|i: int, j: int|
                        0 <= i < fams.len() && 0 <= j < fams.len() && i != j implies #[trigger] fams[i]
                            != #[trigger] fams[j] by {
                        assert(fams[i] == v@[i]@);
                        assert(fams[j] == v@[j]@);
                    }
                }
                lemma_listing_items_match(r@, fams, query_text@);
            }
            assert(is_font_answer(r@, listed, query_text@));
        }
        r
    }
}

/// The texts of the families that a listing returned, `None` where it failed.
pub open spec fn listed_texts(families: Option<Vec<String>>) -> Option<Seq<Seq<char>>> {
    match families {
        Some(v) => Some(texts(v@)),
        None => None,
    }
}

/// `r` is the answer to `query` when the system's font listing gave `listed`
/// (`None` for a failed listing): nothing for an empty query or a failed listing,
/// otherwise the listing of the matches among the families.
pub open spec fn is_font_answer(
    r: Seq<ResultItem>,
    listed: Option<Seq<Seq<char>>>,
    query: Seq<char>,
) -> bool {
    if query.len() == 0 {
        r.len() == 0
    } else {
        match listed {
            Some(fams) => is_font_listing(r, fams, query),
            None => r.len() == 0,
        }
    }
}

/// The answer to `query_text` given what the system's font listing returned:
/// `families` is `None` when the listing failed.
pub fn font_query_results(query_text: &str, families: &Option<Vec<String>>) -> (r: Vec<ResultItem>)
    ensures
        is_font_answer(r@, listed_texts(*families), query_text@),
{
    if query_text.unicode_len() == 0 {
        return Vec::new();
    }
    match families {
        Some(v) => {
            let r = font_results(query_text, v);
            assert(is_font_listing(r@, texts(v@), query_text@));
            r
        },
        None => Vec::new(),
    }
}

/// Every result of a listing is a font result for the query, and there are at
/// most `MAX_FONT_RESULTS` of them.
pub proof fn lemma_listing_items_match(r: Seq<ResultItem>, fams: Seq<Seq<char>>, query: Seq<char>)
    requires
        is_font_listing(r, fams, query),
    ensures
        r.len() <= MAX_FONT_RESULTS,
        forall|i: int| 0 <= i < r.len() ==> is_font_result_for(#[trigger] r[i], query),
{
    assert forall|i: int| 0 <= i < r.len() implies is_font_result_for(#[trigger] r[i], query) by {
        let f = matching_families(fams, query)[i];
        lemma_matching_all_match(fams, query, i);
        assert(is_font_item(r[i], f));
        assert(family_matches(f, query));
    }
}

/// Every family in the matches matches.
pub proof fn lemma_matching_all_match(fams: Seq<Seq<char>>, query: Seq<char>, i: int)
    requires
        0 <= i < matching_families(fams, query).len(),
    ensures
        family_matches(matching_families(fams, query)[i], query),
    decreases fams.len(),
{
    if fams.len() > 0 {
        let earlier = matching_families(fams.drop_last(), query);
        if i < earlier.len() {
            lemma_matching_all_match(fams.drop_last(), query, i);
        }
    }
}

/// The result for one font family.
fn font_item(family: &String) -> (r: ResultItem)
    ensures
        is_font_item(r, family@),
{
    let mut id = String::from_str("font-");
    id.append(family.as_str());
    let mut preview = String::from_str("gnome-font-viewer --family '");
    preview.append(family.as_str());
    preview.append("'");
    let mut actions: Vec<Action> = Vec::new();
    actions.push(make_action(String::from_str("Copy Font Name"), "copy-to-clipboard", family.clone()));
    actions.push(make_action(String::from_str("Preview Font"), "run-command", preview));
    ResultItem {
        id,
        title: family.clone(),
        subtitle: Some(String::from_str("System Font")),
        icon: Some(String::from_str("font-x-generic-symbolic")),
        category: String::from_str("Fonts"),
        score: 90,
        actions,
    }
}

/// The results for `query_text` among the font families `families`: the first
/// `MAX_FONT_RESULTS` families, in their order, whose lower-cased name contains
/// the lower-cased query.
pub fn font_results(query_text: &str, families: &Vec<String>) -> (r: Vec<ResultItem>)
    ensures
        ({
            let m = matching_families(texts(families@), query_text@);
            &&& r@.len() == if m.len() < MAX_FONT_RESULTS {
                m.len()
            } else {
                MAX_FONT_RESULTS as nat
            }
            &&& forall|i: int| 0 <= i < r@.len() ==> is_font_item(#[trigger] r@[i], m[i])
        }),
{
    let ghost fams = texts(families@);
    let q = to_lowercase(query_text);
    let qc = chars_of(q.as_str());
    let mut results: Vec<ResultItem> = Vec::new();
    let mut i: usize = 0;
    while i < families.len()
        invariant
            fams == texts(families@),
            i <= families@.len(),
            qc@ == lowercase(query_text@),
            results@.len() < MAX_FONT_RESULTS,
            results@.len() == matching_families(fams.take(i as int), query_text@).len(),
            forall|k: int|
                0 <= k < results@.len() ==> is_font_item(
                    #[trigger] results@[k],
                    matching_families(fams.take(i as int), query_text@)[k],
                ),
        decreases families@.len() - i,
    {
        let family = &families[i];
        let lower = to_lowercase(family.as_str());
        let lc = chars_of(lower.as_str());
        let hit = chars_contain(&lc, &qc);
        assert(fams.take(i + 1).drop_last() =~= fams.take(i as int));
        assert(fams.take(i + 1).last() == family@);
        if hit {
            results.push(font_item(family));
        }
        i = i + 1;
        if results.len() >= MAX_FONT_RESULTS {
            proof {
                lemma_matching_prefix(fams, query_text@, i as int);
                let pre = matching_families(fams.take(i as int), query_text@);
                let m = matching_families(fams, query_text@);
                assert forall|k: int| 0 <= k < pre.len() implies pre[k] == m[k] by {
                    assert(pre[k] == m.subrange(0, pre.len() as int)[k]);
                }
            }
            return results;
        }
    }
    assert(fams.take(i as int) =~= fams);
    results
}

} // verus!
