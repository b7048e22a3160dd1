//! Application search: ranks the installed applications by how well their name,
//! description or executable matches the query, or by frecency when the query is
//! blank.
use vstd::prelude::*;

use super::{action_is, make_action, opt_text_is, Action, ResultItem};
use crate::frecency::{frecency_score, FrecencyStore};
use crate::ranking::{is_stable_ranking, runs, score_values, stable_ranking};
use crate::text::{
    chars_contain, chars_of, chars_start_with, is_blank, lowercase, seq_contains, to_lowercase,
    trim,
};

verus! {

/// At most this many applications are suggested for a blank query.
pub const MAX_SUGGESTED_APPS: usize = 10;

/// What the launcher knows of one installed application.
pub struct AppEntry {
    /// The display name.
    pub name: String,
    /// The desktop file id, if it has one.
    pub id: Option<String>,
    /// The description, if it has one.
    pub description: Option<String>,
    /// The executable, empty when unknown.
    pub executable: String,
    /// The icon, as a name or a path, if it has one.
    pub icon: Option<String>,
    /// Whether the application is meant to be shown in menus.
    pub should_show: bool,
}

/// The key under which an application is launched and its launches are
/// recorded: its id, or its name when it has none.
pub open spec fn app_key(a: AppEntry) -> Seq<char> {
    match a.id {
        Some(i) => i@,
        None => a.name@,
    }
}

/// The description of an application, empty when it has none.
pub open spec fn app_description(a: AppEntry) -> Seq<char> {
    match a.description {
        Some(d) => d@,
        None => Seq::empty(),
    }
}

/// How well an application with this name, description and executable matches
/// `query`, ignoring case: 100 for the exact name, 80 for a name that starts with
/// the query, 60 for a name that contains it, 40 for a description that contains
/// it, 20 for an executable that contains it, 0 otherwise.
pub open spec fn text_match_score(
    name: Seq<char>,
    description: Seq<char>,
    executable: Seq<char>,
    query: Seq<char>,
) -> int {
    let q = lowercase(query);
    let n = lowercase(name);
    if n == q {
        100
    } else if q.is_prefix_of(n) {
        80
    } else if seq_contains(n, q) {
        60
    } else if seq_contains(lowercase(description), q) {
        40
    } else if seq_contains(lowercase(executable), q) {
        20
    } else {
        0
    }
}

/// The score that application `a` is ranked by for `query`: its frecency for a
/// blank query, its text match otherwise.
pub open spec fn candidate_score(
    a: AppEntry,
    query: Seq<char>,
    log: Map<Seq<char>, Seq<u64>>,
    now: u64,
) -> int {
    if trim(query).len() == 0 {
        frecency_score(log, app_key(a), now)
    } else {
        text_match_score(a.name@, app_description(a), a.executable@, query)
    }
}

/// Application `a` is listed for `query`: it is shown in menus and, for a
/// non-blank query, matches it.
pub open spec fn is_candidate(a: AppEntry, query: Seq<char>) -> bool {
    a.should_show && (trim(query).len() == 0 || text_match_score(
        a.name@,
        app_description(a),
        a.executable@,
        query,
    ) > 0)
}

/// The applications of `apps` listed for `query`, in their order.
pub open spec fn candidates(apps: Seq<AppEntry>, query: Seq<char>) -> Seq<AppEntry>
    decreases apps.len(),
{
    if apps.len() == 0 {
        Seq::empty()
    } else {
        let earlier = candidates(apps.drop_last(), query);
        if is_candidate(apps.last(), query) {
            earlier.push(apps.last())
        } else {
            earlier
        }
    }
}

/// The result shown for application `a` with score `score`.
pub open spec fn is_app_item(r: ResultItem, a: AppEntry, score: int) -> bool {
    &&& r.id@ == "app-"@ + app_key(a)
    &&& r.title@ == a.name@
    &&& match a.description {
        Some(d) => opt_text_is(r.subtitle, d@),
        None => if a.executable@.len() == 0 {
            r.subtitle is None
        } else {
            opt_text_is(r.subtitle, a.executable@)
        },
    }
    &&& opt_text_is(
        r.icon,
        match a.icon {
            Some(i) => i@,
            None => "application-x-executable"@,
        },
    )
    &&& r.category@ == "Applications"@
    &&& r.score == score
    &&& r.actions@.len() == 1
    &&& action_is(r.actions@[0], "Launch "@ + a.name@, "launch-app"@, app_key(a))
}

/// The results `r` are the listed applications `cands` with scores `scores`, in
/// the stable ranking order (score descending, then lower-cased name), cut to the
/// first `limit`.
pub open spec fn ranked_results(
    r: Seq<ResultItem>,
    cands: Seq<AppEntry>,
    scores: Seq<int>,
    limit: nat,
) -> bool {
    exists|p: Seq<usize>|
        {
            &&& is_stable_ranking(scores, cands.map_values(|a: AppEntry| lowercase(a.name@)), p)
            &&& r.len() == if p.len() < limit {
                p.len()
            } else {
                limit
            }
            &&& forall|k: int|
                0 <= k < r.len() ==> is_app_item(
                    #[trigger] r[k],
                    cands[p[k] as int],
                    scores[p[k] as int],
                )
        }
}

/// The application search plugin, over the applications loaded into it.
pub struct AppsPlugin {
    apps: Vec<AppEntry>,
}

impl AppsPlugin {
    /// A plugin that searches `apps`.
    pub fn new(apps: Vec<AppEntry>) -> (r: Self)
        ensures
            r.apps() == apps@,
    {
        AppsPlugin { apps }
    }

    /// The applications searched.
    pub closed spec fn apps(&self) -> Seq<AppEntry> {
        self.apps@
    }

    /// The plugin's identifier.
    pub fn id(&self) -> (r: &'static str)
        ensures
            r@ == "apps"@,
    {
        "apps"
    }

    /// The plugin's display name.
    pub fn name(&self) -> (r: &'static str)
        ensures
            r@ == "Applications"@,
    {
        "Applications"
    }

    /// Replaces the searched applications with a freshly loaded list.
    pub fn reload_cache(&mut self, apps: Vec<AppEntry>)
        ensures
            final(self).apps() == apps@,
    {
        self.apps = apps;
    }

    /// Whether every application shown for a blank query has a frecency score that
    /// fits the score type at time `now`.
    pub fn frecency_fits(&self, frecency: &FrecencyStore, now: u64) -> (r: bool)
        ensures
            r == forall|k: int|
                0 <= k < self.apps().len() && (#[trigger] self.apps()[k]).should_show
                    ==> frecency_score(frecency.accesses@, app_key(self.apps()[k]), now)
                    <= i32::MAX,
    {
        let mut i: usize = 0;
        while i < self.apps.len()
            invariant
                i <= self.apps@.len(),
                forall|k: int|
                    0 <= k < i && (#[trigger] self.apps@[k]).should_show ==> frecency_score(
                        frecency.accesses@,
                        app_key(self.apps@[k]),
                        now,
                    ) <= i32::MAX,
            decreases self.apps@.len() - i,
        {
            let a = &self.apps[i];
            if a.should_show {
                let key = app_key_of(a);
                if !frecency.score_fits(key.as_str(), now) {
                    return false;
                }
            }
            i = i + 1;
        }
        true
    }

    /// The applications for `query_text`. For a blank query: the shown
    /// applications ranked by their frecency in `frecency` at time `now`, at most
    /// `MAX_SUGGESTED_APPS`. Otherwise: every shown application that matches,
    /// ranked by its match score. Ties are broken by lower-cased name, then by the
    /// loaded order.
    pub fn query(&self, query_text: &str, frecency: &FrecencyStore, now: u64) -> (r: Vec<
        ResultItem,
    >)
        requires
            trim(query_text@).len() == 0 ==> forall|k: int|
                0 <= k < self.apps().len() && (#[trigger] self.apps()[k]).should_show
                    ==> frecency_score(frecency.accesses@, app_key(self.apps()[k]), now)
                    <= i32::MAX,
        ensures
            ({
                let cands = candidates(self.apps(), query_text@);
                ranked_results(
                    r@,
                    cands,
                    cands.map_values(
                        |a: AppEntry| candidate_score(a, query_text@, frecency.accesses@, now),
                    ),
                    if trim(query_text@).len() == 0 {
                        MAX_SUGGESTED_APPS as nat
                    } else {
                        cands.len()
                    },
                )
            }),
    {
        let blank = is_blank(query_text);
        let qc = lower_chars(query_text);
        let ghost apps = self.apps@;
        let ghost qv = query_text@;
        let ghost log = frecency.accesses@;
        let mut idx: Vec<usize> = Vec::new();
        let mut scores: Vec<i32> = Vec::new();
        let mut names: Vec<Vec<char>> = Vec::new();
        let mut i: usize = 0;
        assert(apps == self.apps());
        while i < self.apps.len()
            invariant
                apps == self.apps@,
                qv == query_text@,
                log == frecency.accesses@,
                blank == (trim(qv).len() == 0),
                qc@ == lowercase(qv),
                i <= apps.len(),
                blank ==> forall|k: int|
                    0 <= k < apps.len() && (#[trigger] apps[k]).should_show ==> frecency_score(
                        log,
                        app_key(apps[k]),
                        now,
                    ) <= i32::MAX,
                idx@.len() == candidates(apps.take(i as int), qv).len(),
                scores@.len() == idx@.len(),
                names@.len() == idx@.len(),
                forall|j: int|
                    0 <= j < idx@.len() ==> {
                        &&& #[trigger] idx@[j] < apps.len()
                        &&& apps[idx@[j] as int] == candidates(apps.take(i as int), qv)[j]
                        &&& scores@[j] == candidate_score(apps[idx@[j] as int], qv, log, now)
                        &&& names@[j]@ == lowercase(apps[idx@[j] as int].name@)
                    },
            decreases apps.len() - i,
        {
            let a = &self.apps[i];
            assert(apps.take(i + 1).drop_last() =~= apps.take(i as int));
            assert(apps.take(i + 1).last() == apps[i as int]);
            if a.should_show {
                let score: i32 = if blank {
                    let key = app_key_of(a);
                    frecency.get_frecency_score(key.as_str(), now)
                } else {
                    app_match_score(a, query_text, &qc)
                };
                if blank || score > 0 {
                    idx.push(i);
                    scores.push(score);
                    let lower = to_lowercase(a.name.as_str());
                    names.push(chars_of(lower.as_str()));
                }
            }
            i = i + 1;
        }
        assert(apps.take(apps.len() as int) =~= apps);
        let ghost cands = candidates(apps, qv);
        let ghost cand_scores = cands.map_values(|a: AppEntry| candidate_score(a, qv, log, now));
        assert(candidates(apps.take(i as int), qv) == cands);
        let ghost lower_names = cands.map_values(|a: AppEntry| lowercase(a.name@));
        assert forall|j: int| 0 <= j < idx@.len() implies score_values(scores@)[j] == cand_scores[j]
            && runs(names@)[j] == lower_names[j] by {
            assert(idx@[j] < apps.len());
            assert(names@[j]@ == lowercase(apps[idx@[j] as int].name@));
        }
        assert(score_values(scores@) =~= cand_scores);
        assert(runs(names@).len() == lower_names.len());
        assert(runs(names@) =~= lower_names);
        let perm = stable_ranking(&scores, &names);
        let limit: usize = if blank {
            MAX_SUGGESTED_APPS
        } else {
            perm.len()
        };
        let mut results: Vec<ResultItem> = Vec::new();
        let mut k: usize = 0;
        while k < perm.len() && k < limit
            invariant
                apps == self.apps@,
                is_stable_ranking(score_values(scores@), runs(names@), perm@),
                score_values(scores@) == cand_scores,
                cand_scores.len() == cands.len(),
                idx@.len() == cands.len(),
                forall|j: int|
                    0 <= j < idx@.len() ==> #[trigger] idx@[j] < apps.len() && apps[idx@[j] as int]
                        == cands[j],
                k <= perm@.len(),
                k <= limit,
                results@.len() == k,
                forall|m: int|
                    0 <= m < k ==> is_app_item(
                        #[trigger] results@[m],
                        cands[perm@[m] as int],
                        cand_scores[perm@[m] as int],
                    ),
            decreases perm@.len() - k,
        {
            let c = perm[k];
            let app = &self.apps[idx[c]];
            results.push(format_app(app, scores[c]));
            k = k + 1;
        }
        proof {
            let lim: nat = if blank {
                MAX_SUGGESTED_APPS as nat
            } else {
                cands.len()
            };
            assert(is_stable_ranking(
                cand_scores,
                cands.map_values(|a: AppEntry| lowercase(a.name@)),
                perm@,
            ));
            assert(perm@.len() == cands.len());
            assert(limit == lim || perm@.len() <= limit);
            assert(results@.len() == if perm@.len() < lim {
                perm@.len()
            } else {
                lim
            });
        }
        results
    }
}

/// The launch key of `a`: its id, or its name.
fn app_key_of(a: &AppEntry) -> (r: String)
    ensures
        r@ == app_key(*a),
{
    match &a.id {
        Some(i) => i.clone(),
        None => a.name.clone(),
    }
}

/// The lower-cased characters of `s`.
fn lower_chars(s: &str) -> (r: Vec<char>)
    ensures
        r@ == lowercase(s@),
{
    let l = to_lowercase(s);
    chars_of(l.as_str())
}

/// The match score of `a` for `query`, whose lower-cased characters are `q`.
fn app_match_score(a: &AppEntry, query: &str, q: &Vec<char>) -> (r: i32)
    requires
        q@ == lowercase(query@),
    ensures
        r == text_match_score(a.name@, app_description(*a), a.executable@, query@),
{
    let n = lower_chars(a.name.as_str());
    if chars_start_with(&n, q) {
        if n.len() == q.len() {
            assert(n@.subrange(0, n@.len() as int) =~= n@);
            return 100;
        }
        return 80;
    }
    if chars_contain(&n, q) {
        return 60;
    }
    let d = match &a.description {
        Some(d) => lower_chars(d.as_str()),
        None => {
            let empty = String::new();
            lower_chars(empty.as_str())
        },
    };
    if chars_contain(&d, q) {
        return 40;
    }
    let e = lower_chars(a.executable.as_str());
    if chars_contain(&e, q) {
        return 20;
    }
    0
}

/// The result shown for application `app` with score `score`.
pub fn format_app(app: &AppEntry, score: i32) -> (r: ResultItem)
    ensures
        is_app_item(r, *app, score as int),
{
    let key = app_key_of(app);
    let mut id = String::from_str("app-");
    id.append(key.as_str());
    let subtitle: Option<String> = match &app.description {
        Some(d) => Some(d.clone()),
        None => {
            if app.executable.as_str().unicode_len() == 0 {
                None
            } else {
                Some(app.executable.clone())
            }
        },
    };
    let icon: String = match &app.icon {
        Some(i) => i.clone(),
        None => String::from_str("application-x-executable"),
    };
    let mut label = String::from_str("Launch ");
    label.append(app.name.as_str());
    let mut actions: Vec<Action> = Vec::new();
    actions.push(make_action(label, "launch-app", key));
    ResultItem {
        id,
        title: app.name.clone(),
        subtitle,
        icon: Some(icon),
        category: String::from_str("Applications"),
        score,
        actions,
    }
}

/// Every application listed for a query is shown in menus and, for a non-blank
/// query, matches it; and every such application is listed.
pub proof fn law_candidates_are_the_shown_matches(apps: Seq<AppEntry>, query: Seq<char>)
    ensures
        forall|k: int|
            0 <= k < candidates(apps, query).len() ==> is_candidate(
                #[trigger] candidates(apps, query)[k],
                query,
            ),
        forall|i: int|
            0 <= i < apps.len() && is_candidate(#[trigger] apps[i], query) ==> candidates(
                apps,
                query,
            ).contains(apps[i]),
        candidates(apps, query).len() <= apps.len(),
    decreases apps.len(),
{
    if apps.len() > 0 {
        let front = apps.drop_last();
        law_candidates_are_the_shown_matches(front, query);
        let earlier = candidates(front, query);
        assert forall|i: int| 0 <= i < apps.len() && is_candidate(#[trigger] apps[i], query) implies candidates(
            apps,
            query,
        ).contains(apps[i]) by {
            if i < apps.len() - 1 {
                assert(front[i] == apps[i]);
                assert(earlier.contains(front[i]));
                let k = choose|k: int| 0 <= k < earlier.len() && earlier[k] == front[i];
                assert(candidates(apps, query)[k] == apps[i]);
            } else {
                assert(candidates(apps, query)[earlier.len() as int] == apps[i]);
            }
        }
    }
}

/// Matching ignores case: two applications whose names, descriptions and
/// executables agree once lower-cased score the same for every query, and so do
/// two queries that agree once lower-cased.
pub proof fn law_match_ignores_case(
    name1: Seq<char>,
    name2: Seq<char>,
    description1: Seq<char>,
    description2: Seq<char>,
    executable1: Seq<char>,
    executable2: Seq<char>,
    query1: Seq<char>,
    query2: Seq<char>,
)
    requires
        lowercase(name1) == lowercase(name2),
        lowercase(description1) == lowercase(description2),
        lowercase(executable1) == lowercase(executable2),
        lowercase(query1) == lowercase(query2),
    ensures
        text_match_score(name1, description1, executable1, query1) == text_match_score(
            name2,
            description2,
            executable2,
            query2,
        ),
{
}

/// An application whose lower-cased name contains the lower-cased query, without
/// starting with it, scores 60; and an application shown in menus whose
/// lower-cased name contains the lower-cased query is listed for it.
pub proof fn law_name_containing_query_is_listed(a: AppEntry, query: Seq<char>)
    requires
        seq_contains(lowercase(a.name@), lowercase(query)),
    ensures
        !lowercase(query).is_prefix_of(lowercase(a.name@)) ==> text_match_score(
            a.name@,
            app_description(a),
            a.executable@,
            query,
        ) == 60,
        text_match_score(a.name@, app_description(a), a.executable@, query) >= 60,
        a.should_show ==> is_candidate(a, query),
{
    let n = lowercase(a.name@);
    let q = lowercase(query);
    if n == q {
        assert(q.is_prefix_of(n));
    }
}

/// An application whose lower-cased name equals the lower-cased query scores
/// 100, the highest match score.
pub proof fn law_exact_name_scores_highest(a: AppEntry, query: Seq<char>)
    ensures
        0 <= text_match_score(a.name@, app_description(a), a.executable@, query) <= 100,
        lowercase(a.name@) == lowercase(query) ==> text_match_score(
            a.name@,
            app_description(a),
            a.executable@,
            query,
        ) == 100,
{
}

} // verus!
