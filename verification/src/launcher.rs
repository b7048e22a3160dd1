//! The launcher window's decisions: how plugin results are merged and ranked,
//! what the status line says, what a key press or an activated action does, and
//! how the layout mode shows.
use vstd::prelude::*;

use crate::frecency::{frecency_score, FrecencyStore};
use crate::plugins::{copy_item, make_action, opt_view, Action, ActionView, ResultItem, ResultItemView};
use crate::ranking::{is_stable_ranking, runs, score_values, stable_ranking};
use crate::text::{
    chars_contain, chars_of, chars_start_with, lowercase, nat_decimal, push_chars, push_str,
    seq_contains, str_eq, string_from_chars, to_lowercase, trim, trim_str, decimal_chars,
};

verus! {

/// The query asks for the launcher's own settings: once trimmed and lower-cased it
/// is not empty and starts "settings", "preferences" or "config", or occurs in
/// "spear settings".
pub open spec fn settings_query_matches(text: Seq<char>) -> bool {
    let q = lowercase(trim(text));
    &&& q.len() > 0
    &&& {
        ||| q.is_prefix_of("settings"@)
        ||| q.is_prefix_of("preferences"@)
        ||| q.is_prefix_of("config"@)
        ||| seq_contains("spear settings"@, q)
    }
}

/// The result that opens the launcher's settings.
pub open spec fn settings_item_view() -> ResultItemView {
    ResultItemView {
        id: "spear-settings"@,
        title: "Spear Settings"@,
        subtitle: Some("Configure layout, font sizes, color scheme, and global hotkeys"@),
        icon: Some("preferences-system-symbolic"@),
        category: "System"@,
        score: 200,
        actions: seq![
            ActionView { label: "Open Settings"@, action_type: "open-settings"@, value: ""@ },
        ],
    }
}

/// The results of all plugins, one group after the other.
pub open spec fn flatten(groups: Seq<Seq<ResultItemView>>) -> Seq<ResultItemView>
    decreases groups.len(),
{
    if groups.len() == 0 {
        Seq::empty()
    } else {
        flatten(groups.drop_last()) + groups.last()
    }
}

/// The views of groups of results.
pub open spec fn group_views(groups: Seq<Vec<ResultItem>>) -> Seq<Seq<ResultItemView>> {
    groups.map_values(|g: Vec<ResultItem>| g@.map_values(|r: ResultItem| r@))
}

/// The results to show for the query `text`: every plugin result, then the
/// settings result when the query asks for it.
pub open spec fn merged_items(groups: Seq<Seq<ResultItemView>>, text: Seq<char>) -> Seq<ResultItemView> {
    if settings_query_matches(text) {
        flatten(groups).push(settings_item_view())
    } else {
        flatten(groups)
    }
}

/// A result's score raised by the frecency of its id.
pub open spec fn boosted_score(v: ResultItemView, log: Map<Seq<char>, Seq<u64>>, now: u64) -> int {
    v.score + frecency_score(log, v.id, now)
}

/// The boost of `v` can be computed: its frecency and its raised score fit the
/// score type.
pub open spec fn boost_fits(v: ResultItemView, log: Map<Seq<char>, Seq<u64>>, now: u64) -> bool {
    frecency_score(log, v.id, now) <= i32::MAX && boosted_score(v, log, now) <= i32::MAX
}

/// The boosted scores of a list of results.
pub open spec fn boost_keys(items: Seq<ResultItemView>, log: Map<Seq<char>, Seq<u64>>, now: u64) -> Seq<int> {
    items.map_values(|v: ResultItemView| boosted_score(v, log, now))
}

/// `a` is `b` with another score.
pub open spec fn same_but_score(a: ResultItemView, b: ResultItemView) -> bool {
    &&& a.id == b.id
    &&& a.title == b.title
    &&& a.subtitle == b.subtitle
    &&& a.icon == b.icon
    &&& a.category == b.category
    &&& a.actions == b.actions
}

/// No name: results are ranked by score alone.
pub open spec fn no_names(n: nat) -> Seq<Seq<char>> {
    Seq::new(n, |i: int| Seq::<char>::empty())
}

/// `r` is `items` with their boosted scores, ordered by boosted score, highest
/// first, equal scores keeping their order.
pub open spec fn ranked_by_boost(
    r: Seq<ResultItemView>,
    items: Seq<ResultItemView>,
    log: Map<Seq<char>, Seq<u64>>,
    now: u64,
) -> bool {
    exists|p: Seq<usize>|
        {
            &&& #[trigger] is_stable_ranking(boost_keys(items, log, now), no_names(items.len()), p)
            &&& r.len() == items.len()
            &&& forall|k: int|
                0 <= k < r.len() ==> same_but_score(#[trigger] r[k], items[p[k] as int])
                    && r[k].score == boosted_score(items[p[k] as int], log, now)
        }
}

/// Whether `text` asks for the launcher's settings.
pub fn query_wants_settings(text: &str) -> (r: bool)
    ensures
        r == settings_query_matches(text@),
{
    let t = trim_str(text);
    let l = to_lowercase(t.as_str());
    let q = chars_of(l.as_str());
    if q.len() == 0 {
        return false;
    }
    let settings = chars_of("settings");
    let preferences = chars_of("preferences");
    let config = chars_of("config");
    let spear_settings = chars_of("spear settings");
    chars_start_with(&settings, &q) || chars_start_with(&preferences, &q) || chars_start_with(
        &config,
        &q,
    ) || chars_contain(&spear_settings, &q)
}

/// The result that opens the launcher's settings.
pub fn settings_item() -> (r: ResultItem)
    ensures
        r@ == settings_item_view(),
{
    let mut actions: Vec<Action> = Vec::new();
    actions.push(make_action(String::from_str("Open Settings"), "open-settings", String::from_str("")));
    let r = ResultItem {
        id: String::from_str("spear-settings"),
        title: String::from_str("Spear Settings"),
        subtitle: Some(String::from_str("Configure layout, font sizes, color scheme, and global hotkeys")),
        icon: Some(String::from_str("preferences-system-symbolic")),
        category: String::from_str("System"),
        score: 200,
        actions,
    };
    assert(r@.actions =~= settings_item_view().actions);
    r
}

/// The views of a list of results.
pub open spec fn item_views(v: Seq<ResultItem>) -> Seq<ResultItemView> {
    v.map_values(|x: ResultItem| x@)
}

/// Copies of all results of all groups, one group after the other.
fn flatten_groups(groups: &Vec<Vec<ResultItem>>) -> (r: Vec<ResultItem>)
    ensures
        item_views(r@) == flatten(group_views(groups@)),
{
    let ghost gv = group_views(groups@);
    let mut flat: Vec<ResultItem> = Vec::new();
    let mut g: usize = 0;
    assert(gv.take(0) =~= Seq::<Seq<ResultItemView>>::empty());
    assert(item_views(flat@) =~= flatten(gv.take(0)));
    while g < groups.len()
        invariant
            gv == group_views(groups@),
            g <= groups@.len(),
            item_views(flat@) == flatten(gv.take(g as int)),
        decreases groups@.len() - g,
    {
        let group = &groups[g];
        let ghost before = item_views(flat@);
        let mut j: usize = 0;
        while j < group.len()
            invariant
                j <= group@.len(),
                flat@.len() == before.len() + j,
                forall|m: int| 0 <= m < before.len() ==> (#[trigger] flat@[m])@ == before[m],
                forall|m: int| 0 <= m < j ==> (#[trigger] flat@[before.len() + m])@ == group@[m]@,
            decreases group@.len() - j,
        {
            flat.push(copy_item(&group[j]));
            j = j + 1;
        }
        assert(gv.take(g + 1).drop_last() =~= gv.take(g as int));
        assert(gv[g as int] =~= item_views(group@));
        assert forall|m: int| 0 <= m < flat@.len() implies (#[trigger] item_views(flat@)[m]) == (
        before + item_views(group@))[m] by {
            if m >= before.len() {
                assert(flat@[before.len() + (m - before.len())] == flat@[m]);
            }
        }
        assert(item_views(flat@) =~= before + item_views(group@));
        g = g + 1;
    }
    assert(gv.take(groups@.len() as int) =~= gv);
    flat
}

/// Whether every boost that merging these results for `query_text` computes fits
/// the score type.
pub fn merge_fits(
    groups: &Vec<Vec<ResultItem>>,
    query_text: &str,
    frecency: &FrecencyStore,
    now: u64,
) -> (r: bool)
    ensures
        r == forall|k: int|
            0 <= k < merged_items(group_views(groups@), query_text@).len() ==> boost_fits(
                #[trigger] merged_items(group_views(groups@), query_text@)[k],
                frecency.accesses@,
                now,
            ),
{
    let mut flat = flatten_groups(groups);
    if query_wants_settings(query_text) {
        flat.push(settings_item());
    }
    let ghost items = merged_items(group_views(groups@), query_text@);
    assert(flat@.map_values(|x: ResultItem| x@) =~= items);
    assert(flat@.len() == items.len());
    let mut i: usize = 0;
    while i < flat.len()
        invariant
            items == merged_items(group_views(groups@), query_text@),
            i <= flat@.len(),
            flat@.map_values(|x: ResultItem| x@) == items,
            forall|k: int| 0 <= k < i ==> boost_fits(#[trigger] items[k], frecency.accesses@, now),
        decreases flat@.len() - i,
    {
        assert(items[i as int] == flat@[i as int]@);
        if !frecency.score_fits(flat[i].id.as_str(), now) {
            return false;
        }
        let b = frecency.get_frecency_score(flat[i].id.as_str(), now);
        let total: i64 = flat[i].score as i64 + b as i64;
        if total > 0x7fff_ffff {
            return false;
        }
        i = i + 1;
    }
    true
}

/// Merges the results of all plugins for the query `query_text`: all results,
/// plus the settings result when the query asks for it, each score raised by the
/// frecency of the result's id at time `now`, ordered by score, highest first,
/// equal scores keeping their order.
pub fn merge_results(
    groups: &Vec<Vec<ResultItem>>,
    query_text: &str,
    frecency: &FrecencyStore,
    now: u64,
) -> (r: Vec<ResultItem>)
    requires
        forall|k: int|
            0 <= k < merged_items(group_views(groups@), query_text@).len() ==> boost_fits(
                #[trigger] merged_items(group_views(groups@), query_text@)[k],
                frecency.accesses@,
                now,
            ),
    ensures
        ranked_by_boost(
            r@.map_values(|x: ResultItem| x@),
            merged_items(group_views(groups@), query_text@),
            frecency.accesses@,
            now,
        ),
{
    let mut flat = flatten_groups(groups);
    if query_wants_settings(query_text) {
        flat.push(settings_item());
    }
    let ghost items = merged_items(group_views(groups@), query_text@);
    let ghost log = frecency.accesses@;
    assert(flat@.map_values(|x: ResultItem| x@) =~= items);
    assert(flat@.len() == items.len());
    let mut scores: Vec<i32> = Vec::new();
    let mut names: Vec<Vec<char>> = Vec::new();
    let mut i: usize = 0;
    while i < flat.len()
        invariant
            log == frecency.accesses@,
            i <= flat@.len(),
            flat@.map_values(|x: ResultItem| x@) == items,
            forall|k: int| 0 <= k < items.len() ==> boost_fits(#[trigger] items[k], log, now),
            scores@.len() == i,
            names@.len() == i,
            forall|k: int|
                0 <= k < i ==> #[trigger] scores@[k] as int == boosted_score(items[k], log, now)
                    && names@[k]@ == Seq::<char>::empty(),
        decreases flat@.len() - i,
    {
        assert(items[i as int] == flat@[i as int]@);
        assert(boost_fits(items[i as int], log, now));
        let b = frecency.get_frecency_score(flat[i].id.as_str(), now);
        proof {
            crate::frecency::lemma_frecency_nonneg(log, flat@[i as int].id@, now);
        }
        scores.push(flat[i].score + b);
        names.push(Vec::new());
        i = i + 1;
    }
    let ghost keys = boost_keys(items, log, now);
    assert(score_values(scores@) =~= keys);
    assert forall|k: int| 0 <= k < names@.len() implies runs(names@)[k] == no_names(items.len())[k] by {
        assert(scores@[k] as int == boosted_score(items[k], log, now));
    }
    assert(runs(names@) =~= no_names(items.len()));
    let perm = stable_ranking(&scores, &names);
    let mut out: Vec<ResultItem> = Vec::new();
    let mut k: usize = 0;
    while k < perm.len()
        invariant
            log == frecency.accesses@,
            is_stable_ranking(keys, no_names(items.len()), perm@),
            flat@.map_values(|x: ResultItem| x@) == items,
            scores@.len() == items.len(),
            forall|m: int| 0 <= m < items.len() ==> #[trigger] scores@[m] as int == keys[m],
            keys == boost_keys(items, log, now),
            k <= perm@.len(),
            out@.len() == k,
            forall|m: int|
                0 <= m < k ==> same_but_score((#[trigger] out@[m])@, items[perm@[m] as int])
                    && out@[m]@.score == boosted_score(items[perm@[m] as int], log, now),
        decreases perm@.len() - k,
    {
        let c = perm[k];
        assert(items[c as int] == flat@[c as int]@);
        let mut item = copy_item(&flat[c]);
        item.score = scores[c];
        out.push(item);
        k = k + 1;
    }
    assert(out@.map_values(|x: ResultItem| x@).len() == items.len());
    proof {
        let ov = out@.map_values(|x: ResultItem| x@);
        assert forall|m: int| 0 <= m < ov.len() implies same_but_score(
            #[trigger] ov[m],
            items[perm@[m] as int],
        ) && ov[m].score == boosted_score(items[perm@[m] as int], log, now) by {
            assert(ov[m] == out@[m]@);
        }
    }
    out
}

/// The status line for `count` results.
pub open spec fn status_text(count: nat) -> Seq<char> {
    if count == 0 {
        "No results"@
    } else if count > 1 {
        nat_decimal(count) + " results found"@
    } else {
        nat_decimal(count) + " result found"@
    }
}

/// The status line for `count` results: "No results", "1 result found", or
/// "N results found".
pub fn results_status_text(count: usize) -> (r: String)
    ensures
        r@ == status_text(count as nat),
{
    if count == 0 {
        return String::from_str("No results");
    }
    let mut out = decimal_chars(count as u64);
    if count > 1 {
        push_str(&mut out, " result");
        push_str(&mut out, "s found");
    } else {
        push_str(&mut out, " result");
        push_str(&mut out, " found");
    }
    proof {
        reveal_strlit(" results found");
        reveal_strlit(" result found");
        reveal_strlit(" result");
        reveal_strlit("s found");
        reveal_strlit(" found");
    }
    assert(out@ =~= status_text(count as nat));
    string_from_chars(&out)
}

/// What the results area shows after a search.
pub struct ResultsView {
    /// The "No results found" label is shown.
    pub empty_label_visible: bool,
    /// The results list is shown.
    pub list_visible: bool,
    /// The actions button can be pressed.
    pub actions_enabled: bool,
    /// The status line.
    pub status: String,
}

/// What the results area shows for `count` results of a query that is blank or
/// not: with no results, the "No results found" label for a real query and the
/// empty list for a blank one; otherwise the list.
pub fn results_view(count: usize, query_blank: bool) -> (r: ResultsView)
    ensures
        r.empty_label_visible == (count == 0 && !query_blank),
        r.list_visible == (count > 0 || query_blank),
        r.actions_enabled == (count > 0),
        r.status@ == status_text(count as nat),
{
    ResultsView {
        empty_label_visible: count == 0 && !query_blank,
        list_visible: count > 0 || query_blank,
        actions_enabled: count > 0,
        status: results_status_text(count),
    }
}

/// A key that the launcher window reacts to.
#[derive(Clone, Copy, Debug, PartialEq, Eq)]
pub enum Key {
    Escape,
    Enter,
    Down,
    Up,
    Left,
    Right,
    Other,
}

/// What a key press does.
#[derive(Clone, Copy, Debug, PartialEq, Eq)]
pub enum KeyCommand {
    /// Close the actions menu and hide the window.
    Hide,
    /// Open the actions menu of the selected result.
    ShowActions,
    /// Run the first action of the selected result.
    ActivateSelected,
    /// Move the selection in the list by this many rows.
    MoveInList(i32),
    /// Move the selection in the grid by this many cells.
    MoveInGrid(i32),
    /// Nothing.
    Nothing,
}

/// The decision for one key press: what to do, and whether the key is consumed
/// or passed on to the focused widget.
#[derive(Clone, Copy, Debug, PartialEq, Eq)]
pub struct KeyDecision {
    pub command: KeyCommand,
    pub consumed: bool,
}

/// What pressing `key` does, given the Alt and Control modifiers and whether the
/// results show as a grid. Escape hides (and passes the key on); Enter runs the
/// first action, or opens the actions menu with Alt or Control; Down and Up move
/// the selection by a row, or by a grid line of four; Left and Right move by a
/// cell in the grid and are passed on in the list.
pub fn key_decision(key: Key, alt: bool, ctrl: bool, grid: bool) -> (d: KeyDecision)
    ensures
        d == match key {
            Key::Escape => KeyDecision { command: KeyCommand::Hide, consumed: false },
            Key::Enter => KeyDecision {
                command: if alt || ctrl {
                    KeyCommand::ShowActions
                } else {
                    KeyCommand::ActivateSelected
                },
                consumed: true,
            },
            Key::Down => KeyDecision {
                command: if grid {
                    KeyCommand::MoveInGrid(4)
                } else {
                    KeyCommand::MoveInList(1)
                },
                consumed: true,
            },
            Key::Up => KeyDecision {
                command: if grid {
                    KeyCommand::MoveInGrid(-4i32)
                } else {
                    KeyCommand::MoveInList(-1i32)
                },
                consumed: true,
            },
            Key::Left => if grid {
                KeyDecision { command: KeyCommand::MoveInGrid(-1i32), consumed: true }
            } else {
                KeyDecision { command: KeyCommand::Nothing, consumed: false }
            },
            Key::Right => if grid {
                KeyDecision { command: KeyCommand::MoveInGrid(1), consumed: true }
            } else {
                KeyDecision { command: KeyCommand::Nothing, consumed: false }
            },
            Key::Other => KeyDecision { command: KeyCommand::Nothing, consumed: false },
        },
{
    match key {
        Key::Escape => KeyDecision { command: KeyCommand::Hide, consumed: false },
        Key::Enter => {
            if alt || ctrl {
                KeyDecision { command: KeyCommand::ShowActions, consumed: true }
            } else {
                KeyDecision { command: KeyCommand::ActivateSelected, consumed: true }
            }
        },
        Key::Down => {
            if grid {
                KeyDecision { command: KeyCommand::MoveInGrid(4), consumed: true }
            } else {
                KeyDecision { command: KeyCommand::MoveInList(1), consumed: true }
            }
        },
        Key::Up => {
            if grid {
                KeyDecision { command: KeyCommand::MoveInGrid(-4), consumed: true }
            } else {
                KeyDecision { command: KeyCommand::MoveInList(-1), consumed: true }
            }
        },
        Key::Left => {
            if grid {
                KeyDecision { command: KeyCommand::MoveInGrid(-1), consumed: true }
            } else {
                KeyDecision { command: KeyCommand::Nothing, consumed: false }
            }
        },
        Key::Right => {
            if grid {
                KeyDecision { command: KeyCommand::MoveInGrid(1), consumed: true }
            } else {
                KeyDecision { command: KeyCommand::Nothing, consumed: false }
            }
        },
        Key::Other => KeyDecision { command: KeyCommand::Nothing, consumed: false },
    }
}

/// The row or cell to select when moving by `step` from the selected one among
/// `count`: the one `step` away when it exists, none when it does not; with
/// nothing selected, the first one when there is one.
pub fn navigation_target(selected: Option<usize>, count: usize, step: i32) -> (r: Option<usize>)
    ensures
        match selected {
            Some(i) => if 0 <= i + step < count {
                r == Some((i + step) as usize)
            } else {
                r is None
            },
            None => if count > 0 {
                r == Some(0usize)
            } else {
                r is None
            },
        },
{
    match selected {
        Some(i) => {
            let t: i128 = i as i128 + step as i128;
            if 0 <= t && t < count as i128 {
                Some(t as usize)
            } else {
                None
            }
        },
        None => {
            if count > 0 {
                Some(0)
            } else {
                None
            }
        },
    }
}

/// The position of the selected result among `count` results, when the widget's
/// index `index` designates one.
pub fn selected_item(index: i32, count: usize) -> (r: Option<usize>)
    ensures
        r == if 0 <= index < count {
            Some(index as usize)
        } else {
            None::<usize>
        },
{
    if index >= 0 && (index as usize) < count {
        Some(index as usize)
    } else {
        None
    }
}

/// The kinds of action a result can carry.
#[derive(Clone, Copy, Debug, PartialEq, Eq)]
pub enum ActionKind {
    OpenSettings,
    LaunchApp,
    OpenUrl,
    CopyToClipboard,
    RunCommand,
    NavigateDir,
    Unknown,
}

/// The kind an action type names.
pub open spec fn kind_of(t: Seq<char>) -> ActionKind {
    if t == "open-settings"@ {
        ActionKind::OpenSettings
    } else if t == "launch-app"@ {
        ActionKind::LaunchApp
    } else if t == "open-url"@ {
        ActionKind::OpenUrl
    } else if t == "copy-to-clipboard"@ {
        ActionKind::CopyToClipboard
    } else if t == "run-command"@ {
        ActionKind::RunCommand
    } else if t == "navigate-dir"@ {
        ActionKind::NavigateDir
    } else {
        ActionKind::Unknown
    }
}

/// The kind of an action, from its type.
pub fn action_kind(action_type: &str) -> (k: ActionKind)
    ensures
        k == kind_of(action_type@),
{
    if str_eq(action_type, "open-settings") {
        ActionKind::OpenSettings
    } else if str_eq(action_type, "launch-app") {
        ActionKind::LaunchApp
    } else if str_eq(action_type, "open-url") {
        ActionKind::OpenUrl
    } else if str_eq(action_type, "copy-to-clipboard") {
        ActionKind::CopyToClipboard
    } else if str_eq(action_type, "run-command") {
        ActionKind::RunCommand
    } else if str_eq(action_type, "navigate-dir") {
        ActionKind::NavigateDir
    } else {
        ActionKind::Unknown
    }
}

/// Whether running an action of this kind hides the launcher window.
pub open spec fn kind_hides_window(k: ActionKind) -> bool {
    match k {
        ActionKind::OpenSettings | ActionKind::LaunchApp | ActionKind::OpenUrl
        | ActionKind::CopyToClipboard | ActionKind::RunCommand => true,
        ActionKind::NavigateDir | ActionKind::Unknown => false,
    }
}

impl ActionKind {
    /// Whether running an action of this kind hides the launcher window.
    pub fn hides_window(&self) -> (r: bool)
        ensures
            r == kind_hides_window(*self),
    {
        match self {
            ActionKind::OpenSettings | ActionKind::LaunchApp | ActionKind::OpenUrl
            | ActionKind::CopyToClipboard | ActionKind::RunCommand => true,
            ActionKind::NavigateDir | ActionKind::Unknown => false,
        }
    }
}

/// One action to run: its kind, its argument, and whether the window hides.
pub struct ActionStep {
    pub kind: ActionKind,
    pub value: String,
    pub hide_window: bool,
}

/// What activating action `index` of a result does: the result's launch is
/// recorded under `record_id` in any case, and the action runs when it exists.
pub struct ActionPlan {
    pub record_id: String,
    pub step: Option<ActionStep>,
}

/// What activating action `index` of `item` does: record a launch of the item,
/// then, when the item has that action, run it (closing the actions menu).
pub fn plan_action(item: &ResultItem, index: usize) -> (r: ActionPlan)
    ensures
        r.record_id@ == item.id@,
        index >= item.actions@.len() ==> r.step is None,
        index < item.actions@.len() ==> (r.step matches Some(st) && {
            &&& st.kind == kind_of(item.actions@[index as int].action_type@)
            &&& st.value@ == item.actions@[index as int].value@
            &&& st.hide_window == kind_hides_window(st.kind)
        }),
{
    let record_id = item.id.clone();
    if index >= item.actions.len() {
        return ActionPlan { record_id, step: None };
    }
    let action = &item.actions[index];
    let kind = action_kind(action.action_type.as_str());
    let hide = kind.hides_window();
    ActionPlan { record_id, step: Some(ActionStep { kind, value: action.value.clone(), hide_window: hide }) }
}

/// How the layout mode shows: the search icon, the entry's focused style, and the
/// list's minimal style.
pub struct LayoutFlags {
    pub show_search_icon: bool,
    pub entry_focused_mode: bool,
    pub list_minimal_mode: bool,
}

/// How the layout mode `mode` shows: "focused" and "minimal" hide the search
/// icon; "focused" styles the entry; "minimal" styles the list.
pub fn layout_flags(mode: &str) -> (r: LayoutFlags)
    ensures
        r.show_search_icon == !(mode@ == "focused"@ || mode@ == "minimal"@),
        r.entry_focused_mode == (mode@ == "focused"@),
        r.list_minimal_mode == (mode@ == "minimal"@),
{
    let focused = str_eq(mode, "focused");
    let minimal = str_eq(mode, "minimal");
    LayoutFlags { show_search_icon: !(focused || minimal), entry_focused_mode: focused, list_minimal_mode: minimal }
}

/// The keyboard hint shown beside action `n` in the actions menu.
pub open spec fn shortcut_label(n: nat) -> Seq<char> {
    if n == 0 {
        "↵"@
    } else if n < 9 {
        "⌥"@ + nat_decimal(n + 1)
    } else {
        Seq::empty()
    }
}

/// The keyboard hint shown beside action `n` in the actions menu: Enter for the
/// first, Alt with the number for the next eight, nothing after.
pub fn action_shortcut_label(n: usize) -> (r: String)
    ensures
        r@ == shortcut_label(n as nat),
{
    if n == 0 {
        return String::from_str("↵");
    }
    if n < 9 {
        let mut out: Vec<char> = Vec::new();
        push_str(&mut out, "⌥");
        let d = decimal_chars((n + 1) as u64);
        push_chars(&mut out, &d);
        return string_from_chars(&out);
    }
    String::new()
}

/// `s` with every trailing repetition of `suffix` removed
/// (`str::trim_end_matches` with a text pattern).
pub open spec fn strip_suffixes(s: Seq<char>, suffix: Seq<char>) -> Seq<char>
    decreases s.len(),
{
    if suffix.len() > 0 && suffix.is_suffix_of(s) {
        strip_suffixes(s.subrange(0, s.len() - suffix.len()), suffix)
    } else {
        s
    }
}

/// The characters `s` with every trailing repetition of `suffix` removed.
pub fn strip_suffix_chars(s: &Vec<char>, suffix: &Vec<char>) -> (r: Vec<char>)
    ensures
        r@ == strip_suffixes(s@, suffix@),
{
    if suffix.len() == 0 {
        return crate::text::sub_chars(s, 0, s.len());
    }
    let mut end: usize = s.len();
    assert(s@.subrange(0, s@.len() as int) =~= s@);
    while end >= suffix.len() && ends_with_at(s, suffix, end)
        invariant
            end <= s@.len(),
            suffix@.len() > 0,
            strip_suffixes(s@, suffix@) == strip_suffixes(s@.subrange(0, end as int), suffix@),
        decreases end,
    {
        assert(s@.subrange(0, end as int).subrange(0, end - suffix@.len()) =~= s@.subrange(
            0,
            end - suffix@.len(),
        ));
        end = end - suffix.len();
    }
    proof {
        if end >= suffix@.len() {
            assert(!suffix@.is_suffix_of(s@.subrange(0, end as int)));
        } else {
            assert(!suffix@.is_suffix_of(s@.subrange(0, end as int)));
        }
    }
    crate::text::sub_chars(s, 0, end)
}

/// Whether `s[..end]` ends with `suffix`.
fn ends_with_at(s: &Vec<char>, suffix: &Vec<char>, end: usize) -> (r: bool)
    requires
        suffix@.len() <= end <= s@.len(),
    ensures
        r == suffix@.is_suffix_of(s@.subrange(0, end as int)),
{
    let start = end - suffix.len();
    let mut j: usize = 0;
    while j < suffix.len()
        invariant
            start == end - suffix@.len(),
            end <= s@.len(),
            j <= suffix@.len(),
            forall|k: int| 0 <= k < j ==> s@[start + k] == suffix@[k],
        decreases suffix@.len() - j,
    {
        if s[start + j] != suffix[j] {
            assert(s@.subrange(0, end as int).skip(start as int)[j as int] != suffix@[j as int]);
            return false;
        }
        j = j + 1;
    }
    assert(s@.subrange(0, end as int).skip(start as int) =~= suffix@);
    true
}

/// The name of the colour variant of an icon: the icon name without its
/// trailing "-symbolic" suffixes.
pub fn colour_icon_name(icon: &str) -> (r: String)
    ensures
        r@ == strip_suffixes(icon@, "-symbolic"@),
{
    let s = chars_of(icon);
    let suffix = chars_of("-symbolic");
    let t = strip_suffix_chars(&s, &suffix);
    string_from_chars(&t)
}

/// The icon name a result row shows for the named icon `icon`: the colour variant
/// when the icon theme has it (`theme_has_colour`), the icon as given otherwise;
/// with no display to ask (`None`), the colour variant.
pub fn row_icon_name(icon: &str, theme_has_colour: Option<bool>) -> (r: String)
    ensures
        r@ == match theme_has_colour {
            Some(true) | None => strip_suffixes(icon@, "-symbolic"@),
            Some(false) => icon@,
        },
{
    match theme_has_colour {
        Some(false) => String::from_str(icon),
        _ => colour_icon_name(icon),
    }
}

/// Whether a lower-cased file extension names an image format the preview can
/// show.
pub fn is_image_extension(ext: &str) -> (r: bool)
    ensures
        r == (ext@ == "png"@ || ext@ == "jpg"@ || ext@ == "jpeg"@ || ext@ == "gif"@ || ext@
            == "svg"@ || ext@ == "webp"@ || ext@ == "bmp"@ || ext@ == "ico"@),
{
    str_eq(ext, "png") || str_eq(ext, "jpg") || str_eq(ext, "jpeg") || str_eq(ext, "gif")
        || str_eq(ext, "svg") || str_eq(ext, "webp") || str_eq(ext, "bmp") || str_eq(ext, "ico")
}

/// At most this many characters of a text file are previewed.
pub const PREVIEW_CHAR_LIMIT: usize = 500;

/// Text files at least this large (in bytes) are not previewed.
pub const PREVIEW_MAX_FILE_BYTES: u64 = 10 * 1024 * 1024;

/// The first `PREVIEW_CHAR_LIMIT` characters of a file's text.
pub fn preview_excerpt(content: &str) -> (r: String)
    ensures
        r@ == if content@.len() <= PREVIEW_CHAR_LIMIT {
            content@
        } else {
            content@.take(PREVIEW_CHAR_LIMIT as int)
        },
{
    let cs = chars_of(content);
    let end = if cs.len() <= PREVIEW_CHAR_LIMIT {
        cs.len()
    } else {
        PREVIEW_CHAR_LIMIT
    };
    let t = crate::text::sub_chars(&cs, 0, end);
    assert(cs@.subrange(0, cs@.len() as int) =~= cs@);
    string_from_chars(&t)
}

/// The label of a file system entry's type.
pub fn file_type_label(is_dir: bool, is_symlink: bool) -> (r: &'static str)
    ensures
        r@ == if is_dir {
            "Directory"@
        } else if is_symlink {
            "Symlink"@
        } else {
            "File"@
        },
{
    if is_dir {
        "Directory"
    } else if is_symlink {
        "Symlink"
    } else {
        "File"
    }
}

/// What the preview pane shows for a result that is not a file: extra
/// (label, value) rows, and a text.
pub struct PreviewInfo {
    pub metadata: Vec<(String, String)>,
    pub text: Option<String>,
}

/// The texts of (label, value) rows.
pub open spec fn rows_view(v: Seq<(String, String)>) -> Seq<(Seq<char>, Seq<char>)> {
    v.map_values(|r: (String, String)| (r.0@, r.1@))
}

/// The rows the preview of a non-file result shows, by its category.
pub open spec fn preview_rows(v: ResultItemView) -> Seq<(Seq<char>, Seq<char>)> {
    if v.category == "Calculator"@ {
        match v.subtitle {
            Some(s) => seq![("Expression"@, s)],
            None => Seq::empty(),
        }
    } else if v.actions.len() > 0 && (v.category == "Web Search"@ || v.category
        == "YouTube Search"@) {
        seq![("URL"@, v.actions[0].value)]
    } else if v.actions.len() > 0 && (v.category == "Run Command"@ || v.category
        == "GNOME Controls"@) {
        seq![("Command"@, v.actions[0].value)]
    } else {
        Seq::empty()
    }
}

/// The text the preview of a non-file result shows, by its category.
pub open spec fn preview_text(v: ResultItemView) -> Option<Seq<char>> {
    if v.category == "Calculator"@ {
        Some("\n\n    Result:\n\n    "@ + v.title + "\n\n    (Press Enter to copy to clipboard)"@)
    } else if v.actions.len() > 0 && (v.category == "Web Search"@ || v.category
        == "YouTube Search"@) {
        Some(
            "\n\n    Action: "@ + v.actions[0].label + "\n\n    Link: "@ + v.actions[0].value
                + "\n\n    (Press Enter to open in browser)"@,
        )
    } else if v.actions.len() > 0 && v.category == "Run Command"@ {
        Some(
            "\n\n    Execute in background subshell:\n\n    $ "@ + v.actions[0].value
                + "\n\n    (Press Enter to run)"@,
        )
    } else if v.actions.len() > 0 && v.category == "GNOME Controls"@ {
        Some("\n\n    GNOME System Action:\n\n    "@ + v.title + "\n\n    (Press Enter to execute)"@)
    } else {
        None
    }
}

/// One (label, value) row.
fn row(label: &str, value: &String) -> (r: (String, String))
    ensures
        r.0@ == label@,
        r.1@ == value@,
{
    (String::from_str(label), value.clone())
}

/// What the preview pane shows for `item` when it is not a file: for a
/// calculation, the expression and the result; for a web or video search, the
/// link; for a command or a GNOME control, the command; nothing otherwise.
pub fn info_preview(item: &ResultItem) -> (r: PreviewInfo)
    ensures
        rows_view(r.metadata@) == preview_rows(item@),
        opt_view(r.text) == preview_text(item@),
{
    let mut metadata: Vec<(String, String)> = Vec::new();
    let cat = item.category.as_str();
    let has_action = item.actions.len() > 0;
    let text: Option<String> = if str_eq(cat, "Calculator") {
        match &item.subtitle {
            Some(sub) => {
                metadata.push(row("Expression", sub));
            },
            None => {},
        }
        let mut t = String::from_str("\n\n    Result:\n\n    ");
        t.append(item.title.as_str());
        t.append("\n\n    (Press Enter to copy to clipboard)");
        Some(t)
    } else if has_action && (str_eq(cat, "Web Search") || str_eq(cat, "YouTube Search")) {
        let a = &item.actions[0];
        metadata.push(row("URL", &a.value));
        let mut t = String::from_str("\n\n    Action: ");
        t.append(a.label.as_str());
        t.append("\n\n    Link: ");
        t.append(a.value.as_str());
        t.append("\n\n    (Press Enter to open in browser)");
        Some(t)
    } else if has_action && str_eq(cat, "Run Command") {
        let a = &item.actions[0];
        metadata.push(row("Command", &a.value));
        let mut t = String::from_str("\n\n    Execute in background subshell:\n\n    $ ");
        t.append(a.value.as_str());
        t.append("\n\n    (Press Enter to run)");
        Some(t)
    } else if has_action && str_eq(cat, "GNOME Controls") {
        let a = &item.actions[0];
        metadata.push(row("Command", &a.value));
        let mut t = String::from_str("\n\n    GNOME System Action:\n\n    ");
        t.append(item.title.as_str());
        t.append("\n\n    (Press Enter to execute)");
        Some(t)
    } else {
        None
    };
    assert(rows_view(metadata@) =~= preview_rows(item@));
    PreviewInfo { metadata, text }
}

} // verus!
