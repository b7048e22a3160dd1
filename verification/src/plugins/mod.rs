//! The result type that every search plugin produces, and the plugins.
use vstd::prelude::*;


pub mod apps;
pub mod fonts;

verus! {

/// Something the user can do with a result.
#[derive(Clone, Debug)]
pub struct Action {
    /// The text shown in the actions menu.
    pub label: String,
    /// What kind of action this is (`launch-app`, `copy-to-clipboard`, ...).
    pub action_type: String,
    /// The argument of the action: an application id, a text, a command, ...
    pub value: String,
}

/// One search result, as shown in the launcher list.
#[derive(Clone, Debug)]
pub struct ResultItem {
    /// A stable identifier, also the key of the frecency log.
    pub id: String,
    /// The main line.
    pub title: String,
    /// The secondary line, if any.
    pub subtitle: Option<String>,
    /// An icon name or an icon path, if any.
    pub icon: Option<String>,
    /// The category badge.
    pub category: String,
    /// The ranking score; higher comes first.
    pub score: i32,
    /// The actions, the first being the default one.
    pub actions: Vec<Action>,
}

/// What an action says, as texts.
#[verifier::ext_equal]
pub struct ActionView {
    pub label: Seq<char>,
    pub action_type: Seq<char>,
    pub value: Seq<char>,
}

impl View for Action {
    type V = ActionView;

    open spec fn view(&self) -> ActionView {
        ActionView { label: self.label@, action_type: self.action_type@, value: self.value@ }
    }
}

/// The texts of an optional string.
pub open spec fn opt_view(o: Option<String>) -> Option<Seq<char>> {
    match o {
        Some(s) => Some(s@),
        None => None,
    }
}

/// What a result says, as texts.
#[verifier::ext_equal]
pub struct ResultItemView {
    pub id: Seq<char>,
    pub title: Seq<char>,
    pub subtitle: Option<Seq<char>>,
    pub icon: Option<Seq<char>>,
    pub category: Seq<char>,
    pub score: i32,
    pub actions: Seq<ActionView>,
}

impl View for ResultItem {
    type V = ResultItemView;

    open spec fn view(&self) -> ResultItemView {
        ResultItemView {
            id: self.id@,
            title: self.title@,
            subtitle: opt_view(self.subtitle),
            icon: opt_view(self.icon),
            category: self.category@,
            score: self.score,
            actions: self.actions@.map_values(|a: Action| a@),
        }
    }
}

/// A copy of an optional string.
pub fn copy_opt_string(o: &Option<String>) -> (r: Option<String>)
    ensures
        opt_view(r) == opt_view(*o),
{
    match o {
        Some(s) => Some(s.clone()),
        None => None,
    }
}

/// A copy of an action.
pub fn copy_action(a: &Action) -> (r: Action)
    ensures
        r@ == a@,
{
    Action { label: a.label.clone(), action_type: a.action_type.clone(), value: a.value.clone() }
}

/// A copy of a result.
pub fn copy_item(item: &ResultItem) -> (r: ResultItem)
    ensures
        r@ == item@,
{
    let mut actions: Vec<Action> = Vec::new();
    let mut i: usize = 0;
    while i < item.actions.len()
        invariant
            i <= item.actions@.len(),
            actions@.len() == i,
            forall|k: int| 0 <= k < i ==> (#[trigger] actions@[k])@ == item.actions@[k]@,
        decreases item.actions@.len() - i,
    {
        actions.push(copy_action(&item.actions[i]));
        i = i + 1;
    }
    let r = ResultItem {
        id: item.id.clone(),
        title: item.title.clone(),
        subtitle: copy_opt_string(&item.subtitle),
        icon: copy_opt_string(&item.icon),
        category: item.category.clone(),
        score: item.score,
        actions,
    };
    assert(r@.actions =~= item@.actions);
    r
}

/// `o` holds a text equal to `s`.
pub open spec fn opt_text_is(o: Option<String>, s: Seq<char>) -> bool {
    o matches Some(t) && t@ == s
}

/// The action `a` has the given label, type and value.
pub open spec fn action_is(a: Action, label: Seq<char>, action_type: Seq<char>, value: Seq<char>) -> bool {
    &&& a.label@ == label
    &&& a.action_type@ == action_type
    &&& a.value@ == value
}

/// Builds an action from its label, type and value.
pub fn make_action(label: String, action_type: &str, value: String) -> (a: Action)
    ensures
        action_is(a, label@, action_type@, value@),
{
    Action { label, action_type: String::from_str(action_type), value }
}

} // verus!
