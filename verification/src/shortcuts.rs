//! Global shortcuts: the configurable actions, their stored key combinations
//! (an empty combination means "off") and what each one does.
use crate::database::db::opt_string_view;
use vstd::prelude::*;

verus! {

/// One configurable shortcut action.
#[derive(Debug, Clone, Copy)]
pub struct ShortcutAction {
    /// The action's identifier.
    pub id: &'static str,
    /// Its settings key.
    pub key: &'static str,
    /// Its default combination (empty: off by default).
    pub default: &'static str,
}

pub open spec fn action_view(a: ShortcutAction) -> (Seq<char>, Seq<char>, Seq<char>) {
    (a.id@, a.key@, a.default@)
}

/// The actions, in the order the settings page lists them.
pub open spec fn spec_actions() -> Seq<(Seq<char>, Seq<char>, Seq<char>)> {
    seq![
        ("toggle_widget"@, "shortcutToggleWidget"@, "Ctrl+Alt+Space"@),
        ("quick_add"@, "shortcutQuickAdd"@, "Ctrl+Alt+N"@),
        ("toggle_focus"@, "shortcutToggleFocus"@, "Ctrl+Alt+F"@),
        ("toggle_pet"@, "shortcutTogglePet"@, ""@),
    ]
}

pub fn actions() -> (r: Vec<ShortcutAction>)
    ensures
        r@.map_values(|a: ShortcutAction| action_view(a)) == spec_actions(),
{
    let mut v: Vec<ShortcutAction> = Vec::new();
    v.push(ShortcutAction { id: "toggle_widget", key: "shortcutToggleWidget", default: "Ctrl+Alt+Space" });
    v.push(ShortcutAction { id: "quick_add", key: "shortcutQuickAdd", default: "Ctrl+Alt+N" });
    v.push(ShortcutAction { id: "toggle_focus", key: "shortcutToggleFocus", default: "Ctrl+Alt+F" });
    v.push(ShortcutAction { id: "toggle_pet", key: "shortcutTogglePet", default: "" });
    assert(v@.map_values(|a: ShortcutAction| action_view(a)) =~= spec_actions());
    v
}

pub open spec fn spec_label(id: Seq<char>) -> Seq<char> {
    if id == "toggle_widget"@ {
        "显示 / 隐藏悬浮窗"@
    } else if id == "quick_add"@ {
        "快速添加任务"@
    } else if id == "toggle_focus"@ {
        "开始 / 停止专注"@
    } else if id == "toggle_pet"@ {
        "显示 / 隐藏桌宠"@
    } else {
        "未知动作"@
    }
}

impl ShortcutAction {
    /// The action's name on the settings page.
    pub fn label(&self) -> (r: &'static str)
        ensures
            r@ == spec_label(self.id@),
    {
        let id = self.id;
        if crate::text::str_eq(id, "toggle_widget") {
            "显示 / 隐藏悬浮窗"
        } else if crate::text::str_eq(id, "quick_add") {
            "快速添加任务"
        } else if crate::text::str_eq(id, "toggle_focus") {
            "开始 / 停止专注"
        } else if crate::text::str_eq(id, "toggle_pet") {
            "显示 / 隐藏桌宠"
        } else {
            "未知动作"
        }
    }
}

/// The action with the given identifier; an unknown one is refused.
pub fn find_action(id: &str) -> (r: Result<ShortcutAction, String>)
    ensures
        match r {
            Ok(a) => exists|i: int| 0 <= i < spec_actions().len() && #[trigger] spec_actions()[i] == action_view(a)
                && a.id@ == id@,
            Err(e) => e@ == "未知快捷键动作: "@ + id@ && forall|i: int|
                0 <= i < spec_actions().len() ==> (#[trigger] spec_actions()[i]).0 != id@,
        },
{
    let all = actions();
    let mut i: usize = 0;
    while i < all.len()
        invariant
            i <= all.len(),
            all@.map_values(|a: ShortcutAction| action_view(a)) == spec_actions(),
            forall|j: int| 0 <= j < i ==> (#[trigger] spec_actions()[j]).0 != id@,
        decreases all.len() - i,
    {
        assert(spec_actions()[i as int] == action_view(all@[i as int]));
        if crate::text::str_eq(all[i].id, id) {
            return Ok(all[i]);
        }
        i += 1;
    }
    Err(crate::text::concat("未知快捷键动作: ", id))
}

/// A combination is accepted when it is empty (off) or the shortcut plugin can
/// read it.
pub fn combo_accepted(combo: &str, parses: bool) -> (r: bool)
    ensures
        r == (combo@.len() == 0 || parses),
{
    combo.is_empty() || parses
}

/// Refuses a combination the shortcut plugin cannot read (`combo` is trimmed).
pub fn check_combo(combo: &str, parses: bool) -> (r: Result<(), String>)
    ensures
        (combo@.len() == 0 || parses) <==> r is Ok,
        r matches Err(e) ==> e@ == "无法识别的组合键: "@ + combo@,
{
    if combo_accepted(combo, parses) {
        Ok(())
    } else {
        Err(crate::text::concat("无法识别的组合键: ", combo))
    }
}

/// The combination in force for an action: the stored one, or its default.
pub fn combo_or_default(action: &ShortcutAction, stored: &Option<String>) -> (r: String)
    ensures
        r@ == match opt_string_view(*stored) {
            Some(v) => v,
            None => action.default@,
        },
{
    match stored {
        Some(v) => v.clone(),
        None => String::from_str(action.default),
    }
}

/// The combination in force given what was stored: the stored one (even when it is
/// empty, which switches the shortcut off), the default only when none is stored.
pub open spec fn spec_combo(default: Seq<char>, stored: Option<Seq<char>>) -> Seq<char> {
    match stored {
        Some(v) => v,
        None => default,
    }
}

/// A stored combination always wins over the default, whatever the default is; the
/// default shows only where nothing is stored; so two actions with different
/// defaults read the same combination from the same stored text.
pub proof fn lemma_stored_combo_wins(d1: Seq<char>, d2: Seq<char>, v: Seq<char>)
    ensures
        spec_combo(d1, Some(v)) == v,
        spec_combo(d1, Some(v)) == spec_combo(d2, Some(v)),
        spec_combo(d1, None) == d1,
        d1 != d2 ==> spec_combo(d1, None) != spec_combo(d2, None),
{
}

/// The combination in force for an action after a read of its setting: the stored
/// one when the read found one, the default otherwise.
pub fn combo_of_read(action: &ShortcutAction, read: Result<Option<String>, String>) -> (r: String)
    ensures
        r@ == spec_combo(action.default@, opt_string_view(crate::commands::pet::spec_setting_of_read(read))),
{
    let stored = crate::commands::pet::setting_of_read(read);
    combo_or_default(action, &stored)
}

/// `c` is the combination in force for an action with default `default` after the
/// read `read` of its setting.
pub open spec fn is_combo_of_read(c: Seq<char>, default: Seq<char>, read: Result<Option<String>, String>) -> bool {
    c == spec_combo(default, opt_string_view(crate::commands::pet::spec_setting_of_read(read)))
}

/// The combination in force for an action: its setting (`action.key`) read and
/// passed to `combo_of_read`.
pub fn read_combo(conn: &rusqlite::Connection, action: &ShortcutAction) -> (r: String)
    ensures
        exists|read: Result<Option<String>, String>| #[trigger] is_combo_of_read(r@, action.default@, read),
{
    let read = crate::database::settings_repo::get(conn, action.key);
    let ghost g = read;
    let r = combo_of_read(action, read);
    assert(is_combo_of_read(r@, action.default@, g));
    r
}

/// One row of the shortcut settings page.
#[derive(Debug, Clone)]
pub struct ShortcutConfig {
    pub action: &'static str,
    pub label: &'static str,
    pub value: String,
    pub default: &'static str,
}

pub fn shortcut_config_of(action: &ShortcutAction, stored: &Option<String>) -> (r: ShortcutConfig)
    ensures
        r.action == action.id,
        r.label@ == spec_label(action.id@),
        r.default == action.default,
        r.value@ == match opt_string_view(*stored) {
            Some(v) => v,
            None => action.default@,
        },
{
    ShortcutConfig {
        action: action.id,
        label: action.label(),
        value: combo_or_default(action, stored),
        default: action.default,
    }
}

/// All rows of the shortcut settings page.
pub fn shortcut_configs(conn: &rusqlite::Connection) -> (r: Vec<ShortcutConfig>)
    ensures
        r.len() == spec_actions().len(),
{
    let all = actions();
    let mut out: Vec<ShortcutConfig> = Vec::new();
    let mut i: usize = 0;
    while i < all.len()
        invariant
            i <= all.len(),
            all.len() == spec_actions().len(),
            out.len() == i,
        decreases all.len() - i,
    {
        let a = all[i];
        out.push(shortcut_config_of(&a, &crate::commands::pet::stored_setting(conn, a.key)));
        i += 1;
    }
    out
}

/// The action identifiers of a list of (identifier, combination).
pub open spec fn combo_ids(v: Seq<(&'static str, String)>) -> Seq<Seq<char>> {
    v.map_values(|p: (&'static str, String)| p.0@)
}

/// `idx` picks actions in list order: strictly increasing positions into the
/// action list, and `ids` are those actions' identifiers.
pub open spec fn picks_actions(ids: Seq<Seq<char>>, idx: Seq<int>) -> bool {
    &&& idx.len() == ids.len()
    &&& forall|i: int| 0 <= i < idx.len() ==> 0 <= #[trigger] idx[i] < spec_actions().len()
    &&& forall|i: int, j: int| 0 <= i < j < idx.len() ==> idx[i] < idx[j]
    &&& forall|i: int| 0 <= i < ids.len() ==> #[trigger] ids[i] == spec_actions()[idx[i]].0
}

/// The combinations to register: each action's in force (stored or default), in
/// list order, those that are not empty.
pub fn active_combos(conn: &rusqlite::Connection) -> (r: Vec<(&'static str, String)>)
    ensures
        forall|i: int| 0 <= i < r.len() ==> (#[trigger] r@[i]).1@.len() > 0,
        exists|idx: Seq<int>| #[trigger] picks_actions(combo_ids(r@), idx),
{
    let all = actions();
    let mut out: Vec<(&'static str, String)> = Vec::new();
    let mut i: usize = 0;
    let ghost mut idx: Seq<int> = Seq::empty();
    proof {
        assert(all@.len() == spec_actions().len()) by {
            assert(all@.map_values(|a: ShortcutAction| action_view(a)).len() == all@.len());
        }
    }
    while i < all.len()
        invariant
            all@.map_values(|a: ShortcutAction| action_view(a)) == spec_actions(),
            all@.len() == spec_actions().len(),
            i <= all.len(),
            forall|k: int| 0 <= k < out.len() ==> (#[trigger] out@[k]).1@.len() > 0,
            picks_actions(combo_ids(out@), idx),
            forall|k: int| 0 <= k < idx.len() ==> #[trigger] idx[k] < i,
        decreases all.len() - i,
    {
        let a = all[i];
        let combo = read_combo(conn, &a);
        if !combo.as_str().is_empty() {
            let ghost before = combo_ids(out@);
            out.push((a.id, combo));
            proof {
                assert(all@.map_values(|a: ShortcutAction| action_view(a))[i as int] == action_view(all@[i as int]));
                assert(combo_ids(out@) =~= before.push(a.id@));
                idx = idx.push(i as int);
            }
        }
        i += 1;
    }
    out
}

/// What a pressed shortcut does.
#[derive(Debug, Clone, Copy, PartialEq, Eq, Structural)]
pub enum ShortcutEffect {
    ToggleWidget,
    QuickAdd,
    ToggleFocus,
    TogglePet,
    Nothing,
}

pub open spec fn spec_effect_of(action: Seq<char>) -> ShortcutEffect {
    if action == "toggle_widget"@ {
        ShortcutEffect::ToggleWidget
    } else if action == "quick_add"@ {
        ShortcutEffect::QuickAdd
    } else if action == "toggle_focus"@ {
        ShortcutEffect::ToggleFocus
    } else if action == "toggle_pet"@ {
        ShortcutEffect::TogglePet
    } else {
        ShortcutEffect::Nothing
    }
}

pub fn effect_of(action: &str) -> (r: ShortcutEffect)
    ensures
        r == spec_effect_of(action@),
{
    if crate::text::str_eq(action, "toggle_widget") {
        ShortcutEffect::ToggleWidget
    } else if crate::text::str_eq(action, "quick_add") {
        ShortcutEffect::QuickAdd
    } else if crate::text::str_eq(action, "toggle_focus") {
        ShortcutEffect::ToggleFocus
    } else if crate::text::str_eq(action, "toggle_pet") {
        ShortcutEffect::TogglePet
    } else {
        ShortcutEffect::Nothing
    }
}

} // verus!
