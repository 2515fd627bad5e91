use floatdo::shortcuts::{actions, check_combo, combo_accepted, effect_of, find_action, ShortcutEffect};

#[test]
fn actions_and_labels() {
    let all = actions();
    assert_eq!(all.len(), 4);
    assert_eq!(all[0].id, "toggle_widget");
    assert_eq!(all[0].default, "Ctrl+Alt+Space");
    assert_eq!(all[3].default, "");
    assert_eq!(all[2].label(), "开始 / 停止专注");
    assert_eq!(find_action("toggle_pet").unwrap().key, "shortcutTogglePet");
    assert_eq!(find_action("nope").unwrap_err(), "未知快捷键动作: nope");
}

#[test]
fn combos_and_effects() {
    assert!(combo_accepted("", false));
    assert!(!combo_accepted("Ctrl", false));
    assert_eq!(check_combo("Ctrl+Snap", false).unwrap_err(), "无法识别的组合键: Ctrl+Snap");
    assert!(check_combo("Ctrl+Alt+F", true).is_ok());
    assert_eq!(effect_of("quick_add"), ShortcutEffect::QuickAdd);
    assert_eq!(effect_of("other"), ShortcutEffect::Nothing);
}
