use rawblow::cull::{ai_cull_can_start, DetectorWish, ModelsPresent};
use rawblow::folder::SortOrder;
use rawblow::i18n::Lang;
use rawblow::session::ViewCarry;
use rawblow::settings::{reset_settings, settings_close, DestMode, Settings};
use rawblow::transfer::{
    dialog_step, start_allowed, Action, DialogKeys, DialogStep, OrganizeDefaults, OrganizeDialogState, OrganizeKey,
    TransferDefaults, TransferDialogState,
};

fn settings() -> Settings {
    Settings {
        auto_advance: true,
        recursive: false,
        show_exif: true,
        show_histogram: true,
        check_updates: true,
        preload: 2,
        grid_cols: 6,
        large_badges: true,
        sort: SortOrder::CaptureTime,
        view_carry: ViewCarry::ZoomOnly,
        dest_mode: DestMode::CurrentFolder,
        dest_folder: String::new(),
        lang: None,
        photo_bg: None,
        tag_names: vec!["Red".into(), "Yellow".into(), "Green".into(), "Blue".into(), "Purple".into()],
        cache_limit_mb: 2048,
        last_folder: None,
        recent_folders: vec![],
        transfer_defaults: TransferDefaults::first_use(),
        organize_defaults: OrganizeDefaults::default(),
    }
}

fn keys() -> DialogKeys {
    DialogKeys { start_clicked: false, enter: false, typing: false, esc: false, confirm_yes: false, confirm_no: false }
}

#[test]
fn settings_reset_keeps_folder_history_and_dialog_options() {
    let mut old = settings();
    old.last_folder = Some("/qa/last".into());
    old.recent_folders = vec!["/qa/a".into(), "/qa/b".into()];
    old.transfer_defaults.scope_all = false;
    old.organize_defaults.action = Action::Copy;
    old.auto_advance = false;
    old.large_badges = false;
    old.sort = SortOrder::Name;
    let r = reset_settings(settings(), old);
    assert!(r.auto_advance);
    assert!(r.large_badges);
    assert_eq!(r.sort, SortOrder::CaptureTime);
    assert_eq!(r.last_folder.as_deref(), Some("/qa/last"));
    assert_eq!(r.recent_folders, vec!["/qa/a".to_string(), "/qa/b".to_string()]);
    assert!(!r.transfer_defaults.scope_all);
    assert_eq!(r.organize_defaults.action, Action::Copy);
}

#[test]
fn settings_controls_write_their_field() {
    let mut s = settings();
    s.set_auto_advance(false);
    assert!(!s.auto_advance);
    s.set_preload(25);
    assert_eq!(s.preload, 10);
    s.set_preload(-1);
    assert_eq!(s.preload, 0);
    s.set_grid_cols(2);
    assert_eq!(s.grid_cols, 4);
    s.set_grid_cols(20);
    assert_eq!(s.grid_cols, 12);
    s.set_cache_limit(u64::MAX);
    assert_eq!(s.cache_limit_mb, 1_048_576);
    s.set_view_carry(ViewCarry::Keep);
    assert_eq!(s.view_carry, ViewCarry::Keep);
    assert!(s.choose_lang(Some(Lang::Ja)));
    assert!(!s.choose_lang(Some(Lang::Ja)));
    assert_eq!(s.lang, Some(Lang::Ja));
    assert!(s.type_photo_bg_hex(" #0A0b0C "));
    assert_eq!(s.photo_bg, Some([0x0a, 0x0b, 0x0c]));
    assert!(!s.type_photo_bg_hex("#0A0b0"));
    assert_eq!(s.photo_bg, Some([0x0a, 0x0b, 0x0c]));
    s.set_tag_name(2, "Keep".into());
    assert_eq!(s.tag_names[2], "Keep");
}

#[test]
fn settings_transfer_destination() {
    let mut s = settings();
    s.choose_fixed_dest("/Users/me/Pictures".into());
    assert_eq!(s.dest_mode, DestMode::Fixed);
    assert_eq!(s.dest_folder, "/Users/me/Pictures");
    s.choose_current_folder_dest();
    assert_eq!(s.dest_mode, DestMode::CurrentFolder);
    s.choose_fixed_dest("/elsewhere".into());
    assert_eq!(s.dest_folder, "/Users/me/Pictures");
    s.choose_current_folder_dest();
    s.type_dest_folder("   ".into());
    assert_eq!(s.dest_mode, DestMode::CurrentFolder);
    s.type_dest_folder("/out".into());
    assert_eq!(s.dest_mode, DestMode::Fixed);
    s.choose_current_folder_dest();
    s.pick_dest_folder("/picked".into());
    assert_eq!((s.dest_mode, s.dest_folder.as_str()), (DestMode::Fixed, "/picked"));
}

#[test]
fn settings_close_on_back_or_esc() {
    assert!(settings_close(true, false, false));
    assert!(settings_close(false, true, false));
    assert!(!settings_close(false, true, true));
    assert!(!settings_close(false, false, false));
}

#[test]
fn ai_cull_start_needs_a_check_photos_and_models() {
    let none = DetectorWish { aesthetic: false, face: false, genre: false, sharp_ai: false, object: false, gpu: false };
    let all = ModelsPresent { aesthetic: true, face: true, axes: true, object: true, object_class_known: true };
    assert!(ai_cull_can_start(true, 10, &none, &all));
    assert!(!ai_cull_can_start(false, 10, &none, &all));
    assert!(!ai_cull_can_start(true, 0, &none, &all));
    let genre = DetectorWish { genre: true, ..none };
    assert!(!ai_cull_can_start(true, 10, &genre, &ModelsPresent { face: false, ..all }));
    let object = DetectorWish { object: true, ..none };
    assert!(!ai_cull_can_start(true, 10, &object, &ModelsPresent { object_class_known: false, ..all }));
    assert!(ai_cull_can_start(true, 10, &object, &all));
    let aesthetic = DetectorWish { aesthetic: true, ..none };
    assert!(!ai_cull_can_start(true, 10, &aesthetic, &ModelsPresent { aesthetic: false, ..all }));
    let sharp = DetectorWish { sharp_ai: true, ..none };
    assert!(!ai_cull_can_start(true, 10, &sharp, &ModelsPresent { axes: false, ..all }));
}

#[test]
fn transfer_start_needs_files_and_a_destination() {
    assert!(start_allowed(3, "/out"));
    assert!(!start_allowed(0, "/out"));
    assert!(!start_allowed(3, "  \t"));
}

#[test]
fn move_asks_for_confirmation_and_copy_starts_at_once() {
    let start = DialogKeys { start_clicked: true, ..keys() };
    assert_eq!(dialog_step(false, Action::Copy, true, start), DialogStep::Start);
    assert_eq!(dialog_step(false, Action::Move, true, start), DialogStep::AskMove);
    let enter = DialogKeys { enter: true, ..keys() };
    assert_eq!(dialog_step(false, Action::Copy, false, enter), DialogStep::Stay);
    assert_eq!(dialog_step(false, Action::Copy, true, DialogKeys { typing: true, ..enter }), DialogStep::Stay);
    assert_eq!(dialog_step(true, Action::Move, true, enter), DialogStep::Start);
    let esc = DialogKeys { esc: true, ..keys() };
    assert_eq!(dialog_step(true, Action::Move, true, esc), DialogStep::CloseAsk);
    assert_eq!(dialog_step(false, Action::Move, true, DialogKeys { start_clicked: true, ..esc }), DialogStep::Cancel);

    let mut st = TransferDialogState::from_defaults(&TransferDefaults::first_use());
    st.dest = "/out".into();
    st.choose_action(Action::Move);
    assert_eq!(st.on_keys(5, enter), DialogStep::AskMove);
    assert!(st.confirm_move);
    st.choose_action(Action::Copy);
    assert!(!st.confirm_move);
    st.dest = " ".into();
    assert_eq!(st.on_keys(5, enter), DialogStep::Stay);

    let mut org = OrganizeDialogState::from_defaults(&OrganizeDefaults { key: OrganizeKey::Date, action: Action::Move, conflict: OrganizeDefaults::default().conflict });
    org.dest = "/photos".into();
    assert_eq!(org.on_keys(4, start), DialogStep::AskMove);
    assert_eq!(org.on_keys(4, DialogKeys { confirm_no: true, ..keys() }), DialogStep::CloseAsk);
    assert!(!org.confirm_move);
    assert_eq!(org.on_keys(0, enter), DialogStep::Stay);
}
