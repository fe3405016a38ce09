use rawblow::decodes::{decode_threads, DecodeLedger, DecodeReport, Lane, Pace, ResultAction, DECODE_DEAD_THRESHOLD};
use rawblow::decodes::{meta_request, MetaWant};
use rawblow::folder::{capture_scan_due, capture_scan_plan, capture_times_apply, sort_step, SortOrder, SortStep};
use rawblow::gear::name_list;
use rawblow::gates::{
    cache_trim_bytes, drop_outcome, drop_pick, folder_request, main_dialog, screen,
    update_check_due, confirm_step, ConfirmInput, ConfirmStep, DropOutcome, ResetGuard, DropPick, Dropped, FolderRequest, MainDialog, Overlays, Screen,
};
use rawblow::i18n::Lang;
use rawblow::marks::{ColorTag, Filter, Mark};
use rawblow::session::{CullSession, EmptyReason, ViewCarry};
use rawblow::timing::cache_trim_due;
use rawblow::transfer::{job_end, organize_reopen, transfer_reopen, Action, ReopenMode};

fn report(photo: usize, generation: u64, thumb: bool, ok: bool) -> DecodeReport {
    DecodeReport { photo, generation, dropped: false, prefetch: false, thumb, ok }
}

fn no_overlays() -> Overlays {
    Overlays {
        transfer: false,
        organize: false,
        progress: false,
        result: false,
        jump: false,
        bulk: false,
        help: false,
        settings: false,
        licenses: false,
        ai_cull_dialog: false,
        ai_cull_cancel_confirm: false,
        ai_cull_folder_confirm: false,
        model_download: false,
    }
}

fn file(parent_open: bool) -> Dropped {
    Dropped { has_path: true, is_dir: false, parent_is_dir: true, is_open_folder: false, parent_is_open_folder: parent_open }
}

fn folder(open: bool) -> Dropped {
    Dropped { has_path: true, is_dir: true, parent_is_dir: true, is_open_folder: open, parent_is_open_folder: false }
}

// ---------------------------------------------------------------- decode ledger

#[test]
fn preview_request_is_sent_once_until_its_result() {
    let mut l = DecodeLedger::new();
    assert_eq!(l.request_preview(3, false, true, true), Some(Lane::Preview));
    assert_eq!(l.request_preview(3, false, true, true), None);
    assert_eq!(l.pace(), Pace::Now);
    assert_eq!(l.on_result(report(3, 0, false, true), false), ResultAction::ShowPreview);
    assert_eq!(l.pace(), Pace::Idle);
    assert_eq!(l.request_preview(3, false, true, true), Some(Lane::Preview));
}

#[test]
fn neighbour_previews_use_the_normal_lane() {
    let mut l = DecodeLedger::new();
    assert_eq!(l.request_preview(4, false, false, true), Some(Lane::Normal));
    assert_eq!(l.request_preview(5, true, false, true), None);
    assert_eq!(l.request_preview(6, false, false, false), None);
}

#[test]
fn failed_preview_is_retried_only_with_priority() {
    let mut l = DecodeLedger::new();
    l.request_preview(1, false, false, true);
    assert_eq!(l.on_result(report(1, 0, false, false), false), ResultAction::Failed);
    assert_eq!(l.fail_count(1), 1);
    assert_eq!(l.request_preview(1, false, false, true), None);
    assert_eq!(l.request_preview(1, false, true, true), Some(Lane::Preview));
}

#[test]
fn photo_is_given_up_after_five_failures_in_a_row() {
    let mut l = DecodeLedger::new();
    for k in 1..=DECODE_DEAD_THRESHOLD {
        assert!(!l.decode_dead(2));
        assert_eq!(l.request_thumb(2, false, true, true), Some(Lane::Thumb));
        assert_eq!(l.on_result(report(2, 0, true, false), false), ResultAction::Failed);
        assert_eq!(l.fail_count(2), k);
    }
    assert!(l.decode_dead(2));
    assert_eq!(l.request_thumb(2, false, true, true), None);
    assert_eq!(l.request_prefetch(2, false, false), None);
    l.retry_decode(2);
    assert!(!l.decode_dead(2));
    assert_eq!(l.fail_count(2), 0);
    assert_eq!(l.request_thumb(2, false, true, true), Some(Lane::Thumb));
}

#[test]
fn success_resets_the_failure_count() {
    let mut l = DecodeLedger::new();
    l.request_thumb(7, false, true, true);
    l.on_result(report(7, 0, true, false), false);
    l.request_thumb(7, false, true, true);
    l.on_result(report(7, 0, true, false), false);
    assert_eq!(l.fail_count(7), 2);
    l.request_thumb(7, false, true, true);
    assert_eq!(l.on_result(report(7, 0, true, true), false), ResultAction::ShowThumb);
    assert_eq!(l.fail_count(7), 0);
}

#[test]
fn heic_first_failure_retries_the_raw_twin() {
    let mut l = DecodeLedger::new();
    l.request_preview(0, false, true, true);
    assert_eq!(l.on_result(report(0, 0, false, false), true), ResultAction::RetryAsRaw(Lane::Preview));
    assert_eq!(l.pace(), Pace::Now);
    assert_eq!(l.on_result(report(0, 0, false, false), true), ResultAction::Failed);
    l.request_thumb(1, false, true, true);
    assert_eq!(l.on_result(report(1, 0, true, false), true), ResultAction::RetryAsRaw(Lane::Thumb));
}

#[test]
fn stale_results_are_ignored_after_a_new_folder() {
    let mut l = DecodeLedger::new();
    l.request_preview(0, false, true, true);
    l.start_generation();
    assert_eq!(l.generation, 1);
    assert_eq!(l.pace(), Pace::Idle);
    assert_eq!(l.on_result(report(0, 0, false, false), false), ResultAction::Ignore);
    assert_eq!(l.fail_count(0), 0);
}

#[test]
fn visible_thumbnail_is_promoted_once() {
    let mut l = DecodeLedger::new();
    assert_eq!(l.request_thumb(9, false, false, true), Some(Lane::Thumb));
    assert_eq!(l.request_thumb(9, false, false, true), None);
    assert_eq!(l.request_thumb(9, false, true, true), Some(Lane::Thumb));
    assert_eq!(l.request_thumb(9, false, true, true), None);
    assert_eq!(l.request_thumb(9, true, true, true), None);
}

#[test]
fn prefetch_skips_known_and_heic_photos() {
    let mut l = DecodeLedger::new();
    assert_eq!(l.request_prefetch(1, false, false), Some(Lane::Background));
    assert_eq!(l.request_prefetch(1, false, false), None);
    assert_eq!(l.request_prefetch(2, true, false), None);
    assert_eq!(l.request_prefetch(3, false, true), None);
    assert_eq!(l.pace(), Pace::Background);
    let failed = DecodeReport { photo: 1, generation: 0, dropped: false, prefetch: true, thumb: true, ok: false };
    assert_eq!(l.on_result(failed, false), ResultAction::Ignore);
    assert_eq!(l.fail_count(1), 1);
    assert_eq!(l.request_prefetch(1, false, false), None);
    assert!(l.all_idle());
}

#[test]
fn dropped_request_only_frees_its_slot() {
    let mut l = DecodeLedger::new();
    l.request_thumb(4, false, false, true);
    assert_eq!(l.pace(), Pace::Thumbs);
    let dropped = DecodeReport { photo: 4, generation: 0, dropped: true, prefetch: false, thumb: true, ok: false };
    assert_eq!(l.on_result(dropped, false), ResultAction::Ignore);
    assert_eq!(l.fail_count(4), 0);
    assert!(l.on_screen_idle());
}

// ---------------------------------------------------------------- gates

#[test]
fn any_dialog_blocks_keys_and_drops() {
    let none = no_overlays();
    assert!(!none.has_modal());
    let mut o = none;
    o.settings = true;
    assert!(o.has_modal());
    let mut o = none;
    o.ai_cull_folder_confirm = true;
    assert!(o.has_modal());
    assert_eq!(drop_outcome(&o, &vec![folder(false)], false), DropOutcome::Ignore);
}

#[test]
fn first_dropped_folder_wins_over_files() {
    assert_eq!(drop_pick(&vec![file(false), folder(false), folder(false)]), Some(DropPick::Folder(1)));
    assert_eq!(drop_pick(&vec![file(false), file(false)]), Some(DropPick::ParentOf(0)));
    let pathless = Dropped { has_path: false, is_dir: true, parent_is_dir: true, is_open_folder: false, parent_is_open_folder: false };
    assert_eq!(drop_pick(&vec![pathless]), None);
    assert_eq!(drop_pick(&vec![]), None);
}

#[test]
fn dropping_the_open_folder_does_nothing() {
    let o = no_overlays();
    assert_eq!(drop_outcome(&o, &vec![folder(true)], false), DropOutcome::Ignore);
    assert_eq!(drop_outcome(&o, &vec![file(true)], false), DropOutcome::Ignore);
    assert_eq!(drop_outcome(&o, &vec![file(false)], false), DropOutcome::Open(DropPick::ParentOf(0)));
    assert_eq!(drop_outcome(&o, &vec![folder(false)], true), DropOutcome::Confirm(DropPick::Folder(0)));
}

#[test]
fn folder_request_waits_for_running_cull() {
    assert_eq!(folder_request(true), FolderRequest::Confirm);
    assert_eq!(folder_request(false), FolderRequest::Open);
}

#[test]
fn update_check_waits_for_idle() {
    let o = no_overlays();
    assert!(update_check_due(true, false, true, false, &o));
    assert!(!update_check_due(false, false, true, false, &o));
    assert!(!update_check_due(true, true, true, false, &o));
    assert!(!update_check_due(true, false, false, false, &o));
    assert!(!update_check_due(true, false, true, true, &o));
    let mut busy = o;
    busy.help = true;
    assert!(!update_check_due(true, false, true, false, &busy));
}

#[test]
fn cache_trim_limit_in_bytes() {
    assert_eq!(cache_trim_bytes(0), None);
    assert_eq!(cache_trim_bytes(1), Some(1_048_576));
    assert_eq!(cache_trim_bytes(2048), Some(2_147_483_648));
    assert_eq!(cache_trim_bytes(u64::MAX), Some(u64::MAX));
    assert!(!cache_trim_due(120_000_000_000));
    assert!(cache_trim_due(120_000_000_001));
}

// ---------------------------------------------------------------- empty view, sort, jobs

#[test]
fn empty_state_names_its_reason() {
    let mut s = CullSession::new(true, ViewCarry::ZoomOnly, 6);
    assert_eq!(s.empty_reason(), EmptyReason::EmptyFolder);
    s.open_folder(vec!["/p/a.CR2".to_string()], vec![Mark::unrated()], None);
    assert_eq!(s.empty_reason(), EmptyReason::Nothing);
    s.pick_label_filter(Filter::Pick);
    assert_eq!(s.filtered().len(), 0);
    assert_eq!(s.empty_reason(), EmptyReason::NoMatch);
    assert_eq!(EmptyReason::NoMatch.message(Lang::En), "No photos match the filters");
    assert_eq!(EmptyReason::EmptyFolder.message(Lang::Ko), "이 폴더에 표시할 사진이 없습니다");
    let _ = ColorTag::Untagged;
}

#[test]
fn sort_change_steps() {
    assert_eq!(sort_step(SortOrder::Name, SortOrder::Name, SortOrder::Name), SortStep::Keep);
    assert_eq!(sort_step(SortOrder::Name, SortOrder::CaptureTime, SortOrder::Name), SortStep::ByName);
    assert_eq!(sort_step(SortOrder::CaptureTime, SortOrder::CaptureTime, SortOrder::Modified), SortStep::ByName);
    assert_eq!(sort_step(SortOrder::Name, SortOrder::Name, SortOrder::CaptureTime), SortStep::CollectTimes);
    assert!(capture_scan_due(SortOrder::CaptureTime, 3, None, 0));
    assert!(capture_scan_due(SortOrder::CaptureTime, 3, Some(1), 2));
    assert!(!capture_scan_due(SortOrder::CaptureTime, 3, Some(2), 2));
    assert!(!capture_scan_due(SortOrder::CaptureTime, 0, None, 2));
    assert!(!capture_scan_due(SortOrder::Name, 3, None, 2));
}

#[test]
fn capture_scan_uses_loaded_exif() {
    let known = vec![Some(Some(100)), None, Some(None), None];
    let (times, todo) = capture_scan_plan(&known);
    assert_eq!(times, vec![Some(100), None, None, None]);
    assert_eq!(todo, vec![1, 3]);
}

#[test]
fn job_end_reopens_as_planned() {
    assert_eq!(transfer_reopen(Action::Move), Some(ReopenMode::Current));
    assert_eq!(transfer_reopen(Action::Copy), None);
    assert_eq!(organize_reopen(Action::Move, true), Some(ReopenMode::Recursive));
    assert_eq!(organize_reopen(Action::Move, false), Some(ReopenMode::Current));
    assert_eq!(organize_reopen(Action::Copy, true), None);
    let e = job_end(Some(ReopenMode::Recursive), 3, true);
    assert!(e.reopen && e.go_recursive);
    let e = job_end(Some(ReopenMode::Recursive), 0, true);
    assert!(e.reopen && !e.go_recursive);
    let e = job_end(Some(ReopenMode::Current), 3, false);
    assert!(!e.reopen && !e.go_recursive);
    let e = job_end(None, 3, true);
    assert!(!e.reopen && !e.go_recursive);
}

#[test]
fn grid_double_click_opens_the_photo() {
    let mut s = CullSession::new(true, ViewCarry::ZoomOnly, 6);
    let paths: Vec<String> = (0..5).map(|i| format!("/p/{i}.CR2")).collect();
    s.open_folder(paths, vec![Mark::unrated(); 5], None);
    s.toggle_view();
    assert_eq!(s.view, rawblow::session::ViewMode::Grid);
    s.grid_double_click(3);
    assert_eq!(s.index, 3);
    assert_eq!(s.view, rawblow::session::ViewMode::Single);
}

#[test]
fn jump_by_name_drops_orig_unless_zoomed() {
    let mut s = CullSession::new(true, ViewCarry::ZoomOnly, 6);
    let paths: Vec<String> = (0..5).map(|i| format!("/p/{i}.CR2")).collect();
    s.open_folder(paths, vec![Mark::unrated(); 5], None);
    s.full_raw = true;
    s.fit = true;
    s.jump_to(4);
    assert_eq!(s.index, 4);
    assert!(!s.full_raw);
    s.full_raw = true;
    s.fit = false;
    s.jump_to(1);
    assert!(s.full_raw);
    s.view_carry = ViewCarry::Keep;
    s.fit = true;
    s.jump_to(2);
    assert!(s.full_raw);
}

#[test]
fn screen_precedence() {
    assert_eq!(screen(false, true, true, true), Screen::Open);
    assert_eq!(screen(true, true, true, true), Screen::Licenses);
    assert_eq!(screen(true, false, true, true), Screen::Settings);
    assert_eq!(screen(true, false, false, true), Screen::Fullscreen);
    assert_eq!(screen(true, false, false, false), Screen::Shell);
}

#[test]
fn progress_hides_other_dialogs() {
    let mut o = no_overlays();
    assert_eq!(main_dialog(&o), None);
    o.ai_cull_folder_confirm = true;
    assert_eq!(main_dialog(&o), Some(MainDialog::AiCullFolderConfirm));
    o.transfer = true;
    assert_eq!(main_dialog(&o), Some(MainDialog::Transfer));
    o.progress = true;
    assert_eq!(main_dialog(&o), Some(MainDialog::Progress));
    assert!(o.has_modal());
}

#[test]
fn decode_threads_from_env_or_cores() {
    assert_eq!(decode_threads(Some("3"), Some(16)), 3);
    assert_eq!(decode_threads(Some("+5"), None), 5);
    assert_eq!(decode_threads(Some("0"), Some(16)), 8);
    assert_eq!(decode_threads(Some("x"), Some(6)), 3);
    assert_eq!(decode_threads(None, Some(2)), 2);
    assert_eq!(decode_threads(None, Some(32)), 8);
    assert_eq!(decode_threads(None, None), 4);
}

#[test]
fn one_metadata_read_at_a_time_and_only_what_is_missing() {
    assert_eq!(meta_request(true, false, true, false), None);
    assert_eq!(meta_request(false, true, false, false), None);
    assert_eq!(meta_request(false, true, true, true), None);
    assert_eq!(meta_request(false, false, false, false), Some(MetaWant { exif: true, af: false }));
    assert_eq!(meta_request(false, true, true, false), Some(MetaWant { exif: false, af: true }));
    assert_eq!(meta_request(false, false, true, false), Some(MetaWant { exif: true, af: true }));
}

#[test]
fn capture_times_apply_only_to_their_folder_and_order() {
    assert!(capture_times_apply(3, 3, SortOrder::CaptureTime, 5, 5));
    assert!(!capture_times_apply(2, 3, SortOrder::CaptureTime, 5, 5));
    assert!(!capture_times_apply(3, 3, SortOrder::Name, 5, 5));
    assert!(!capture_times_apply(3, 3, SortOrder::CaptureTime, 4, 5));
}

#[test]
fn camera_names_are_trimmed_distinct_and_sorted() {
    let raw: Vec<String> = vec![
        "  NIKON Z 8 ".to_string(),
        "Canon EOS R5".to_string(),
        "".to_string(),
        "   ".to_string(),
        "NIKON Z 8".to_string(),
        "Canon EOS R".to_string(),
        "canon eos r5".to_string(),
        "ILCE-7RM5\t".to_string(),
    ];
    let got = name_list(&raw);
    let mut want: Vec<String> = raw
        .iter()
        .map(|s| s.trim().to_string())
        .filter(|s| !s.is_empty())
        .collect();
    want.sort();
    want.dedup();
    assert_eq!(got, want);
    assert_eq!(
        got,
        vec![
            "Canon EOS R".to_string(),
            "Canon EOS R5".to_string(),
            "ILCE-7RM5".to_string(),
            "NIKON Z 8".to_string(),
            "canon eos r5".to_string(),
        ]
    );
    assert!(name_list(&Vec::new()).is_empty());
}

#[test]
fn name_order_matches_string_order_beyond_ascii() {
    let raw: Vec<String> = vec![
        "\u{17D}".to_string(),
        "Z".to_string(),
        "\u{3A9}".to_string(),
        "\u{E9}".to_string(),
        "\u{1D11E}".to_string(),
        "\u{FF21}".to_string(),
    ];
    let got = name_list(&raw);
    let mut want = raw.clone();
    want.sort();
    assert_eq!(got, want);
}

#[test]
fn settings_reset_asks_twice_and_cancel_starts_over() {
    let mut g = ResetGuard::new();
    assert!(!g.restore());
    assert!(g.armed);
    g.cancel();
    assert!(!g.armed);
    assert!(!g.restore());
    assert!(g.restore());
    assert!(!g.armed);
}

#[test]
fn confirmations_during_culling() {
    assert_eq!(confirm_step(true, ConfirmInput::Go), ConfirmStep::CancelAndGo);
    assert_eq!(confirm_step(true, ConfirmInput::Back), ConfirmStep::Close);
    assert_eq!(confirm_step(true, ConfirmInput::Pending), ConfirmStep::Ask);
    // the run ended while the question was open: nothing left to confirm
    assert_eq!(confirm_step(false, ConfirmInput::Pending), ConfirmStep::GoWithoutJob);
    assert_eq!(confirm_step(false, ConfirmInput::Back), ConfirmStep::GoWithoutJob);
}
