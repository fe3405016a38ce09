use rawblow::cull::{cull_decode_edge, cull_pool, cull_worker_count};
use rawblow::cull::{detector_plan, hard_filter_excludes, needs_meta, DetectorWish, MetaNeeds, ModelsPresent};
use rawblow::cull::{cull_step, CullEvent, CullStep};
use rawblow::timing::{SaveBadge, SidecarSaver};
use rawblow::cull::{AssignPlan, CullResult, DetectorFacts, HardFilters};
use rawblow::keys::{cmd_key, key_action, Key, KeyAction, Modifiers};
use rawblow::marks::{ColorTag, Filter, Label, Mark, StarFilter, TagFilter};
use rawblow::navigation::index_after_rate;
use rawblow::session::{AiCullTarget, CullSession, ViewCarry, ViewMode, UNDO_LIMIT};

fn mark(label: Label, stars: u8, tag: ColorTag) -> Mark {
    Mark { label, stars, tag }
}

fn session(marks: Vec<Mark>, auto_advance: bool) -> CullSession {
    let mut s = CullSession::new(auto_advance, ViewCarry::ZoomOnly, 6);
    let paths: Vec<String> = (0..marks.len()).map(|i| format!("/photos/IMG_{:04}.CR2", i)).collect();
    s.open_folder(paths, marks, None);
    s
}

fn unrated(n: usize) -> Vec<Mark> {
    vec![Mark::unrated(); n]
}

#[test]
fn index_after_rate_filtered_out_stays_in_place() {
    assert_eq!(index_after_rate(0, false, 4), Some(0));
    assert_eq!(index_after_rate(2, false, 4), Some(2));
}

#[test]
fn index_after_rate_still_visible_advances_one() {
    assert_eq!(index_after_rate(0, true, 5), Some(1));
    assert_eq!(index_after_rate(3, true, 5), Some(4));
}

#[test]
fn index_after_rate_clamps_at_end() {
    assert_eq!(index_after_rate(4, true, 5), Some(4));
    assert_eq!(index_after_rate(4, false, 4), Some(3));
}

#[test]
fn index_after_rate_empty_list_is_none() {
    assert_eq!(index_after_rate(0, false, 0), None);
}

#[test]
fn index_after_rate_never_overflows() {
    assert_eq!(index_after_rate(usize::MAX, true, 3), Some(2));
    assert_eq!(index_after_rate(usize::MAX - 1, true, usize::MAX), Some(usize::MAX - 1));
}

#[test]
fn label_key_toggles_and_auto_advances() {
    let mut s = session(unrated(4), true);
    s.set_label(Label::Pick);
    assert_eq!(s.marks[0].label, Label::Pick);
    assert_eq!(s.index, 1);
    assert!(s.sidecar_dirty);
    // back to the first photo: the same key clears the label and does not advance
    s.advance(-1);
    s.set_label(Label::Pick);
    assert_eq!(s.marks[0].label, Label::Unrated);
    assert_eq!(s.index, 0);
}

#[test]
fn rating_under_a_filter_stays_in_place_when_the_photo_leaves_it() {
    let mut s = session(unrated(4), true);
    s.pick_label_filter(Filter::Unrated);
    s.set_label(Label::Reject);
    // the rated photo left the Unrated list; index 0 already shows the next one
    assert_eq!(s.index, 0);
    assert_eq!(s.filtered(), vec![1, 2, 3]);
    assert_eq!(s.current_real(), Some(1));
}

#[test]
fn undo_restores_marks_and_redo_reapplies() {
    let mut s = session(unrated(3), false);
    s.set_stars(4, true);
    s.set_tag(ColorTag::Teal);
    assert_eq!(s.marks[0], mark(Label::Unrated, 4, ColorTag::Teal));
    assert!(s.undo());
    assert_eq!(s.marks[0], mark(Label::Unrated, 4, ColorTag::Untagged));
    assert!(s.undo());
    assert_eq!(s.marks[0], Mark::unrated());
    assert!(!s.undo());
    assert!(s.redo());
    assert_eq!(s.marks[0].stars, 4);
    assert!(s.redo());
    assert_eq!(s.marks[0].tag, ColorTag::Teal);
    assert!(!s.redo());
}

#[test]
fn undo_brings_the_view_back_to_the_edited_photo() {
    let mut s = session(unrated(5), true);
    s.advance(2);
    s.set_label(Label::Hold);
    assert_eq!(s.index, 3);
    assert!(s.undo());
    assert_eq!(s.index, 2);
    assert_eq!(s.marks[2].label, Label::Unrated);
}

#[test]
fn new_edit_clears_redo_and_history_is_bounded() {
    let mut s = session(unrated(2), false);
    s.set_label(Label::Pick);
    s.undo();
    assert_eq!(s.redo_stack.len(), 1);
    s.set_label(Label::Hold);
    assert_eq!(s.redo_stack.len(), 0);
    for i in 0..(UNDO_LIMIT + 20) {
        s.set_stars((i % 5 + 1) as u8, false);
    }
    assert_eq!(s.undo_stack.len(), UNDO_LIMIT);
}

#[test]
fn grid_selection_edits_every_selected_photo_at_once() {
    let mut s = session(unrated(6), true);
    s.view = ViewMode::Grid;
    s.grid_click(1, false, false);
    s.grid_click(4, false, true);
    assert_eq!(s.selected, vec![1, 2, 3, 4]);
    s.grid_click(2, true, false);
    assert_eq!(s.selected, vec![1, 3, 4]);
    s.set_tag(ColorTag::Blue);
    for i in 0..6 {
        let expected = if i == 1 || i == 3 || i == 4 { ColorTag::Blue } else { ColorTag::Untagged };
        assert_eq!(s.marks[i].tag, expected);
    }
    // one undo reverts the whole batch
    assert!(s.undo());
    assert!(s.marks.iter().all(|m| m.tag == ColorTag::Untagged));
    // undo leaves a single cursor in the grid
    assert!(s.selected.is_empty());
}

#[test]
fn locked_axis_refuses_edits() {
    let mut s = session(unrated(2), false);
    s.cull_lock = Some(AiCullTarget::Label);
    assert!(s.cull_axis_locked(AiCullTarget::Label));
    assert!(!s.cull_axis_locked(AiCullTarget::Stars));
    s.set_label(Label::Pick);
    assert_eq!(s.marks[0].label, Label::Unrated);
    assert!(s.undo_stack.is_empty());
    s.set_stars(2, false);
    assert_eq!(s.marks[0].stars, 2);
    assert_eq!(s.bulk_relabel(&vec![0, 1], Label::Pick), None);
}

#[test]
fn stars_cap_at_five_and_toggle_off() {
    let mut s = session(unrated(1), false);
    s.set_stars(9, true);
    assert_eq!(s.marks[0].stars, 5);
    s.set_stars(5, true);
    assert_eq!(s.marks[0].stars, 0);
    s.set_stars(0, true);
    assert_eq!(s.marks[0].stars, 0);
}

#[test]
fn counters_cover_the_folder() {
    let s = session(
        vec![
            mark(Label::Pick, 5, ColorTag::Orange),
            mark(Label::Pick, 0, ColorTag::Untagged),
            mark(Label::Reject, 7, ColorTag::Purple),
            mark(Label::Hold, 2, ColorTag::Orange),
        ],
        false,
    );
    assert_eq!(s.counts(), (2, 1, 1, 0));
    assert_eq!(s.star_counts(), [1, 0, 1, 0, 0, 2]);
    assert_eq!(s.tag_counts(), [2, 0, 0, 0, 1]);
}

#[test]
fn filters_combine_and_chips_toggle() {
    let mut s = session(
        vec![
            mark(Label::Pick, 3, ColorTag::Teal),
            mark(Label::Pick, 2, ColorTag::Teal),
            mark(Label::Hold, 3, ColorTag::Teal),
            mark(Label::Pick, 3, ColorTag::Pink),
        ],
        false,
    );
    s.pick_label_filter(Filter::Pick);
    s.pick_star_filter(StarFilter::Exact(3));
    s.pick_tag_filter(TagFilter::Only(ColorTag::Teal));
    assert_eq!(s.filtered(), vec![0]);
    assert!(s.any_filter_active());
    s.pick_star_filter(StarFilter::Exact(3));
    assert_eq!(s.filters.stars, StarFilter::Any);
    assert_eq!(s.filtered(), vec![0, 1]);
    s.reset_filters();
    assert!(!s.any_filter_active());
    assert_eq!(s.filtered().len(), 4);
}

#[test]
fn advance_clamps_and_reports_the_end() {
    let mut s = session(unrated(3), false);
    assert!(!s.advance(1));
    assert!(s.advance(5));
    assert_eq!(s.index, 2);
    assert!(!s.advance(-10));
    assert_eq!(s.index, 0);
    assert!(!s.advance(i64::MIN));
    assert!(s.advance(i64::MAX));
    assert_eq!(s.index, 2);
}

#[test]
fn fitted_view_drops_orig_on_move_unless_kept() {
    let mut s = session(unrated(3), false);
    s.full_raw = true;
    s.fit = true;
    s.advance(1);
    assert!(!s.full_raw);
    s.full_raw = true;
    s.fit = false;
    s.advance(1);
    assert!(s.full_raw);
    s.view_carry = ViewCarry::Keep;
    s.fit = true;
    s.advance(-1);
    assert!(s.full_raw);
}

#[test]
fn jump_by_number() {
    let mut s = session(unrated(42), false);
    assert!(s.jump_to_number(" 7 "));
    assert_eq!(s.index, 6);
    assert!(!s.jump_to_number("0"));
    assert!(!s.jump_to_number("43"));
    assert!(!s.jump_to_number(""));
    assert!(!s.jump_to_number("99999999999999999999999"));
    assert_eq!(s.index, 6);
    assert!(s.jump_to_number("42"));
    assert_eq!(s.index, 41);
}

#[test]
fn reorder_follows_the_photo_on_screen() {
    let mut s = session(
        vec![
            mark(Label::Pick, 1, ColorTag::Untagged),
            mark(Label::Hold, 2, ColorTag::Untagged),
            mark(Label::Reject, 3, ColorTag::Untagged),
        ],
        false,
    );
    s.advance(1);
    s.set_label(Label::Pick);
    assert!(s.apply_order(&vec![2, 0, 1]));
    assert_eq!(s.marks[0].stars, 3);
    assert_eq!(s.marks[2].stars, 2);
    assert_eq!(s.paths[2], "/photos/IMG_0001.CR2");
    assert_eq!(s.index, 2);
    assert!(s.undo_stack.is_empty());
    assert!(!s.apply_order(&vec![0, 1, 2]));
}

#[test]
fn folder_reopens_at_the_last_photo() {
    let mut s = CullSession::new(false, ViewCarry::ZoomOnly, 6);
    let paths = vec!["/a/1.CR2".to_string(), "/a/2.CR2".to_string(), "/a/3.CR2".to_string()];
    s.open_folder(paths.clone(), unrated(3), Some("/a/3.CR2".to_string()));
    assert_eq!(s.index, 2);
    s.open_folder(paths.clone(), unrated(3), Some("/a/gone.CR2".to_string()));
    assert_eq!(s.index, 0);
    assert_eq!(s.resume_index(&"/a/2.CR2".to_string()), 1);
}

#[test]
fn bulk_relabel_counts_changes_once() {
    let mut s = session(
        vec![mark(Label::Pick, 0, ColorTag::Untagged), Mark::unrated(), Mark::unrated()],
        false,
    );
    assert_eq!(s.bulk_relabel(&vec![0, 1, 1, 9], Label::Pick), Some(1));
    assert_eq!(s.marks[1].label, Label::Pick);
    assert!(s.undo());
    assert_eq!(s.marks[1].label, Label::Unrated);
}

#[test]
fn cull_verdicts_go_to_the_chosen_axis() {
    let mut s = session(unrated(4), false);
    let none = DetectorFacts { face: None, sharp_below_min: None, object_match: None };
    let results = vec![
        CullResult { real: 0, cv_good: true, group: Some(true), facts: none },
        CullResult { real: 1, cv_good: true, group: None, facts: none },
        CullResult {
            real: 2,
            cv_good: true,
            group: Some(true),
            facts: DetectorFacts { face: Some(false), sharp_below_min: None, object_match: None },
        },
        CullResult { real: 9, cv_good: false, group: Some(false), facts: none },
    ];
    let filters = HardFilters {
        use_face: true,
        use_genre: false,
        genre_portrait: false,
        use_sharp_ai: false,
        use_object: false,
    };
    let plan = AssignPlan {
        target: AiCullTarget::Stars,
        good_stars: 9,
        bad_stars: 1,
        good_tag: ColorTag::Orange,
        bad_tag: ColorTag::Purple,
    };
    assert_eq!(s.apply_cull_verdicts(&results, true, &filters, &plan), (1, 1, 1));
    assert_eq!(s.marks[0].stars, 5);
    assert_eq!(s.marks[1].stars, 0);
    assert_eq!(s.marks[2].stars, 1);
    assert!(s.sidecar_dirty);
}

#[test]
fn keys_map_to_actions() {
    let plain = Modifiers { command: false, shift: false };
    let cmd = Modifiers { command: true, shift: false };
    let shift = Modifiers { command: false, shift: true };
    let cmd_shift = Modifiers { command: true, shift: true };
    assert_eq!(key_action(Key::E, cmd, ViewMode::Single, 1), Some(KeyAction::OpenTransfer));
    assert_eq!(key_action(Key::E, plain, ViewMode::Single, 1), Some(KeyAction::SetLabel(Label::Reject)));
    assert_eq!(key_action(Key::Num3, shift, ViewMode::Single, 1), Some(KeyAction::SetTag(ColorTag::Teal)));
    assert_eq!(key_action(Key::Num3, plain, ViewMode::Single, 1), Some(KeyAction::SetStars(3)));
    assert_eq!(key_action(Key::Num3, cmd, ViewMode::Single, 1), None);
    assert_eq!(key_action(Key::Z, cmd_shift, ViewMode::Single, 1), Some(KeyAction::Redo));
    assert_eq!(key_action(Key::Z, cmd, ViewMode::Single, 1), Some(KeyAction::Undo));
    assert_eq!(key_action(Key::Z, plain, ViewMode::Single, 1), Some(KeyAction::ToggleZoom));
    assert_eq!(key_action(Key::ArrowUp, plain, ViewMode::Grid, 6), Some(KeyAction::Move(-6)));
    assert_eq!(key_action(Key::B, plain, ViewMode::Single, 1), None);
    assert_eq!(key_action(Key::B, plain, ViewMode::Grid, 6), Some(KeyAction::OpenBulk));
}

#[test]
fn grid_rows_move_by_the_column_count() {
    let mut s = session(unrated(20), false);
    s.view = ViewMode::Grid;
    s.grid_cols = 30;
    assert_eq!(s.row_step(), 12);
    s.grid_cols = 5;
    let d = s.row_step();
    let (end, nothing) = s.apply_key_action(KeyAction::Move(d));
    assert!(!end && !nothing);
    assert_eq!(s.index, 5);
    assert_eq!(s.grid_scroll_to, Some(1));
    assert_eq!(s.sel_anchor, Some(5));
    let (_, nothing) = s.apply_key_action(KeyAction::Undo);
    assert!(nothing);
}

#[test]
fn scoring_pool_plans() {
    assert_eq!(cull_decode_edge(true, true), 1024);
    assert_eq!(cull_decode_edge(false, true), 512);
    assert_eq!(cull_decode_edge(false, false), 256);
    assert_eq!(cull_worker_count(16, None), 12);
    assert_eq!(cull_worker_count(0, None), 1);
    assert_eq!(cull_worker_count(16, Some(600_000_000)), 3);
    assert_eq!(cull_worker_count(16, Some(5_000_000_000)), 1);
    assert_eq!(cull_worker_count(6, Some(0)), 6);
    assert_eq!(cull_pool(false, false, 8, None, 3), (1, 3));
    assert_eq!(cull_pool(false, false, 8, None, 0), (1, 1));
    assert_eq!(cull_pool(true, true, 16, None, 100), (32, 8));
    assert_eq!(cull_pool(true, false, 16, Some(100_000_000), 20), (8, 3));
    assert_eq!(cull_pool(true, false, 16, Some(100_000_000), 200), (8, 8));
}

#[test]
fn hard_filters_demote_only_on_findings() {
    let portraits = HardFilters {
        use_face: false,
        use_genre: true,
        genre_portrait: true,
        use_sharp_ai: true,
        use_object: true,
    };
    let none = DetectorFacts { face: None, sharp_below_min: None, object_match: None };
    assert!(!hard_filter_excludes(&portraits, &none));
    assert!(hard_filter_excludes(&portraits, &DetectorFacts { face: Some(false), ..none }));
    assert!(!hard_filter_excludes(&portraits, &DetectorFacts { face: Some(true), ..none }));
    assert!(hard_filter_excludes(&portraits, &DetectorFacts { sharp_below_min: Some(true), ..none }));
    assert!(hard_filter_excludes(&portraits, &DetectorFacts { object_match: Some(false), ..none }));
    let landscapes = HardFilters { genre_portrait: false, ..portraits };
    assert!(hard_filter_excludes(&landscapes, &DetectorFacts { face: Some(true), ..none }));
}

#[test]
fn sidecar_saves_are_retried_with_back_off() {
    let mut saver = SidecarSaver::new();
    assert!(!saver.is_due(false, 10_000_000_000));
    assert!(!saver.is_due(true, 300_000_000));
    assert!(saver.is_due(true, 300_000_001));
    assert!(saver.failed("read-only".to_string()));
    assert!(!saver.failed("read-only".to_string()));
    assert!(!saver.failed("read-only".to_string()));
    assert_eq!(saver.fail_count, 3);
    assert!(!saver.is_due(true, 4_000_000_000));
    assert!(saver.is_due(true, 5_000_000_001));
    saver.saved();
    assert_eq!(saver.fail_count, 0);
    assert!(saver.error.is_none());
}

#[test]
fn current_path_names_the_photo_on_screen() {
    let mut s = session(unrated(3), false);
    assert_eq!(s.current_path(), Some("/photos/IMG_0000.CR2".to_string()));
    s.advance(2);
    assert_eq!(s.current_path(), Some("/photos/IMG_0002.CR2".to_string()));
    s.pick_label_filter(Filter::Pick);
    assert_eq!(s.current_path(), None);
}

#[test]
fn toggling_a_photo_twice_keeps_the_selection() {
    let mut s = session(unrated(5), false);
    s.view = ViewMode::Grid;
    s.grid_click(0, true, false);
    s.grid_click(3, true, false);
    s.grid_click(0, true, false);
    s.grid_click(0, true, false);
    let mut sel = s.selected.clone();
    sel.sort();
    assert_eq!(sel, vec![0, 3]);
}

#[test]
fn transfer_scope_is_the_folder_or_the_filtered_view() {
    let mut s = session(vec![mark(Label::Pick, 0, ColorTag::Untagged), Mark::unrated(), mark(Label::Pick, 1, ColorTag::Untagged)], false);
    assert_eq!(s.scoped_transfer_entries(true), vec![0, 1, 2]);
    s.pick_label_filter(Filter::Pick);
    assert_eq!(s.scoped_transfer_entries(false), vec![0, 2]);
}

#[test]
fn decode_windows_follow_the_current_photo() {
    let mut s = session(unrated(200), false);
    assert_eq!(s.prefetch_window(), Some((0, 0, 80)));
    s.advance(100);
    assert_eq!(s.prefetch_window(), Some((100, 84, 180)));
    assert_eq!(s.preload_window(8), Some((100, 98, 108)));
    assert_eq!(s.preload_window(0), Some((100, 100, 100)));
    assert_eq!(s.preload_window(-3), Some((100, 100, 100)));
    assert_eq!(s.preload_window(1000), Some((100, 79, 164)));
    assert_eq!(s.preload_window(2), Some((100, 99, 102)));
    s.advance(1000);
    assert_eq!(s.prefetch_window(), Some((199, 183, 199)));
    s.pick_label_filter(Filter::Pick);
    assert_eq!(s.prefetch_window(), None);
}

#[test]
fn transfer_chips_count_the_scope() {
    let mut s = session(
        vec![
            mark(Label::Pick, 5, ColorTag::Orange),
            mark(Label::Hold, 2, ColorTag::Untagged),
            mark(Label::Pick, 0, ColorTag::Purple),
        ],
        false,
    );
    assert_eq!(s.scope_counts(true), ((2, 1, 0, 0), [1, 0, 1, 0, 0, 1], [1, 0, 0, 0, 1]));
    s.pick_label_filter(Filter::Pick);
    assert_eq!(s.scope_counts(false), ((2, 0, 0, 0), [1, 0, 0, 0, 0, 1], [1, 0, 0, 0, 1]));
}

#[test]
fn detectors_need_their_models() {
    let want = DetectorWish { aesthetic: true, face: false, genre: true, sharp_ai: true, object: true, gpu: true };
    let all = ModelsPresent { aesthetic: true, face: true, axes: true, object: true, object_class_known: true };
    let p = detector_plan(&want, &all);
    assert!(p.aesthetic && p.face && p.sharp_ai && p.object && p.gpu);
    let none = ModelsPresent { aesthetic: false, face: false, axes: false, object: true, object_class_known: false };
    let p = detector_plan(&want, &none);
    assert!(!p.aesthetic && !p.face && !p.sharp_ai && !p.object && !p.gpu);
}

#[test]
fn exif_is_read_only_when_a_setting_needs_it() {
    let off = MetaNeeds { burst: false, orientation_filter: false, iso_max: false, focal_range: false, aperture_max: false, shutter_min: false };
    assert!(!needs_meta(&off, "", "  \t "));
    assert!(needs_meta(&off, " Nikon ", ""));
    assert!(needs_meta(&off, "", "50mm"));
    let burst = MetaNeeds { burst: true, ..off };
    assert!(needs_meta(&burst, "", ""));
}

#[test]
fn cull_job_results_apply_only_to_the_folder_they_came_from() {
    assert_eq!(cull_step(CullEvent::Finished, 4, 4), CullStep::Apply);
    assert_eq!(cull_step(CullEvent::Finished, 3, 4), CullStep::DiscardStale);
    assert_eq!(cull_step(CullEvent::Running, 3, 4), CullStep::Wait);
    assert_eq!(cull_step(CullEvent::Running, 4, 4), CullStep::Wait);
    assert_eq!(cull_step(CullEvent::Lost, 4, 4), CullStep::Stop);
}

#[test]
fn a_running_cull_locks_its_axis_until_it_ends() {
    let mut s = session(unrated(2), false);
    s.lock_for_cull(AiCullTarget::Stars);
    assert!(s.cull_axis_locked(AiCullTarget::Stars));
    assert!(!s.cull_axis_locked(AiCullTarget::Label));
    s.set_stars(3, false);
    assert_eq!(s.marks[0].stars, 0);
    s.set_label(Label::Pick);
    assert_eq!(s.marks[0].label, Label::Pick);
    s.end_cull();
    assert!(!s.cull_axis_locked(AiCullTarget::Stars));
    s.set_stars(3, false);
    assert_eq!(s.marks[0].stars, 3);
}

#[test]
fn counter_and_film_strip_follow_the_current_photo() {
    let mut s = session(unrated(30), false);
    assert_eq!(s.position_shown(), 1);
    assert_eq!(s.strip_range(7), Some((0, 7)));
    s.advance(10);
    assert_eq!(s.position_shown(), 11);
    assert_eq!(s.strip_range(7), Some((7, 14)));
    assert_eq!(s.strip_range(1), Some((10, 11)));
    s.advance(100);
    assert_eq!(s.position_shown(), 30);
    assert_eq!(s.strip_range(7), Some((26, 30)));
    assert_eq!(s.strip_range(100), Some((0, 30)));
    s.pick_label_filter(Filter::Pick);
    assert_eq!(s.position_shown(), 1);
    assert_eq!(s.strip_range(7), None);
}

#[test]
fn save_badge_puts_failures_first() {
    let mut saver = SidecarSaver::new();
    assert_eq!(saver.badge(false), SaveBadge::Saved);
    assert_eq!(saver.badge(true), SaveBadge::Saving);
    saver.failed("disk full".to_string());
    assert_eq!(saver.badge(true), SaveBadge::Failed);
    assert_eq!(saver.badge(false), SaveBadge::Failed);
    saver.saved();
    assert_eq!(saver.badge(false), SaveBadge::Saved);
}

#[test]
fn command_key_is_written_per_platform() {
    assert_eq!(cmd_key(true), "\u{2318}");
    assert_eq!(cmd_key(false), "Ctrl+");
    assert_eq!(format!("{}O", cmd_key(false)), "Ctrl+O");
}
