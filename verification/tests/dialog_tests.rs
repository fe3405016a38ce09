use rawblow::marks::Label;
use rawblow::transfer::{
    Action, Companions, ConflictPolicy, Numbering, OrganizeDefaults, OrganizeDialogState, OrganizeKey,
    RenameMode, TransferDefaults, TransferDialogState,
};

#[test]
fn rename_rule_off_is_none() {
    let st = TransferDialogState { rename_mode: RenameMode::Off, ..Default::default() };
    assert!(st.rename_rule().is_none());
}

#[test]
fn rename_rule_seq_uses_order_numbering() {
    let st = TransferDialogState { rename_mode: RenameMode::Sequence, ..Default::default() };
    let rule = st.rename_rule().expect("Sequence gives a rule");
    assert_eq!(rule.template, "{seq:03}");
    assert_eq!(rule.numbering, Numbering::Order);
}

#[test]
fn rename_rule_grade_uses_grade_grouped_numbering() {
    let st = TransferDialogState { rename_mode: RenameMode::Grade, ..Default::default() };
    let rule = st.rename_rule().expect("Grade gives a rule");
    assert_eq!(rule.template, "{gradeseq}");
    assert_eq!(rule.numbering, Numbering::GradeGrouped);
}

#[test]
fn rename_rule_custom_passes_through_state_verbatim() {
    let st = TransferDialogState {
        rename_mode: RenameMode::Custom,
        rename_template: "{label}_{orig}_shot".into(),
        rename_numbering: Numbering::Order,
        ..Default::default()
    };
    let rule = st.rename_rule().expect("Custom gives a rule");
    assert_eq!(rule.template, "{label}_{orig}_shot");
    assert_eq!(rule.numbering, Numbering::Order);
}

#[test]
fn transfer_dialog_state_defaults() {
    let st = TransferDialogState::default();
    assert_eq!(st.labels, vec![Label::Pick]);
    assert!(st.stars.is_empty());
    assert!(st.tags.is_empty());
    assert_eq!(st.action, Action::Copy);
    assert_eq!(st.companions, Companions::Both);
    assert!(!st.split_by_label);
    assert!(!st.split_by_tag);
    assert_eq!(st.conflict, ConflictPolicy::AutoIncrement);
    assert!(matches!(st.rename_mode, RenameMode::Off));
    assert!(st.scope_all);
}

#[test]
fn transfer_defaults_round_trip_excludes_dest() {
    let st = TransferDialogState {
        action: Action::Move,
        split_by_tag: true,
        rename_mode: RenameMode::Custom,
        rename_template: "{orig}_pick".into(),
        rename_numbering: Numbering::Order,
        scope_all: false,
        dest: r"X:\old\folder_selected".into(),
        ..Default::default()
    };
    let st2 = TransferDialogState::from_defaults(&st.to_defaults());
    assert_eq!(st2.action, Action::Move);
    assert!(st2.split_by_tag);
    assert_eq!(st2.rename_mode, RenameMode::Custom);
    assert_eq!(st2.rename_template, "{orig}_pick");
    assert_eq!(st2.rename_numbering, Numbering::Order);
    assert!(!st2.scope_all);
    assert!(st2.dest.is_empty());
}

#[test]
fn organize_defaults_round_trip_excludes_dest() {
    let st = OrganizeDialogState {
        key: OrganizeKey::Lens,
        action: Action::Copy,
        conflict: ConflictPolicy::Skip,
        dest: r"X:\old\folder".into(),
        confirm_move: false,
    };
    let st2 = OrganizeDialogState::from_defaults(&st.to_defaults());
    assert_eq!(st2.key, OrganizeKey::Lens);
    assert_eq!(st2.action, Action::Copy);
    assert_eq!(st2.conflict, ConflictPolicy::Skip);
    assert!(st2.dest.is_empty());
}

#[test]
fn organize_dialog_state_defaults_to_move_unlike_transfer_copy() {
    let st = OrganizeDialogState::default();
    assert_eq!(st.key, OrganizeKey::Date);
    assert_eq!(st.action, Action::Move);
    assert_eq!(st.conflict, ConflictPolicy::AutoIncrement);
    assert_ne!(st.action, TransferDialogState::default().action);
}

#[test]
fn dialogs_propose_destinations_from_the_open_folder() {
    let st = TransferDialogState::for_folder(&TransferDefaults::default(), Some("/shoot/day1"));
    assert_eq!(st.dest, "/shoot/day1_selected");
    assert!(!st.confirm_move);
    let st = TransferDialogState::for_folder(&TransferDefaults::default(), None);
    assert!(st.dest.is_empty());
    let org = OrganizeDialogState::for_folder(&OrganizeDefaults::default(), Some("/shoot/day1"));
    assert_eq!(org.dest, "/shoot/day1");
    assert_eq!(org.action, Action::Move);
}
