use rawblow::i18n::{effective_lang, lang_from_langid, lang_from_locales, lookup, tr, trf, Lang};

#[test]
fn tr_picks_language_and_falls_back_to_ko() {
    assert_eq!(tr(Lang::Ko, "폴더 열기"), "폴더 열기");
    assert_eq!(tr(Lang::En, "폴더 열기"), "Open Folder");
    assert_eq!(tr(Lang::Ja, "폴더 열기"), "フォルダを開く");
    assert_eq!(tr(Lang::En, "표에 없는 문자열"), "표에 없는 문자열");
}

#[test]
fn trf_substitutes_in_order_with_reordering() {
    assert_eq!(trf(Lang::Ko, "{} 항목 로드", &["12"]), "12 항목 로드");
    assert_eq!(trf(Lang::En, "{} 항목 로드", &["12"]), "Loaded 12 items");
    assert_eq!(trf(Lang::Ja, "{} 항목 로드", &["12"]), "12 項目を読み込み");
    assert_eq!(
        trf(Lang::En, "RAW {} · 이미지 {} · {:.1} MB", &["3", "5", "12.3"]),
        "RAW 3 · Images 5 · 12.3 MB"
    );
    assert_eq!(trf(Lang::En, "마지막 사진 · 미분류 {}장", &["3"]), "Last photo · 3 unrated");
    assert_eq!(trf(Lang::Ja, "마지막 사진 · 미분류 {}장", &["3"]), "最後の写真 · 未分類 3枚");
}

#[test]
fn trf_runs_out_of_arguments_and_keeps_an_open_brace() {
    assert_eq!(trf(Lang::Ko, "{} / {} 파일", &["1"]), "1 /  파일");
    assert_eq!(trf(Lang::Ko, "표에 없는 {} 서식 {", &["x", "y"]), "표에 없는 x 서식 {");
    assert_eq!(trf(Lang::En, "{}건 → {}", &["4", "Pick", "extra"]), "4 → Pick");
}

#[test]
fn from_locale_maps_prefixes() {
    assert_eq!(Lang::from_locale("ko-KR"), Some(Lang::Ko));
    assert_eq!(Lang::from_locale("ja_JP"), Some(Lang::Ja));
    assert_eq!(Lang::from_locale("en-US"), Some(Lang::En));
    assert_eq!(Lang::from_locale("fr-FR"), None);
}

#[test]
fn language_choice_from_the_system() {
    assert_eq!(lang_from_locales(&vec!["C".to_string(), "ja_JP.UTF-8".to_string()]), Lang::Ja);
    assert_eq!(lang_from_locales(&vec![]), Lang::En);
    assert_eq!(lang_from_langid(0x0412), Lang::Ko);
    assert_eq!(lang_from_langid(0x0411), Lang::Ja);
    assert_eq!(lang_from_langid(0x0409), Lang::En);
    assert_eq!(effective_lang(Some(Lang::Ja), Lang::Ko), Lang::Ja);
    assert_eq!(effective_lang(None, Lang::Ko), Lang::Ko);
}

#[test]
fn ai_cull_strings_are_translated() {
    for ko in [
        "AI 컬링",
        "컬링 시작",
        "초점(선명도)",
        "연사 베스트-N",
        "장르 픽",
        "파일명 일부를 입력하세요",
        "이 파일을 열 수 없습니다",
        "이 폴더에 표시할 사진이 없습니다",
        "필터와 일치하는 사진이 없습니다",
        "필터 초기화",
        "T 키로 전환",
        "기본값 복원",
        "새 버전 자동 확인",
        "고급 옵션",
        "고급 옵션이 적용 중입니다",
        "미적 점수 하한",
        "차이 허용 ≤",
        "이 빌드에는 모델 다운로드가 포함되지 않았습니다",
    ] {
        assert_ne!(tr(Lang::En, ko), ko, "En translation missing: {ko}");
        assert_ne!(tr(Lang::Ja, ko), ko, "Ja translation missing: {ko}");
    }
    assert_eq!(tr(Lang::En, "AI 컬링"), "AI Culling");
    assert_eq!(tr(Lang::Ja, "AI 컬링"), "AIカリング");
    assert_eq!(tr(Lang::En, "고급 옵션"), "Advanced Options");
    assert_eq!(tr(Lang::En, "모델 다운로드를 취소했습니다"), "Model download canceled");
    assert_eq!(tr(Lang::Ja, "모델 다운로드를 취소했습니다"), "モデルのダウンロードをキャンセルしました");
    assert_eq!(trf(Lang::En, "HTTP 오류: {}", &["timeout"]), "HTTP error: timeout");
    assert_eq!(trf(Lang::Ja, "폴더 생성 실패: {}", &["denied"]), "フォルダ作成失敗: denied");
    assert_eq!(
        trf(Lang::En, "AI 컬링 완료 · 좋음 {} · 탈락 {}", &["3", "1"]),
        "AI culling done · Good 3 · Culled 1"
    );
    assert_eq!(trf(Lang::Ja, "1 ~ {} 사이 번호", &["42"]), "1～42 の番号");
}

#[test]
fn save_failure_strings_are_translated() {
    assert_eq!(tr(Lang::En, "저장 실패"), "Save failed");
    assert_eq!(tr(Lang::Ja, "저장 실패"), "保存失敗");
    assert_eq!(
        trf(Lang::En, "셀렉 저장 실패: {} — 폴더 쓰기 권한·용량을 확인하세요", &["permission denied"]),
        "Failed to save selections: permission denied — check folder write permission/space"
    );
    assert_eq!(
        trf(Lang::Ja, "이전 폴더({}) 셀렉 저장 실패 — 최근 변경이 유실될 수 있습니다", &["DCIM"]),
        "前のフォルダ（DCIM）のセレクト保存に失敗 — 直近の変更が失われた可能性があります"
    );
}

#[test]
fn issue63_move_confirm_and_result_strings_translated() {
    assert_eq!(tr(Lang::En, "이동 시작"), "Start Move");
    assert_eq!(tr(Lang::Ja, "정리 완료"), "整理完了");
    assert_eq!(tr(Lang::En, "작업이 예기치 않게 중단되었습니다"), "The operation stopped unexpectedly");
    assert_eq!(
        trf(Lang::En, "원본 {}개를 이동합니다 — 원래 폴더에서 제거됩니다.", &["12"]),
        "Moving 12 originals — they will be removed from the source folder."
    );
    assert_eq!(trf(Lang::Ja, "건너뜀 {} — 동명 파일 존재", &["3"]), "スキップ 3 — 同名ファイルあり");
    assert_eq!(
        trf(Lang::En, "원본 삭제 실패 {} — 원본 파일이 남아 있습니다", &["2"]),
        "Failed to delete 2 originals — the source files remain"
    );
}

#[test]
fn help_overlay_strings_are_translated() {
    for ko in ["단축키", "이동", "채택", "히스토그램", "컬러 태그", "휠"] {
        assert_ne!(tr(Lang::En, ko), ko, "En translation missing: {ko}");
        assert_ne!(tr(Lang::Ja, ko), ko, "Ja translation missing: {ko}");
    }
    assert_eq!(tr(Lang::En, "단축키"), "Keyboard Shortcuts");
    assert_eq!(tr(Lang::Ja, "단축키"), "ショートカット");
    assert_eq!(tr(Lang::En, "파일"), "Files");
}

#[test]
fn issue73_caption_and_rail_labels_translated() {
    for ko in [
        "원본 라벨",
        "검사",
        "일반",
        "보기 필터",
        "찾아보기…",
        "전송 대상",
        "전송 폴더 기본값",
        "한 폴더로",
        "폴더 나누기",
    ] {
        assert_ne!(tr(Lang::En, ko), ko, "En translation missing: {ko}");
        assert_ne!(tr(Lang::Ja, ko), ko, "Ja translation missing: {ko}");
    }
    assert_eq!(tr(Lang::En, "원본 라벨"), "SOURCE LABELS");
    assert_eq!(tr(Lang::En, "검사"), "CHECKS");
    assert_eq!(tr(Lang::En, "일반"), "GENERAL");
    assert_eq!(tr(Lang::En, "찾아보기…"), "Browse…");
    assert_eq!(tr(Lang::En, "전송 대상"), "WILL TRANSFER");
    assert_eq!(tr(Lang::En, "이름 변경"), "RENAMED");
    assert_eq!(tr(Lang::En, "분류"), "Classify");
    assert_eq!(tr(Lang::En, "별점"), "Rating");
    assert_eq!(tr(Lang::En, "복사"), "Copy");
    assert_eq!(tr(Lang::En, "설정"), "Settings");
    assert_eq!(tr(Lang::Ja, "결과 지정"), "結果の割り当て");
    assert_eq!(tr(Lang::Ja, "색 필터"), "色フィルタ");
}

#[test]
fn lookup_tables_answer_known_and_unknown_keys() {
    assert_eq!(lookup("정보"), Some(("ABOUT", "情報")));
    assert_eq!(lookup("사진 셀렉 뷰어"), Some(("Photo Culling Viewer", "写真セレクトビューア")));
    assert_eq!(lookup("{} 항목 로드"), None);
    assert_eq!(rawblow::i18n::fmt_lookup("{} 항목 로드"), Some(("Loaded {} items", "{} 項目を読み込み")));
    assert_eq!(rawblow::i18n::fmt_lookup("정보"), None);
}
