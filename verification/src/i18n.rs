//! Interface languages: Korean, English and Japanese. The Korean text of a string is its
//! key; English and Japanese come from translation tables, and a string missing from a
//! table is shown in Korean. Templates carry `{}` slots that are filled in order.

use crate::text::{chars_of, first_of, find_first_of, push_str, string_from_chars};
use vstd::prelude::*;

verus! {

/// Interface language.
#[derive(Clone, Copy, Debug, PartialEq, Eq, Structural)]
pub enum Lang {
    Ko,
    En,
    Ja,
}

/// `==` on string slices (std): true exactly when both hold the same characters.
#[verifier::external_body]
fn str_eq(a: &str, b: &str) -> (r: bool)
    ensures
        r == (a@ == b@),
{
    a == b
}

// ---------------------------------------------------------------- choosing the language

/// Language of a locale name such as `ko-KR` or `ja_JP`: its first two letters, in either
/// case, are `ko`, `ja` or `en`; other languages have none.
pub open spec fn locale_lang(s: Seq<char>) -> Option<Lang> {
    if s.len() >= 2 && (s[0] == 'k' || s[0] == 'K') && (s[1] == 'o' || s[1] == 'O') {
        Some(Lang::Ko)
    } else if s.len() >= 2 && (s[0] == 'j' || s[0] == 'J') && (s[1] == 'a' || s[1] == 'A') {
        Some(Lang::Ja)
    } else if s.len() >= 2 && (s[0] == 'e' || s[0] == 'E') && (s[1] == 'n' || s[1] == 'N') {
        Some(Lang::En)
    } else {
        None
    }
}

/// Language of the first of `values` (locale settings in order of precedence) that names
/// one; English if none does.
pub open spec fn first_locale_lang(values: Seq<Seq<char>>) -> Lang
    decreases values.len(),
{
    if values.len() == 0 {
        Lang::En
    } else {
        match locale_lang(values[0]) {
            Some(l) => l,
            None => first_locale_lang(values.drop_first()),
        }
    }
}

/// Language of a Windows user-interface language id: its primary language (the low ten
/// bits) is Korean (0x12), Japanese (0x11), or anything else (English).
pub open spec fn langid_lang(id: u16) -> Lang {
    let primary = id % 1024;
    if primary == 0x12 {
        Lang::Ko
    } else if primary == 0x11 {
        Lang::Ja
    } else {
        Lang::En
    }
}

impl Lang {
    /// The language of a locale name, if it is one of the three.
    pub fn from_locale(s: &str) -> (r: Option<Lang>)
        ensures
            r == locale_lang(s@),
    {
        let c = chars_of(s);
        if c.len() < 2 {
            return None;
        }
        let a = c[0];
        let b = c[1];
        if (a == 'k' || a == 'K') && (b == 'o' || b == 'O') {
            Some(Lang::Ko)
        } else if (a == 'j' || a == 'J') && (b == 'a' || b == 'A') {
            Some(Lang::Ja)
        } else if (a == 'e' || a == 'E') && (b == 'n' || b == 'N') {
            Some(Lang::En)
        } else {
            None
        }
    }
}

/// The language named by the first locale setting that names one, English by default.
pub fn lang_from_locales(values: &Vec<String>) -> (r: Lang)
    ensures
        r == first_locale_lang(values@.map_values(|v: String| v@)),
{
    let ghost vs = values@.map_values(|v: String| v@);
    let mut i: usize = 0;
    proof {
        assert(vs.skip(0) == vs);
    }
    while i < values.len()
        invariant
            i <= values.len(),
            vs == values@.map_values(|v: String| v@),
            first_locale_lang(vs) == first_locale_lang(vs.skip(i as int)),
        decreases values.len() - i,
    {
        proof {
            assert(vs.skip(i as int)[0] == values@[i as int]@);
            assert(vs.skip(i as int).drop_first() == vs.skip(i + 1));
        }
        match Lang::from_locale(values[i].as_str()) {
            Some(l) => {
                return l;
            },
            None => {},
        }
        i = i + 1;
    }
    proof {
        assert(vs.skip(i as int) == Seq::<Seq<char>>::empty());
    }
    Lang::En
}

/// The language of a Windows user-interface language id.
pub fn lang_from_langid(id: u16) -> (r: Lang)
    ensures
        r == langid_lang(id),
{
    let primary = id % 1024;
    if primary == 0x12 {
        Lang::Ko
    } else if primary == 0x11 {
        Lang::Ja
    } else {
        Lang::En
    }
}

/// The language in use: the one saved in the settings, else the one detected from the
/// system.
pub fn effective_lang(saved: Option<Lang>, detected: Lang) -> (r: Lang)
    ensures
        r == match saved {
            Some(l) => l,
            None => detected,
        },
{
    match saved {
        Some(l) => l,
        None => detected,
    }
}

// ---------------------------------------------------------------- translating

/// A fixed interface string in language `lang`: its translation, or the Korean text.
pub open spec fn tr_spec(lang: Lang, ko: Seq<char>) -> Seq<char> {
    match lang {
        Lang::Ko => ko,
        Lang::En => match ui_table(ko) {
            Some(p) => p.0,
            None => ko,
        },
        Lang::Ja => match ui_table(ko) {
            Some(p) => p.1,
            None => ko,
        },
    }
}

/// The template in language `lang`: its translation, or the Korean template.
pub open spec fn template_for(lang: Lang, ko: Seq<char>) -> Seq<char> {
    match lang {
        Lang::Ko => ko,
        Lang::En => match fmt_table(ko) {
            Some(p) => p.0,
            None => ko,
        },
        Lang::Ja => match fmt_table(ko) {
            Some(p) => p.1,
            None => ko,
        },
    }
}

/// `t` with its slots filled: each `{` up to the next `}` is replaced by the next argument
/// (nothing once the arguments run out); from a `{` without a closing `}` on, the text is
/// kept as it is.
pub open spec fn fill_slots(t: Seq<char>, args: Seq<Seq<char>>, ai: nat) -> Seq<char>
    decreases t.len(),
{
    let open = first_of(t, '{', '{');
    if open >= t.len() {
        t
    } else {
        let after = t.skip(open as int);
        let close = first_of(after, '}', '}');
        if close >= after.len() {
            t
        } else {
            let arg = if ai < args.len() {
                args[ai as int]
            } else {
                Seq::empty()
            };
            t.take(open as int) + arg + fill_slots(after.skip(close + 1 as int), args, ai + 1)
        }
    }
}

/// Views of string slices.
pub open spec fn str_views(args: Seq<&str>) -> Seq<Seq<char>> {
    args.map_values(|a: &str| a@)
}

/// A fixed interface string in language `lang`.
pub fn tr(lang: Lang, ko: &'static str) -> (r: &'static str)
    ensures
        r@ == tr_spec(lang, ko@),
{
    match lang {
        Lang::Ko => ko,
        Lang::En => match lookup(ko) {
            Some((en, _)) => en,
            None => ko,
        },
        Lang::Ja => match lookup(ko) {
            Some((_, ja)) => ja,
            None => ko,
        },
    }
}

proof fn lemma_first_of_le(s: Seq<char>, a: char, b: char)
    ensures
        first_of(s, a, b) <= s.len(),
    decreases s.len(),
{
    if s.len() > 0 {
        lemma_first_of_le(s.drop_first(), a, b);
    }
}

/// Appends `t[lo..hi]` to `out`.
fn push_range(out: &mut Vec<char>, t: &Vec<char>, lo: usize, hi: usize)
    requires
        lo <= hi <= t.len(),
    ensures
        final(out)@ == old(out)@ + t@.subrange(lo as int, hi as int),
{
    let mut k = lo;
    while k < hi
        invariant
            lo <= k <= hi <= t.len(),
            out@ == old(out)@ + t@.subrange(lo as int, k as int),
        decreases hi - k,
    {
        proof {
            assert(old(out)@ + t@.subrange(lo as int, k + 1) == (old(out)@ + t@.subrange(
                lo as int,
                k as int,
            )).push(t@[k as int]));
        }
        out.push(t[k]);
        k = k + 1;
    }
}

/// A template in language `lang` with its slots filled by `args`, in order.
pub fn trf(lang: Lang, ko: &'static str, args: &[&str]) -> (r: String)
    ensures
        r@ == fill_slots(template_for(lang, ko@), str_views(args@), 0),
{
    let tpl: &str = match lang {
        Lang::Ko => ko,
        Lang::En => match fmt_lookup(ko) {
            Some((en, _)) => en,
            None => ko,
        },
        Lang::Ja => match fmt_lookup(ko) {
            Some((_, ja)) => ja,
            None => ko,
        },
    };
    let t = chars_of(tpl);
    let ghost args_v = str_views(args@);
    let ghost whole = fill_slots(t@, args_v, 0);
    let mut out: Vec<char> = Vec::new();
    let mut pos: usize = 0;
    let mut ai: usize = 0;
    proof {
        assert(t@.skip(0) == t@);
        assert(out@ + whole == whole);
    }
    while pos < t.len()
        invariant
            pos <= t.len(),
            ai <= pos,
            args_v == str_views(args@),
            out@ + fill_slots(t@.skip(pos as int), args_v, ai as nat) == whole,
        ensures
            pos <= t.len(),
            out@ + fill_slots(t@.skip(pos as int), args_v, ai as nat) == whole,
            fill_slots(t@.skip(pos as int), args_v, ai as nat) == t@.skip(pos as int),
        decreases t.len() - pos,
    {
        let ghost rest = t@.skip(pos as int);
        proof {
            assert(t@.subrange(pos as int, t.len() as int) == rest);
        }
        let open = find_first_of(&t, pos, t.len(), '{', '{');
        if open == t.len() {
            proof {
                assert(fill_slots(rest, args_v, ai as nat) == rest);
            }
            break;
        }
        let ghost after = rest.skip(open - pos);
        proof {
            assert(after == t@.skip(open as int));
            assert(t@.subrange(open as int, t.len() as int) == after);
        }
        let close = find_first_of(&t, open, t.len(), '}', '}');
        if close == t.len() {
            proof {
                assert(fill_slots(rest, args_v, ai as nat) == rest);
            }
            break;
        }
        let ghost out0 = out@;
        let ghost arg = if ai < args_v.len() {
            args_v[ai as int]
        } else {
            Seq::<char>::empty()
        };
        proof {
            assert(after.skip(close - open + 1) == t@.skip(close + 1));
            assert(rest.take(open - pos) == t@.subrange(pos as int, open as int));
            assert(fill_slots(rest, args_v, ai as nat) == rest.take(open - pos) + arg + fill_slots(
                t@.skip(close + 1),
                args_v,
                (ai + 1) as nat,
            ));
        }
        push_range(&mut out, &t, pos, open);
        if ai < args.len() {
            push_str(&mut out, args[ai]);
        }
        proof {
            assert(out@ == out0 + rest.take(open - pos) + arg);
            assert(out0 + (rest.take(open - pos) + arg + fill_slots(t@.skip(close + 1), args_v, (ai + 1) as nat))
                == out@ + fill_slots(t@.skip(close + 1), args_v, (ai + 1) as nat));
        }
        pos = close + 1;
        ai = ai + 1;
    }
    proof {
        assert(t@.subrange(pos as int, t.len() as int) == t@.skip(pos as int));
    }
    push_range(&mut out, &t, pos, t.len());
    string_from_chars(&out)
}

/// Translations (English, Japanese) of the fixed interface strings, rows 1 to 30.
pub open spec fn ui_rows_0(ko: Seq<char>) -> Option<(Seq<char>, Seq<char>)> {
    if ko == "사진 셀렉 뷰어"@ {
        Some(("Photo Culling Viewer"@, "写真セレクトビューア"@))
    } else if ko == "폴더 열기"@ {
        Some(("Open Folder"@, "フォルダを開く"@))
    } else if ko == "해제"@ {
        Some(("Clear"@, "解除"@))
    } else if ko == "전체"@ {
        Some(("All"@, "すべて"@))
    } else if ko == "표시할 항목이 없습니다"@ {
        Some(("No items to show"@, "表示する項目がありません"@))
    } else if ko == "이 폴더에 표시할 사진이 없습니다"@ {
        Some(("No photos to show in this folder"@, "このフォルダに表示できる写真がありません"@))
    } else if ko == "필터와 일치하는 사진이 없습니다"@ {
        Some(("No photos match the filters"@, "フィルタに一致する写真がありません"@))
    } else if ko == "필터 초기화"@ {
        Some(("Reset Filters"@, "フィルタをリセット"@))
    } else if ko == "디코딩 중…"@ {
        Some(("Decoding…"@, "デコード中…"@))
    } else if ko == "이 파일을 열 수 없습니다"@ {
        Some(("Can't open this file"@, "このファイルを開けません"@))
    } else if ko == "파일 전송"@ {
        Some(("Transfer Files"@, "ファイル転送"@))
    } else if ko == "선택한 라벨·별점의 파일을 복사/이동 · RAW 페어 처리"@ {
        Some(("Copy/Move files by selected label and rating · handles RAW pairs"@, "選択したラベル・評価のファイルをコピー/移動 · RAWペア処理"@))
    } else if ko == "라벨별 하위폴더로 분기 (/pick, /hold …)"@ {
        Some(("Split into subfolders by label (/pick, /hold …)"@, "ラベル別サブフォルダに振り分け (/pick, /hold …)"@))
    } else if ko == "폴더 나누기"@ {
        Some(("Folder Split"@, "フォルダ分け"@))
    } else if ko == "한 폴더로"@ {
        Some(("One folder"@, "1つのフォルダへ"@))
    } else if ko == "라벨별 (QWER)"@ {
        Some(("By label (QWER)"@, "ラベル別 (QWER)"@))
    } else if ko == "별점별 (12345)"@ {
        Some(("By rating (12345)"@, "評価別 (12345)"@))
    } else if ko == "색 태그별"@ {
        Some(("By color tag"@, "色タグ別"@))
    } else if ko == "선택한 사진을 대상 폴더 한곳에 둡니다. 지금 열린 폴더는 고를 수 없습니다."@ {
        Some(("Puts selected photos in one destination folder. The currently open folder cannot be chosen."@, "選んだ写真を出力先フォルダ1つにまとめます。今開いているフォルダは選べません。"@))
    } else if ko == "pick / hold / reject 폴더를 만듭니다. 제외도 여기로 빠집니다."@ {
        Some(("Creates pick / hold / reject folders. Rejects go there too."@, "pick / hold / reject フォルダを作ります。除外もここに入ります。"@))
    } else if ko == "1star … 5star 폴더를 만듭니다. 무별점은 unrated."@ {
        Some(("Creates 1star … 5star folders. Unrated photos go to unrated."@, "1star … 5star フォルダを作ります。星なしは unrated。"@))
    } else if ko == "@teal 같은 색 태그 폴더를 만듭니다. 무태그는 @untagged."@ {
        Some(("Creates color-tag folders like @teal. Untagged photos go to @untagged."@, "@teal などの色タグフォルダを作ります。タグなしは @untagged。"@))
    } else if ko == "지금 열린 폴더로는 보낼 수 없습니다. 다른 폴더를 고르세요."@ {
        Some(("Can't send to the currently open folder. Choose another folder."@, "今開いているフォルダには送れません。別のフォルダを選んでください。"@))
    } else if ko == "전송 폴더 기본값"@ {
        Some(("Default transfer folder"@, "転送フォルダのデフォルト"@))
    } else if ko == "지금 보고 있는 폴더"@ {
        Some(("Current folder"@, "今見ているフォルダ"@))
    } else if ko == "지정된 폴더"@ {
        Some(("Chosen folder"@, "指定フォルダ"@))
    } else if ko == "전송(Ctrl/⌘E) 화면에서 폴더를 바꿀 수 있습니다. 다음 전송은 다시 이 기본값입니다. 한 폴더로 보낼 때 지금 열린 폴더는 고를 수 없고, 그때 기본값은 selected 하위폴더입니다."@ {
        Some(("You can change the folder in Transfer (Ctrl/⌘E). The next transfer uses this default again. In one-folder mode the currently open folder can't be chosen; the default is the selected subfolder."@, "転送(Ctrl/⌘E)画面でフォルダを変えられます。次の転送はまたこのデフォルトです。1つのフォルダへ送るとき、今開いているフォルダは選べず、そのときのデフォルトは selected サブフォルダです。"@))
    } else if ko == "라벨 또는 별점 중 하나라도 해당하면 전송됩니다(합집합)."@ {
        Some(("Files matching either the label or the rating are transferred (union)."@, "ラベルまたは評価のいずれかに該当すれば転送されます（和集合）。"@))
    } else if ko == "원본 유지"@ {
        Some(("Keep Originals"@, "元ファイルを保持"@))
    } else if ko == "원본 이동"@ {
        Some(("Move Originals"@, "元ファイルを移動"@))
    } else {
        None
    }
}

fn ui_part_0(ko: &str) -> (r: Option<(&'static str, &'static str)>)
    ensures
        r is None <==> ui_rows_0(ko@) is None,
        r matches Some((en, ja)) ==> ui_rows_0(ko@) == Some((en@, ja@)),
{
    if str_eq(ko, "사진 셀렉 뷰어") {
        return Some(("Photo Culling Viewer", "写真セレクトビューア"));
    }
    if str_eq(ko, "폴더 열기") {
        return Some(("Open Folder", "フォルダを開く"));
    }
    if str_eq(ko, "해제") {
        return Some(("Clear", "解除"));
    }
    if str_eq(ko, "전체") {
        return Some(("All", "すべて"));
    }
    if str_eq(ko, "표시할 항목이 없습니다") {
        return Some(("No items to show", "表示する項目がありません"));
    }
    if str_eq(ko, "이 폴더에 표시할 사진이 없습니다") {
        return Some(("No photos to show in this folder", "このフォルダに表示できる写真がありません"));
    }
    if str_eq(ko, "필터와 일치하는 사진이 없습니다") {
        return Some(("No photos match the filters", "フィルタに一致する写真がありません"));
    }
    if str_eq(ko, "필터 초기화") {
        return Some(("Reset Filters", "フィルタをリセット"));
    }
    if str_eq(ko, "디코딩 중…") {
        return Some(("Decoding…", "デコード中…"));
    }
    if str_eq(ko, "이 파일을 열 수 없습니다") {
        return Some(("Can't open this file", "このファイルを開けません"));
    }
    if str_eq(ko, "파일 전송") {
        return Some(("Transfer Files", "ファイル転送"));
    }
    if str_eq(ko, "선택한 라벨·별점의 파일을 복사/이동 · RAW 페어 처리") {
        return Some(("Copy/Move files by selected label and rating · handles RAW pairs", "選択したラベル・評価のファイルをコピー/移動 · RAWペア処理"));
    }
    if str_eq(ko, "라벨별 하위폴더로 분기 (/pick, /hold …)") {
        return Some(("Split into subfolders by label (/pick, /hold …)", "ラベル別サブフォルダに振り分け (/pick, /hold …)"));
    }
    if str_eq(ko, "폴더 나누기") {
        return Some(("Folder Split", "フォルダ分け"));
    }
    if str_eq(ko, "한 폴더로") {
        return Some(("One folder", "1つのフォルダへ"));
    }
    if str_eq(ko, "라벨별 (QWER)") {
        return Some(("By label (QWER)", "ラベル別 (QWER)"));
    }
    if str_eq(ko, "별점별 (12345)") {
        return Some(("By rating (12345)", "評価別 (12345)"));
    }
    if str_eq(ko, "색 태그별") {
        return Some(("By color tag", "色タグ別"));
    }
    if str_eq(ko, "선택한 사진을 대상 폴더 한곳에 둡니다. 지금 열린 폴더는 고를 수 없습니다.") {
        return Some(("Puts selected photos in one destination folder. The currently open folder cannot be chosen.", "選んだ写真を出力先フォルダ1つにまとめます。今開いているフォルダは選べません。"));
    }
    if str_eq(ko, "pick / hold / reject 폴더를 만듭니다. 제외도 여기로 빠집니다.") {
        return Some(("Creates pick / hold / reject folders. Rejects go there too.", "pick / hold / reject フォルダを作ります。除外もここに入ります。"));
    }
    if str_eq(ko, "1star … 5star 폴더를 만듭니다. 무별점은 unrated.") {
        return Some(("Creates 1star … 5star folders. Unrated photos go to unrated.", "1star … 5star フォルダを作ります。星なしは unrated。"));
    }
    if str_eq(ko, "@teal 같은 색 태그 폴더를 만듭니다. 무태그는 @untagged.") {
        return Some(("Creates color-tag folders like @teal. Untagged photos go to @untagged.", "@teal などの色タグフォルダを作ります。タグなしは @untagged。"));
    }
    if str_eq(ko, "지금 열린 폴더로는 보낼 수 없습니다. 다른 폴더를 고르세요.") {
        return Some(("Can't send to the currently open folder. Choose another folder.", "今開いているフォルダには送れません。別のフォルダを選んでください。"));
    }
    if str_eq(ko, "전송 폴더 기본값") {
        return Some(("Default transfer folder", "転送フォルダのデフォルト"));
    }
    if str_eq(ko, "지금 보고 있는 폴더") {
        return Some(("Current folder", "今見ているフォルダ"));
    }
    if str_eq(ko, "지정된 폴더") {
        return Some(("Chosen folder", "指定フォルダ"));
    }
    if str_eq(ko, "전송(Ctrl/⌘E) 화면에서 폴더를 바꿀 수 있습니다. 다음 전송은 다시 이 기본값입니다. 한 폴더로 보낼 때 지금 열린 폴더는 고를 수 없고, 그때 기본값은 selected 하위폴더입니다.") {
        return Some(("You can change the folder in Transfer (Ctrl/⌘E). The next transfer uses this default again. In one-folder mode the currently open folder can't be chosen; the default is the selected subfolder.", "転送(Ctrl/⌘E)画面でフォルダを変えられます。次の転送はまたこのデフォルトです。1つのフォルダへ送るとき、今開いているフォルダは選べず、そのときのデフォルトは selected サブフォルダです。"));
    }
    if str_eq(ko, "라벨 또는 별점 중 하나라도 해당하면 전송됩니다(합집합).") {
        return Some(("Files matching either the label or the rating are transferred (union).", "ラベルまたは評価のいずれかに該当すれば転送されます（和集合）。"));
    }
    if str_eq(ko, "원본 유지") {
        return Some(("Keep Originals", "元ファイルを保持"));
    }
    if str_eq(ko, "원본 이동") {
        return Some(("Move Originals", "元ファイルを移動"));
    }
    None
}

/// Translations (English, Japanese) of the fixed interface strings, rows 31 to 60.
pub open spec fn ui_rows_1(ko: Seq<char>) -> Option<(Seq<char>, Seq<char>)> {
    if ko == "RAW+이미지"@ {
        Some(("RAW + Image"@, "RAW+画像"@))
    } else if ko == "페어 함께"@ {
        Some(("Pairs Together"@, "ペアごと"@))
    } else if ko == "RAW만"@ {
        Some(("RAW Only"@, "RAWのみ"@))
    } else if ko == "이미지만"@ {
        Some(("Image Only"@, "画像のみ"@))
    } else if ko == "JPG만"@ {
        Some(("JPG Only"@, "JPGのみ"@))
    } else if ko == "자동 일련번호"@ {
        Some(("Auto Numbering"@, "自動連番"@))
    } else if ko == "_001 접미"@ {
        Some(("_001 Suffix"@, "_001 サフィックス"@))
    } else if ko == "건너뛰기"@ {
        Some(("Skip"@, "スキップ"@))
    } else if ko == "기존 유지"@ {
        Some(("Keep Existing"@, "既存を保持"@))
    } else if ko == "파일"@ {
        Some(("Files"@, "ファイル"@))
    } else if ko == "이미지"@ {
        Some(("Images"@, "画像"@))
    } else if ko == "전송 시작"@ {
        Some(("Start Transfer"@, "転送開始"@))
    } else if ko == "이동 시작"@ {
        Some(("Start Move"@, "移動開始"@))
    } else if ko == "취소"@ {
        Some(("Cancel"@, "キャンセル"@))
    } else if ko == "전송 완료"@ {
        Some(("Transfer Complete"@, "転送完了"@))
    } else if ko == "정리 완료"@ {
        Some(("Organize Complete"@, "整理完了"@))
    } else if ko == "닫기"@ {
        Some(("Close"@, "閉じる"@))
    } else if ko == "대상 폴더 열기"@ {
        Some(("Open Destination Folder"@, "出力先フォルダを開く"@))
    } else if ko == "파일번호 점프"@ {
        Some(("Jump to File Number"@, "ファイル番号へジャンプ"@))
    } else if ko == "줄바꿈·쉼표·탭으로 구분"@ {
        Some(("Separate with newlines, commas, or tabs"@, "改行・カンマ・タブで区切る"@))
    } else if ko == "정확히 일치"@ {
        Some(("Exact Match"@, "完全一致"@))
    } else if ko == "점프"@ {
        Some(("Jump"@, "ジャンプ"@))
    } else if ko == "닫기 (Esc)"@ {
        Some(("Close (Esc)"@, "閉じる (Esc)"@))
    } else if ko == "매칭 없음"@ {
        Some(("No Match"@, "一致なし"@))
    } else if ko == "일괄 분류 변경"@ {
        Some(("Batch Relabel"@, "一括ラベル変更"@))
    } else if ko == "파일명·일부 → 매칭 → 라벨 적용"@ {
        Some(("Filename or substring → match → apply label"@, "ファイル名・一部 → 一致 → ラベル適用"@))
    } else if ko == "파일명 또는 일부 — 줄바꿈·쉼표·탭으로 구분"@ {
        Some(("Filename or substring — separate with newlines, commas, or tabs"@, "ファイル名または一部 — 改行・カンマ・タブで区切る"@))
    } else if ko == "검색"@ {
        Some(("Search"@, "検索"@))
    } else if ko == "매칭 결과 없음"@ {
        Some(("No Matches"@, "一致結果なし"@))
    } else if ko == "적용할 라벨"@ {
        Some(("Label to Apply"@, "適用するラベル"@))
    } else {
        None
    }
}

fn ui_part_1(ko: &str) -> (r: Option<(&'static str, &'static str)>)
    ensures
        r is None <==> ui_rows_1(ko@) is None,
        r matches Some((en, ja)) ==> ui_rows_1(ko@) == Some((en@, ja@)),
{
    if str_eq(ko, "RAW+이미지") {
        return Some(("RAW + Image", "RAW+画像"));
    }
    if str_eq(ko, "페어 함께") {
        return Some(("Pairs Together", "ペアごと"));
    }
    if str_eq(ko, "RAW만") {
        return Some(("RAW Only", "RAWのみ"));
    }
    if str_eq(ko, "이미지만") {
        return Some(("Image Only", "画像のみ"));
    }
    if str_eq(ko, "JPG만") {
        return Some(("JPG Only", "JPGのみ"));
    }
    if str_eq(ko, "자동 일련번호") {
        return Some(("Auto Numbering", "自動連番"));
    }
    if str_eq(ko, "_001 접미") {
        return Some(("_001 Suffix", "_001 サフィックス"));
    }
    if str_eq(ko, "건너뛰기") {
        return Some(("Skip", "スキップ"));
    }
    if str_eq(ko, "기존 유지") {
        return Some(("Keep Existing", "既存を保持"));
    }
    if str_eq(ko, "파일") {
        return Some(("Files", "ファイル"));
    }
    if str_eq(ko, "이미지") {
        return Some(("Images", "画像"));
    }
    if str_eq(ko, "전송 시작") {
        return Some(("Start Transfer", "転送開始"));
    }
    if str_eq(ko, "이동 시작") {
        return Some(("Start Move", "移動開始"));
    }
    if str_eq(ko, "취소") {
        return Some(("Cancel", "キャンセル"));
    }
    if str_eq(ko, "전송 완료") {
        return Some(("Transfer Complete", "転送完了"));
    }
    if str_eq(ko, "정리 완료") {
        return Some(("Organize Complete", "整理完了"));
    }
    if str_eq(ko, "닫기") {
        return Some(("Close", "閉じる"));
    }
    if str_eq(ko, "대상 폴더 열기") {
        return Some(("Open Destination Folder", "出力先フォルダを開く"));
    }
    if str_eq(ko, "파일번호 점프") {
        return Some(("Jump to File Number", "ファイル番号へジャンプ"));
    }
    if str_eq(ko, "줄바꿈·쉼표·탭으로 구분") {
        return Some(("Separate with newlines, commas, or tabs", "改行・カンマ・タブで区切る"));
    }
    if str_eq(ko, "정확히 일치") {
        return Some(("Exact Match", "完全一致"));
    }
    if str_eq(ko, "점프") {
        return Some(("Jump", "ジャンプ"));
    }
    if str_eq(ko, "닫기 (Esc)") {
        return Some(("Close (Esc)", "閉じる (Esc)"));
    }
    if str_eq(ko, "매칭 없음") {
        return Some(("No Match", "一致なし"));
    }
    if str_eq(ko, "일괄 분류 변경") {
        return Some(("Batch Relabel", "一括ラベル変更"));
    }
    if str_eq(ko, "파일명·일부 → 매칭 → 라벨 적용") {
        return Some(("Filename or substring → match → apply label", "ファイル名・一部 → 一致 → ラベル適用"));
    }
    if str_eq(ko, "파일명 또는 일부 — 줄바꿈·쉼표·탭으로 구분") {
        return Some(("Filename or substring — separate with newlines, commas, or tabs", "ファイル名または一部 — 改行・カンマ・タブで区切る"));
    }
    if str_eq(ko, "검색") {
        return Some(("Search", "検索"));
    }
    if str_eq(ko, "매칭 결과 없음") {
        return Some(("No Matches", "一致結果なし"));
    }
    if str_eq(ko, "적용할 라벨") {
        return Some(("Label to Apply", "適用するラベル"));
    }
    None
}

/// Translations (English, Japanese) of the fixed interface strings, rows 61 to 90.
pub open spec fn ui_rows_2(ko: Seq<char>) -> Option<(Seq<char>, Seq<char>)> {
    if ko == "선택"@ {
        Some(("Pick"@, "選択"@))
    } else if ko == "보류"@ {
        Some(("Hold"@, "保留"@))
    } else if ko == "제외"@ {
        Some(("Reject"@, "除外"@))
    } else if ko == "미선택"@ {
        Some(("Unrated"@, "未選択"@))
    } else if ko == "적용"@ {
        Some(("Apply"@, "適用"@))
    } else if ko == "돌아가기"@ {
        Some(("Back"@, "戻る"@))
    } else if ko == "라벨링 후 자동 전진"@ {
        Some(("Auto-advance after labeling"@, "ラベル付け後に自動で次へ"@))
    } else if ko == "하위 폴더 포함 스캔"@ {
        Some(("Scan subfolders"@, "サブフォルダを含めてスキャン"@))
    } else if ko == "EXIF 오버레이 기본 표시"@ {
        Some(("Show EXIF overlay by default"@, "EXIFオーバーレイをデフォルト表示"@))
    } else if ko == "히스토그램 기본 표시"@ {
        Some(("Show histogram by default"@, "ヒストグラムをデフォルト表示"@))
    } else if ko == "프리로드 ±"@ {
        Some(("Preload ±"@, "プリロード ±"@))
    } else if ko == "그리드 열 수"@ {
        Some(("Grid Columns"@, "グリッド列数"@))
    } else if ko == "스트립·그리드 표기 크기"@ {
        Some(("Strip/grid badge size"@, "ストリップ・グリッド表示サイズ"@))
    } else if ko == "크게"@ {
        Some(("Large"@, "大きく"@))
    } else if ko == "작게"@ {
        Some(("Small"@, "小さく"@))
    } else if ko == "정렬 기준"@ {
        Some(("Sort by"@, "並び順"@))
    } else if ko == "파일명순"@ {
        Some(("File name"@, "ファイル名順"@))
    } else if ko == "촬영시간순"@ {
        Some(("Capture time"@, "撮影日時順"@))
    } else if ko == "사진 이동 시 원본 보기"@ {
        Some(("Original view when moving"@, "写真移動時の原寸表示"@))
    } else if ko == "확대 중일 때만 유지"@ {
        Some(("Keep only while zoomed"@, "拡大中のみ維持"@))
    } else if ko == "현재 보기 상태 유지"@ {
        Some(("Keep current view"@, "現在の表示を維持"@))
    } else if ko == "「현재 보기 상태 유지」는 창맞춤에서도 ORIG를 계속 불러옵니다 — 넘김이 느려지고 메모리를 더 씁니다. 새 폴더는 두 방식 모두 프리뷰로 시작합니다."@ {
        Some(("\"Keep current view\" loads ORIG even at fit-to-window — slower moves and more memory. A newly opened folder starts in preview either way."@, "「現在の表示を維持」はウィンドウ合わせでもORIGを読み込み続けます — 送りが遅くなりメモリも増えます。新しいフォルダはどちらの方式でもプレビューで始まります。"@))
    } else if ko == "단축키 재바인딩 UI는 v1.1 예정 — 현재 기본값 QWER 고정 표시"@ {
        Some(("Shortcut rebinding UI is planned for v1.1 — currently fixed to default QWER"@, "ショートカット再割り当てUIはv1.1予定 — 現在はデフォルトのQWER固定"@))
    } else if ko == "별점 1~5 지정 · ` (백틱)으로 해제 — 라벨(QWER)과 독립으로 동시에 매겨집니다"@ {
        Some(("Set rating 1–5 · clear with ` (backtick) — applied independently alongside labels (QWER)"@, "評価1～5を指定 · ` (バッククォート)で解除 — ラベル(QWER)とは独立して同時に付けられます"@))
    } else if ko == "캐시 비우기"@ {
        Some(("Clear Cache"@, "キャッシュをクリア"@))
    } else if ko == "썸네일 캐시를 비웠습니다"@ {
        Some(("Thumbnail cache cleared"@, "サムネイルキャッシュをクリアしました"@))
    } else if ko == "새로고침"@ {
        Some(("Refresh"@, "更新"@))
    } else if ko == "자동 상한"@ {
        Some(("Auto Limit"@, "自動上限"@))
    } else if ko == "(0 = 무제한)"@ {
        Some(("(0 = unlimited)"@, "(0 = 無制限)"@))
    } else if ko == "상한을 넘으면 오래된 썸네일부터 자동 삭제 — 폴더 열 때·설정 변경 시 정리됩니다."@ {
        Some(("When the limit is exceeded, the oldest thumbnails are removed automatically — cleaned up when opening a folder or changing settings."@, "上限を超えると古いサムネイルから自動削除 — フォルダを開いたときや設定変更時に整理されます。"@))
    } else {
        None
    }
}

fn ui_part_2(ko: &str) -> (r: Option<(&'static str, &'static str)>)
    ensures
        r is None <==> ui_rows_2(ko@) is None,
        r matches Some((en, ja)) ==> ui_rows_2(ko@) == Some((en@, ja@)),
{
    if str_eq(ko, "선택") {
        return Some(("Pick", "選択"));
    }
    if str_eq(ko, "보류") {
        return Some(("Hold", "保留"));
    }
    if str_eq(ko, "제외") {
        return Some(("Reject", "除外"));
    }
    if str_eq(ko, "미선택") {
        return Some(("Unrated", "未選択"));
    }
    if str_eq(ko, "적용") {
        return Some(("Apply", "適用"));
    }
    if str_eq(ko, "돌아가기") {
        return Some(("Back", "戻る"));
    }
    if str_eq(ko, "라벨링 후 자동 전진") {
        return Some(("Auto-advance after labeling", "ラベル付け後に自動で次へ"));
    }
    if str_eq(ko, "하위 폴더 포함 스캔") {
        return Some(("Scan subfolders", "サブフォルダを含めてスキャン"));
    }
    if str_eq(ko, "EXIF 오버레이 기본 표시") {
        return Some(("Show EXIF overlay by default", "EXIFオーバーレイをデフォルト表示"));
    }
    if str_eq(ko, "히스토그램 기본 표시") {
        return Some(("Show histogram by default", "ヒストグラムをデフォルト表示"));
    }
    if str_eq(ko, "프리로드 ±") {
        return Some(("Preload ±", "プリロード ±"));
    }
    if str_eq(ko, "그리드 열 수") {
        return Some(("Grid Columns", "グリッド列数"));
    }
    if str_eq(ko, "스트립·그리드 표기 크기") {
        return Some(("Strip/grid badge size", "ストリップ・グリッド表示サイズ"));
    }
    if str_eq(ko, "크게") {
        return Some(("Large", "大きく"));
    }
    if str_eq(ko, "작게") {
        return Some(("Small", "小さく"));
    }
    if str_eq(ko, "정렬 기준") {
        return Some(("Sort by", "並び順"));
    }
    if str_eq(ko, "파일명순") {
        return Some(("File name", "ファイル名順"));
    }
    if str_eq(ko, "촬영시간순") {
        return Some(("Capture time", "撮影日時順"));
    }
    if str_eq(ko, "사진 이동 시 원본 보기") {
        return Some(("Original view when moving", "写真移動時の原寸表示"));
    }
    if str_eq(ko, "확대 중일 때만 유지") {
        return Some(("Keep only while zoomed", "拡大中のみ維持"));
    }
    if str_eq(ko, "현재 보기 상태 유지") {
        return Some(("Keep current view", "現在の表示を維持"));
    }
    if str_eq(ko, "「현재 보기 상태 유지」는 창맞춤에서도 ORIG를 계속 불러옵니다 — 넘김이 느려지고 메모리를 더 씁니다. 새 폴더는 두 방식 모두 프리뷰로 시작합니다.") {
        return Some(("\"Keep current view\" loads ORIG even at fit-to-window — slower moves and more memory. A newly opened folder starts in preview either way.", "「現在の表示を維持」はウィンドウ合わせでもORIGを読み込み続けます — 送りが遅くなりメモリも増えます。新しいフォルダはどちらの方式でもプレビューで始まります。"));
    }
    if str_eq(ko, "단축키 재바인딩 UI는 v1.1 예정 — 현재 기본값 QWER 고정 표시") {
        return Some(("Shortcut rebinding UI is planned for v1.1 — currently fixed to default QWER", "ショートカット再割り当てUIはv1.1予定 — 現在はデフォルトのQWER固定"));
    }
    if str_eq(ko, "별점 1~5 지정 · ` (백틱)으로 해제 — 라벨(QWER)과 독립으로 동시에 매겨집니다") {
        return Some(("Set rating 1–5 · clear with ` (backtick) — applied independently alongside labels (QWER)", "評価1～5を指定 · ` (バッククォート)で解除 — ラベル(QWER)とは独立して同時に付けられます"));
    }
    if str_eq(ko, "캐시 비우기") {
        return Some(("Clear Cache", "キャッシュをクリア"));
    }
    if str_eq(ko, "썸네일 캐시를 비웠습니다") {
        return Some(("Thumbnail cache cleared", "サムネイルキャッシュをクリアしました"));
    }
    if str_eq(ko, "새로고침") {
        return Some(("Refresh", "更新"));
    }
    if str_eq(ko, "자동 상한") {
        return Some(("Auto Limit", "自動上限"));
    }
    if str_eq(ko, "(0 = 무제한)") {
        return Some(("(0 = unlimited)", "(0 = 無制限)"));
    }
    if str_eq(ko, "상한을 넘으면 오래된 썸네일부터 자동 삭제 — 폴더 열 때·설정 변경 시 정리됩니다.") {
        return Some(("When the limit is exceeded, the oldest thumbnails are removed automatically — cleaned up when opening a folder or changing settings.", "上限を超えると古いサムネイルから自動削除 — フォルダを開いたときや設定変更時に整理されます。"));
    }
    None
}

/// Translations (English, Japanese) of the fixed interface strings, rows 91 to 120.
pub open spec fn ui_rows_3(ko: Seq<char>) -> Option<(Seq<char>, Seq<char>)> {
    if ko == "폴더를 다시 열어도 재디코딩 없이 즉시 표시됩니다."@ {
        Some(("Reopening a folder shows instantly without re-decoding."@, "フォルダを再度開いても再デコードなしで即座に表示されます。"@))
    } else if ko == "최신 버전 받기 · GitHub Releases"@ {
        Some(("Get the latest version · GitHub Releases"@, "最新バージョンを入手 · GitHub Releases"@))
    } else if ko == "버그 제보 · GitHub Issues"@ {
        Some(("Report a bug · GitHub Issues"@, "バグ報告 · GitHub Issues"@))
    } else if ko == "만든 사람 · 하레 (Hare)"@ {
        Some(("Created by · Hare"@, "制作者 · ハレ (Hare)"@))
    } else if ko == "투네이션으로 후원하기"@ {
        Some(("Donate via Toonation"@, "Toonationで支援する"@))
    } else if ko == "마음에 드시나요? 그럼 cosly도 이용해보세요."@ {
        Some(("Like it? Then give cosly a try too."@, "気に入りましたか？ぜひcoslyもお試しください。"@))
    } else if ko == "언어"@ {
        Some(("Language"@, "言語"@))
    } else if ko == "시스템 (자동)"@ {
        Some(("System (Auto)"@, "システム (自動)"@))
    } else if ko == "전송"@ {
        Some(("Transfer"@, "転送"@))
    } else if ko == "일괄"@ {
        Some(("Bulk"@, "一括"@))
    } else if ko == "색별 이름을 지정해 보정 방식 등 나만의 분류로 — ⇧1~5로 부여"@ {
        Some(("Name each color for your own classification (e.g. retouch style) — assign with ⇧1–5"@, "色ごとに名前を付けて自分の分類に（補正方式など）— ⇧1～5で付与"@))
    } else if ko == "태그별 하위폴더로 분기 (@teal …)"@ {
        Some(("Split into subfolders by tag (@teal …)"@, "タグ別サブフォルダに振り分け (@teal …)"@))
    } else if ko == "순번 (1,2,3)"@ {
        Some(("Sequence (1,2,3)"@, "連番 (1,2,3)"@))
    } else if ko == "별점등급 (A1,B1…)"@ {
        Some(("Rating grade (A1,B1…)"@, "評価ランク (A1,B1…)"@))
    } else if ko == "직접 입력"@ {
        Some(("Custom"@, "カスタム"@))
    } else if ko == "선택순"@ {
        Some(("Order"@, "選択順"@))
    } else if ko == "선택 순서"@ {
        Some(("Selection order"@, "選択順"@))
    } else if ko == "등급순"@ {
        Some(("Grade"@, "ランク順"@))
    } else if ko == "별점 등급"@ {
        Some(("By rating grade"@, "評価ランク順"@))
    } else if ko == "대상 없음 — 위에서 라벨·별점·태그를 선택하세요."@ {
        Some(("No targets — select labels, ratings, or tags above."@, "対象なし — 上でラベル・評価・タグを選択してください。"@))
    } else if ko == "정리"@ {
        Some(("Organize"@, "整理"@))
    } else if ko == "폴더 자동 분류"@ {
        Some(("Auto-Organize Folder"@, "フォルダ自動整理"@))
    } else if ko == "폴더 안 사진을 기준별 하위폴더로 정리 · 셀렉 전송과 별개"@ {
        Some(("Sort photos into subfolders by a criterion · separate from Transfer"@, "フォルダ内の写真を基準別サブフォルダに整理 · 転送とは別機能"@))
    } else if ko == "촬영일"@ {
        Some(("Capture Date"@, "撮影日"@))
    } else if ko == "카메라"@ {
        Some(("Camera"@, "カメラ"@))
    } else if ko == "렌즈"@ {
        Some(("Lens"@, "レンズ"@))
    } else if ko == "확장자"@ {
        Some(("Extension"@, "拡張子"@))
    } else if ko == "대상 폴더 안에 기준별 하위폴더가 생성됩니다."@ {
        Some(("Subfolders are created inside the destination folder."@, "出力先フォルダ内に基準別サブフォルダが作成されます。"@))
    } else if ko == "촬영일·카메라·렌즈·초점거리 기준은 실행하며 EXIF를 읽어 분류합니다. RAW+JPG 페어는 같은 폴더로 유지됩니다."@ {
        Some(("Date/camera/lens/focal length read EXIF while running. RAW+JPG pairs stay in the same folder."@, "撮影日・カメラ・レンズ・焦点距離は実行中にEXIFを読んで分類します。RAW+JPGペアは同じフォルダに保たれます。"@))
    } else if ko == "초점거리는 1mm 단위(35mm)로 폴더를 만들고, EXIF가 없으면 unknown-focal로 모읍니다."@ {
        Some(("Focal length creates 1 mm folders (35mm); files without EXIF go to unknown-focal."@, "焦点距離は1mm単位(35mm)でフォルダを作成し、EXIFがないファイルはunknown-focalにまとめます。"@))
    } else {
        None
    }
}

fn ui_part_3(ko: &str) -> (r: Option<(&'static str, &'static str)>)
    ensures
        r is None <==> ui_rows_3(ko@) is None,
        r matches Some((en, ja)) ==> ui_rows_3(ko@) == Some((en@, ja@)),
{
    if str_eq(ko, "폴더를 다시 열어도 재디코딩 없이 즉시 표시됩니다.") {
        return Some(("Reopening a folder shows instantly without re-decoding.", "フォルダを再度開いても再デコードなしで即座に表示されます。"));
    }
    if str_eq(ko, "최신 버전 받기 · GitHub Releases") {
        return Some(("Get the latest version · GitHub Releases", "最新バージョンを入手 · GitHub Releases"));
    }
    if str_eq(ko, "버그 제보 · GitHub Issues") {
        return Some(("Report a bug · GitHub Issues", "バグ報告 · GitHub Issues"));
    }
    if str_eq(ko, "만든 사람 · 하레 (Hare)") {
        return Some(("Created by · Hare", "制作者 · ハレ (Hare)"));
    }
    if str_eq(ko, "투네이션으로 후원하기") {
        return Some(("Donate via Toonation", "Toonationで支援する"));
    }
    if str_eq(ko, "마음에 드시나요? 그럼 cosly도 이용해보세요.") {
        return Some(("Like it? Then give cosly a try too.", "気に入りましたか？ぜひcoslyもお試しください。"));
    }
    if str_eq(ko, "언어") {
        return Some(("Language", "言語"));
    }
    if str_eq(ko, "시스템 (자동)") {
        return Some(("System (Auto)", "システム (自動)"));
    }
    if str_eq(ko, "전송") {
        return Some(("Transfer", "転送"));
    }
    if str_eq(ko, "일괄") {
        return Some(("Bulk", "一括"));
    }
    if str_eq(ko, "색별 이름을 지정해 보정 방식 등 나만의 분류로 — ⇧1~5로 부여") {
        return Some(("Name each color for your own classification (e.g. retouch style) — assign with ⇧1–5", "色ごとに名前を付けて自分の分類に（補正方式など）— ⇧1～5で付与"));
    }
    if str_eq(ko, "태그별 하위폴더로 분기 (@teal …)") {
        return Some(("Split into subfolders by tag (@teal …)", "タグ別サブフォルダに振り分け (@teal …)"));
    }
    if str_eq(ko, "순번 (1,2,3)") {
        return Some(("Sequence (1,2,3)", "連番 (1,2,3)"));
    }
    if str_eq(ko, "별점등급 (A1,B1…)") {
        return Some(("Rating grade (A1,B1…)", "評価ランク (A1,B1…)"));
    }
    if str_eq(ko, "직접 입력") {
        return Some(("Custom", "カスタム"));
    }
    if str_eq(ko, "선택순") {
        return Some(("Order", "選択順"));
    }
    if str_eq(ko, "선택 순서") {
        return Some(("Selection order", "選択順"));
    }
    if str_eq(ko, "등급순") {
        return Some(("Grade", "ランク順"));
    }
    if str_eq(ko, "별점 등급") {
        return Some(("By rating grade", "評価ランク順"));
    }
    if str_eq(ko, "대상 없음 — 위에서 라벨·별점·태그를 선택하세요.") {
        return Some(("No targets — select labels, ratings, or tags above.", "対象なし — 上でラベル・評価・タグを選択してください。"));
    }
    if str_eq(ko, "정리") {
        return Some(("Organize", "整理"));
    }
    if str_eq(ko, "폴더 자동 분류") {
        return Some(("Auto-Organize Folder", "フォルダ自動整理"));
    }
    if str_eq(ko, "폴더 안 사진을 기준별 하위폴더로 정리 · 셀렉 전송과 별개") {
        return Some(("Sort photos into subfolders by a criterion · separate from Transfer", "フォルダ内の写真を基準別サブフォルダに整理 · 転送とは別機能"));
    }
    if str_eq(ko, "촬영일") {
        return Some(("Capture Date", "撮影日"));
    }
    if str_eq(ko, "카메라") {
        return Some(("Camera", "カメラ"));
    }
    if str_eq(ko, "렌즈") {
        return Some(("Lens", "レンズ"));
    }
    if str_eq(ko, "확장자") {
        return Some(("Extension", "拡張子"));
    }
    if str_eq(ko, "대상 폴더 안에 기준별 하위폴더가 생성됩니다.") {
        return Some(("Subfolders are created inside the destination folder.", "出力先フォルダ内に基準別サブフォルダが作成されます。"));
    }
    if str_eq(ko, "촬영일·카메라·렌즈·초점거리 기준은 실행하며 EXIF를 읽어 분류합니다. RAW+JPG 페어는 같은 폴더로 유지됩니다.") {
        return Some(("Date/camera/lens/focal length read EXIF while running. RAW+JPG pairs stay in the same folder.", "撮影日・カメラ・レンズ・焦点距離は実行中にEXIFを読んで分類します。RAW+JPGペアは同じフォルダに保たれます。"));
    }
    if str_eq(ko, "초점거리는 1mm 단위(35mm)로 폴더를 만들고, EXIF가 없으면 unknown-focal로 모읍니다.") {
        return Some(("Focal length creates 1 mm folders (35mm); files without EXIF go to unknown-focal.", "焦点距離は1mm単位(35mm)でフォルダを作成し、EXIFがないファイルはunknown-focalにまとめます。"));
    }
    None
}

/// Translations (English, Japanese) of the fixed interface strings, rows 121 to 150.
pub open spec fn ui_rows_4(ko: Seq<char>) -> Option<(Seq<char>, Seq<char>)> {
    if ko == "정리 시작"@ {
        Some(("Start Organize"@, "整理開始"@))
    } else if ko == "전송 중"@ {
        Some(("Transferring"@, "転送中"@))
    } else if ko == "폴더 정리 중"@ {
        Some(("Organizing"@, "整理中"@))
    } else if ko == "취소됨"@ {
        Some(("Canceled"@, "キャンセルされました"@))
    } else if ko == "작업이 예기치 않게 중단되었습니다"@ {
        Some(("The operation stopped unexpectedly"@, "処理が予期せず中断されました"@))
    } else if ko == "사진 표시 화면 배경색 — 프리셋 또는 HEX/RGB로 지정(Lightroom Develop 기본값은 50% 회색)"@ {
        Some(("Photo viewer background — pick a preset or set HEX/RGB (Lightroom Develop default is 50% gray)"@, "写真表示画面の背景色 — プリセットまたはHEX/RGBで指定（Lightroom Developの既定は50%グレー）"@))
    } else if ko == "기본"@ {
        Some(("Default"@, "デフォルト"@))
    } else if ko == "검정"@ {
        Some(("Black"@, "黒"@))
    } else if ko == "다크 그레이"@ {
        Some(("Dark Gray"@, "ダークグレー"@))
    } else if ko == "중간 회색"@ {
        Some(("Medium Gray"@, "ミディアムグレー"@))
    } else if ko == "라이트 그레이"@ {
        Some(("Light Gray"@, "ライトグレー"@))
    } else if ko == "흰색"@ {
        Some(("White"@, "白"@))
    } else if ko == "새로운 버전이 있습니다"@ {
        Some(("A new version is available"@, "新しいバージョンがあります"@))
    } else if ko == "지도 로딩…"@ {
        Some(("Loading map…"@, "地図を読み込み中…"@))
    } else if ko == "지도를 불러올 수 없음 (오프라인?)"@ {
        Some(("Couldn't load map (offline?)"@, "地図を読み込めません（オフライン？）"@))
    } else if ko == "M = 촬영 위치 미니 지도(GPS 있는 사진) · A = AF 포인트 표시 — 토글 상태는 저장됩니다"@ {
        Some(("M = location mini-map (geotagged photos) · A = AF point overlay — toggle state is saved"@, "M = 撮影位置ミニマップ（GPS付き写真） · A = AFポイント表示 — トグル状態は保存されます"@))
    } else if ko == "오픈소스 라이센스"@ {
        Some(("Open Source Licenses"@, "オープンソースライセンス"@))
    } else if ko == "이 프로그램이 포함한 오픈소스 구성요소 목록과 라이센스 전문"@ {
        Some(("List of bundled open source components and their full license texts"@, "本アプリに含まれるオープンソースコンポーネントの一覧とライセンス全文"@))
    } else if ko == "이 프로그램은 아래의 오픈소스 소프트웨어를 포함합니다. LGPL 구성요소(rawloader · imagepipe · multicache)의 소스코드는 각 항목의 저장소 링크에서 구할 수 있습니다."@ {
        Some(("This application includes the open source software listed below. Source code for the LGPL components (rawloader · imagepipe · multicache) is available at each component's repository link."@, "本アプリは以下のオープンソースソフトウェアを含みます。LGPLコンポーネント（rawloader · imagepipe · multicache）のソースコードは各項目のリポジトリリンクから入手できます。"@))
    } else if ko == "AI 컬링"@ {
        Some(("AI Culling"@, "AIカリング"@))
    } else if ko == "분석"@ {
        Some(("Analyzing"@, "分析"@))
    } else if ko == "AI 컬링 중 — 선택(라벨)이 잠겨 있습니다"@ {
        Some(("AI culling in progress — labels are locked"@, "AIカリング中 — 選択（ラベル）はロック中です"@))
    } else if ko == "AI 컬링 중 — 별점이 잠겨 있습니다"@ {
        Some(("AI culling in progress — ratings are locked"@, "AIカリング中 — 評価はロック中です"@))
    } else if ko == "AI 컬링 중 — 색 태그가 잠겨 있습니다"@ {
        Some(("AI culling in progress — color tags are locked"@, "AIカリング中 — カラータグはロック中です"@))
    } else if ko == "AI 컬링이 끝난 뒤 전송할 수 있습니다"@ {
        Some(("Transfer is available after AI culling finishes"@, "AIカリングが終わってから転送できます"@))
    } else if ko == "AI 컬링이 끝난 뒤 정리할 수 있습니다"@ {
        Some(("Organize is available after AI culling finishes"@, "AIカリングが終わってから整理できます"@))
    } else if ko == "사진을 분석해 흐림·노출·기울기로 자동 분류 · 전부 로컬 처리"@ {
        Some(("Analyzes photos and auto-classifies by blur, exposure, and tilt · all processed locally"@, "写真を分析してブレ・露出・傾きで自動分類 · すべてローカル処理"@))
    } else if ko == "초점(선명도)"@ {
        Some(("Focus (Sharpness)"@, "フォーカス（シャープネス）"@))
    } else if ko == "노출"@ {
        Some(("Exposure"@, "露出"@))
    } else if ko == "수평 기울기"@ {
        Some(("Horizon Tilt"@, "水平の傾き"@))
    } else {
        None
    }
}

fn ui_part_4(ko: &str) -> (r: Option<(&'static str, &'static str)>)
    ensures
        r is None <==> ui_rows_4(ko@) is None,
        r matches Some((en, ja)) ==> ui_rows_4(ko@) == Some((en@, ja@)),
{
    if str_eq(ko, "정리 시작") {
        return Some(("Start Organize", "整理開始"));
    }
    if str_eq(ko, "전송 중") {
        return Some(("Transferring", "転送中"));
    }
    if str_eq(ko, "폴더 정리 중") {
        return Some(("Organizing", "整理中"));
    }
    if str_eq(ko, "취소됨") {
        return Some(("Canceled", "キャンセルされました"));
    }
    if str_eq(ko, "작업이 예기치 않게 중단되었습니다") {
        return Some(("The operation stopped unexpectedly", "処理が予期せず中断されました"));
    }
    if str_eq(ko, "사진 표시 화면 배경색 — 프리셋 또는 HEX/RGB로 지정(Lightroom Develop 기본값은 50% 회색)") {
        return Some(("Photo viewer background — pick a preset or set HEX/RGB (Lightroom Develop default is 50% gray)", "写真表示画面の背景色 — プリセットまたはHEX/RGBで指定（Lightroom Developの既定は50%グレー）"));
    }
    if str_eq(ko, "기본") {
        return Some(("Default", "デフォルト"));
    }
    if str_eq(ko, "검정") {
        return Some(("Black", "黒"));
    }
    if str_eq(ko, "다크 그레이") {
        return Some(("Dark Gray", "ダークグレー"));
    }
    if str_eq(ko, "중간 회색") {
        return Some(("Medium Gray", "ミディアムグレー"));
    }
    if str_eq(ko, "라이트 그레이") {
        return Some(("Light Gray", "ライトグレー"));
    }
    if str_eq(ko, "흰색") {
        return Some(("White", "白"));
    }
    if str_eq(ko, "새로운 버전이 있습니다") {
        return Some(("A new version is available", "新しいバージョンがあります"));
    }
    if str_eq(ko, "지도 로딩…") {
        return Some(("Loading map…", "地図を読み込み中…"));
    }
    if str_eq(ko, "지도를 불러올 수 없음 (오프라인?)") {
        return Some(("Couldn't load map (offline?)", "地図を読み込めません（オフライン？）"));
    }
    if str_eq(ko, "M = 촬영 위치 미니 지도(GPS 있는 사진) · A = AF 포인트 표시 — 토글 상태는 저장됩니다") {
        return Some(("M = location mini-map (geotagged photos) · A = AF point overlay — toggle state is saved", "M = 撮影位置ミニマップ（GPS付き写真） · A = AFポイント表示 — トグル状態は保存されます"));
    }
    if str_eq(ko, "오픈소스 라이센스") {
        return Some(("Open Source Licenses", "オープンソースライセンス"));
    }
    if str_eq(ko, "이 프로그램이 포함한 오픈소스 구성요소 목록과 라이센스 전문") {
        return Some(("List of bundled open source components and their full license texts", "本アプリに含まれるオープンソースコンポーネントの一覧とライセンス全文"));
    }
    if str_eq(ko, "이 프로그램은 아래의 오픈소스 소프트웨어를 포함합니다. LGPL 구성요소(rawloader · imagepipe · multicache)의 소스코드는 각 항목의 저장소 링크에서 구할 수 있습니다.") {
        return Some(("This application includes the open source software listed below. Source code for the LGPL components (rawloader · imagepipe · multicache) is available at each component's repository link.", "本アプリは以下のオープンソースソフトウェアを含みます。LGPLコンポーネント（rawloader · imagepipe · multicache）のソースコードは各項目のリポジトリリンクから入手できます。"));
    }
    if str_eq(ko, "AI 컬링") {
        return Some(("AI Culling", "AIカリング"));
    }
    if str_eq(ko, "분석") {
        return Some(("Analyzing", "分析"));
    }
    if str_eq(ko, "AI 컬링 중 — 선택(라벨)이 잠겨 있습니다") {
        return Some(("AI culling in progress — labels are locked", "AIカリング中 — 選択（ラベル）はロック中です"));
    }
    if str_eq(ko, "AI 컬링 중 — 별점이 잠겨 있습니다") {
        return Some(("AI culling in progress — ratings are locked", "AIカリング中 — 評価はロック中です"));
    }
    if str_eq(ko, "AI 컬링 중 — 색 태그가 잠겨 있습니다") {
        return Some(("AI culling in progress — color tags are locked", "AIカリング中 — カラータグはロック中です"));
    }
    if str_eq(ko, "AI 컬링이 끝난 뒤 전송할 수 있습니다") {
        return Some(("Transfer is available after AI culling finishes", "AIカリングが終わってから転送できます"));
    }
    if str_eq(ko, "AI 컬링이 끝난 뒤 정리할 수 있습니다") {
        return Some(("Organize is available after AI culling finishes", "AIカリングが終わってから整理できます"));
    }
    if str_eq(ko, "사진을 분석해 흐림·노출·기울기로 자동 분류 · 전부 로컬 처리") {
        return Some(("Analyzes photos and auto-classifies by blur, exposure, and tilt · all processed locally", "写真を分析してブレ・露出・傾きで自動分類 · すべてローカル処理"));
    }
    if str_eq(ko, "초점(선명도)") {
        return Some(("Focus (Sharpness)", "フォーカス（シャープネス）"));
    }
    if str_eq(ko, "노출") {
        return Some(("Exposure", "露出"));
    }
    if str_eq(ko, "수평 기울기") {
        return Some(("Horizon Tilt", "水平の傾き"));
    }
    None
}

/// Translations (English, Japanese) of the fixed interface strings, rows 151 to 180.
pub open spec fn ui_rows_5(ko: Seq<char>) -> Option<(Seq<char>, Seq<char>)> {
    if ko == "미적(구도) AI"@ {
        Some(("Aesthetic (Composition) AI"@, "美的（構図）AI"@))
    } else if ko == "흐림 임계"@ {
        Some(("Blur Threshold"@, "ブレしきい値"@))
    } else if ko == "AF 측거점만"@ {
        Some(("AF Point Area Only"@, "AF測距点のみ"@))
    } else if ko == "노출 하한"@ {
        Some(("Exposure Min"@, "露出下限"@))
    } else if ko == "허용 기울기"@ {
        Some(("Max Tilt"@, "許容傾き"@))
    } else if ko == "⚡ GPU 고속 모드"@ {
        Some(("⚡ GPU Fast Mode"@, "⚡ GPU高速モード"@))
    } else if ko == "백본"@ {
        Some(("Backbone"@, "バックボーン"@))
    } else if ko == "선택 기준"@ {
        Some(("Selection Criterion"@, "選択基準"@))
    } else if ko == "상위 N장"@ {
        Some(("Top N"@, "上位N枚"@))
    } else if ko == "최고 점수"@ {
        Some(("highest scores"@, "スコア上位"@))
    } else if ko == "임계값"@ {
        Some(("Threshold"@, "しきい値"@))
    } else if ko == "P(good) 하한"@ {
        Some(("min P(good)"@, "P(good)下限"@))
    } else if ko == "최고 N장"@ {
        Some(("Top N"@, "上位N枚"@))
    } else if ko == "장"@ {
        Some((" photos"@, "枚"@))
    } else if ko == "✓ 미적 모델 준비됨"@ {
        Some(("✓ Aesthetic model ready"@, "✓ 美的モデル準備完了"@))
    } else if ko == "미적 모델 없음 — 아래 버튼으로 받으세요"@ {
        Some(("Aesthetic model missing — download with the button below"@, "美的モデルなし — 下のボタンでダウンロード"@))
    } else if ko == "미적 모델 다운로드"@ {
        Some(("Download Aesthetic Model"@, "美的モデルをダウンロード"@))
    } else if ko == "(전체)"@ {
        Some(("(All)"@, "（すべて）"@))
    } else if ko == "방향"@ {
        Some(("Orientation"@, "向き"@))
    } else if ko == "세로"@ {
        Some(("Portrait"@, "縦"@))
    } else if ko == "가로"@ {
        Some(("Landscape"@, "横"@))
    } else if ko == "ISO 상한"@ {
        Some(("ISO Max"@, "ISO上限"@))
    } else if ko == "초점거리"@ {
        Some(("Focal Length"@, "焦点距離"@))
    } else if ko == "조리개 ≤"@ {
        Some(("Aperture ≤"@, "絞り ≤"@))
    } else if ko == "셔터 하한"@ {
        Some(("Shutter Min"@, "シャッター下限"@))
    } else if ko == "초 (손떨림)"@ {
        Some(("s (shake risk)"@, "秒（手ブレ）"@))
    } else if ko == "메타 수집 중… (잠시 후 목록이 채워집니다)"@ {
        Some(("Collecting metadata… (lists fill in shortly)"@, "メタデータ収集中…（まもなくリストに反映されます）"@))
    } else if ko == "연사 베스트-N"@ {
        Some(("Burst Best-N"@, "連写ベストN"@))
    } else if ko == "간격 ≤"@ {
        Some(("Gap ≤"@, "間隔 ≤"@))
    } else if ko == "초"@ {
        Some(("s"@, "秒"@))
    } else {
        None
    }
}

fn ui_part_5(ko: &str) -> (r: Option<(&'static str, &'static str)>)
    ensures
        r is None <==> ui_rows_5(ko@) is None,
        r matches Some((en, ja)) ==> ui_rows_5(ko@) == Some((en@, ja@)),
{
    if str_eq(ko, "미적(구도) AI") {
        return Some(("Aesthetic (Composition) AI", "美的（構図）AI"));
    }
    if str_eq(ko, "흐림 임계") {
        return Some(("Blur Threshold", "ブレしきい値"));
    }
    if str_eq(ko, "AF 측거점만") {
        return Some(("AF Point Area Only", "AF測距点のみ"));
    }
    if str_eq(ko, "노출 하한") {
        return Some(("Exposure Min", "露出下限"));
    }
    if str_eq(ko, "허용 기울기") {
        return Some(("Max Tilt", "許容傾き"));
    }
    if str_eq(ko, "⚡ GPU 고속 모드") {
        return Some(("⚡ GPU Fast Mode", "⚡ GPU高速モード"));
    }
    if str_eq(ko, "백본") {
        return Some(("Backbone", "バックボーン"));
    }
    if str_eq(ko, "선택 기준") {
        return Some(("Selection Criterion", "選択基準"));
    }
    if str_eq(ko, "상위 N장") {
        return Some(("Top N", "上位N枚"));
    }
    if str_eq(ko, "최고 점수") {
        return Some(("highest scores", "スコア上位"));
    }
    if str_eq(ko, "임계값") {
        return Some(("Threshold", "しきい値"));
    }
    if str_eq(ko, "P(good) 하한") {
        return Some(("min P(good)", "P(good)下限"));
    }
    if str_eq(ko, "최고 N장") {
        return Some(("Top N", "上位N枚"));
    }
    if str_eq(ko, "장") {
        return Some((" photos", "枚"));
    }
    if str_eq(ko, "✓ 미적 모델 준비됨") {
        return Some(("✓ Aesthetic model ready", "✓ 美的モデル準備完了"));
    }
    if str_eq(ko, "미적 모델 없음 — 아래 버튼으로 받으세요") {
        return Some(("Aesthetic model missing — download with the button below", "美的モデルなし — 下のボタンでダウンロード"));
    }
    if str_eq(ko, "미적 모델 다운로드") {
        return Some(("Download Aesthetic Model", "美的モデルをダウンロード"));
    }
    if str_eq(ko, "(전체)") {
        return Some(("(All)", "（すべて）"));
    }
    if str_eq(ko, "방향") {
        return Some(("Orientation", "向き"));
    }
    if str_eq(ko, "세로") {
        return Some(("Portrait", "縦"));
    }
    if str_eq(ko, "가로") {
        return Some(("Landscape", "横"));
    }
    if str_eq(ko, "ISO 상한") {
        return Some(("ISO Max", "ISO上限"));
    }
    if str_eq(ko, "초점거리") {
        return Some(("Focal Length", "焦点距離"));
    }
    if str_eq(ko, "조리개 ≤") {
        return Some(("Aperture ≤", "絞り ≤"));
    }
    if str_eq(ko, "셔터 하한") {
        return Some(("Shutter Min", "シャッター下限"));
    }
    if str_eq(ko, "초 (손떨림)") {
        return Some(("s (shake risk)", "秒（手ブレ）"));
    }
    if str_eq(ko, "메타 수집 중… (잠시 후 목록이 채워집니다)") {
        return Some(("Collecting metadata… (lists fill in shortly)", "メタデータ収集中…（まもなくリストに反映されます）"));
    }
    if str_eq(ko, "연사 베스트-N") {
        return Some(("Burst Best-N", "連写ベストN"));
    }
    if str_eq(ko, "간격 ≤") {
        return Some(("Gap ≤", "間隔 ≤"));
    }
    if str_eq(ko, "초") {
        return Some(("s", "秒"));
    }
    None
}

/// Translations (English, Japanese) of the fixed interface strings, rows 181 to 210.
pub open spec fn ui_rows_6(ko: Seq<char>) -> Option<(Seq<char>, Seq<char>)> {
    if ko == "그룹당"@ {
        Some(("Per group"@, "グループごと"@))
    } else if ko == "시각적 중복 묶기"@ {
        Some(("Group Visual Duplicates"@, "見た目の重複をまとめる"@))
    } else if ko == "해밍 ≤"@ {
        Some(("Hamming ≤"@, "ハミング ≤"@))
    } else if ko == "클러스터당"@ {
        Some(("Per cluster"@, "クラスタごと"@))
    } else if ko == "그룹 내 베스트는 점수(미적>선명도) 기준 선택"@ {
        Some(("Best in each group is picked by score (aesthetic > sharpness)"@, "グループ内のベストはスコア（美的＞シャープネス）で選択"@))
    } else if ko == "장르 픽"@ {
        Some(("Genre Pick"@, "ジャンルピック"@))
    } else if ko == "인물"@ {
        Some(("Portrait"@, "人物"@))
    } else if ko == "얼굴 있음"@ {
        Some(("has faces"@, "顔あり"@))
    } else if ko == "풍경"@ {
        Some(("Landscape"@, "風景"@))
    } else if ko == "얼굴 없음"@ {
        Some(("no faces"@, "顔なし"@))
    } else if ko == "AI 선명도"@ {
        Some(("AI Sharpness"@, "AIシャープネス"@))
    } else if ko == "장르 픽: 얼굴 검출(YuNet) 기반"@ {
        Some(("Genre pick: based on face detection (YuNet)"@, "ジャンルピック：顔検出（YuNet）ベース"@))
    } else if ko == "CLIP 다축 모델(89MB) 없음 — 아래 버튼으로 받으세요"@ {
        Some(("CLIP multi-axis model (89MB) missing — download with the button below"@, "CLIPマルチ軸モデル（89MB）なし — 下のボタンでダウンロード"@))
    } else if ko == "AI 선명도 모델 다운로드"@ {
        Some(("Download AI Sharpness Model"@, "AIシャープネスモデルをダウンロード"@))
    } else if ko == "✓ CLIP 다축 모델 준비됨"@ {
        Some(("✓ CLIP multi-axis model ready"@, "✓ CLIPマルチ軸モデル準備完了"@))
    } else if ko == "얼굴 있는 컷만"@ {
        Some(("Only Shots with Faces"@, "顔がある写真のみ"@))
    } else if ko == "객체 포함"@ {
        Some(("Contains Object"@, "オブジェクト含む"@))
    } else if ko == "COCO 클래스명"@ {
        Some(("COCO class name"@, "COCOクラス名"@))
    } else if ko == "객체 모델(YOLOv10n, 9MB) 없음 — 아래 버튼으로 받으세요"@ {
        Some(("Object model (YOLOv10n, 9MB) missing — download with the button below"@, "オブジェクトモデル（YOLOv10n、9MB）なし — 下のボタンでダウンロード"@))
    } else if ko == "객체 모델 다운로드"@ {
        Some(("Download Object Model"@, "オブジェクトモデルをダウンロード"@))
    } else if ko == "✓ 객체 모델 준비됨 (YOLOv10n)"@ {
        Some(("✓ Object model ready (YOLOv10n)"@, "✓ オブジェクトモデル準備完了（YOLOv10n）"@))
    } else if ko == "얼굴 모델(YuNet, 0.2MB) 없음 — 아래 버튼으로 받으세요"@ {
        Some(("Face model (YuNet, 0.2MB) missing — download with the button below"@, "顔モデル（YuNet、0.2MB）なし — 下のボタンでダウンロード"@))
    } else if ko == "얼굴 모델 다운로드"@ {
        Some(("Download Face Model"@, "顔モデルをダウンロード"@))
    } else if ko == "✓ 얼굴 모델 준비됨 (YuNet)"@ {
        Some(("✓ Face model ready (YuNet)"@, "✓ 顔モデル準備完了（YuNet）"@))
    } else if ko == "검사 항목을 하나 이상 켜세요."@ {
        Some(("Turn on at least one check."@, "検査項目を1つ以上オンにしてください。"@))
    } else if ko == "별점"@ {
        Some(("Rating"@, "評価"@))
    } else if ko == "높음 / 낮음"@ {
        Some(("high / low"@, "高い / 低い"@))
    } else if ko == "색 태그"@ {
        Some(("Color Tag"@, "カラータグ"@))
    } else if ko == "두 색"@ {
        Some(("two colors"@, "2色"@))
    } else if ko == "좋음 → 선택(Pick) · 탈락 → 제외(Reject)"@ {
        Some(("Good → Pick · Culled → Reject"@, "良い → Pick · 落選 → Reject"@))
    } else {
        None
    }
}

fn ui_part_6(ko: &str) -> (r: Option<(&'static str, &'static str)>)
    ensures
        r is None <==> ui_rows_6(ko@) is None,
        r matches Some((en, ja)) ==> ui_rows_6(ko@) == Some((en@, ja@)),
{
    if str_eq(ko, "그룹당") {
        return Some(("Per group", "グループごと"));
    }
    if str_eq(ko, "시각적 중복 묶기") {
        return Some(("Group Visual Duplicates", "見た目の重複をまとめる"));
    }
    if str_eq(ko, "해밍 ≤") {
        return Some(("Hamming ≤", "ハミング ≤"));
    }
    if str_eq(ko, "클러스터당") {
        return Some(("Per cluster", "クラスタごと"));
    }
    if str_eq(ko, "그룹 내 베스트는 점수(미적>선명도) 기준 선택") {
        return Some(("Best in each group is picked by score (aesthetic > sharpness)", "グループ内のベストはスコア（美的＞シャープネス）で選択"));
    }
    if str_eq(ko, "장르 픽") {
        return Some(("Genre Pick", "ジャンルピック"));
    }
    if str_eq(ko, "인물") {
        return Some(("Portrait", "人物"));
    }
    if str_eq(ko, "얼굴 있음") {
        return Some(("has faces", "顔あり"));
    }
    if str_eq(ko, "풍경") {
        return Some(("Landscape", "風景"));
    }
    if str_eq(ko, "얼굴 없음") {
        return Some(("no faces", "顔なし"));
    }
    if str_eq(ko, "AI 선명도") {
        return Some(("AI Sharpness", "AIシャープネス"));
    }
    if str_eq(ko, "장르 픽: 얼굴 검출(YuNet) 기반") {
        return Some(("Genre pick: based on face detection (YuNet)", "ジャンルピック：顔検出（YuNet）ベース"));
    }
    if str_eq(ko, "CLIP 다축 모델(89MB) 없음 — 아래 버튼으로 받으세요") {
        return Some(("CLIP multi-axis model (89MB) missing — download with the button below", "CLIPマルチ軸モデル（89MB）なし — 下のボタンでダウンロード"));
    }
    if str_eq(ko, "AI 선명도 모델 다운로드") {
        return Some(("Download AI Sharpness Model", "AIシャープネスモデルをダウンロード"));
    }
    if str_eq(ko, "✓ CLIP 다축 모델 준비됨") {
        return Some(("✓ CLIP multi-axis model ready", "✓ CLIPマルチ軸モデル準備完了"));
    }
    if str_eq(ko, "얼굴 있는 컷만") {
        return Some(("Only Shots with Faces", "顔がある写真のみ"));
    }
    if str_eq(ko, "객체 포함") {
        return Some(("Contains Object", "オブジェクト含む"));
    }
    if str_eq(ko, "COCO 클래스명") {
        return Some(("COCO class name", "COCOクラス名"));
    }
    if str_eq(ko, "객체 모델(YOLOv10n, 9MB) 없음 — 아래 버튼으로 받으세요") {
        return Some(("Object model (YOLOv10n, 9MB) missing — download with the button below", "オブジェクトモデル（YOLOv10n、9MB）なし — 下のボタンでダウンロード"));
    }
    if str_eq(ko, "객체 모델 다운로드") {
        return Some(("Download Object Model", "オブジェクトモデルをダウンロード"));
    }
    if str_eq(ko, "✓ 객체 모델 준비됨 (YOLOv10n)") {
        return Some(("✓ Object model ready (YOLOv10n)", "✓ オブジェクトモデル準備完了（YOLOv10n）"));
    }
    if str_eq(ko, "얼굴 모델(YuNet, 0.2MB) 없음 — 아래 버튼으로 받으세요") {
        return Some(("Face model (YuNet, 0.2MB) missing — download with the button below", "顔モデル（YuNet、0.2MB）なし — 下のボタンでダウンロード"));
    }
    if str_eq(ko, "얼굴 모델 다운로드") {
        return Some(("Download Face Model", "顔モデルをダウンロード"));
    }
    if str_eq(ko, "✓ 얼굴 모델 준비됨 (YuNet)") {
        return Some(("✓ Face model ready (YuNet)", "✓ 顔モデル準備完了（YuNet）"));
    }
    if str_eq(ko, "검사 항목을 하나 이상 켜세요.") {
        return Some(("Turn on at least one check.", "検査項目を1つ以上オンにしてください。"));
    }
    if str_eq(ko, "별점") {
        return Some(("Rating", "評価"));
    }
    if str_eq(ko, "높음 / 낮음") {
        return Some(("high / low", "高い / 低い"));
    }
    if str_eq(ko, "색 태그") {
        return Some(("Color Tag", "カラータグ"));
    }
    if str_eq(ko, "두 색") {
        return Some(("two colors", "2色"));
    }
    if str_eq(ko, "좋음 → 선택(Pick) · 탈락 → 제외(Reject)") {
        return Some(("Good → Pick · Culled → Reject", "良い → Pick · 落選 → Reject"));
    }
    None
}

/// Translations (English, Japanese) of the fixed interface strings, rows 211 to 240.
pub open spec fn ui_rows_7(ko: Seq<char>) -> Option<(Seq<char>, Seq<char>)> {
    if ko == "좋음"@ {
        Some(("Good"@, "良い"@))
    } else if ko == "탈락"@ {
        Some(("Culled"@, "落選"@))
    } else if ko == "현재 필터"@ {
        Some(("Current Filter"@, "現在のフィルタ"@))
    } else if ko == "컬링 시작"@ {
        Some(("Start Culling"@, "カリング開始"@))
    } else if ko == "~100장/초 내외 (GPU)"@ {
        Some(("~100 photos/s (GPU)"@, "~100枚/秒前後（GPU）"@))
    } else if ko == "~90장/초 내외 (CPU)"@ {
        Some(("~90 photos/s (CPU)"@, "~90枚/秒前後（CPU）"@))
    } else if ko == "~200장/초+ (모델 불필요·가장 빠름)"@ {
        Some(("~200+ photos/s (no model needed · fastest)"@, "~200枚/秒+（モデル不要・最速）"@))
    } else if ko == "YuNet (얼굴)"@ {
        Some(("YuNet (face)"@, "YuNet（顔）"@))
    } else if ko == "CLIP 다축 (AI 선명도)"@ {
        Some(("CLIP multi-axis (AI sharpness)"@, "CLIPマルチ軸（AIシャープネス）"@))
    } else if ko == "YOLOv10n (객체)"@ {
        Some(("YOLOv10n (object)"@, "YOLOv10n（オブジェクト）"@))
    } else if ko == "RN50 (GPU 고속)"@ {
        Some(("RN50 (GPU fast)"@, "RN50（GPU高速）"@))
    } else if ko == "모델 다운로드"@ {
        Some(("Model Download"@, "モデルダウンロード"@))
    } else if ko == "모델 다운로드 완료"@ {
        Some(("Model download complete"@, "モデルのダウンロード完了"@))
    } else if ko == "모델 다운로드를 취소했습니다"@ {
        Some(("Model download canceled"@, "モデルのダウンロードをキャンセルしました"@))
    } else if ko == "연결 끊김"@ {
        Some(("connection lost"@, "接続が切断されました"@))
    } else if ko == "폴더가 바뀌어 AI 컬링 결과를 버렸습니다"@ {
        Some(("Folder changed — AI culling results were discarded"@, "フォルダが変わったためAIカリング結果を破棄しました"@))
    } else if ko == "AI 컬링 진행 중"@ {
        Some(("AI Culling in Progress"@, "AIカリング進行中"@))
    } else if ko == "분석을 멈추시겠어요?"@ {
        Some(("Stop the analysis?"@, "分析を中止しますか？"@))
    } else if ko == "컬링 취소"@ {
        Some(("Cancel Culling"@, "カリングをキャンセル"@))
    } else if ko == "계속 진행"@ {
        Some(("Keep Running"@, "続行"@))
    } else if ko == "AI 컬링을 취소했습니다"@ {
        Some(("AI culling canceled"@, "AIカリングをキャンセルしました"@))
    } else if ko == "컬링이 진행 중입니다"@ {
        Some(("Culling is in progress"@, "カリングが進行中です"@))
    } else if ko == "폴더를 바꾸면 진행 중인 AI 컬링이 취소됩니다."@ {
        Some(("Changing folders will cancel the AI culling in progress."@, "フォルダを変更すると進行中のAIカリングはキャンセルされます。"@))
    } else if ko == "폴더 바꾸기"@ {
        Some(("Change Folder"@, "フォルダを変更"@))
    } else if ko == "계속 컬링"@ {
        Some(("Keep Culling"@, "カリングを続行"@))
    } else if ko == "사진을 분석해 자동 분류 — 초점·노출·수평부터 미적 AI·연사 베스트·중복 정리까지 · 전부 로컬 처리"@ {
        Some(("Analyzes photos and auto-classifies — from focus/exposure/tilt to aesthetic AI, burst best, and dedup · all processed locally"@, "写真を分析して自動分類 — フォーカス・露出・水平から美的AI・連写ベスト・重複整理まで · すべてローカル処理"@))
    } else if ko == "고급 옵션"@ {
        Some(("Advanced Options"@, "詳細オプション"@))
    } else if ko == "메타 필터·연사·중복·AI 축·검출"@ {
        Some(("meta filter · burst · dedup · AI axes · detect"@, "メタフィルタ・連写・重複・AI軸・検出"@))
    } else if ko == "고급 옵션이 적용 중입니다"@ {
        Some(("Advanced options are active"@, "詳細オプションが適用中です"@))
    } else if ko == "미적 점수 하한"@ {
        Some(("Aesthetic score min"@, "美的スコア下限"@))
    } else {
        None
    }
}

fn ui_part_7(ko: &str) -> (r: Option<(&'static str, &'static str)>)
    ensures
        r is None <==> ui_rows_7(ko@) is None,
        r matches Some((en, ja)) ==> ui_rows_7(ko@) == Some((en@, ja@)),
{
    if str_eq(ko, "좋음") {
        return Some(("Good", "良い"));
    }
    if str_eq(ko, "탈락") {
        return Some(("Culled", "落選"));
    }
    if str_eq(ko, "현재 필터") {
        return Some(("Current Filter", "現在のフィルタ"));
    }
    if str_eq(ko, "컬링 시작") {
        return Some(("Start Culling", "カリング開始"));
    }
    if str_eq(ko, "~100장/초 내외 (GPU)") {
        return Some(("~100 photos/s (GPU)", "~100枚/秒前後（GPU）"));
    }
    if str_eq(ko, "~90장/초 내외 (CPU)") {
        return Some(("~90 photos/s (CPU)", "~90枚/秒前後（CPU）"));
    }
    if str_eq(ko, "~200장/초+ (모델 불필요·가장 빠름)") {
        return Some(("~200+ photos/s (no model needed · fastest)", "~200枚/秒+（モデル不要・最速）"));
    }
    if str_eq(ko, "YuNet (얼굴)") {
        return Some(("YuNet (face)", "YuNet（顔）"));
    }
    if str_eq(ko, "CLIP 다축 (AI 선명도)") {
        return Some(("CLIP multi-axis (AI sharpness)", "CLIPマルチ軸（AIシャープネス）"));
    }
    if str_eq(ko, "YOLOv10n (객체)") {
        return Some(("YOLOv10n (object)", "YOLOv10n（オブジェクト）"));
    }
    if str_eq(ko, "RN50 (GPU 고속)") {
        return Some(("RN50 (GPU fast)", "RN50（GPU高速）"));
    }
    if str_eq(ko, "모델 다운로드") {
        return Some(("Model Download", "モデルダウンロード"));
    }
    if str_eq(ko, "모델 다운로드 완료") {
        return Some(("Model download complete", "モデルのダウンロード完了"));
    }
    if str_eq(ko, "모델 다운로드를 취소했습니다") {
        return Some(("Model download canceled", "モデルのダウンロードをキャンセルしました"));
    }
    if str_eq(ko, "연결 끊김") {
        return Some(("connection lost", "接続が切断されました"));
    }
    if str_eq(ko, "폴더가 바뀌어 AI 컬링 결과를 버렸습니다") {
        return Some(("Folder changed — AI culling results were discarded", "フォルダが変わったためAIカリング結果を破棄しました"));
    }
    if str_eq(ko, "AI 컬링 진행 중") {
        return Some(("AI Culling in Progress", "AIカリング進行中"));
    }
    if str_eq(ko, "분석을 멈추시겠어요?") {
        return Some(("Stop the analysis?", "分析を中止しますか？"));
    }
    if str_eq(ko, "컬링 취소") {
        return Some(("Cancel Culling", "カリングをキャンセル"));
    }
    if str_eq(ko, "계속 진행") {
        return Some(("Keep Running", "続行"));
    }
    if str_eq(ko, "AI 컬링을 취소했습니다") {
        return Some(("AI culling canceled", "AIカリングをキャンセルしました"));
    }
    if str_eq(ko, "컬링이 진행 중입니다") {
        return Some(("Culling is in progress", "カリングが進行中です"));
    }
    if str_eq(ko, "폴더를 바꾸면 진행 중인 AI 컬링이 취소됩니다.") {
        return Some(("Changing folders will cancel the AI culling in progress.", "フォルダを変更すると進行中のAIカリングはキャンセルされます。"));
    }
    if str_eq(ko, "폴더 바꾸기") {
        return Some(("Change Folder", "フォルダを変更"));
    }
    if str_eq(ko, "계속 컬링") {
        return Some(("Keep Culling", "カリングを続行"));
    }
    if str_eq(ko, "사진을 분석해 자동 분류 — 초점·노출·수평부터 미적 AI·연사 베스트·중복 정리까지 · 전부 로컬 처리") {
        return Some(("Analyzes photos and auto-classifies — from focus/exposure/tilt to aesthetic AI, burst best, and dedup · all processed locally", "写真を分析して自動分類 — フォーカス・露出・水平から美的AI・連写ベスト・重複整理まで · すべてローカル処理"));
    }
    if str_eq(ko, "고급 옵션") {
        return Some(("Advanced Options", "詳細オプション"));
    }
    if str_eq(ko, "메타 필터·연사·중복·AI 축·검출") {
        return Some(("meta filter · burst · dedup · AI axes · detect", "メタフィルタ・連写・重複・AI軸・検出"));
    }
    if str_eq(ko, "고급 옵션이 적용 중입니다") {
        return Some(("Advanced options are active", "詳細オプションが適用中です"));
    }
    if str_eq(ko, "미적 점수 하한") {
        return Some(("Aesthetic score min", "美的スコア下限"));
    }
    None
}

/// Translations (English, Japanese) of the fixed interface strings, rows 241 to 270.
pub open spec fn ui_rows_8(ko: Seq<char>) -> Option<(Seq<char>, Seq<char>)> {
    if ko == "차이 허용 ≤"@ {
        Some(("Diff tolerance ≤"@, "差の許容 ≤"@))
    } else if ko == "객체 이름(영문) — 예: person, dog"@ {
        Some(("Object name (English) — e.g. person, dog"@, "オブジェクト名（英語） — 例: person, dog"@))
    } else if ko == "실제 속도는 디코딩·디스크 속도에 따라 다릅니다"@ {
        Some(("Actual speed depends on decode and disk speed"@, "実際の速度はデコード・ディスク速度に依存します"@))
    } else if ko == "이 빌드에는 모델 다운로드가 포함되지 않았습니다"@ {
        Some(("This build does not include model downloads"@, "このビルドにはモデルダウンロードが含まれていません"@))
    } else if ko == "흐린 사진(핀이 나간 컷)을 걸러냅니다"@ {
        Some(("Filters out blurry (missed-focus) shots"@, "ブレた（ピントを外した）写真を除外します"@))
    } else if ko == "심하게 어둡거나 하얗게 날아간 사진을 걸러냅니다"@ {
        Some(("Filters out badly underexposed or blown-out shots"@, "極端に暗い・白飛びした写真を除外します"@))
    } else if ko == "수평이 기울어진 사진을 걸러냅니다"@ {
        Some(("Filters out shots with a tilted horizon"@, "水平が傾いた写真を除外します"@))
    } else if ko == "AI가 구도·분위기를 채점해 잘 나온 컷을 고릅니다 (모델 필요)"@ {
        Some(("AI scores composition and look to pick the best shots (model required)"@, "AIが構図・雰囲気を採点して良いカットを選びます（モデルが必要）"@))
    } else if ko == "높일수록 더 엄격하게 흐림으로 판정합니다"@ {
        Some(("Higher = stricter blur judgment"@, "高くするほど厳しくブレと判定します"@))
    } else if ko == "초점을 사진 전체가 아니라 카메라가 맞춘 AF 지점에서만 봅니다"@ {
        Some(("Checks focus only at the camera's AF points, not the whole frame"@, "フォーカスを写真全体ではなくカメラが合わせたAF点だけで判定します"@))
    } else if ko == "그래픽카드로 미적 채점을 가속합니다"@ {
        Some(("Accelerates aesthetic scoring on the GPU"@, "GPUで美的採点を高速化します"@))
    } else if ko == "미적 채점에 쓸 AI 모델 — 클수록 정확하지만 느립니다"@ {
        Some(("AI model for aesthetic scoring — larger is more accurate but slower"@, "美的採点に使うAIモデル — 大きいほど正確ですが遅くなります"@))
    } else if ko == "AI 미적 점수(0~1) 하한 — 이보다 낮으면 탈락합니다"@ {
        Some(("Min AI aesthetic score (0–1) — anything lower is culled"@, "AI美的スコア（0～1）の下限 — これ未満は落選します"@))
    } else if ko == "짧은 간격으로 찍힌 연사를 묶어 그룹당 베스트 N장만 남깁니다"@ {
        Some(("Groups rapid bursts and keeps only the best N per group"@, "短い間隔の連写をまとめてグループごとにベストN枚だけ残します"@))
    } else if ko == "거의 같은 장면을 묶어 베스트만 남깁니다"@ {
        Some(("Groups near-identical shots and keeps only the best"@, "ほぼ同じ場面をまとめてベストだけ残します"@))
    } else if ko == "한 곳으로 이동 — 순번 또는 파일명 일부"@ {
        Some(("Go to one spot — by position or filename part"@, "1か所へ移動 — 番号またはファイル名の一部"@))
    } else if ko == "순번"@ {
        Some(("Number"@, "番号"@))
    } else if ko == "현재/전체의 번호"@ {
        Some(("position in current/total"@, "現在/全体の番号"@))
    } else if ko == "파일명"@ {
        Some(("Filename"@, "ファイル名"@))
    } else if ko == "일부 일치"@ {
        Some(("partial match"@, "部分一致"@))
    } else if ko == "파일명 일부(한 개)"@ {
        Some(("part of a filename (single)"@, "ファイル名の一部（1件）"@))
    } else if ko == "파일명 일부를 입력하세요"@ {
        Some(("Enter part of a filename"@, "ファイル名の一部を入力してください"@))
    } else if ko == "저장 실패"@ {
        Some(("Save failed"@, "保存失敗"@))
    } else if ko == "단축키"@ {
        Some(("Keyboard Shortcuts"@, "ショートカット"@))
    } else if ko == "사진 위에서 바로 누르면 됩니다 — 입력창이 없어 즉시 반응"@ {
        Some(("Press keys right over the photo — no text field, instant response"@, "写真の上でそのまま押すだけ — 入力欄がなく即反応"@))
    } else if ko == "이동"@ {
        Some(("Move"@, "移動"@))
    } else if ko == "분류"@ {
        Some(("Classify"@, "分類"@))
    } else if ko == "별점·태그"@ {
        Some(("Rating & Tag"@, "評価・タグ"@))
    } else if ko == "보기"@ {
        Some(("View"@, "表示"@))
    } else if ko == "확대"@ {
        Some(("Zoom"@, "ズーム"@))
    } else {
        None
    }
}

fn ui_part_8(ko: &str) -> (r: Option<(&'static str, &'static str)>)
    ensures
        r is None <==> ui_rows_8(ko@) is None,
        r matches Some((en, ja)) ==> ui_rows_8(ko@) == Some((en@, ja@)),
{
    if str_eq(ko, "차이 허용 ≤") {
        return Some(("Diff tolerance ≤", "差の許容 ≤"));
    }
    if str_eq(ko, "객체 이름(영문) — 예: person, dog") {
        return Some(("Object name (English) — e.g. person, dog", "オブジェクト名（英語） — 例: person, dog"));
    }
    if str_eq(ko, "실제 속도는 디코딩·디스크 속도에 따라 다릅니다") {
        return Some(("Actual speed depends on decode and disk speed", "実際の速度はデコード・ディスク速度に依存します"));
    }
    if str_eq(ko, "이 빌드에는 모델 다운로드가 포함되지 않았습니다") {
        return Some(("This build does not include model downloads", "このビルドにはモデルダウンロードが含まれていません"));
    }
    if str_eq(ko, "흐린 사진(핀이 나간 컷)을 걸러냅니다") {
        return Some(("Filters out blurry (missed-focus) shots", "ブレた（ピントを外した）写真を除外します"));
    }
    if str_eq(ko, "심하게 어둡거나 하얗게 날아간 사진을 걸러냅니다") {
        return Some(("Filters out badly underexposed or blown-out shots", "極端に暗い・白飛びした写真を除外します"));
    }
    if str_eq(ko, "수평이 기울어진 사진을 걸러냅니다") {
        return Some(("Filters out shots with a tilted horizon", "水平が傾いた写真を除外します"));
    }
    if str_eq(ko, "AI가 구도·분위기를 채점해 잘 나온 컷을 고릅니다 (모델 필요)") {
        return Some(("AI scores composition and look to pick the best shots (model required)", "AIが構図・雰囲気を採点して良いカットを選びます（モデルが必要）"));
    }
    if str_eq(ko, "높일수록 더 엄격하게 흐림으로 판정합니다") {
        return Some(("Higher = stricter blur judgment", "高くするほど厳しくブレと判定します"));
    }
    if str_eq(ko, "초점을 사진 전체가 아니라 카메라가 맞춘 AF 지점에서만 봅니다") {
        return Some(("Checks focus only at the camera's AF points, not the whole frame", "フォーカスを写真全体ではなくカメラが合わせたAF点だけで判定します"));
    }
    if str_eq(ko, "그래픽카드로 미적 채점을 가속합니다") {
        return Some(("Accelerates aesthetic scoring on the GPU", "GPUで美的採点を高速化します"));
    }
    if str_eq(ko, "미적 채점에 쓸 AI 모델 — 클수록 정확하지만 느립니다") {
        return Some(("AI model for aesthetic scoring — larger is more accurate but slower", "美的採点に使うAIモデル — 大きいほど正確ですが遅くなります"));
    }
    if str_eq(ko, "AI 미적 점수(0~1) 하한 — 이보다 낮으면 탈락합니다") {
        return Some(("Min AI aesthetic score (0–1) — anything lower is culled", "AI美的スコア（0～1）の下限 — これ未満は落選します"));
    }
    if str_eq(ko, "짧은 간격으로 찍힌 연사를 묶어 그룹당 베스트 N장만 남깁니다") {
        return Some(("Groups rapid bursts and keeps only the best N per group", "短い間隔の連写をまとめてグループごとにベストN枚だけ残します"));
    }
    if str_eq(ko, "거의 같은 장면을 묶어 베스트만 남깁니다") {
        return Some(("Groups near-identical shots and keeps only the best", "ほぼ同じ場面をまとめてベストだけ残します"));
    }
    if str_eq(ko, "한 곳으로 이동 — 순번 또는 파일명 일부") {
        return Some(("Go to one spot — by position or filename part", "1か所へ移動 — 番号またはファイル名の一部"));
    }
    if str_eq(ko, "순번") {
        return Some(("Number", "番号"));
    }
    if str_eq(ko, "현재/전체의 번호") {
        return Some(("position in current/total", "現在/全体の番号"));
    }
    if str_eq(ko, "파일명") {
        return Some(("Filename", "ファイル名"));
    }
    if str_eq(ko, "일부 일치") {
        return Some(("partial match", "部分一致"));
    }
    if str_eq(ko, "파일명 일부(한 개)") {
        return Some(("part of a filename (single)", "ファイル名の一部（1件）"));
    }
    if str_eq(ko, "파일명 일부를 입력하세요") {
        return Some(("Enter part of a filename", "ファイル名の一部を入力してください"));
    }
    if str_eq(ko, "저장 실패") {
        return Some(("Save failed", "保存失敗"));
    }
    if str_eq(ko, "단축키") {
        return Some(("Keyboard Shortcuts", "ショートカット"));
    }
    if str_eq(ko, "사진 위에서 바로 누르면 됩니다 — 입력창이 없어 즉시 반응") {
        return Some(("Press keys right over the photo — no text field, instant response", "写真の上でそのまま押すだけ — 入力欄がなく即反応"));
    }
    if str_eq(ko, "이동") {
        return Some(("Move", "移動"));
    }
    if str_eq(ko, "분류") {
        return Some(("Classify", "分類"));
    }
    if str_eq(ko, "별점·태그") {
        return Some(("Rating & Tag", "評価・タグ"));
    }
    if str_eq(ko, "보기") {
        return Some(("View", "表示"));
    }
    if str_eq(ko, "확대") {
        return Some(("Zoom", "ズーム"));
    }
    None
}

/// Translations (English, Japanese) of the fixed interface strings, rows 271 to 300.
pub open spec fn ui_rows_9(ko: Seq<char>) -> Option<(Seq<char>, Seq<char>)> {
    if ko == "이전·다음"@ {
        Some(("Prev / Next"@, "前 / 次"@))
    } else if ko == "그리드 줄 이동"@ {
        Some(("Grid row move"@, "グリッド行移動"@))
    } else if ko == "사진 넘김(창맞춤일 때)"@ {
        Some(("Advance (when Fit)"@, "写真送り（フィット時）"@))
    } else if ko == "일괄 분류(그리드)"@ {
        Some(("Bulk label (grid)"@, "一括ラベル（グリッド）"@))
    } else if ko == "채택"@ {
        Some(("Pick"@, "採用"@))
    } else if ko == "같은 키 재입력 = 해제(토글)"@ {
        Some(("Same key again = clear (toggle)"@, "同じキーで解除（トグル）"@))
    } else if ko == "별점 해제"@ {
        Some(("Clear rating"@, "評価解除"@))
    } else if ko == "컬러 태그"@ {
        Some(("Color tag"@, "カラータグ"@))
    } else if ko == "태그 해제"@ {
        Some(("Clear tag"@, "タグ解除"@))
    } else if ko == "단일↔그리드"@ {
        Some(("Single / Grid"@, "シングル / グリッド"@))
    } else if ko == "원본(ORIG)"@ {
        Some(("Original (ORIG)"@, "原寸（ORIG）"@))
    } else if ko == "히스토그램"@ {
        Some(("Histogram"@, "ヒストグラム"@))
    } else if ko == "촬영 위치 지도"@ {
        Some(("Location map"@, "撮影地マップ"@))
    } else if ko == "AF 포인트"@ {
        Some(("AF points"@, "AFポイント"@))
    } else if ko == "라벨 필터 순환"@ {
        Some(("Cycle label filter"@, "ラベルフィルタ切替"@))
    } else if ko == "전체화면"@ {
        Some(("Fullscreen"@, "全画面"@))
    } else if ko == "창맞춤↔1:1"@ {
        Some(("Fit / 1:1"@, "フィット / 1:1"@))
    } else if ko == "연속 확대"@ {
        Some(("Zoom in/out"@, "連続ズーム"@))
    } else if ko == "이동(확대 중)"@ {
        Some(("Pan (while zoomed)"@, "移動（ズーム中）"@))
    } else if ko == "드래그앤드롭으로 폴더 열기"@ {
        Some(("Drag & drop to open"@, "ドラッグ＆ドロップで開く"@))
    } else if ko == "휠"@ {
        Some(("Wheel"@, "ホイール"@))
    } else if ko == "클릭"@ {
        Some(("Click"@, "クリック"@))
    } else if ko == "핀치"@ {
        Some(("Pinch"@, "ピンチ"@))
    } else if ko == "드래그"@ {
        Some(("Drag"@, "ドラッグ"@))
    } else if ko == "열기"@ {
        Some(("Open"@, "開く"@))
    } else if ko == "T 키로 전환"@ {
        Some(("Press T to switch"@, "Tキーで切替"@))
    } else if ko == "설정"@ {
        Some(("Settings"@, "設定"@))
    } else if ko == "설정 — 키보드 · 일반"@ {
        Some(("Settings — Keyboard & General"@, "設定 — キーボードと一般"@))
    } else if ko == "클릭하여 재시도"@ {
        Some(("Click to retry"@, "クリックで再試行"@))
    } else if ko == "되돌렸습니다"@ {
        Some(("Undone"@, "元に戻しました"@))
    } else {
        None
    }
}

fn ui_part_9(ko: &str) -> (r: Option<(&'static str, &'static str)>)
    ensures
        r is None <==> ui_rows_9(ko@) is None,
        r matches Some((en, ja)) ==> ui_rows_9(ko@) == Some((en@, ja@)),
{
    if str_eq(ko, "이전·다음") {
        return Some(("Prev / Next", "前 / 次"));
    }
    if str_eq(ko, "그리드 줄 이동") {
        return Some(("Grid row move", "グリッド行移動"));
    }
    if str_eq(ko, "사진 넘김(창맞춤일 때)") {
        return Some(("Advance (when Fit)", "写真送り（フィット時）"));
    }
    if str_eq(ko, "일괄 분류(그리드)") {
        return Some(("Bulk label (grid)", "一括ラベル（グリッド）"));
    }
    if str_eq(ko, "채택") {
        return Some(("Pick", "採用"));
    }
    if str_eq(ko, "같은 키 재입력 = 해제(토글)") {
        return Some(("Same key again = clear (toggle)", "同じキーで解除（トグル）"));
    }
    if str_eq(ko, "별점 해제") {
        return Some(("Clear rating", "評価解除"));
    }
    if str_eq(ko, "컬러 태그") {
        return Some(("Color tag", "カラータグ"));
    }
    if str_eq(ko, "태그 해제") {
        return Some(("Clear tag", "タグ解除"));
    }
    if str_eq(ko, "단일↔그리드") {
        return Some(("Single / Grid", "シングル / グリッド"));
    }
    if str_eq(ko, "원본(ORIG)") {
        return Some(("Original (ORIG)", "原寸（ORIG）"));
    }
    if str_eq(ko, "히스토그램") {
        return Some(("Histogram", "ヒストグラム"));
    }
    if str_eq(ko, "촬영 위치 지도") {
        return Some(("Location map", "撮影地マップ"));
    }
    if str_eq(ko, "AF 포인트") {
        return Some(("AF points", "AFポイント"));
    }
    if str_eq(ko, "라벨 필터 순환") {
        return Some(("Cycle label filter", "ラベルフィルタ切替"));
    }
    if str_eq(ko, "전체화면") {
        return Some(("Fullscreen", "全画面"));
    }
    if str_eq(ko, "창맞춤↔1:1") {
        return Some(("Fit / 1:1", "フィット / 1:1"));
    }
    if str_eq(ko, "연속 확대") {
        return Some(("Zoom in/out", "連続ズーム"));
    }
    if str_eq(ko, "이동(확대 중)") {
        return Some(("Pan (while zoomed)", "移動（ズーム中）"));
    }
    if str_eq(ko, "드래그앤드롭으로 폴더 열기") {
        return Some(("Drag & drop to open", "ドラッグ＆ドロップで開く"));
    }
    if str_eq(ko, "휠") {
        return Some(("Wheel", "ホイール"));
    }
    if str_eq(ko, "클릭") {
        return Some(("Click", "クリック"));
    }
    if str_eq(ko, "핀치") {
        return Some(("Pinch", "ピンチ"));
    }
    if str_eq(ko, "드래그") {
        return Some(("Drag", "ドラッグ"));
    }
    if str_eq(ko, "열기") {
        return Some(("Open", "開く"));
    }
    if str_eq(ko, "T 키로 전환") {
        return Some(("Press T to switch", "Tキーで切替"));
    }
    if str_eq(ko, "설정") {
        return Some(("Settings", "設定"));
    }
    if str_eq(ko, "설정 — 키보드 · 일반") {
        return Some(("Settings — Keyboard & General", "設定 — キーボードと一般"));
    }
    if str_eq(ko, "클릭하여 재시도") {
        return Some(("Click to retry", "クリックで再試行"));
    }
    if str_eq(ko, "되돌렸습니다") {
        return Some(("Undone", "元に戻しました"));
    }
    None
}

/// Translations (English, Japanese) of the fixed interface strings, rows 301 to 330.
pub open spec fn ui_rows_10(ko: Seq<char>) -> Option<(Seq<char>, Seq<char>)> {
    if ko == "다시 실행했습니다"@ {
        Some(("Redone"@, "やり直しました"@))
    } else if ko == "되돌릴 작업이 없습니다"@ {
        Some(("Nothing to undo"@, "元に戻す操作がありません"@))
    } else if ko == "다시 실행할 작업이 없습니다"@ {
        Some(("Nothing to redo"@, "やり直す操作がありません"@))
    } else if ko == "되돌리기"@ {
        Some(("Undo"@, "元に戻す"@))
    } else if ko == "다시 실행"@ {
        Some(("Redo"@, "やり直し"@))
    } else if ko == "기본값 복원"@ {
        Some(("Reset to Defaults"@, "デフォルトに戻す"@))
    } else if ko == "모든 설정을 기본값으로 되돌립니다"@ {
        Some(("This resets all settings to their defaults"@, "すべての設定をデフォルトに戻します"@))
    } else if ko == "복원"@ {
        Some(("Reset"@, "リセット"@))
    } else if ko == "설정을 기본값으로 되돌렸습니다"@ {
        Some(("Settings were reset to defaults"@, "設定をデフォルトに戻しました"@))
    } else if ko == "새 버전 자동 확인"@ {
        Some(("Check for new versions automatically"@, "新バージョンを自動確認"@))
    } else if ko == "원본 라벨"@ {
        Some(("SOURCE LABELS"@, "元ラベル"@))
    } else if ko == "별점 기준"@ {
        Some(("STAR RATING"@, "評価"@))
    } else if ko == "컬러 태그 기준"@ {
        Some(("COLOR TAGS"@, "カラータグ"@))
    } else if ko == "동작"@ {
        Some(("ACTION"@, "動作"@))
    } else if ko == "동반 파일"@ {
        Some(("COMPANIONS"@, "付随ファイル"@))
    } else if ko == "대상 폴더"@ {
        Some(("DESTINATION"@, "出力先"@))
    } else if ko == "이름 충돌 시"@ {
        Some(("ON FILENAME CONFLICT"@, "同名ファイル時"@))
    } else if ko == "리네임"@ {
        Some(("RENAME"@, "リネーム"@))
    } else if ko == "범위"@ {
        Some(("SCOPE"@, "範囲"@))
    } else if ko == "기준"@ {
        Some(("BY"@, "基準"@))
    } else if ko == "미리보기"@ {
        Some(("PREVIEW"@, "プレビュー"@))
    } else if ko == "전송 대상"@ {
        Some(("WILL TRANSFER"@, "転送対象"@))
    } else if ko == "정리 대상"@ {
        Some(("WILL ORGANIZE"@, "整理対象"@))
    } else if ko == "분석 대상"@ {
        Some(("WILL ANALYZE"@, "分析対象"@))
    } else if ko == "이름 변경"@ {
        Some(("RENAMED"@, "リネーム済み"@))
    } else if ko == "실패 목록"@ {
        Some(("FAILED"@, "失敗"@))
    } else if ko == "찾아보기…"@ {
        Some(("Browse…"@, "参照…"@))
    } else if ko == "복사"@ {
        Some(("Copy"@, "コピー"@))
    } else if ko == "검사"@ {
        Some(("CHECKS"@, "検査"@))
    } else if ko == "옵션"@ {
        Some(("OPTIONS"@, "オプション"@))
    } else {
        None
    }
}

fn ui_part_10(ko: &str) -> (r: Option<(&'static str, &'static str)>)
    ensures
        r is None <==> ui_rows_10(ko@) is None,
        r matches Some((en, ja)) ==> ui_rows_10(ko@) == Some((en@, ja@)),
{
    if str_eq(ko, "다시 실행했습니다") {
        return Some(("Redone", "やり直しました"));
    }
    if str_eq(ko, "되돌릴 작업이 없습니다") {
        return Some(("Nothing to undo", "元に戻す操作がありません"));
    }
    if str_eq(ko, "다시 실행할 작업이 없습니다") {
        return Some(("Nothing to redo", "やり直す操作がありません"));
    }
    if str_eq(ko, "되돌리기") {
        return Some(("Undo", "元に戻す"));
    }
    if str_eq(ko, "다시 실행") {
        return Some(("Redo", "やり直し"));
    }
    if str_eq(ko, "기본값 복원") {
        return Some(("Reset to Defaults", "デフォルトに戻す"));
    }
    if str_eq(ko, "모든 설정을 기본값으로 되돌립니다") {
        return Some(("This resets all settings to their defaults", "すべての設定をデフォルトに戻します"));
    }
    if str_eq(ko, "복원") {
        return Some(("Reset", "リセット"));
    }
    if str_eq(ko, "설정을 기본값으로 되돌렸습니다") {
        return Some(("Settings were reset to defaults", "設定をデフォルトに戻しました"));
    }
    if str_eq(ko, "새 버전 자동 확인") {
        return Some(("Check for new versions automatically", "新バージョンを自動確認"));
    }
    if str_eq(ko, "원본 라벨") {
        return Some(("SOURCE LABELS", "元ラベル"));
    }
    if str_eq(ko, "별점 기준") {
        return Some(("STAR RATING", "評価"));
    }
    if str_eq(ko, "컬러 태그 기준") {
        return Some(("COLOR TAGS", "カラータグ"));
    }
    if str_eq(ko, "동작") {
        return Some(("ACTION", "動作"));
    }
    if str_eq(ko, "동반 파일") {
        return Some(("COMPANIONS", "付随ファイル"));
    }
    if str_eq(ko, "대상 폴더") {
        return Some(("DESTINATION", "出力先"));
    }
    if str_eq(ko, "이름 충돌 시") {
        return Some(("ON FILENAME CONFLICT", "同名ファイル時"));
    }
    if str_eq(ko, "리네임") {
        return Some(("RENAME", "リネーム"));
    }
    if str_eq(ko, "범위") {
        return Some(("SCOPE", "範囲"));
    }
    if str_eq(ko, "기준") {
        return Some(("BY", "基準"));
    }
    if str_eq(ko, "미리보기") {
        return Some(("PREVIEW", "プレビュー"));
    }
    if str_eq(ko, "전송 대상") {
        return Some(("WILL TRANSFER", "転送対象"));
    }
    if str_eq(ko, "정리 대상") {
        return Some(("WILL ORGANIZE", "整理対象"));
    }
    if str_eq(ko, "분석 대상") {
        return Some(("WILL ANALYZE", "分析対象"));
    }
    if str_eq(ko, "이름 변경") {
        return Some(("RENAMED", "リネーム済み"));
    }
    if str_eq(ko, "실패 목록") {
        return Some(("FAILED", "失敗"));
    }
    if str_eq(ko, "찾아보기…") {
        return Some(("Browse…", "参照…"));
    }
    if str_eq(ko, "복사") {
        return Some(("Copy", "コピー"));
    }
    if str_eq(ko, "검사") {
        return Some(("CHECKS", "検査"));
    }
    if str_eq(ko, "옵션") {
        return Some(("OPTIONS", "オプション"));
    }
    None
}

/// Translations (English, Japanese) of the fixed interface strings, rows 331 to 347.
pub open spec fn ui_rows_11(ko: Seq<char>) -> Option<(Seq<char>, Seq<char>)> {
    if ko == "메타 필터"@ {
        Some(("METADATA FILTER"@, "メタフィルタ"@))
    } else if ko == "중복 정리"@ {
        Some(("DEDUP / BEST-OF"@, "重複整理"@))
    } else if ko == "AI 축"@ {
        Some(("AI AXES"@, "AI軸"@))
    } else if ko == "검출"@ {
        Some(("DETECT"@, "検出"@))
    } else if ko == "결과 지정"@ {
        Some(("ASSIGN RESULT TO"@, "結果の割り当て"@))
    } else if ko == "색"@ {
        Some(("Color"@, "色"@))
    } else if ko == "진행"@ {
        Some(("Progress"@, "進行"@))
    } else if ko == "보기 필터"@ {
        Some(("Filter View"@, "表示フィルタ"@))
    } else if ko == "별점 필터"@ {
        Some(("Filter Stars"@, "評価フィルタ"@))
    } else if ko == "색 필터"@ {
        Some(("Filter Color"@, "色フィルタ"@))
    } else if ko == "일반"@ {
        Some(("GENERAL"@, "一般"@))
    } else if ko == "사진 배경"@ {
        Some(("PHOTO BACKGROUND"@, "写真の背景"@))
    } else if ko == "라벨"@ {
        Some(("LABELS"@, "ラベル"@))
    } else if ko == "색 태그 이름"@ {
        Some(("COLOR TAGS"@, "カラータグ"@))
    } else if ko == "캐시"@ {
        Some(("CACHE"@, "キャッシュ"@))
    } else if ko == "초기화"@ {
        Some(("RESET"@, "リセット"@))
    } else if ko == "정보"@ {
        Some(("ABOUT"@, "情報"@))
    } else {
        None
    }
}

fn ui_part_11(ko: &str) -> (r: Option<(&'static str, &'static str)>)
    ensures
        r is None <==> ui_rows_11(ko@) is None,
        r matches Some((en, ja)) ==> ui_rows_11(ko@) == Some((en@, ja@)),
{
    if str_eq(ko, "메타 필터") {
        return Some(("METADATA FILTER", "メタフィルタ"));
    }
    if str_eq(ko, "중복 정리") {
        return Some(("DEDUP / BEST-OF", "重複整理"));
    }
    if str_eq(ko, "AI 축") {
        return Some(("AI AXES", "AI軸"));
    }
    if str_eq(ko, "검출") {
        return Some(("DETECT", "検出"));
    }
    if str_eq(ko, "결과 지정") {
        return Some(("ASSIGN RESULT TO", "結果の割り当て"));
    }
    if str_eq(ko, "색") {
        return Some(("Color", "色"));
    }
    if str_eq(ko, "진행") {
        return Some(("Progress", "進行"));
    }
    if str_eq(ko, "보기 필터") {
        return Some(("Filter View", "表示フィルタ"));
    }
    if str_eq(ko, "별점 필터") {
        return Some(("Filter Stars", "評価フィルタ"));
    }
    if str_eq(ko, "색 필터") {
        return Some(("Filter Color", "色フィルタ"));
    }
    if str_eq(ko, "일반") {
        return Some(("GENERAL", "一般"));
    }
    if str_eq(ko, "사진 배경") {
        return Some(("PHOTO BACKGROUND", "写真の背景"));
    }
    if str_eq(ko, "라벨") {
        return Some(("LABELS", "ラベル"));
    }
    if str_eq(ko, "색 태그 이름") {
        return Some(("COLOR TAGS", "カラータグ"));
    }
    if str_eq(ko, "캐시") {
        return Some(("CACHE", "キャッシュ"));
    }
    if str_eq(ko, "초기화") {
        return Some(("RESET", "リセット"));
    }
    if str_eq(ko, "정보") {
        return Some(("ABOUT", "情報"));
    }
    None
}

/// Translations (English, Japanese) of the templates with `{}` slots, rows 1 to 30.
pub open spec fn fmt_rows_0(ko: Seq<char>) -> Option<(Seq<char>, Seq<char>)> {
    if ko == "{} 항목 로드"@ {
        Some(("Loaded {} items"@, "{} 項目を読み込み"@))
    } else if ko == "✓ {} 파일 전송 · {} 리네임 · {} 실패"@ {
        Some(("✓ {} files transferred · {} renamed · {} failed"@, "✓ {} ファイル転送 · {} リネーム · {} 失敗"@))
    } else if ko == "RAW {} · 이미지 {} · {:.1} MB"@ {
        Some(("RAW {} · Images {} · {:.1} MB"@, "RAW {} · 画像 {} · {:.1} MB"@))
    } else if ko == "원본 {}개를 이동합니다 — 원래 폴더에서 제거됩니다."@ {
        Some(("Moving {} originals — they will be removed from the source folder."@, "元ファイル {} 個を移動します — 元のフォルダからは削除されます。"@))
    } else if ko == "건너뜀 {} — 동명 파일 존재"@ {
        Some(("Skipped {} — same-name file exists"@, "スキップ {} — 同名ファイルあり"@))
    } else if ko == "원본 삭제 실패 {} — 원본 파일이 남아 있습니다"@ {
        Some(("Failed to delete {} originals — the source files remain"@, "元ファイル {} 個の削除に失敗 — 元ファイルが残っています"@))
    } else if ko == "{} 건 매칭"@ {
        Some(("{} matched"@, "{} 件一致"@))
    } else if ko == "매칭 {}건"@ {
        Some(("{} matched"@, "一致 {} 件"@))
    } else if ko == "{}건 → {}"@ {
        Some(("{} → {}"@, "{} 件 → {}"@))
    } else if ko == "썸네일 캐시 사용량 · {}"@ {
        Some(("Thumbnail cache usage · {}"@, "サムネイルキャッシュ使用量 · {}"@))
    } else if ko == "{} / {} 파일"@ {
        Some(("{} / {} files"@, "{} / {} ファイル"@))
    } else if ko == "{} 구성요소"@ {
        Some(("{} components"@, "{} コンポーネント"@))
    } else if ko == "{} 항목"@ {
        Some(("{} items"@, "{} 項目"@))
    } else if ko == "{} / {} 장"@ {
        Some(("{} / {} photos"@, "{} / {} 枚"@))
    } else if ko == "AI 컬링 완료 · 좋음 {} · 탈락 {}"@ {
        Some(("AI culling done · Good {} · Culled {}"@, "AIカリング完了 · 良い {} · 落選 {}"@))
    } else if ko == " · 캐시 {}장"@ {
        Some((" · {} cached"@, " · キャッシュ {}枚"@))
    } else if ko == " · 제외 {}장"@ {
        Some((" · {} skipped"@, " · 除外 {}枚"@))
    } else if ko == "1 ~ {} 사이 번호"@ {
        Some(("Number from 1 to {}"@, "1～{} の番号"@))
    } else if ko == "1 ~ {} 사이 번호를 입력하세요"@ {
        Some(("Enter a number from 1 to {}"@, "1～{} の番号を入力してください"@))
    } else if ko == "마지막 사진 · 미분류 {}장"@ {
        Some(("Last photo · {} unrated"@, "最後の写真 · 未分類 {}枚"@))
    } else if ko == "{} 건 매칭 — 첫 항목으로"@ {
        Some(("{} matched — jumped to first"@, "{} 件一致 — 最初の項目へ"@))
    } else if ko == "다운로드 실패: {}"@ {
        Some(("Download failed: {}"@, "ダウンロード失敗: {}"@))
    } else if ko == "HTTP 오류: {}"@ {
        Some(("HTTP error: {}"@, "HTTPエラー: {}"@))
    } else if ko == "폴더 생성 실패: {}"@ {
        Some(("Failed to create folder: {}"@, "フォルダ作成失敗: {}"@))
    } else if ko == "파일 생성: {}"@ {
        Some(("create file: {}"@, "ファイル作成: {}"@))
    } else if ko == "쓰기 오류: {}"@ {
        Some(("write error: {}"@, "書き込みエラー: {}"@))
    } else if ko == "읽기 오류: {}"@ {
        Some(("read error: {}"@, "読み取りエラー: {}"@))
    } else if ko == "검증 열기: {}"@ {
        Some(("open for verify: {}"@, "検証用オープン: {}"@))
    } else if ko == "해시 읽기: {}"@ {
        Some(("hash read: {}"@, "ハッシュ読み取り: {}"@))
    } else if ko == "파일 이동: {}"@ {
        Some(("move file: {}"@, "ファイル移動: {}"@))
    } else {
        None
    }
}

fn fmt_part_0(ko: &str) -> (r: Option<(&'static str, &'static str)>)
    ensures
        r is None <==> fmt_rows_0(ko@) is None,
        r matches Some((en, ja)) ==> fmt_rows_0(ko@) == Some((en@, ja@)),
{
    if str_eq(ko, "{} 항목 로드") {
        return Some(("Loaded {} items", "{} 項目を読み込み"));
    }
    if str_eq(ko, "✓ {} 파일 전송 · {} 리네임 · {} 실패") {
        return Some(("✓ {} files transferred · {} renamed · {} failed", "✓ {} ファイル転送 · {} リネーム · {} 失敗"));
    }
    if str_eq(ko, "RAW {} · 이미지 {} · {:.1} MB") {
        return Some(("RAW {} · Images {} · {:.1} MB", "RAW {} · 画像 {} · {:.1} MB"));
    }
    if str_eq(ko, "원본 {}개를 이동합니다 — 원래 폴더에서 제거됩니다.") {
        return Some(("Moving {} originals — they will be removed from the source folder.", "元ファイル {} 個を移動します — 元のフォルダからは削除されます。"));
    }
    if str_eq(ko, "건너뜀 {} — 동명 파일 존재") {
        return Some(("Skipped {} — same-name file exists", "スキップ {} — 同名ファイルあり"));
    }
    if str_eq(ko, "원본 삭제 실패 {} — 원본 파일이 남아 있습니다") {
        return Some(("Failed to delete {} originals — the source files remain", "元ファイル {} 個の削除に失敗 — 元ファイルが残っています"));
    }
    if str_eq(ko, "{} 건 매칭") {
        return Some(("{} matched", "{} 件一致"));
    }
    if str_eq(ko, "매칭 {}건") {
        return Some(("{} matched", "一致 {} 件"));
    }
    if str_eq(ko, "{}건 → {}") {
        return Some(("{} → {}", "{} 件 → {}"));
    }
    if str_eq(ko, "썸네일 캐시 사용량 · {}") {
        return Some(("Thumbnail cache usage · {}", "サムネイルキャッシュ使用量 · {}"));
    }
    if str_eq(ko, "{} / {} 파일") {
        return Some(("{} / {} files", "{} / {} ファイル"));
    }
    if str_eq(ko, "{} 구성요소") {
        return Some(("{} components", "{} コンポーネント"));
    }
    if str_eq(ko, "{} 항목") {
        return Some(("{} items", "{} 項目"));
    }
    if str_eq(ko, "{} / {} 장") {
        return Some(("{} / {} photos", "{} / {} 枚"));
    }
    if str_eq(ko, "AI 컬링 완료 · 좋음 {} · 탈락 {}") {
        return Some(("AI culling done · Good {} · Culled {}", "AIカリング完了 · 良い {} · 落選 {}"));
    }
    if str_eq(ko, " · 캐시 {}장") {
        return Some((" · {} cached", " · キャッシュ {}枚"));
    }
    if str_eq(ko, " · 제외 {}장") {
        return Some((" · {} skipped", " · 除外 {}枚"));
    }
    if str_eq(ko, "1 ~ {} 사이 번호") {
        return Some(("Number from 1 to {}", "1～{} の番号"));
    }
    if str_eq(ko, "1 ~ {} 사이 번호를 입력하세요") {
        return Some(("Enter a number from 1 to {}", "1～{} の番号を入力してください"));
    }
    if str_eq(ko, "마지막 사진 · 미분류 {}장") {
        return Some(("Last photo · {} unrated", "最後の写真 · 未分類 {}枚"));
    }
    if str_eq(ko, "{} 건 매칭 — 첫 항목으로") {
        return Some(("{} matched — jumped to first", "{} 件一致 — 最初の項目へ"));
    }
    if str_eq(ko, "다운로드 실패: {}") {
        return Some(("Download failed: {}", "ダウンロード失敗: {}"));
    }
    if str_eq(ko, "HTTP 오류: {}") {
        return Some(("HTTP error: {}", "HTTPエラー: {}"));
    }
    if str_eq(ko, "폴더 생성 실패: {}") {
        return Some(("Failed to create folder: {}", "フォルダ作成失敗: {}"));
    }
    if str_eq(ko, "파일 생성: {}") {
        return Some(("create file: {}", "ファイル作成: {}"));
    }
    if str_eq(ko, "쓰기 오류: {}") {
        return Some(("write error: {}", "書き込みエラー: {}"));
    }
    if str_eq(ko, "읽기 오류: {}") {
        return Some(("read error: {}", "読み取りエラー: {}"));
    }
    if str_eq(ko, "검증 열기: {}") {
        return Some(("open for verify: {}", "検証用オープン: {}"));
    }
    if str_eq(ko, "해시 읽기: {}") {
        return Some(("hash read: {}", "ハッシュ読み取り: {}"));
    }
    if str_eq(ko, "파일 이동: {}") {
        return Some(("move file: {}", "ファイル移動: {}"));
    }
    None
}

/// Translations (English, Japanese) of the templates with `{}` slots, rows 31 to 33.
pub open spec fn fmt_rows_1(ko: Seq<char>) -> Option<(Seq<char>, Seq<char>)> {
    if ko == "sha256 불일치 — 다시 시도해주세요\n예상: {}\n실제: {}"@ {
        Some(("sha256 mismatch — please retry\nexpected: {}\nactual: {}"@, "sha256不一致 — もう一度お試しください\n期待値: {}\n実際: {}"@))
    } else if ko == "셀렉 저장 실패: {} — 폴더 쓰기 권한·용량을 확인하세요"@ {
        Some(("Failed to save selections: {} — check folder write permission/space"@, "セレクトの保存に失敗: {} — フォルダの書き込み権限・空き容量を確認してください"@))
    } else if ko == "이전 폴더({}) 셀렉 저장 실패 — 최근 변경이 유실될 수 있습니다"@ {
        Some(("Failed to save selections for previous folder ({}) — recent changes may be lost"@, "前のフォルダ（{}）のセレクト保存に失敗 — 直近の変更が失われた可能性があります"@))
    } else {
        None
    }
}

fn fmt_part_1(ko: &str) -> (r: Option<(&'static str, &'static str)>)
    ensures
        r is None <==> fmt_rows_1(ko@) is None,
        r matches Some((en, ja)) ==> fmt_rows_1(ko@) == Some((en@, ja@)),
{
    if str_eq(ko, "sha256 불일치 — 다시 시도해주세요\n예상: {}\n실제: {}") {
        return Some(("sha256 mismatch — please retry\nexpected: {}\nactual: {}", "sha256不一致 — もう一度お試しください\n期待値: {}\n実際: {}"));
    }
    if str_eq(ko, "셀렉 저장 실패: {} — 폴더 쓰기 권한·용량을 확인하세요") {
        return Some(("Failed to save selections: {} — check folder write permission/space", "セレクトの保存に失敗: {} — フォルダの書き込み権限・空き容量を確認してください"));
    }
    if str_eq(ko, "이전 폴더({}) 셀렉 저장 실패 — 최근 변경이 유실될 수 있습니다") {
        return Some(("Failed to save selections for previous folder ({}) — recent changes may be lost", "前のフォルダ（{}）のセレクト保存に失敗 — 直近の変更が失われた可能性があります"));
    }
    None
}

/// The translation table of the fixed interface strings, keyed by the Korean text.
pub open spec fn ui_table(ko: Seq<char>) -> Option<(Seq<char>, Seq<char>)> {
    if ui_rows_0(ko) is Some {
        ui_rows_0(ko)
    } else if ui_rows_1(ko) is Some {
        ui_rows_1(ko)
    } else if ui_rows_2(ko) is Some {
        ui_rows_2(ko)
    } else if ui_rows_3(ko) is Some {
        ui_rows_3(ko)
    } else if ui_rows_4(ko) is Some {
        ui_rows_4(ko)
    } else if ui_rows_5(ko) is Some {
        ui_rows_5(ko)
    } else if ui_rows_6(ko) is Some {
        ui_rows_6(ko)
    } else if ui_rows_7(ko) is Some {
        ui_rows_7(ko)
    } else if ui_rows_8(ko) is Some {
        ui_rows_8(ko)
    } else if ui_rows_9(ko) is Some {
        ui_rows_9(ko)
    } else if ui_rows_10(ko) is Some {
        ui_rows_10(ko)
    } else if ui_rows_11(ko) is Some {
        ui_rows_11(ko)
    } else {
        None
    }
}

/// (English, Japanese) translation of a fixed interface string, keyed by its Korean text.
pub fn lookup(ko: &str) -> (r: Option<(&'static str, &'static str)>)
    ensures
        r is None <==> ui_table(ko@) is None,
        r matches Some((en, ja)) ==> ui_table(ko@) == Some((en@, ja@)),
{
    let r = ui_part_0(ko);
    if r.is_some() {
        return r;
    }
    let r = ui_part_1(ko);
    if r.is_some() {
        return r;
    }
    let r = ui_part_2(ko);
    if r.is_some() {
        return r;
    }
    let r = ui_part_3(ko);
    if r.is_some() {
        return r;
    }
    let r = ui_part_4(ko);
    if r.is_some() {
        return r;
    }
    let r = ui_part_5(ko);
    if r.is_some() {
        return r;
    }
    let r = ui_part_6(ko);
    if r.is_some() {
        return r;
    }
    let r = ui_part_7(ko);
    if r.is_some() {
        return r;
    }
    let r = ui_part_8(ko);
    if r.is_some() {
        return r;
    }
    let r = ui_part_9(ko);
    if r.is_some() {
        return r;
    }
    let r = ui_part_10(ko);
    if r.is_some() {
        return r;
    }
    let r = ui_part_11(ko);
    if r.is_some() {
        return r;
    }
    None
}

/// The translation table of the templates, keyed by the Korean template.
pub open spec fn fmt_table(ko: Seq<char>) -> Option<(Seq<char>, Seq<char>)> {
    if fmt_rows_0(ko) is Some {
        fmt_rows_0(ko)
    } else if fmt_rows_1(ko) is Some {
        fmt_rows_1(ko)
    } else {
        None
    }
}

/// (English, Japanese) translation of a template with `{}` slots, keyed by its Korean text.
pub fn fmt_lookup(ko: &str) -> (r: Option<(&'static str, &'static str)>)
    ensures
        r is None <==> fmt_table(ko@) is None,
        r matches Some((en, ja)) ==> fmt_table(ko@) == Some((en@, ja@)),
{
    let r = fmt_part_0(ko);
    if r.is_some() {
        return r;
    }
    let r = fmt_part_1(ko);
    if r.is_some() {
        return r;
    }
    None
}
} // verus!
