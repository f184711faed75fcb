use bash_pinyin_completion_rs::classify::{
    contains_han, is_ascii_digit, is_ascii_letter, is_han, is_path_symbol, is_pure_english_path,
};
use bash_pinyin_completion_rs::cli::{
    parse_invocation, usage_message, Invocation, EXIT_SUCCESS, EXIT_USAGE,
};
use bash_pinyin_completion_rs::config::{
    apply_defaults, mode_of_variable, parse_mode, parse_pinyin_notation, parse_romaji_mode, pinyin_notation_of,
    romaji_mode_of, scheme_of_token, token_is, tokens_of_mode, ModeSelection, RomajiMode,
};
use bash_pinyin_completion_rs::filter::{
    candidate_of_line, decide_line, decide_name, filter_candidates,
};
use bash_pinyin_completion_rs::matcher::{CandidateMatcher, Romanizer};
use bash_pinyin_completion_rs::notation::{
    PinyinNotationSet, ShuangpinScheme, ASCII_BIT, ASCII_FIRST_LETTER_BIT, DILETTER_ABC_BIT,
    DILETTER_JIAJIA_BIT, DILETTER_MICROSOFT_BIT, DILETTER_THUNISOFT_BIT, DILETTER_XIAOHE_BIT,
    DILETTER_ZRM_BIT, NOTATION_MASK,
};
use bash_pinyin_completion_rs::query::{is_fold_length_changing, query_is_supported};
use ib_matcher::pinyin::PinyinNotation;
use ib_matcher::unicode::case::CharCaseExt;
use bash_pinyin_completion_rs::text::{
    chars_of, is_white_space, split_trimmed, trim_end, trim_range,
};

fn set(ascii: bool, ascii_first_letter: bool, shuangpin: Option<ShuangpinScheme>) -> PinyinNotationSet {
    PinyinNotationSet { ascii, ascii_first_letter, shuangpin }
}

fn strings(items: &[&str]) -> Vec<String> {
    items.iter().map(|s| String::from(*s)).collect()
}

fn token(text: &str) -> Vec<char> {
    text.chars().collect()
}

fn tokens(items: &[&str]) -> Vec<Vec<char>> {
    items.iter().map(|s| token(s)).collect()
}

// ---- white space and trimming ----

#[test]
fn white_space_agrees_with_the_standard_library_on_every_char() {
    for code in 0u32..=0x10ffff {
        if let Some(c) = char::from_u32(code) {
            assert_eq!(is_white_space(c), c.is_whitespace(), "U+{:04X}", code);
        }
    }
}

#[test]
fn trim_end_cuts_trailing_white_space_only() {
    assert_eq!(trim_end("你好 世界"), "你好 世界");
    assert_eq!(trim_end("  中国  "), "  中国");
    assert_eq!(trim_end("abc\r\n"), "abc");
    assert_eq!(trim_end("abc\t \u{3000}\u{a0}"), "abc");
    assert_eq!(trim_end(" a b "), " a b");
    assert_eq!(trim_end(""), "");
    assert_eq!(trim_end("   "), "");
    assert_eq!(trim_end("x"), "x");
}

#[test]
fn trim_end_agrees_with_the_standard_library() {
    let samples = [
        "", " ", "a", " a", "a ", " a ", "a\n", "a\r\n", "\u{2003}a\u{2003}", "你 好 \u{3000}",
        "\u{85}", "a\u{200b}", "a\u{200a}", "a\u{feff}", "tab\tin\tside\t",
    ];
    for sample in samples {
        assert_eq!(trim_end(sample), sample.trim_end(), "{:?}", sample);
    }
}

#[test]
fn trim_range_trims_both_ends_of_the_range() {
    let chars = chars_of("ab,  cd e \t,f");
    assert_eq!(trim_range(&chars, 0, 2), token("ab"));
    assert_eq!(trim_range(&chars, 3, 11), token("cd e"));
    assert_eq!(trim_range(&chars, 12, 13), token("f"));
    assert_eq!(trim_range(&chars, 3, 5), token(""));
    assert_eq!(trim_range(&chars, 4, 4), token(""));
    assert_eq!(trim_range(&chars, 0, 13), token("ab,  cd e \t,f"));
}

#[test]
fn chars_of_lists_the_characters_in_order() {
    assert_eq!(chars_of(""), Vec::<char>::new());
    assert_eq!(chars_of("a你b"), vec!['a', '你', 'b']);
}

#[test]
fn split_trimmed_splits_like_split_then_trim() {
    let samples = ["", ",", "a", "a,b", " a , b ", ",,", "a,,b", "a,", ",a", " , ", "Quanpin, ShuangpinZrm"];
    for sample in samples {
        let expected: Vec<Vec<char>> = sample.split(',').map(|t| t.trim().chars().collect()).collect();
        assert_eq!(split_trimmed(&chars_of(sample), ','), expected, "{:?}", sample);
    }
}

#[test]
fn split_trimmed_keeps_empty_pieces() {
    assert_eq!(split_trimmed(&chars_of(""), ','), tokens(&[""]));
    assert_eq!(split_trimmed(&chars_of(",,"), ','), tokens(&["", "", ""]));
    assert_eq!(split_trimmed(&chars_of("a; b"), ';'), tokens(&["a", "b"]));
}

// ---- classification ----

#[test]
fn pure_english_needs_a_letter_and_nothing_outside_the_plain_set() {
    assert!(is_pure_english_path("hello"));
    assert!(is_pure_english_path("src/main.rs"));
    assert!(is_pure_english_path("~/.config/foo-bar_9"));
    assert!(is_pure_english_path("a"));
    assert!(is_pure_english_path("Z"));
    assert!(is_pure_english_path("9a"));
}

#[test]
fn pure_english_rejects_the_empty_string_and_strings_without_letters() {
    assert!(!is_pure_english_path(""));
    assert!(!is_pure_english_path("123"));
    assert!(!is_pure_english_path("._-/~"));
    assert!(!is_pure_english_path("2024-01-01"));
}

#[test]
fn pure_english_rejects_any_other_character() {
    assert!(!is_pure_english_path("hello world"));
    assert!(!is_pure_english_path("a+b"));
    assert!(!is_pure_english_path("a,b"));
    assert!(!is_pure_english_path("你好"));
    assert!(!is_pure_english_path("abc你"));
    assert!(!is_pure_english_path("你abc"));
    assert!(!is_pure_english_path("héllo"));
    assert!(!is_pure_english_path("a\tb"));
    assert!(!is_pure_english_path("a@b"));
    assert!(!is_pure_english_path("a[b"));
    assert!(!is_pure_english_path("a`b"));
    assert!(!is_pure_english_path("a{b"));
    assert!(!is_pure_english_path("a:b"));
}

#[test]
fn character_classes_agree_with_the_standard_library() {
    for code in 0u32..=0x2ff {
        let c = char::from_u32(code).unwrap();
        assert_eq!(is_ascii_letter(c), c.is_ascii_alphabetic(), "U+{:04X}", code);
        assert_eq!(is_ascii_digit(c), c.is_ascii_digit(), "U+{:04X}", code);
        assert_eq!(is_path_symbol(c), matches!(c, '_' | '-' | '.' | '/' | '~'), "U+{:04X}", code);
    }
}

#[test]
fn han_covers_ideographs_and_not_kana_or_latin() {
    assert!(is_han('中'));
    assert!(is_han('国'));
    assert!(is_han('日'));
    assert!(is_han('々'));
    assert!(is_han('〇'));
    assert!(is_han('\u{3400}'));
    assert!(is_han('\u{4dbf}'));
    assert!(is_han('\u{4e00}'));
    assert!(is_han('\u{9fff}'));
    assert!(is_han('\u{20000}'));
    assert!(is_han('\u{323af}'));
    assert!(!is_han('a'));
    assert!(!is_han('1'));
    assert!(!is_han('あ'));
    assert!(!is_han('ア'));
    assert!(!is_han('한'));
    assert!(!is_han('\u{2e9a}'));
    assert!(!is_han('\u{3006}'));
    assert!(!is_han('\u{33ff}'));
    assert!(!is_han('\u{4dc0}'));
    assert!(!is_han('\u{a000}'));
    assert!(!is_han('\u{fa6e}'));
    assert!(!is_han('\u{1ffff}'));
    assert!(!is_han('\u{323b0}'));
    assert!(!is_han('\u{10ffff}'));
}

#[test]
fn contains_han_looks_at_every_character() {
    assert!(contains_han("中国"));
    assert!(contains_han("report-终.txt"));
    assert!(contains_han("abc中"));
    assert!(!contains_han(""));
    assert!(!contains_han("readme.md"));
    assert!(!contains_han("おはよう"));
}

// ---- the notation set ----

#[test]
fn bits_are_the_sum_of_the_member_bits() {
    assert_eq!(PinyinNotationSet::empty().bits(), 0);
    assert_eq!(set(true, false, None).bits(), 0x2);
    assert_eq!(set(false, true, None).bits(), 0x1);
    assert_eq!(set(true, true, None).bits(), 0x3);
    assert_eq!(set(false, false, Some(ShuangpinScheme::Abc)).bits(), 0x10);
    assert_eq!(set(false, false, Some(ShuangpinScheme::Jiajia)).bits(), 0x20);
    assert_eq!(set(false, false, Some(ShuangpinScheme::Microsoft)).bits(), 0x40);
    assert_eq!(set(false, false, Some(ShuangpinScheme::Thunisoft)).bits(), 0x80);
    assert_eq!(set(false, false, Some(ShuangpinScheme::Xiaohe)).bits(), 0x100);
    assert_eq!(set(false, false, Some(ShuangpinScheme::Zrm)).bits(), 0x200);
    assert_eq!(set(true, false, Some(ShuangpinScheme::Xiaohe)).bits(), 0x102);
    assert_eq!(set(true, true, Some(ShuangpinScheme::Zrm)).bits(), 0x203);
}

#[test]
fn scheme_bits_are_distinct() {
    let schemes = [
        ShuangpinScheme::Abc,
        ShuangpinScheme::Jiajia,
        ShuangpinScheme::Microsoft,
        ShuangpinScheme::Thunisoft,
        ShuangpinScheme::Xiaohe,
        ShuangpinScheme::Zrm,
    ];
    for (i, a) in schemes.iter().enumerate() {
        assert_eq!(a.to_bit().count_ones(), 1);
        for b in &schemes[i + 1..] {
            assert_ne!(a.to_bit(), b.to_bit());
        }
    }
}

#[test]
fn empty_and_ascii_only_are_told_apart() {
    assert!(PinyinNotationSet::empty().is_empty());
    assert!(!PinyinNotationSet::empty().is_ascii_only());
    assert!(set(true, false, None).is_ascii_only());
    assert!(!set(true, false, None).is_empty());
    assert!(!set(true, true, None).is_ascii_only());
    assert!(!set(true, false, Some(ShuangpinScheme::Abc)).is_ascii_only());
    assert!(!set(false, false, Some(ShuangpinScheme::Abc)).is_empty());
    assert!(!set(false, true, None).is_empty());
}

// ---- the mode value ----

#[test]
fn token_is_compares_whole_tokens() {
    assert!(token_is(&token("Quanpin"), "Quanpin"));
    assert!(!token_is(&token("Quanpi"), "Quanpin"));
    assert!(!token_is(&token("Quanpinn"), "Quanpin"));
    assert!(!token_is(&token("quanpin"), "Quanpin"));
    assert!(!token_is(&token(""), "Quanpin"));
    assert!(token_is(&token(""), ""));
    assert!(!token_is(&token("a"), ""));
    assert!(!token_is(&token("Romaji"), "RomajiFull"));
    assert!(!token_is(&token("RomajiFull"), "Romaji"));
}

#[test]
fn scheme_of_token_knows_the_six_schemes() {
    assert_eq!(scheme_of_token(&token("ShuangpinAbc")), Some(ShuangpinScheme::Abc));
    assert_eq!(scheme_of_token(&token("ShuangpinJiajia")), Some(ShuangpinScheme::Jiajia));
    assert_eq!(scheme_of_token(&token("ShuangpinMicrosoft")), Some(ShuangpinScheme::Microsoft));
    assert_eq!(scheme_of_token(&token("ShuangpinThunisoft")), Some(ShuangpinScheme::Thunisoft));
    assert_eq!(scheme_of_token(&token("ShuangpinXiaohe")), Some(ShuangpinScheme::Xiaohe));
    assert_eq!(scheme_of_token(&token("ShuangpinZrm")), Some(ShuangpinScheme::Zrm));
    assert_eq!(scheme_of_token(&token("Shuangpin")), None);
    assert_eq!(scheme_of_token(&token("shuangpinabc")), None);
    assert_eq!(scheme_of_token(&token("Quanpin")), None);
    assert_eq!(scheme_of_token(&token("")), None);
}

#[test]
fn tokens_of_mode_splits_on_commas_and_trims() {
    assert_eq!(tokens_of_mode(""), tokens(&[""]));
    assert_eq!(tokens_of_mode("Quanpin"), tokens(&["Quanpin"]));
    assert_eq!(tokens_of_mode(" Quanpin ,\tShuangpinZrm "), tokens(&["Quanpin", "ShuangpinZrm"]));
    assert_eq!(tokens_of_mode("a,,b,"), tokens(&["a", "", "b", ""]));
}

#[test]
fn absent_or_empty_mode_is_full_pinyin_with_initials() {
    assert_eq!(parse_pinyin_notation(""), set(true, true, None));
    assert_eq!(parse_romaji_mode(""), RomajiMode::Disabled);
    assert_eq!(
        parse_mode(""),
        ModeSelection { notation: set(true, true, None), romaji: RomajiMode::Disabled }
    );
}

#[test]
fn quanpin_alone_also_accepts_initials() {
    assert_eq!(parse_pinyin_notation("Quanpin"), set(true, true, None));
    assert_eq!(parse_pinyin_notation("Quanpin,Quanpin"), set(true, true, None));
}

#[test]
fn each_shuangpin_token_selects_its_scheme_alone() {
    assert_eq!(parse_pinyin_notation("ShuangpinAbc"), set(false, false, Some(ShuangpinScheme::Abc)));
    assert_eq!(
        parse_pinyin_notation("ShuangpinJiajia"),
        set(false, false, Some(ShuangpinScheme::Jiajia))
    );
    assert_eq!(
        parse_pinyin_notation("ShuangpinMicrosoft"),
        set(false, false, Some(ShuangpinScheme::Microsoft))
    );
    assert_eq!(
        parse_pinyin_notation("ShuangpinThunisoft"),
        set(false, false, Some(ShuangpinScheme::Thunisoft))
    );
    assert_eq!(
        parse_pinyin_notation("ShuangpinXiaohe"),
        set(false, false, Some(ShuangpinScheme::Xiaohe))
    );
    assert_eq!(parse_pinyin_notation("ShuangpinZrm"), set(false, false, Some(ShuangpinScheme::Zrm)));
}

#[test]
fn quanpin_with_shuangpin_has_no_initials() {
    assert_eq!(
        parse_pinyin_notation("Quanpin,ShuangpinXiaohe"),
        set(true, false, Some(ShuangpinScheme::Xiaohe))
    );
    assert_eq!(
        parse_pinyin_notation("ShuangpinXiaohe,Quanpin"),
        set(true, false, Some(ShuangpinScheme::Xiaohe))
    );
}

#[test]
fn first_shuangpin_token_wins() {
    assert_eq!(
        parse_pinyin_notation("Quanpin,ShuangpinZrm,ShuangpinXiaohe"),
        set(true, false, Some(ShuangpinScheme::Zrm))
    );
    assert_eq!(
        parse_pinyin_notation("ShuangpinXiaohe,ShuangpinZrm"),
        set(false, false, Some(ShuangpinScheme::Xiaohe))
    );
    assert_eq!(
        parse_pinyin_notation("Invalid,ShuangpinAbc,ShuangpinAbc,ShuangpinJiajia"),
        set(false, false, Some(ShuangpinScheme::Abc))
    );
}

#[test]
fn unrecognized_tokens_are_ignored() {
    assert_eq!(parse_pinyin_notation("Invalid"), set(true, true, None));
    assert_eq!(parse_pinyin_notation("quanpin"), set(true, true, None));
    assert_eq!(parse_pinyin_notation("Quan pin"), set(true, true, None));
    assert_eq!(parse_pinyin_notation(",,,"), set(true, true, None));
    assert_eq!(parse_pinyin_notation("Romaji"), set(true, true, None));
    assert_eq!(
        parse_pinyin_notation("Invalid,ShuangpinXiaohe,Other"),
        set(false, false, Some(ShuangpinScheme::Xiaohe))
    );
    assert_eq!(parse_romaji_mode("Invalid"), RomajiMode::Disabled);
    assert_eq!(parse_romaji_mode("romaji"), RomajiMode::Disabled);
    assert_eq!(parse_romaji_mode("RomajiFast"), RomajiMode::Disabled);
}

#[test]
fn tokens_are_trimmed_before_they_are_read() {
    assert_eq!(
        parse_pinyin_notation(" Quanpin , ShuangpinXiaohe "),
        set(true, false, Some(ShuangpinScheme::Xiaohe))
    );
    assert_eq!(parse_romaji_mode("  RomajiFull\t"), RomajiMode::Full);
    assert_eq!(parse_romaji_mode("Quanpin ,\u{3000}Romaji"), RomajiMode::Fast);
}

#[test]
fn romaji_mode_is_full_wherever_full_is_named() {
    assert_eq!(parse_romaji_mode("Romaji"), RomajiMode::Fast);
    assert_eq!(parse_romaji_mode("RomajiFull"), RomajiMode::Full);
    assert_eq!(parse_romaji_mode("Romaji,RomajiFull"), RomajiMode::Full);
    assert_eq!(parse_romaji_mode("RomajiFull,Romaji"), RomajiMode::Full);
    assert_eq!(parse_romaji_mode("Romaji,Quanpin,RomajiFull,Romaji"), RomajiMode::Full);
    assert_eq!(parse_romaji_mode("Quanpin,ShuangpinZrm"), RomajiMode::Disabled);
}

#[test]
fn notation_and_romaji_are_resolved_independently() {
    assert_eq!(
        parse_mode("Quanpin,Romaji"),
        ModeSelection { notation: set(true, true, None), romaji: RomajiMode::Fast }
    );
    assert_eq!(
        parse_mode("RomajiFull,ShuangpinAbc,Quanpin"),
        ModeSelection {
            notation: set(true, false, Some(ShuangpinScheme::Abc)),
            romaji: RomajiMode::Full
        }
    );
    assert_eq!(
        parse_mode("Romaji"),
        ModeSelection { notation: set(true, true, None), romaji: RomajiMode::Fast }
    );
}

#[test]
fn token_level_functions_agree_with_the_parsers() {
    let values = ["", "Quanpin", "Romaji, ShuangpinZrm", "x,RomajiFull,Quanpin", "ShuangpinAbc,ShuangpinZrm"];
    for value in values {
        let toks = tokens_of_mode(value);
        assert_eq!(pinyin_notation_of(&toks), parse_pinyin_notation(value), "{:?}", value);
        assert_eq!(romaji_mode_of(&toks), parse_romaji_mode(value), "{:?}", value);
    }
}

#[test]
fn defaults_fill_the_empty_set_and_join_initials_to_plain_quanpin() {
    assert_eq!(apply_defaults(PinyinNotationSet::empty()), set(true, true, None));
    assert_eq!(apply_defaults(set(true, false, None)), set(true, true, None));
    assert_eq!(apply_defaults(set(true, true, None)), set(true, true, None));
    assert_eq!(apply_defaults(set(false, true, None)), set(false, true, None));
    assert_eq!(
        apply_defaults(set(false, false, Some(ShuangpinScheme::Zrm))),
        set(false, false, Some(ShuangpinScheme::Zrm))
    );
    assert_eq!(
        apply_defaults(set(true, false, Some(ShuangpinScheme::Zrm))),
        set(true, false, Some(ShuangpinScheme::Zrm))
    );
}

// ---- the command line ----

#[test]
fn a_call_without_a_query_is_answered_by_the_usage_line() {
    let invocation = parse_invocation(&strings(&["/usr/bin/pinyin-filter"]));
    assert_eq!(
        invocation,
        Invocation::Usage { message: String::from("Usage: /usr/bin/pinyin-filter <pinyin>") }
    );
    assert_eq!(invocation.exit_status(), 1);
    assert_eq!(EXIT_USAGE, 1);
}

#[test]
fn the_first_argument_after_the_name_is_the_query() {
    let invocation = parse_invocation(&strings(&["prog", "zhong", "guo"]));
    assert_eq!(invocation, Invocation::Filter { query: String::from("zhong") });
    assert_eq!(invocation.exit_status(), 0);
    assert_eq!(EXIT_SUCCESS, 0);
}

#[test]
fn an_empty_query_is_a_query() {
    assert_eq!(
        parse_invocation(&strings(&["prog", ""])),
        Invocation::Filter { query: String::new() }
    );
}

#[test]
fn usage_message_names_the_program() {
    assert_eq!(usage_message("prog"), "Usage: prog <pinyin>");
    assert_eq!(usage_message(""), "Usage:  <pinyin>");
}

// ---- the matcher and the filter ----

#[test]
fn matching_is_anchored_at_the_start_of_the_candidate() {
    let selection = parse_mode("");
    let romanizer = Romanizer::load(selection.romaji);
    let matcher = CandidateMatcher::new("hao", selection.notation, &romanizer);
    assert_eq!(matcher.try_match("你好"), Some(false));
    assert_eq!(matcher.try_match("好"), Some(true));
    let matcher = CandidateMatcher::new("nihao", selection.notation, &romanizer);
    assert_eq!(matcher.try_match("你好"), Some(true));
    assert_eq!(matcher.try_match("你好世界"), Some(true));
    assert_eq!(matcher.try_match("世界你好"), Some(false));
}

#[test]
fn the_notation_set_reaches_the_matcher() {
    let romanizer = Romanizer::load(RomajiMode::Disabled);
    let initials = CandidateMatcher::new("zg", set(true, true, None), &romanizer);
    assert_eq!(initials.try_match("中国"), Some(true));
    let no_initials = CandidateMatcher::new("zg", set(true, false, None), &romanizer);
    assert_eq!(no_initials.try_match("中国"), Some(false));
    let xiaohe = set(false, false, Some(ShuangpinScheme::Xiaohe));
    let zrm = set(false, false, Some(ShuangpinScheme::Zrm));
    assert_eq!(CandidateMatcher::new("ulpb", xiaohe, &romanizer).try_match("双拼"), Some(true));
    assert_eq!(CandidateMatcher::new("ulpb", zrm, &romanizer).try_match("双拼"), Some(false));
    assert_eq!(CandidateMatcher::new("udpn", zrm, &romanizer).try_match("双拼"), Some(true));
    assert_eq!(CandidateMatcher::new("udpn", xiaohe, &romanizer).try_match("双拼"), Some(false));
}

#[test]
fn the_query_reaches_the_matcher() {
    let selection = parse_mode("");
    let romanizer = Romanizer::load(selection.romaji);
    let ni = CandidateMatcher::new("ni", selection.notation, &romanizer);
    let shi = CandidateMatcher::new("shi", selection.notation, &romanizer);
    assert_eq!(ni.try_match("你好"), Some(true));
    assert_eq!(shi.try_match("你好"), Some(false));
    assert_eq!(shi.try_match("世界"), Some(true));
    assert_eq!(ni.try_match("世界"), Some(false));
}

#[test]
fn the_romanizer_of_each_mode_differs() {
    let notation = set(true, true, None);
    let none = Romanizer::load(RomajiMode::Disabled);
    let fast = Romanizer::load(RomajiMode::Fast);
    let full = Romanizer::load(RomajiMode::Full);
    assert_eq!(CandidateMatcher::new("ohayo", notation, &none).try_match("おはよう"), Some(false));
    assert_eq!(CandidateMatcher::new("ohayo", notation, &fast).try_match("おはよう"), Some(true));
    assert_eq!(CandidateMatcher::new("ohayo", notation, &full).try_match("おはよう"), Some(true));
    assert_eq!(CandidateMatcher::new("kyou", notation, &none).try_match("今日"), Some(false));
    assert_eq!(CandidateMatcher::new("kyou", notation, &fast).try_match("今日"), Some(false));
    assert_eq!(CandidateMatcher::new("kyou", notation, &full).try_match("今日"), Some(true));
}

#[test]
fn select_line_trims_then_classifies_then_matches() {
    let selection = parse_mode("");
    let romanizer = Romanizer::load(selection.romaji);
    let matcher = CandidateMatcher::new("ni", selection.notation, &romanizer);
    assert_eq!(matcher.select_line("你好"), Some("你好"));
    assert_eq!(matcher.select_line("你好  \r\n"), Some("你好"));
    assert_eq!(matcher.select_line("你好 世界\n"), Some("你好 世界"));
    assert_eq!(matcher.select_line("  你好"), None);
    assert_eq!(matcher.select_line("世界"), None);
    assert_eq!(matcher.select_line("nice"), None);
    assert_eq!(matcher.select_line("nice  "), None);
    assert_eq!(matcher.select_line("ni ce"), Some("ni ce"));
    assert_eq!(matcher.select_line(""), None);
}

#[test]
fn select_read_passes_over_what_could_not_be_read() {
    let selection = parse_mode("");
    let romanizer = Romanizer::load(selection.romaji);
    let matcher = CandidateMatcher::new("", selection.notation, &romanizer);
    assert_eq!(matcher.select_read(None), None);
    assert_eq!(matcher.select_read(Some("你好 ")), Some("你好"));
    assert_eq!(matcher.select_read(Some("hello")), None);
}

#[test]
fn filter_lines_keeps_order_and_repeats() {
    let selection = parse_mode("");
    let romanizer = Romanizer::load(selection.romaji);
    let matcher = CandidateMatcher::new("ce", selection.notation, &romanizer);
    let lines = strings(&["测量", "测试 ", "hello", "测量", "世界", "测试", "测量\t"]);
    assert_eq!(matcher.filter_lines(&lines), strings(&["测量", "测试", "测量", "测试", "测量"]));
    assert_eq!(matcher.filter_lines(&Vec::new()), Vec::<String>::new());
}

#[test]
fn filtering_twice_gives_the_same_output() {
    let lines = strings(&["中国", "中心 ", "center", "世界", "中国", "  中国"]);
    let first = filter_candidates("zhong", "Quanpin", &lines);
    let second = filter_candidates("zhong", "Quanpin", &lines);
    assert_eq!(first, strings(&["中国", "中心", "中国"]));
    assert_eq!(first, second);
    assert_eq!(filter_candidates("zhong", "Quanpin", &first), first);
}

#[test]
fn filter_candidates_resolves_the_mode_value() {
    let lines = strings(&["中国", "大家", "おはよう", "今日"]);
    assert_eq!(filter_candidates("zg", "", &lines), strings(&["中国"]));
    assert_eq!(filter_candidates("zg", "Quanpin,ShuangpinXiaohe", &lines), Vec::<String>::new());
    assert_eq!(filter_candidates("dajx", "ShuangpinXiaohe", &lines), strings(&["大家"]));
    assert_eq!(filter_candidates("ohayo", "", &lines), Vec::<String>::new());
    assert_eq!(filter_candidates("ohayo", "Romaji", &lines), strings(&["おはよう"]));
    assert_eq!(filter_candidates("kyou", "Romaji", &lines), Vec::<String>::new());
    assert_eq!(filter_candidates("kyou", "RomajiFull", &lines), strings(&["今日"]));
}

#[test]
fn directory_names_need_a_han_character() {
    let selection = parse_mode("");
    let romanizer = Romanizer::load(selection.romaji);
    let matcher = CandidateMatcher::new("b", selection.notation, &romanizer);
    assert!(matcher.select_name("报告.txt"));
    assert!(matcher.select_name("bin-备份"));
    assert!(!matcher.select_name("bin"));
    assert!(!matcher.select_name("build.rs"));
    assert!(!matcher.select_name("测试"));
    let names = strings(&["bin", "报告.txt", "测试", "bin-备份", "报告.txt", "b 1"]);
    assert_eq!(matcher.filter_names(&names), strings(&["报告.txt", "bin-备份", "报告.txt"]));
}

#[test]
fn candidate_of_line_trims_and_drops_pure_english() {
    assert_eq!(candidate_of_line("你好 世界"), Some("你好 世界"));
    assert_eq!(candidate_of_line("  中国  "), Some("  中国"));
    assert_eq!(candidate_of_line("hello"), None);
    assert_eq!(candidate_of_line("hello  \n"), None);
    assert_eq!(candidate_of_line("src/main.rs"), None);
    assert_eq!(candidate_of_line("hello world"), Some("hello world"));
    assert_eq!(candidate_of_line("  hello"), Some("  hello"));
    assert_eq!(candidate_of_line("123"), Some("123"));
    assert_eq!(candidate_of_line(""), Some(""));
    assert_eq!(candidate_of_line("   "), Some(""));
}

#[test]
fn decide_line_follows_the_answer_for_what_is_not_pure_english() {
    assert_eq!(decide_line("  中国  ", true), Some("  中国"));
    assert_eq!(decide_line("  中国  ", false), None);
    assert_eq!(decide_line("hello", true), None);
    assert_eq!(decide_line("hello", false), None);
    assert_eq!(decide_line("42 ", true), Some("42"));
    assert_eq!(decide_line("", true), Some(""));
}

#[test]
fn decide_name_follows_the_answer_for_names_with_han() {
    assert!(decide_name("报告.txt", true));
    assert!(!decide_name("报告.txt", false));
    assert!(!decide_name("report.txt", true));
    assert!(!decide_name("おはよう", true));
    assert!(!decide_name("", true));
}

#[test]
fn the_empty_query_lets_through_all_but_pure_english() {
    let lines = strings(&["你好", "hello", "123", "", "src/main.rs", "hello world", "  x", "x  ", "おはよう "]);
    assert_eq!(
        filter_candidates("", "", &lines),
        strings(&["你好", "123", "", "hello world", "  x", "おはよう"])
    );
    assert_eq!(
        filter_candidates("", "RomajiFull,ShuangpinZrm", &lines),
        strings(&["你好", "123", "", "hello world", "  x", "おはよう"])
    );
}

#[test]
fn the_empty_query_lists_every_name_with_han() {
    let selection = parse_mode("");
    let romanizer = Romanizer::load(selection.romaji);
    let matcher = CandidateMatcher::new("", selection.notation, &romanizer);
    let names = strings(&["bin", "报告.txt", "おはよう", "a中", ""]);
    assert_eq!(matcher.filter_names(&names), strings(&["报告.txt", "a中"]));
}

#[test]
fn ascii_candidates_that_are_not_pure_english_are_matched_literally() {
    let selection = parse_mode("");
    let romanizer = Romanizer::load(selection.romaji);
    let matcher = CandidateMatcher::new("he", selection.notation, &romanizer);
    assert_eq!(matcher.select_line("hello world"), Some("hello world"));
    assert_eq!(matcher.select_line("HELLO WORLD"), Some("HELLO WORLD"));
    assert_eq!(matcher.select_line("oh hello"), None);
    assert_eq!(matcher.select_line("hello"), None);
}

#[test]
fn an_unset_variable_selects_the_default() {
    let default = ModeSelection { notation: set(true, true, None), romaji: RomajiMode::Disabled };
    assert_eq!(mode_of_variable(None), default);
    assert_eq!(mode_of_variable(Some("")), default);
    assert_eq!(mode_of_variable(Some("Invalid")), default);
    assert_eq!(
        mode_of_variable(Some("ShuangpinZrm,RomajiFull")),
        ModeSelection { notation: set(false, false, Some(ShuangpinScheme::Zrm)), romaji: RomajiMode::Full }
    );
}

// ---- the engine's constants and limits ----

#[test]
fn notation_bits_are_the_engine_s() {
    assert_eq!(ASCII_FIRST_LETTER_BIT, PinyinNotation::AsciiFirstLetter.bits());
    assert_eq!(ASCII_BIT, PinyinNotation::Ascii.bits());
    assert_eq!(DILETTER_ABC_BIT, PinyinNotation::DiletterAbc.bits());
    assert_eq!(DILETTER_JIAJIA_BIT, PinyinNotation::DiletterJiajia.bits());
    assert_eq!(DILETTER_MICROSOFT_BIT, PinyinNotation::DiletterMicrosoft.bits());
    assert_eq!(DILETTER_THUNISOFT_BIT, PinyinNotation::DiletterThunisoft.bits());
    assert_eq!(DILETTER_XIAOHE_BIT, PinyinNotation::DiletterXiaohe.bits());
    assert_eq!(DILETTER_ZRM_BIT, PinyinNotation::DiletterZrm.bits());
    assert_eq!(NOTATION_MASK, PinyinNotation::all().bits());
}

#[test]
fn scheme_bits_are_the_engine_s() {
    assert_eq!(ShuangpinScheme::Abc.to_bit(), PinyinNotation::DiletterAbc.bits());
    assert_eq!(ShuangpinScheme::Jiajia.to_bit(), PinyinNotation::DiletterJiajia.bits());
    assert_eq!(ShuangpinScheme::Microsoft.to_bit(), PinyinNotation::DiletterMicrosoft.bits());
    assert_eq!(ShuangpinScheme::Thunisoft.to_bit(), PinyinNotation::DiletterThunisoft.bits());
    assert_eq!(ShuangpinScheme::Xiaohe.to_bit(), PinyinNotation::DiletterXiaohe.bits());
    assert_eq!(ShuangpinScheme::Zrm.to_bit(), PinyinNotation::DiletterZrm.bits());
}

#[test]
fn every_set_has_the_mask_of_the_engine_s_flags() {
    let schemes = [
        None,
        Some((ShuangpinScheme::Abc, PinyinNotation::DiletterAbc)),
        Some((ShuangpinScheme::Jiajia, PinyinNotation::DiletterJiajia)),
        Some((ShuangpinScheme::Microsoft, PinyinNotation::DiletterMicrosoft)),
        Some((ShuangpinScheme::Thunisoft, PinyinNotation::DiletterThunisoft)),
        Some((ShuangpinScheme::Xiaohe, PinyinNotation::DiletterXiaohe)),
        Some((ShuangpinScheme::Zrm, PinyinNotation::DiletterZrm)),
    ];
    for ascii in [false, true] {
        for first in [false, true] {
            for scheme in schemes {
                let mut flags = PinyinNotation::empty();
                if ascii {
                    flags |= PinyinNotation::Ascii;
                }
                if first {
                    flags |= PinyinNotation::AsciiFirstLetter;
                }
                if let Some((_, flag)) = scheme {
                    flags |= flag;
                }
                let ours = set(ascii, first, scheme.map(|(s, _)| s));
                assert_eq!(ours.bits(), flags.bits());
                assert_eq!(PinyinNotation::from_bits_truncate(ours.bits()), flags);
                assert!(ours.bits() <= NOTATION_MASK);
            }
        }
    }
}

#[test]
fn length_changing_characters_are_those_of_the_engine_s_folding() {
    let mut count = 0;
    for code in 0u32..=0x10ffff {
        if let Some(c) = char::from_u32(code) {
            let folded = c.to_simple_or_ascii_fold_case();
            let changes = folded.len_utf8() != c.len_utf8();
            assert_eq!(is_fold_length_changing(c), changes, "U+{:04X}", code);
            if changes {
                count += 1;
            }
        }
    }
    assert_eq!(count, 38);
}

#[test]
fn a_length_changing_character_is_supported_only_at_the_end() {
    assert!(query_is_supported(""));
    assert!(query_is_supported("zhongguo"));
    assert!(query_is_supported("ZhongGuo"));
    assert!(query_is_supported("中国"));
    assert!(query_is_supported("\u{212a}"));
    assert!(query_is_supported("a\u{212a}"));
    assert!(query_is_supported("abc\u{17f}"));
    assert!(query_is_supported("\u{e9}\u{c9}\u{1e9e}"));
    assert!(!query_is_supported("\u{212a}a"));
    assert!(!query_is_supported("\u{17f}\u{e9}"));
    assert!(!query_is_supported("\u{212a}\u{212a}"));
    assert!(!query_is_supported("ab\u{23a}c"));
    assert!(!query_is_supported("\u{a7dc}中"));
    assert!(!query_is_supported("x\u{1c80}\u{1c87}"));
}

#[test]
fn query_support_agrees_with_the_offsets_of_the_folded_query() {
    let queries = [
        "", "k", "\u{212a}", "\u{212a}a", "a\u{212a}", "\u{17f}\u{e9}", "\u{e9}\u{17f}",
        "ABC", "\u{c9}\u{c8}", "\u{23a}\u{23e}", "x\u{2126}", "\u{2126}x", "中\u{a7b1}国",
        "\u{1fd3}", "ab\u{1e9e}", "\u{1e9e}ab",
    ];
    for query in queries {
        let folded: String = query.chars().map(|c| c.to_simple_or_ascii_fold_case()).collect();
        let agree = query
            .char_indices()
            .zip(folded.char_indices())
            .all(|((at, _), (folded_at, _))| at == folded_at);
        assert_eq!(query_is_supported(query), agree, "{:?}", query);
    }
}

#[test]
fn a_matcher_is_built_for_every_supported_query() {
    let selection = parse_mode("Quanpin");
    let romanizer = Romanizer::load(selection.romaji);
    let queries = [
        "", "a", "\u{212a}", "a\u{212a}", "abc\u{17f}", "\u{e9}\u{c9}\u{1e9e}", "中\u{2126}",
        "zhong\u{a7dc}", "\u{c9}\u{c8}\u{23e}",
    ];
    for query in queries {
        assert!(query_is_supported(query), "{:?}", query);
        let matcher = CandidateMatcher::new(query, selection.notation, &romanizer);
        assert!(matcher.is_askable("中国"));
        let matched = matcher.is_match("中国");
        if query.is_empty() {
            assert!(matched);
        }
        assert_eq!(matcher.select_line("hello"), None);
    }
    let kelvin = CandidateMatcher::new("a\u{212a}", selection.notation, &romanizer);
    assert_eq!(kelvin.try_match("ak中"), Some(true));
    assert_eq!(kelvin.try_match("A\u{212a}中"), Some(true));
    assert_eq!(kelvin.try_match("ab中"), Some(false));
}

#[test]
fn a_matcher_is_built_for_each_of_the_six_schemes() {
    let romanizer = Romanizer::load(RomajiMode::Disabled);
    let schemes = [
        ("ShuangpinAbc", ShuangpinScheme::Abc),
        ("ShuangpinJiajia", ShuangpinScheme::Jiajia),
        ("ShuangpinMicrosoft", ShuangpinScheme::Microsoft),
        ("ShuangpinThunisoft", ShuangpinScheme::Thunisoft),
        ("ShuangpinXiaohe", ShuangpinScheme::Xiaohe),
        ("ShuangpinZrm", ShuangpinScheme::Zrm),
    ];
    for (token, scheme) in schemes {
        let notation = parse_pinyin_notation(token);
        assert_eq!(notation, set(false, false, Some(scheme)), "{}", token);
        // In every scheme the two keys of `da` are `d` and `a`.
        let matcher = CandidateMatcher::new("da", notation, &romanizer);
        assert_eq!(matcher.try_match("大家"), Some(true), "{}", token);
        assert_eq!(matcher.try_match("中国"), Some(false), "{}", token);
        // Full pinyin is not accepted where a scheme stands alone.
        let full = CandidateMatcher::new("zhong", notation, &romanizer);
        assert_eq!(full.try_match("中国"), Some(false), "{}", token);
        let with_quanpin = CandidateMatcher::new(
            "zhong",
            parse_pinyin_notation(&format!("Quanpin,{}", token)),
            &romanizer,
        );
        assert_eq!(with_quanpin.try_match("中国"), Some(true), "{}", token);
    }
}

// ---- candidates that the matcher cannot be asked about ----

#[test]
fn the_romanizer_tells_which_readings_are_ascii() {
    let none = Romanizer::load(RomajiMode::Disabled);
    let fast = Romanizer::load(RomajiMode::Fast);
    let full = Romanizer::load(RomajiMode::Full);
    assert_eq!(none.mode(), RomajiMode::Disabled);
    assert_eq!(fast.mode(), RomajiMode::Fast);
    assert_eq!(full.mode(), RomajiMode::Full);
    for text in ["", "hello", "今日", "おはよう", "中国", "人は情け", "a 今日 b"] {
        assert!(none.reads_ascii(text), "{:?}", text);
        assert!(fast.reads_ascii(text), "{:?}", text);
        assert!(full.reads_ascii(text), "{:?}", text);
    }
    // Two spellings of one saying; the dictionary reads both with an
    // ideographic comma in the middle.
    for text in ["人は人、我は我", "人は人我は我", "ブルータスお前もか", "x 人は人我は我", "京の夢大阪の夢です"] {
        assert!(none.reads_ascii(text), "{:?}", text);
        assert!(fast.reads_ascii(text), "{:?}", text);
        assert!(!full.reads_ascii(text), "{:?}", text);
    }
}

#[test]
fn full_mode_passes_over_a_candidate_with_a_reading_outside_ascii() {
    let notation = set(true, true, None);
    let full = Romanizer::load(RomajiMode::Full);
    let matcher = CandidateMatcher::new("hitohahitoabc", notation, &full);
    for candidate in ["人は人、我は我", "人は人我は我"] {
        assert!(!matcher.is_askable(candidate), "{:?}", candidate);
        assert_eq!(matcher.try_match(candidate), None, "{:?}", candidate);
        assert_eq!(matcher.select_line(candidate), None, "{:?}", candidate);
        assert!(!matcher.select_name(candidate), "{:?}", candidate);
    }
    assert!(matcher.is_askable("人は情け"));
    assert_eq!(matcher.try_match("人は情け"), Some(false));

    let lines = strings(&["人は人、我は我", "人は情け", "人は人我は我 ", "今日"]);
    assert_eq!(filter_candidates("hitohana", "RomajiFull", &lines), strings(&["人は情け"]));
    assert_eq!(filter_candidates("hitohahito", "RomajiFull", &lines), Vec::<String>::new());
    assert_eq!(filter_candidates("kyou", "RomajiFull", &lines), strings(&["今日"]));
}

#[test]
fn without_the_dictionary_every_candidate_can_be_asked_about() {
    let notation = set(true, true, None);
    for mode in [RomajiMode::Disabled, RomajiMode::Fast] {
        let romanizer = Romanizer::load(mode);
        let matcher = CandidateMatcher::new("hitohahitoabc", notation, &romanizer);
        for candidate in ["人は人、我は我", "人は人我は我", "今日", "hello world", ""] {
            assert!(matcher.is_askable(candidate), "{:?}", candidate);
            assert_eq!(matcher.try_match(candidate), Some(false), "{:?}", candidate);
        }
    }
}

#[test]
fn the_empty_query_can_be_asked_about_every_candidate() {
    let notation = set(true, true, None);
    let full = Romanizer::load(RomajiMode::Full);
    let matcher = CandidateMatcher::new("", notation, &full);
    for candidate in ["人は人、我は我", "人は人我は我", "今日", "hello world", ""] {
        assert!(matcher.is_askable(candidate), "{:?}", candidate);
        assert_eq!(matcher.try_match(candidate), Some(true), "{:?}", candidate);
        assert!(matcher.is_match(candidate), "{:?}", candidate);
    }
    let lines = strings(&["人は人、我は我", "hello", "人は人我は我"]);
    assert_eq!(
        filter_candidates("", "RomajiFull", &lines),
        strings(&["人は人、我は我", "人は人我は我"])
    );
}
