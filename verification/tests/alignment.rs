use kumou_japanese::alignment::{
    build_char_offset_ranges, fallback_tokens, find_from, try_build_char_offset_ranges,
    AlignedInterval,
};

fn iv(start: usize, end: usize, token_index: usize) -> AlignedInterval {
    AlignedInterval { start, end, token_index }
}

fn strings(items: &[&str]) -> Vec<String> {
    items.iter().map(|s| s.to_string()).collect()
}

#[test]
fn aligns_kyou_wa_hare() {
    let ranges = build_char_offset_ranges("今日は晴れ", &strings(&["今日", "は", "晴れ"]));
    assert_eq!(ranges, vec![iv(0, 2, 0), iv(2, 3, 1), iv(3, 5, 2)]);
}

#[test]
fn no_surfaces_give_no_intervals() {
    assert_eq!(build_char_offset_ranges("今日は晴れ", &[]), vec![]);
    assert_eq!(build_char_offset_ranges("", &[]), vec![]);
}

#[test]
fn offsets_count_code_points_not_bytes() {
    // every code point of the sentence takes three bytes
    let ranges = build_char_offset_ranges("私は学生です", &strings(&["私", "は", "学生", "です"]));
    assert_eq!(ranges, vec![iv(0, 1, 0), iv(1, 2, 1), iv(2, 4, 2), iv(4, 6, 3)]);
}

#[test]
fn surfaces_that_spell_the_sentence_tile_it() {
    let sentence = "東京へ行きました。";
    let surfaces = strings(&["東京", "へ", "行き", "まし", "た", "。"]);
    let ranges = build_char_offset_ranges(sentence, &surfaces);
    assert_eq!(ranges.len(), surfaces.len());
    let chars: Vec<char> = sentence.chars().collect();
    let mut rebuilt = String::new();
    let mut cursor = 0;
    for (i, range) in ranges.iter().enumerate() {
        assert_eq!(range.token_index, i);
        assert_eq!(range.start, cursor);
        assert_eq!(range.end - range.start, surfaces[i].chars().count());
        let piece: String = chars[range.start..range.end].iter().collect();
        assert_eq!(piece, surfaces[i]);
        rebuilt.push_str(&piece);
        cursor = range.end;
    }
    assert_eq!(cursor, chars.len());
    assert_eq!(rebuilt, sentence);
}

#[test]
fn search_skips_text_that_no_token_holds() {
    // the tokenizer dropped the blank
    let ranges = build_char_offset_ranges("はい そう", &strings(&["はい", "そう"]));
    assert_eq!(ranges, vec![iv(0, 2, 0), iv(3, 5, 1)]);
}

#[test]
fn found_surfaces_with_a_gap_do_not_rebuild_the_sentence() {
    let ranges = build_char_offset_ranges("abc", &strings(&["a", "c"]));
    assert_eq!(ranges, vec![iv(0, 1, 0), iv(2, 3, 1)]);
    assert!(fallback_tokens("abc", &strings(&["a", "c"]), &ranges).is_empty());
}

#[test]
fn search_starts_at_the_cursor() {
    let ranges = build_char_offset_ranges("abab", &strings(&["b", "a", "b"]));
    assert_eq!(ranges, vec![iv(1, 2, 0), iv(2, 3, 1), iv(3, 4, 2)]);
}

#[test]
fn equal_surfaces_take_successive_places() {
    let ranges = build_char_offset_ranges("ああ、ああ", &strings(&["あ", "あ", "あ", "あ"]));
    assert_eq!(ranges, vec![iv(0, 1, 0), iv(1, 2, 1), iv(3, 4, 2), iv(4, 5, 3)]);
}

#[test]
fn surface_that_is_not_found_sits_at_the_cursor() {
    // the tokenizer turned the full-width letters into plain ones
    let sentence = "これはＡＢＣです";
    let surfaces = strings(&["これ", "は", "ABC", "です"]);
    let ranges = build_char_offset_ranges(sentence, &surfaces);
    assert_eq!(ranges, vec![iv(0, 2, 0), iv(2, 3, 1), iv(3, 6, 2), iv(6, 8, 3)]);
    assert_eq!(fallback_tokens(sentence, &surfaces, &ranges), vec![2]);
}

#[test]
fn fallback_leaves_no_gap_in_front() {
    let ranges = build_char_offset_ranges("ABC", &strings(&["A", "x", "C"]));
    assert_eq!(ranges, vec![iv(0, 1, 0), iv(1, 2, 1), iv(2, 3, 2)]);
}

#[test]
fn fallback_may_reach_past_the_sentence() {
    let surfaces = strings(&["xyz", "q", "ab"]);
    let ranges = build_char_offset_ranges("ab", &surfaces);
    assert_eq!(ranges, vec![iv(0, 3, 0), iv(3, 4, 1), iv(4, 6, 2)]);
    assert_eq!(fallback_tokens("ab", &surfaces, &ranges), vec![0, 1, 2]);
}

#[test]
fn surface_longer_than_the_sentence_falls_back() {
    let ranges = build_char_offset_ranges("a", &strings(&["abc"]));
    assert_eq!(ranges, vec![iv(0, 3, 0)]);
    let ranges = build_char_offset_ranges("", &strings(&["あ"]));
    assert_eq!(ranges, vec![iv(0, 1, 0)]);
}

#[test]
fn later_surface_is_found_behind_a_fallback() {
    let ranges = build_char_offset_ranges("abcdef", &strings(&["zz", "ef"]));
    assert_eq!(ranges, vec![iv(0, 2, 0), iv(4, 6, 1)]);
}

#[test]
fn empty_surface_gets_an_empty_interval() {
    let ranges = build_char_offset_ranges("ab", &strings(&["a", "", "b"]));
    assert_eq!(ranges, vec![iv(0, 1, 0), iv(1, 1, 1), iv(1, 2, 2)]);
}

#[test]
fn starts_never_decrease() {
    let surfaces = strings(&["い", "あ", "zz", "う", "あ"]);
    let ranges = build_char_offset_ranges("あいうえお", &surfaces);
    assert_eq!(ranges.len(), surfaces.len());
    for pair in ranges.windows(2) {
        assert!(pair[0].start <= pair[1].start);
        assert!(pair[0].end <= pair[1].start);
    }
    for (i, range) in ranges.iter().enumerate() {
        assert_eq!(range.end - range.start, surfaces[i].chars().count());
    }
    assert_eq!(ranges, vec![iv(1, 2, 0), iv(2, 3, 1), iv(3, 5, 2), iv(5, 6, 3), iv(6, 7, 4)]);
}

#[test]
fn try_build_gives_the_same_intervals() {
    let surfaces = strings(&["今日", "は", "晴れ"]);
    assert_eq!(
        try_build_char_offset_ranges("今日は晴れ", &surfaces),
        Some(build_char_offset_ranges("今日は晴れ", &surfaces))
    );
}

#[test]
fn find_from_gives_the_first_occurrence() {
    let text: Vec<char> = "abcabc".chars().collect();
    let pat: Vec<char> = "bc".chars().collect();
    assert_eq!(find_from(&text, &pat, 0), Some(1));
    assert_eq!(find_from(&text, &pat, 1), Some(1));
    assert_eq!(find_from(&text, &pat, 2), Some(4));
    assert_eq!(find_from(&text, &pat, 5), None);
    assert_eq!(find_from(&text, &pat, 100), None);
    assert_eq!(find_from(&text, &[], 6), Some(6));
    assert_eq!(find_from(&text, &[], 7), None);
    assert_eq!(find_from(&[], &pat, 0), None);
}
