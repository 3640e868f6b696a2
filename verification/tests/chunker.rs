use chatscript::chunker::chunk_message;

fn strings(items: &[&str]) -> Vec<String> {
    items.iter().map(|s| s.to_string()).collect()
}

#[test]
fn empty_message_is_one_empty_chunk() {
    assert_eq!(chunk_message("", 1500), strings(&[""]));
}

#[test]
fn short_message_is_one_chunk() {
    assert_eq!(chunk_message("hello world", 1500), strings(&["hello world"]));
}

#[test]
fn chunk_rolls_over_only_after_exceeding_the_budget() {
    // "aaaa" has length 4, not over 4, so "bb" still joins it
    assert_eq!(chunk_message("aaaa bb cc", 4), strings(&["aaaa bb", "cc"]));
    assert_eq!(chunk_message("aaaa bb cc", 3), strings(&["aaaa", "bb cc"]));
}

#[test]
fn zero_budget_gives_one_word_per_chunk() {
    assert_eq!(chunk_message("a b c", 0), strings(&["a", "b", "c"]));
}

#[test]
fn a_word_is_never_divided() {
    let long = "x".repeat(50);
    let text = format!("{long} {long}");
    assert_eq!(chunk_message(&text, 10), vec![long.clone(), long]);
}

#[test]
fn inner_spaces_are_kept_and_leading_spaces_dropped() {
    assert_eq!(chunk_message("a  b", 100), strings(&["a  b"]));
    assert_eq!(chunk_message("  a", 100), strings(&["a"]));
    assert_eq!(chunk_message("a ", 100), strings(&["a "]));
}

#[test]
fn line_breaks_stay_inside_words() {
    assert_eq!(chunk_message("a\nb c", 1), strings(&["a\nb", "c"]));
}

#[test]
fn lengths_are_counted_in_characters() {
    // three characters, six bytes: not over a budget of three
    assert_eq!(chunk_message("äöü x y", 3), strings(&["äöü x", "y"]));
}

#[test]
fn rejoined_chunks_have_the_same_words() {
    let text = "the quick  brown fox   jumps over the lazy dog ";
    for limit in 0..20 {
        let chunks = chunk_message(text, limit);
        let joined = chunks.join(" ");
        let got: Vec<&str> = joined.split(' ').filter(|w| !w.is_empty()).collect();
        let want: Vec<&str> = text.split(' ').filter(|w| !w.is_empty()).collect();
        assert_eq!(got, want);
        let by_chunk: Vec<&str> = chunks
            .iter()
            .flat_map(|c| c.split(' ').filter(|w| !w.is_empty()))
            .collect();
        assert_eq!(by_chunk, want);
    }
}

#[test]
fn four_thousand_characters_make_three_chunks() {
    // 400 words of nine characters and a space each
    let text = vec!["ninechars"; 400].join(" ");
    assert_eq!(text.chars().count(), 3999);
    let chunks = chunk_message(&text, 1500);
    assert_eq!(chunks.len(), 3);
    assert_eq!(chunks[0].chars().count(), 1509);
    assert_eq!(chunks[1].chars().count(), 1509);
    assert_eq!(chunks.join(" "), text);
}
