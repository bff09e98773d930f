use draugr::input::{del_from_string, insert_string, InputLine};

fn editor_with_history(lines: &[&str]) -> InputLine {
    let mut ed = InputLine::new();
    for line in lines {
        ed.type_string(line.to_string());
        ed.get_and_submit();
    }
    ed
}

fn history(ed: &InputLine) -> Vec<String> {
    let mut out = Vec::new();
    for i in 0..ed.history_len() {
        out.push(ed.history_entry(i).unwrap());
    }
    out
}

#[test]
fn typing_with_completion_then_commit() {
    let mut ed = editor_with_history(&["abcdef"]);
    ed.type_string("abc".to_string());
    ed.up();
    assert!(ed.is_searching());
    let (shown, completion) = ed.display_parts();
    assert_eq!(shown, "abc");
    assert_eq!(completion, "def");
    assert_eq!(ed.cursor_position(), 3);
    ed.right();
    assert!(!ed.is_searching());
    let (shown, completion) = ed.display_parts();
    assert_eq!(shown, "abcdef");
    assert_eq!(completion, "");
    assert_eq!(ed.cursor_position(), 6);
}

#[test]
fn up_with_no_history_is_a_no_op() {
    let mut ed = InputLine::new();
    ed.type_string("abc".to_string());
    ed.up();
    assert!(!ed.is_searching());
    let (shown, completion) = ed.display_parts();
    assert_eq!(shown, "abc");
    assert_eq!(completion, "");
    assert_eq!(ed.cursor_position(), 3);
}

#[test]
fn up_without_match_is_a_no_op() {
    let mut ed = editor_with_history(&["hello"]);
    ed.type_string("x".to_string());
    ed.up();
    assert!(!ed.is_searching());
    assert_eq!(ed.display_parts().0, "x");
}

#[test]
fn resubmitting_promotes_without_growth() {
    let mut ed = editor_with_history(&["north", "look", "north"]);
    assert_eq!(history(&ed), vec!["look", "north"]);
    ed.type_string("look".to_string());
    let out = ed.get_and_submit();
    assert_eq!(out, "look");
    assert_eq!(history(&ed), vec!["north", "look"]);
}

#[test]
fn submitting_same_line_twice_keeps_history_length() {
    let mut ed = editor_with_history(&["north", "north"]);
    assert_eq!(history(&ed), vec!["north"]);
}

#[test]
fn empty_submission_is_not_recorded() {
    let mut ed = InputLine::new();
    let out = ed.get_and_submit();
    assert_eq!(out, "");
    assert_eq!(ed.history_len(), 0);
}

#[test]
fn get_and_clear_never_touches_history() {
    let mut ed = editor_with_history(&["look"]);
    ed.type_string("secret word".to_string());
    let out = ed.get_and_clear();
    assert_eq!(out, "secret word");
    assert_eq!(history(&ed), vec!["look"]);
    assert_eq!(ed.display_parts().0, "");
    assert_eq!(ed.cursor_position(), 0);
}

#[test]
fn get_and_clear_in_search_returns_displayed_entry() {
    let mut ed = editor_with_history(&["look"]);
    ed.up();
    assert!(ed.is_searching());
    let out = ed.get_and_clear();
    assert_eq!(out, "look");
    assert_eq!(history(&ed), vec!["look"]);
}

#[test]
fn search_navigation_up_and_down() {
    let mut ed = editor_with_history(&["say hi", "look", "say bye"]);
    ed.type_string("say".to_string());
    ed.up();
    assert_eq!(ed.display_parts(), ("say".to_string(), " bye".to_string()));
    ed.up();
    assert_eq!(ed.display_parts(), ("say".to_string(), " hi".to_string()));
    ed.up();
    // Already at the oldest match: unchanged.
    assert_eq!(ed.display_parts(), ("say".to_string(), " hi".to_string()));
    ed.down();
    assert_eq!(ed.display_parts(), ("say".to_string(), " bye".to_string()));
    ed.down();
    // No newer match: back to typing with the query as text.
    assert!(!ed.is_searching());
    assert_eq!(ed.display_parts(), ("say".to_string(), "".to_string()));
    assert_eq!(ed.cursor_position(), 3);
}

#[test]
fn up_with_empty_query_walks_all_entries() {
    let mut ed = editor_with_history(&["one", "two"]);
    ed.up();
    assert_eq!(ed.display_parts().0, "two");
    assert_eq!(ed.cursor_position(), 3);
    ed.up();
    assert_eq!(ed.display_parts().0, "one");
}

#[test]
fn submit_in_search_with_empty_query_takes_the_entry() {
    let mut ed = editor_with_history(&["one", "two"]);
    ed.up();
    ed.up();
    let out = ed.get_and_submit();
    assert_eq!(out, "one");
    assert_eq!(history(&ed), vec!["two", "one"]);
}

#[test]
fn cancel_returns_to_query_text() {
    let mut ed = editor_with_history(&["lantern"]);
    ed.type_string("lan".to_string());
    ed.up();
    assert!(ed.is_searching());
    ed.cancel();
    assert!(!ed.is_searching());
    assert_eq!(ed.display_parts().0, "lan");
    assert_eq!(ed.cursor_position(), 3);
}

#[test]
fn cancel_while_typing_clears_the_buffer() {
    let mut ed = InputLine::new();
    ed.type_string("half a line".to_string());
    ed.cancel();
    assert_eq!(ed.display_parts().0, "");
    assert_eq!(ed.cursor_position(), 0);
}

#[test]
fn cursor_editing_in_the_middle() {
    let mut ed = InputLine::new();
    ed.type_string("hello".to_string());
    ed.left();
    ed.left();
    assert_eq!(ed.cursor_position(), 3);
    ed.type_string("XY".to_string());
    assert_eq!(ed.display_parts().0, "helXYlo");
    assert_eq!(ed.cursor_position(), 5);
    ed.backspace();
    assert_eq!(ed.display_parts().0, "helXlo");
    ed.delete();
    assert_eq!(ed.display_parts().0, "helXo");
    ed.home();
    assert_eq!(ed.cursor_position(), 0);
    ed.delete();
    assert_eq!(ed.display_parts().0, "elXo");
    ed.end();
    assert_eq!(ed.cursor_position(), 4);
    ed.backspace();
    assert_eq!(ed.display_parts().0, "elX");
}

#[test]
fn left_collapses_a_history_search() {
    let mut ed = editor_with_history(&["castle"]);
    ed.type_string("cas".to_string());
    ed.up();
    ed.left();
    assert!(!ed.is_searching());
    // The query is nonempty, so collapsing keeps the query, not the entry.
    assert_eq!(ed.display_parts().0, "cas");
    assert_eq!(ed.cursor_position(), 2);
}

#[test]
fn backspace_collapses_search_on_empty_query_to_the_entry() {
    let mut ed = editor_with_history(&["door"]);
    ed.up();
    ed.backspace();
    assert!(!ed.is_searching());
    assert_eq!(ed.display_parts().0, "doo");
    assert_eq!(ed.cursor_position(), 3);
}

#[test]
fn positions_count_characters_not_bytes() {
    let mut ed = InputLine::new();
    ed.type_string("héllo".to_string());
    assert_eq!(ed.cursor_position(), 5);
    ed.left();
    ed.left();
    ed.left();
    ed.left();
    ed.delete();
    assert_eq!(ed.display_parts().0, "hllo");
    ed.type_string("ö".to_string());
    assert_eq!(ed.display_parts().0, "höllo");
    assert_eq!(ed.cursor_position(), 2);
}

#[test]
fn right_at_the_end_stays_put() {
    let mut ed = InputLine::new();
    ed.type_string("ab".to_string());
    ed.right();
    assert_eq!(ed.cursor_position(), 2);
    ed.left();
    ed.right();
    assert_eq!(ed.cursor_position(), 2);
}

#[test]
fn insert_string_respects_character_positions() {
    assert_eq!(insert_string("héllo".to_string(), &"XY".to_string(), 2), "héXYllo");
    assert_eq!(insert_string("ab".to_string(), &"Z".to_string(), 0), "Zab");
    assert_eq!(insert_string("ab".to_string(), &"Z".to_string(), 2), "abZ");
    // Out of range: unchanged.
    assert_eq!(insert_string("ab".to_string(), &"Z".to_string(), 3), "ab");
}

#[test]
fn del_from_string_respects_character_positions() {
    assert_eq!(del_from_string("héllo".to_string(), 1), "hllo");
    assert_eq!(del_from_string("ab".to_string(), 0), "b");
    // Out of range or empty: unchanged.
    assert_eq!(del_from_string("ab".to_string(), 2), "ab");
    assert_eq!(del_from_string("".to_string(), 0), "");
}

#[test]
fn history_overflow_evicts_oldest_line() {
    let mut ed = InputLine::new();
    for i in 0..1001 {
        ed.type_string(format!("line{}", i));
        ed.get_and_submit();
    }
    assert_eq!(ed.history_len(), 1000);
    assert_eq!(ed.history_entry(0).unwrap(), "line1");
    assert_eq!(ed.history_entry(999).unwrap(), "line1000");
}
