use api_switch::transform::sse::{frame_data, take_frames};

#[test]
fn frames_are_cut_at_blank_lines() {
    let mut buffer = String::new();
    let frames = take_frames(&mut buffer, "data: {\"a\":1}\n\ndata: {\"b\":2}\n\ndata: par");
    assert_eq!(frames, vec!["data: {\"a\":1}".to_string(), "data: {\"b\":2}".to_string()]);
    assert_eq!(buffer, "data: par");
}

#[test]
fn a_frame_split_across_pieces_is_reassembled() {
    let mut buffer = String::new();
    assert!(take_frames(&mut buffer, "data: {\"x\":").is_empty());
    assert!(take_frames(&mut buffer, "1}\n").is_empty());
    let frames = take_frames(&mut buffer, "\ndata: [DONE]\n\n");
    assert_eq!(frames, vec!["data: {\"x\":1}".to_string(), "data: [DONE]".to_string()]);
    assert_eq!(buffer, "");
}

#[test]
fn feeding_in_pieces_equals_feeding_at_once() {
    let text = "data: one\n\n\ndata: two\n\n\n\nrest";
    let mut whole = String::new();
    let all_at_once = take_frames(&mut whole, text);
    for cut in 0..=text.len() {
        let mut buffer = String::new();
        let mut frames = take_frames(&mut buffer, &text[..cut]);
        frames.extend(take_frames(&mut buffer, &text[cut..]));
        assert_eq!(frames, all_at_once, "cut at {}", cut);
        assert_eq!(buffer, whole, "cut at {}", cut);
    }
    assert_eq!(
        all_at_once,
        vec!["data: one".to_string(), "\ndata: two".to_string(), "".to_string()]
    );
    assert_eq!(whole, "rest");
}

#[test]
fn frame_data_reads_both_prefixes_and_trims() {
    assert_eq!(frame_data("data: {\"a\":1}"), Some("{\"a\":1}".to_string()));
    assert_eq!(frame_data("data:{\"a\":1}  "), Some("{\"a\":1}".to_string()));
    assert_eq!(frame_data("data:   x \t"), Some("x".to_string()));
}

#[test]
fn frame_data_skips_done_and_non_data_frames() {
    assert_eq!(frame_data("data: [DONE]"), None);
    assert_eq!(frame_data("data:[DONE] "), None);
    assert_eq!(frame_data("event: ping"), None);
    assert_eq!(frame_data(": keep-alive"), None);
    assert_eq!(frame_data(""), None);
}
