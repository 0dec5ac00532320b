use sing_like_coding::cursor::CursorTrack;
use sing_like_coding::editor::position::{play_position_text1, play_position_text2, visible_lines};
use sing_like_coding::note::{midi_to_note_name, note_name_to_midi, Note};
use sing_like_coding::protocol::{frame_length, frame_message, process_data_name};
use sing_like_coding::text::{count_digits, decimal_string, is_subsequence_case_insensitive};

#[test]
fn subsequence_matches_in_order_ignoring_ascii_case() {
    assert!(is_subsequence_case_insensitive("Plugin Load", "pl"));
    assert!(is_subsequence_case_insensitive("Plugin Load", "PLD"));
    assert!(is_subsequence_case_insensitive("Track Add", ""));
    assert!(is_subsequence_case_insensitive("", ""));
    assert!(!is_subsequence_case_insensitive("", "a"));
    assert!(!is_subsequence_case_insensitive("abc", "acb"));
    assert!(!is_subsequence_case_insensitive("Save", "saves"));
}

#[test]
fn decimal_and_digit_counts() {
    assert_eq!(decimal_string(0), "0");
    assert_eq!(decimal_string(4096), "4096");
    assert_eq!(count_digits(255, 16), 2);
    assert_eq!(count_digits(0, 10), 1);
    assert_eq!(count_digits(1000, 10), 4);
}

#[test]
fn play_position_texts() {
    assert_eq!(play_position_text2(0, 4), "001.1");
    assert_eq!(play_position_text1(0, 4), "001.1.1");
    assert_eq!(play_position_text2(17, 4), "002.1");
    assert_eq!(play_position_text1(17, 4), "002.1.2");
    assert_eq!(play_position_text2(15, 4), "001.4");
    assert_eq!(play_position_text1(15, 4), "001.4.4");
    assert_eq!(play_position_text1(11, 12), "001.1.C");
    assert_eq!(play_position_text2(16 * 1000, 4), "1001.1");
}

#[test]
fn note_names_of_midi_keys() {
    assert_eq!(midi_to_note_name(60), Some("C-3".to_string()));
    assert_eq!(midi_to_note_name(61), Some("C#3".to_string()));
    assert_eq!(midi_to_note_name(127), Some("G-8".to_string()));
    assert_eq!(midi_to_note_name(0), Some("C-e".to_string()));
    assert_eq!(midi_to_note_name(128), None);
}

#[test]
fn midi_keys_of_note_names() {
    assert_eq!(note_name_to_midi("C-3"), Some(60));
    assert_eq!(note_name_to_midi("c#3"), Some(61));
    assert_eq!(note_name_to_midi("G-8"), Some(127));
    assert_eq!(note_name_to_midi("G#8"), None);
    assert_eq!(note_name_to_midi("C-E"), None);
    assert_eq!(note_name_to_midi("C-"), None);
    assert_eq!(note_name_to_midi("C-34"), None);
    assert_eq!(note_name_to_midi("H-3"), None);
    assert_eq!(note_name_to_midi("C-G"), None);
}

#[test]
fn note_name_round_trip_on_named_octaves() {
    for midi in 24i16..=127 {
        let name = midi_to_note_name(midi).unwrap();
        assert_eq!(note_name_to_midi(&name), Some(midi));
    }
}

#[test]
fn note_name_of_a_note_and_off() {
    let mut note = Note::default();
    assert_eq!(note.note_name(), "C-3");
    note.set_note_name("a-4");
    assert_eq!(note.key, 81);
    note.set_note_name("zz");
    assert_eq!(note.key, 81);
    note.off = true;
    assert_eq!(note.note_name(), "OFF");
}

#[test]
fn process_data_names() {
    assert_eq!(process_data_name(0), "SingLikeCoding.Process.Data.0");
    assert_eq!(process_data_name(42), "SingLikeCoding.Process.Data.42");
}

#[test]
fn frames_announce_their_length() {
    let payload: Vec<u8> = (0..300u32).map(|x| (x % 256) as u8).collect();
    let framed = frame_message(&payload);
    assert_eq!(framed.len(), 304);
    assert_eq!(&framed[..4], &[44u8, 1, 0, 0]);
    assert_eq!(&framed[4..], &payload[..]);
    let header = [framed[0], framed[1], framed[2], framed[3]];
    assert_eq!(frame_length(header), 300);
    assert_eq!(frame_length([0, 0, 0, 0]), 0);
    assert_eq!(frame_length([1, 2, 3, 4]), 0x04030201);
}

#[test]
fn cursor_merges_span_the_rectangle() {
    let a = CursorTrack { track: 1, lane: 2, line: 9 };
    let b = CursorTrack { track: 0, lane: 5, line: 3 };
    assert_eq!(a.min_merge(&b), CursorTrack { track: 0, lane: 5, line: 3 });
    assert_eq!(a.max_merge(&b), CursorTrack { track: 1, lane: 2, line: 9 });
    assert_eq!(b.min_merge(&a), a.min_merge(&b));
    assert_eq!(b.max_merge(&a), a.max_merge(&b));
    let c = CursorTrack { track: 1, lane: 0, line: 20 };
    assert_eq!(a.min_merge(&c), CursorTrack { track: 1, lane: 0, line: 9 });
    assert_eq!(a.max_merge(&c), CursorTrack { track: 1, lane: 2, line: 20 });
}

#[test]
fn visible_lines_center_the_cursor() {
    assert_eq!(visible_lines(100, 40), 80..120);
    assert_eq!(visible_lines(5, 40), 0..40);
    assert_eq!(visible_lines(20, 41), 0..41);
    assert_eq!(visible_lines(7, 0), 7..7);
}
