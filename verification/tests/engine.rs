use sing_like_coding::editor::app_state::AppState;
use sing_like_coding::cursor::CursorTrack;
use sing_like_coding::engine::message::{AudioToMain, MainToAudio};
use sing_like_coding::engine::request::{request_admissible, singer_step, AudioStep};
use sing_like_coding::engine::singer::{next_id, Singer};
use sing_like_coding::engine::undo_history::UndoHistory;
use sing_like_coding::model::lane_item::LaneItem;
use sing_like_coding::model::module::{AudioInput, Module};
use sing_like_coding::model::song::Song;
use sing_like_coding::model::topology::{topological_levels, TopologyError};
use sing_like_coding::model::track::Track;
use sing_like_coding::note::Note;

fn note(key: i16) -> LaneItem {
    LaneItem::Note(Note { key, velocity: 100, delay: 0, off: false, channel: 0 })
}

fn key_at(singer: &Singer, track: usize, lane: usize, line: usize) -> Option<i16> {
    match singer.song.lane_item(&CursorTrack { track, lane, line }) {
        Some(LaneItem::Note(n)) => Some(n.key),
        _ => None,
    }
}

fn step(singer: &mut Singer, history: &mut UndoHistory, m: MainToAudio) -> AudioStep {
    assert!(request_admissible(singer, &m));
    singer_step(singer, m, history)
}

#[test]
fn next_id_counts_up() {
    let mut counter = 0usize;
    assert_eq!(next_id(&mut counter), 0);
    assert_eq!(next_id(&mut counter), 1);
    assert_eq!(counter, 2);
    let mut top = usize::MAX;
    assert_eq!(next_id(&mut top), usize::MAX);
}

#[test]
fn new_singer_has_main_and_one_track() {
    let singer = Singer::new();
    assert_eq!(singer.song.tracks.len(), 2);
    assert_eq!(singer.song.tracks[0].name, "Main");
    assert_eq!(singer.song.tracks[1].name, "T01");
    assert_eq!(singer.song.lpb, 4);
    assert_eq!(singer.process_track_contexts.len(), 2);
}

#[test]
fn track_add_names_tracks_in_hex() {
    let mut singer = Singer::new();
    for _ in 0..15 {
        singer.track_add();
    }
    assert_eq!(singer.song.tracks[2].name, "T02");
    assert_eq!(singer.song.tracks[16].name, "T10");
    assert_eq!(singer.song.tracks[16].lanes.len(), 1);
}

#[test]
fn lane_item_set_returns_the_previous_cell() {
    let mut singer = Singer::new();
    let c = CursorTrack { track: 1, lane: 0, line: 3 };
    let (cursor, before) = singer.lane_item_set(c, Some(note(64)));
    assert_eq!(cursor, c);
    assert!(before.is_none());
    assert_eq!(key_at(&singer, 1, 0, 3), Some(64));
    let (_, before) = singer.lane_item_set(c, None);
    assert!(matches!(before, Some(LaneItem::Note(n)) if n.key == 64));
    assert_eq!(key_at(&singer, 1, 0, 3), None);
}

#[test]
fn lane_item_set_on_a_missing_track_does_nothing() {
    let mut singer = Singer::new();
    let (_, before) = singer.lane_item_set(CursorTrack { track: 9, lane: 0, line: 0 }, Some(note(60)));
    assert!(before.is_none());
    assert_eq!(singer.song.tracks.len(), 2);
}

#[test]
fn lane_items_undo_list_restores_the_song() {
    let mut singer = Singer::new();
    singer.lane_item_set(CursorTrack { track: 1, lane: 0, line: 1 }, Some(note(50)));
    let writes = vec![
        (CursorTrack { track: 1, lane: 0, line: 1 }, Some(note(51))),
        (CursorTrack { track: 1, lane: 2, line: 7 }, Some(note(52))),
        (CursorTrack { track: 0, lane: 0, line: 0 }, None),
    ];
    let undo = singer.lane_items_set(writes);
    assert_eq!(key_at(&singer, 1, 0, 1), Some(51));
    assert_eq!(key_at(&singer, 1, 2, 7), Some(52));
    assert_eq!(singer.song.tracks[1].lanes.len(), 3);
    match undo {
        MainToAudio::LaneItem(items) => {
            assert_eq!(items.len(), 3);
            singer.lane_items_set(items);
        }
        _ => panic!("not a lane write"),
    }
    assert_eq!(key_at(&singer, 1, 0, 1), Some(50));
    assert_eq!(key_at(&singer, 1, 2, 7), None);
    assert_eq!(singer.song.tracks[1].lanes.len(), 3);
    assert!(singer.song.tracks[1].lanes[1].items.is_empty());
    assert!(singer.song.tracks[1].lanes[2].items.is_empty());
}

#[test]
fn undo_history_hands_out_undo_then_redo() {
    let mut h = UndoHistory::new();
    assert!(h.undo().is_none());
    h.traveling_p = false;
    h.add(MainToAudio::PlayLine(1), MainToAudio::PlayLine(2));
    h.add(MainToAudio::PlayLine(3), MainToAudio::PlayLine(4));
    assert!(matches!(h.undo(), Some(MainToAudio::PlayLine(3))));
    assert!(matches!(h.undo(), Some(MainToAudio::PlayLine(1))));
    assert!(h.undo().is_none());
    assert!(matches!(h.redo(), Some(MainToAudio::PlayLine(2))));
    h.add(MainToAudio::Stop, MainToAudio::Play);
    assert_eq!(h.undos.len(), 1);
    h.traveling_p = false;
    h.add(MainToAudio::Stop, MainToAudio::Play);
    assert_eq!(h.undos.len(), 2);
    assert_eq!(h.redos.len(), 0);
    assert!(h.redo().is_none());
}

#[test]
fn edits_undo_and_redo_through_requests() {
    let mut singer = Singer::new();
    let mut h = UndoHistory::new();
    let c = CursorTrack { track: 1, lane: 0, line: 0 };
    let r = step(&mut singer, &mut h, MainToAudio::LaneItem(vec![(c, Some(note(70)))]));
    assert!(matches!(r, AudioStep::Reply(AudioToMain::Song(_))));
    assert_eq!(key_at(&singer, 1, 0, 0), Some(70));
    assert!(!singer.song_state.song_dirty_p);
    step(&mut singer, &mut h, MainToAudio::LaneItem(vec![(c, Some(note(71)))]));
    assert_eq!(key_at(&singer, 1, 0, 0), Some(71));
    step(&mut singer, &mut h, MainToAudio::Undo);
    assert_eq!(key_at(&singer, 1, 0, 0), Some(70));
    step(&mut singer, &mut h, MainToAudio::Undo);
    assert_eq!(key_at(&singer, 1, 0, 0), None);
    step(&mut singer, &mut h, MainToAudio::Redo);
    assert_eq!(key_at(&singer, 1, 0, 0), Some(70));
    step(&mut singer, &mut h, MainToAudio::Redo);
    assert_eq!(key_at(&singer, 1, 0, 0), Some(71));
}

#[test]
fn play_line_and_stop() {
    let mut singer = Singer::new();
    singer.play_line(5);
    assert!(singer.song_state.play_p);
    assert_eq!(singer.play_position.end, 5 * 0x100);
    singer.stop();
    assert!(!singer.song_state.play_p);
}

#[test]
fn play_position_advances_and_wraps_in_the_loop() {
    let mut singer = Singer::new();
    singer.compute_play_position(0x80);
    assert_eq!((singer.play_position.start, singer.play_position.end), (0, 0));
    singer.play();
    singer.compute_play_position(0x80);
    assert_eq!((singer.play_position.start, singer.play_position.end), (0, 0x80));
    singer.song_state.loop_p = true;
    singer.song_state.loop_start = 0x100;
    singer.song_state.loop_end = 0x200;
    singer.compute_play_position(0x80);
    assert_eq!((singer.play_position.start, singer.play_position.end), (0x100, 0x180));
    singer.compute_play_position(0x100);
    assert_eq!((singer.play_position.start, singer.play_position.end), (0x180, 0x180));
}

#[test]
fn module_load_appends_a_module_fed_by_the_last_one() {
    let mut singer = Singer::new();
    let a = singer.module_load(1, "synth".to_string(), "Synth".to_string());
    let b = singer.module_load(1, "fx".to_string(), "Fx".to_string());
    assert_eq!((a, b), (0, 1));
    let modules = &singer.song.tracks[1].modules;
    assert_eq!(modules.len(), 2);
    assert_eq!(modules[1].name, "Fx");
    assert_eq!(modules[1].audio_inputs.len(), 1);
    assert_eq!(modules[1].audio_inputs[0].src_module_index, (1, 0));
    assert_eq!(singer.process_track_contexts[1].plugins.len(), 2);
}

#[test]
fn track_delete_and_insert() {
    let mut singer = Singer::new();
    singer.track_add();
    singer.track_delete(1);
    assert_eq!(singer.song.tracks.len(), 2);
    assert_eq!(singer.song.tracks[1].name, "T02");
    let mut t = Track::new();
    t.name = "X".to_string();
    singer.track_insert(1, t);
    assert_eq!(singer.song.tracks[1].name, "X");
    assert_eq!(singer.song.tracks[2].name, "T02");
}

#[test]
fn track_move_keeps_the_main_track_first() {
    let mut singer = Singer::new();
    singer.track_add();
    assert!(!singer.track_move(1, -1));
    assert_eq!(singer.song.tracks[0].name, "Main");
    assert!(singer.track_move(1, 1));
    assert_eq!(singer.song.tracks[1].name, "T02");
    assert_eq!(singer.song.tracks[2].name, "T01");
}

fn module(inputs: Vec<AudioInput>) -> Module {
    Module::new("id".to_string(), "m".to_string(), inputs)
}

fn input(t: usize, m: usize) -> AudioInput {
    AudioInput { src_module_index: (t, m), src_port_index: 0, dst_port_index: 1 }
}

#[test]
fn topological_levels_of_a_chain() {
    let mut song = Song::new();
    song.track_add();
    song.track_add();
    song.tracks[1].modules.push(module(vec![]));
    song.tracks[1].modules.push(module(vec![input(1, 0)]));
    song.tracks[1].modules.push(module(vec![]));
    let levels = topological_levels(&song).unwrap();
    assert_eq!(levels, vec![vec![(1, 0), (1, 2)], vec![(1, 1)]]);
}

#[test]
fn topological_levels_refuse_a_cycle() {
    let mut song = Song::new();
    song.track_add();
    song.track_add();
    song.tracks[1].modules.push(module(vec![input(1, 1)]));
    song.tracks[1].modules.push(module(vec![input(1, 0)]));
    assert_eq!(topological_levels(&song), Err(TopologyError::CyclicDependency));
}

#[test]
fn topological_levels_refuse_an_input_from_nowhere() {
    let mut song = Song::new();
    song.track_add();
    song.track_add();
    song.tracks[1].modules.push(module(vec![input(5, 0)]));
    assert_eq!(topological_levels(&song), Err(TopologyError::CyclicDependency));
}

#[test]
fn process_begin_reports_a_cycle() {
    let mut singer = Singer::new();
    singer.module_load(1, "a".to_string(), "A".to_string());
    singer.module_load(1, "b".to_string(), "B".to_string());
    singer.song.tracks[1].modules[0].audio_inputs.push(input(1, 1));
    assert_eq!(singer.process_begin(2, 64, 0x10), Err(TopologyError::CyclicDependency));
}

#[test]
fn process_begin_orders_the_modules() {
    let mut singer = Singer::new();
    singer.module_load(1, "a".to_string(), "A".to_string());
    singer.module_load(1, "b".to_string(), "B".to_string());
    let levels = singer.process_begin(2, 64, 0x10).unwrap();
    assert_eq!(levels, vec![vec![(1, 0)], vec![(1, 1)]]);
    assert_eq!(singer.process_track_contexts[1].nframes, 64);
}

#[test]
fn song_file_round_trip() {
    let mut singer = Singer::new();
    assert_eq!(singer.song_state.song_file_get(), None);
    singer.song_state.song_file_set("/tmp/a song.json");
    assert_eq!(singer.song_state.song_file_get(), Some("/tmp/a song.json".to_string()));
    singer.song_state.song_file_set("");
    assert_eq!(singer.song_state.song_file_get(), None);
}

#[test]
fn new_song_is_named_after_the_date() {
    let song = Song::new();
    assert!(song.name.ends_with(".json"));
    assert_eq!(song.name.len(), 13);
    assert!(song.name[..8].chars().all(|c| c.is_ascii_digit()));
    assert!(song.tracks.is_empty());
}

use sing_like_coding::editor::cell_view::lane_item_name;
use sing_like_coding::model::point::Point;

#[test]
fn cell_texts() {
    let mut singer = Singer::new();
    let at = |line: usize| CursorTrack { track: 1, lane: 0, line };
    singer.lane_item_set(at(0), Some(note(60)));
    singer.lane_item_set(at(1), Some(LaneItem::Note(Note { key: 61, velocity: 127, delay: 5, off: true, channel: 0 })));
    singer.lane_item_set(at(2), Some(LaneItem::Point(Point { automation_params_index: 0, value: 0x7f, delay: 0 })));
    singer.lane_item_set(at(3), Some(LaneItem::Label("intro".to_string())));
    singer.lane_item_set(at(4), Some(LaneItem::Call("verse".to_string())));
    singer.lane_item_set(at(5), Some(LaneItem::Ret));
    singer.lane_item_set(at(6), Some(LaneItem::Label("abcdefghij".to_string())));
    let song = &singer.song;
    assert_eq!(lane_item_name(song, 1, 0, 0), "C-3 64 00");
    assert_eq!(lane_item_name(song, 1, 0, 1), "OFF    05");
    assert_eq!(lane_item_name(song, 1, 0, 2), "--- 7F 00");
    assert_eq!(lane_item_name(song, 1, 0, 3), "'intro   ");
    assert_eq!(lane_item_name(song, 1, 0, 4), "^verse   ");
    assert_eq!(lane_item_name(song, 1, 0, 5), "^        ");
    assert_eq!(lane_item_name(song, 1, 0, 6), "'abcdefghij");
    assert_eq!(lane_item_name(song, 1, 0, 7), "         ");
    singer.song.tracks[1].automation_params.push((3, 0x1234));
    singer.lane_item_set(at(2), Some(LaneItem::Point(Point { automation_params_index: 0, value: 1, delay: 2 })));
    assert_eq!(lane_item_name(&singer.song, 1, 0, 2), "334 01 02");
}

use sing_like_coding::engine::event::Event;
use sing_like_coding::engine::midi_input::midi_event;

#[test]
fn midi_messages_become_note_events() {
    assert_eq!(midi_event(&[0x90, 60, 100]), Some(Event::NoteOn(60, 100, 0)));
    assert_eq!(midi_event(&[0x9f, 61, 1, 7]), Some(Event::NoteOn(61, 1, 0)));
    assert_eq!(midi_event(&[0x90, 60, 0]), Some(Event::NoteOff(60, 0)));
    assert_eq!(midi_event(&[0x83, 62, 40]), Some(Event::NoteOff(62, 0)));
    assert_eq!(midi_event(&[0xb0, 1, 2]), None);
    assert_eq!(midi_event(&[0x90, 60]), None);
    assert_eq!(midi_event(&[0x90, 0x80, 1]), None);
    assert_eq!(midi_event(&[0x90, 1, 0x80]), None);
    assert_eq!(midi_event(&[60, 100, 1]), None);
    assert_eq!(midi_event(&[]), None);
}

fn three_tracks() -> Song {
    let mut song = Song::new();
    song.track_add();
    song.track_add();
    song.track_add();
    song
}

#[test]
fn track_move_and_back_restores_inputs_from_the_moved_track() {
    let mut song = three_tracks();
    song.tracks[1].modules.push(module(vec![]));
    song.tracks[2].modules.push(module(vec![input(1, 0), input(0, 3)]));
    song.track_move(1, 1);
    assert_eq!(song.tracks[1].name, "T02");
    assert_eq!(song.tracks[1].modules[0].audio_inputs[0].src_module_index, (2, 0));
    song.track_move(2, -1);
    assert_eq!(song.tracks[1].name, "T01");
    assert_eq!(song.tracks[2].name, "T02");
    assert_eq!(song.tracks[2].modules[0].audio_inputs[0].src_module_index, (1, 0));
    assert_eq!(song.tracks[2].modules[0].audio_inputs[1].src_module_index, (0, 3));
}

#[test]
fn track_move_shifts_passed_over_sources_in_the_direction_of_the_move() {
    let mut song = three_tracks();
    song.tracks[2].modules.push(module(vec![]));
    song.tracks[1].modules.push(module(vec![input(2, 0)]));
    song.track_move(1, 1);
    assert_eq!(song.tracks[2].name, "T01");
    assert_eq!(song.tracks[2].modules[0].audio_inputs[0].src_module_index, (3, 0));
    song.track_move(2, -1);
    assert_eq!(song.tracks[1].modules[0].audio_inputs[0].src_module_index, (3, 0));
}

fn song_with_lanes(lanes: &[usize]) -> Song {
    let mut song = Song::new();
    for (i, n) in lanes.iter().enumerate() {
        song.track_add();
        for _ in 1..*n {
            song.tracks[i].lane_add();
        }
    }
    song
}

#[test]
fn cursor_right_then_left_comes_back() {
    let song = song_with_lanes(&[1, 3, 2]);
    let mut c = CursorTrack { track: 0, lane: 0, line: 7 };
    let mut seen = vec![];
    for _ in 0..6 {
        let r = c.right(&song);
        assert_eq!(r.left(&song), c);
        seen.push((r.track, r.lane));
        c = r;
    }
    assert_eq!(seen, vec![(1, 0), (1, 1), (1, 2), (2, 0), (2, 1), (0, 0)]);
    assert_eq!(c.line, 7);
}

#[test]
fn lanes_laid_out_flat() {
    let mut state = AppState::new();
    state.song = song_with_lanes(&[1, 3, 2]);
    state.compute_track_offsets();
    assert_eq!(
        state.flatten_lane_index_to_track_lane_vec,
        vec![(0, 0), (1, 0), (1, 1), (1, 2), (2, 0), (2, 1)]
    );
    assert_eq!(state.flatten_lane_index_to_track_index_vec, vec![0, 1, 1, 1, 2, 2]);
    assert_eq!(state.lanes_before_track, vec![0, 1, 4]);
    assert_eq!(state.flatten_lane_index_max, 5);
    assert_eq!(state.flatten_lane_index(1, 2), Some(3));
    assert_eq!(state.flatten_lane_index(2, 0), Some(4));
    assert_eq!(state.flatten_lane_index(0, 1), None);
    assert_eq!(state.flatten_lane_index(3, 0), None);
}

#[test]
fn track_insert_then_delete_restores_the_routing() {
    let mut song = three_tracks();
    song.tracks[2].modules.push(module(vec![input(1, 0), input(0, 1)]));
    song.track_insert(1, Track::new());
    assert_eq!(song.tracks[3].modules[0].audio_inputs[0].src_module_index, (2, 0));
    assert_eq!(song.tracks[3].modules[0].audio_inputs[1].src_module_index, (0, 1));
    song.track_delete(1);
    assert_eq!(song.tracks.len(), 3);
    assert_eq!(song.tracks[2].modules[0].audio_inputs[0].src_module_index, (1, 0));
    assert_eq!(song.tracks[2].modules[0].audio_inputs[1].src_module_index, (0, 1));
}

#[test]
fn topological_levels_order_modules_across_the_main_track() {
    let mut song = Song::new();
    song.track_add();
    song.track_add();
    song.tracks[0].modules.push(module(vec![]));
    song.tracks[0].modules.push(module(vec![input(1, 0)]));
    song.tracks[1].modules.push(module(vec![input(0, 0)]));
    song.tracks[1].modules.push(module(vec![]));
    let levels = topological_levels(&song).unwrap();
    assert_eq!(levels, vec![vec![(0, 0), (1, 1)], vec![(1, 0)], vec![(0, 1)]]);
}

use sing_like_coding::engine::mix::{channel_routing, main_mix_tracks};

#[test]
fn main_mix_takes_unmuted_tracks_and_solos() {
    let mut song = three_tracks();
    assert_eq!(main_mix_tracks(&song), vec![false, true, true]);
    song.tracks[1].mute = true;
    assert_eq!(main_mix_tracks(&song), vec![false, false, true]);
    song.tracks[2].solo = true;
    song.tracks[1].mute = false;
    assert_eq!(main_mix_tracks(&song), vec![false, false, true]);
    song.tracks[2].mute = true;
    assert_eq!(main_mix_tracks(&song), vec![false, false, false]);
    song.tracks[2].mute = false;
    song.tracks[2].solo = false;
    song.tracks[0].solo = true;
    assert_eq!(main_mix_tracks(&song), vec![false, false, false]);
}

#[test]
fn channel_routing_between_ports() {
    assert_eq!(channel_routing(2, 2, 0b01, 0b10), (vec![(0, 0, true), (1, 1, false)], false, 0b01));
    assert_eq!(channel_routing(1, 2, 0b1, 0), (vec![(0, 0, true), (1, 0, true)], false, 0b11));
    assert_eq!(channel_routing(2, 1, 0b11, 0b1), (vec![], true, 0));
    assert_eq!(channel_routing(3, 2, 0b100, 0b11), (vec![(0, 0, false), (1, 1, false)], false, 0));
    assert_eq!(channel_routing(1, 1, 0, 0b1), (vec![(0, 0, false)], false, 0));
}

#[test]
fn process_end_sets_the_meters() {
    let mut singer = Singer::new();
    singer.track_add();
    singer.module_load(1, "a".to_string(), "A".to_string());
    for t in 0..4 {
        singer.song_state.tracks[t].peak_left_bits = 7;
        singer.song_state.tracks[t].peak_right_bits = 8;
    }
    singer.song_state.tracks[2].rec_p = true;
    let peaks = vec![(1u32, 2u32), (3, 4), (5, 6)];
    singer.process_end(64, &vec![], &peaks);
    let bottom = (-60.0f32).to_bits();
    let meters: Vec<(u32, u32, bool)> = singer.song_state.tracks[..4]
        .iter()
        .map(|t| (t.peak_left_bits, t.peak_right_bits, t.rec_p))
        .collect();
    assert_eq!(meters, vec![(1, 2, false), (3, 4, false), (bottom, bottom, true), (7, 8, false)]);
    assert_eq!(singer.song_state.param_track_index, usize::MAX);
    assert_eq!(singer.steady_time, 64);
}

#[test]
fn track_insert_shifts_the_contexts_and_loads_plugins() {
    let mut singer = Singer::new();
    let mut history = UndoHistory::new();
    singer.module_load(1, "a".to_string(), "A".to_string());
    let counter = singer.plugin_id_counter;
    let mut track = Track::new();
    track.modules.push(module(vec![]));
    track.modules.push(module(vec![]));
    step(&mut singer, &mut history, MainToAudio::TrackInsert(1, track));
    assert_eq!(singer.process_track_contexts.len(), 3);
    assert_eq!(singer.process_track_contexts[0].plugins.len(), 0);
    let ids: Vec<usize> = singer.process_track_contexts[1].plugins.iter().map(|p| p.id).collect();
    assert_eq!(ids, vec![counter, counter + 1]);
    assert_eq!(singer.process_track_contexts[2].plugins.len(), 1);
    assert_eq!(singer.plugin_id_counter, counter + 2);
}
