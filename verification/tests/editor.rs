use sing_like_coding::editor::shortcut::{shortcut_command, Key};
use sing_like_coding::editor::ui_command::{MixerCommand, Modifier, ModuleCommand, TrackCommand};
use sing_like_coding::editor::cell_view::CellShade;
use sing_like_coding::cursor::CursorTrack;
use sing_like_coding::editor::app_state::{AppState, PluginReply, UiEffect};
use sing_like_coding::editor::eval::{split_whitespace, Eval, Word};
use sing_like_coding::editor::command::{Command, Commander, MidiDeviceInput, PluginLoad, PluginScan, SongOpen, SongSave, TrackAdd};
use sing_like_coding::editor::select::{EvalWindow, PluginSelectView, QueryItem, QueryView, SelectItem, SelectView};
use sing_like_coding::editor::ui_command::{FocusedPart, LaneCommand, Route, UiCommand};
use sing_like_coding::engine::message::MainToAudio;
use sing_like_coding::protocol::MainToPlugin;
use sing_like_coding::settings::{bytes_less, join_path, ClapManager, Config, Description};

#[derive(Clone, Debug, PartialEq)]
struct Item(String);

impl SelectItem for Item {
    fn name(&self) -> &str {
        &self.0
    }
}

impl QueryItem for Item {
    fn name(&self) -> &str {
        &self.0
    }
}

fn items(names: &[&str]) -> Vec<Item> {
    names.iter().map(|n| Item(n.to_string())).collect()
}

fn description(id: &str, name: &str) -> Description {
    Description {
        id: id.to_string(),
        path: format!("/plugins/{name}.clap"),
        modified: 10,
        index: 0,
        name: name.to_string(),
        vender: "v".to_string(),
        version: "1".to_string(),
        description: String::new(),
        features: vec!["instrument".to_string()],
    }
}

#[test]
fn focused_part_cycles_both_ways() {
    let parts = [FocusedPart::Track, FocusedPart::Lane, FocusedPart::Mixer, FocusedPart::Module];
    for p in parts {
        assert_eq!(p.next().prev(), p);
        assert_eq!(p.prev().next(), p);
    }
    assert_eq!(FocusedPart::Lane.next(), FocusedPart::Mixer);
    assert_eq!(FocusedPart::Track.prev(), FocusedPart::Module);
}

#[test]
fn command_names() {
    assert_eq!(MidiDeviceInput::new().name(), "Midi Device Input");
    assert_eq!(PluginLoad::new().name(), "Plugin Load");
    assert_eq!(PluginScan::new().name(), "Plugin Scan");
    assert_eq!(SongOpen::new().name(), "Open");
    assert_eq!(SongSave::new().name(), "Save");
    assert_eq!(TrackAdd::new().name(), "Track Add");
}

#[test]
fn commander_query_filters_in_order() {
    let commander = Commander::new();
    let names: Vec<&str> = commander.query("pl").iter().map(|c| c.name()).collect();
    assert_eq!(names, vec!["Plugin Load", "Plugin Scan"]);
    let names: Vec<&str> = commander.query("").iter().map(|c| c.name()).collect();
    assert_eq!(names, vec!["Plugin Load", "Plugin Scan", "Track Add", "Open", "Save"]);
    let names: Vec<&str> = commander.query("AD").iter().map(|c| c.name()).collect();
    assert_eq!(names, vec!["Plugin Load", "Track Add"]);
    assert!(commander.query("xyz").is_empty());
}

#[test]
fn commands_act_on_the_editor() {
    let mut state = AppState::new();
    PluginLoad::new().call(&mut state);
    assert_eq!(state.route, Route::PluginSelect);
    MidiDeviceInput::new().call(&mut state);
    assert_eq!(state.route, Route::MidiDeviceInputSelect);
    PluginScan::new().call(&mut state);
    assert!(matches!(state.to_plugin.last(), Some(MainToPlugin::Scan)));
    assert_eq!(state.callbacks_plugin_to_main, vec![PluginReply::Ignore]);
    let mut c = Command::TrackAdd(TrackAdd::new());
    c.call(&mut state);
    assert!(matches!(state.to_singer.last(), Some(MainToAudio::TrackAdd)));
    SongOpen::new().call(&mut state);
    assert!(matches!(state.effects.last(), Some(UiEffect::SongOpenDialog)));
    let before = (state.to_singer.len(), state.to_plugin.len(), state.effects.len());
    SongSave::new().call(&mut state);
    assert_eq!(before, (state.to_singer.len(), state.to_plugin.len(), state.effects.len()));
}

#[test]
fn select_view_offers_matching_items() {
    let mut view = SelectView::new(items(&["Reverb", "Delay", "Revolver"]));
    assert!(view.focus_p);
    assert!(view.first().is_none());
    view.query("rev".to_string());
    assert_eq!(view.quried_items, vec![0, 2]);
    assert_eq!(view.first(), Some(&Item("Reverb".to_string())));
    view.query("DL".to_string());
    assert_eq!(view.quried_items, vec![1]);
    view.query("zz".to_string());
    assert!(view.first().is_none());
    assert!(view.focus_take());
    assert!(!view.focus_take());
}

#[test]
fn query_view_takes_focus_again_when_closed() {
    let mut view = QueryView::new(items(&["a", "b"]));
    assert!(view.focus_take());
    view.query("B".to_string());
    assert_eq!(view.first(), Some(&Item("b".to_string())));
    view.close();
    assert!(view.focus_p);
    assert_eq!(view.buffer, "B");
}

#[test]
fn plugin_select_view_filters_by_plugin_name() {
    let mut view = PluginSelectView::new(vec![description("a", "Surge XT"), description("b", "Vital")]);
    view.query("vt".to_string());
    assert_eq!(view.first().map(|d| d.id.as_str()), Some("b"));
    view.query("x".to_string());
    assert_eq!(view.first().map(|d| d.id.as_str()), Some("a"));
}

#[test]
fn eval_window_hands_out_the_line() {
    let mut state = AppState::new();
    state.eval_window_open_p = true;
    let mut window = EvalWindow::new();
    assert_eq!(window.buffer, "");
    window.buffer.push_str("120 bpm");
    let line = window.submit(&mut state);
    assert_eq!(line, "120 bpm");
    assert_eq!(window.buffer, "");
    assert!(!state.eval_window_open_p);
    window.escape(&mut state);
    assert!(state.eval_window_open_p);
}

#[test]
fn paths_of_setting_files() {
    assert_eq!(join_path("/home/u/setting", "claps.json"), "/home/u/setting/claps.json");
    assert_eq!(join_path("/home/u/setting/", "claps.json"), "/home/u/setting/claps.json");
    assert_eq!(join_path("C:\\s\\", "x.json"), "C:\\s\\x.json");
    assert_eq!(join_path("", "x.json"), "x.json");
    assert_eq!(Config::file("/etc/slc"), "/etc/slc/config.json");
    assert!(Config::default().midi_device_input.is_none());
}

#[test]
fn clap_manager_finds_descriptions_by_id() {
    let mut manager = ClapManager::new("/s");
    assert_eq!(manager.setting_path, "/s/claps.json");
    assert!(manager.descriptions.is_empty());
    manager.descriptions.push(description("x", "First"));
    manager.descriptions.push(description("y", "Second"));
    manager.descriptions.push(description("x", "Third"));
    assert_eq!(manager.description(&"x".to_string()).map(|d| d.name.as_str()), Some("First"));
    assert_eq!(manager.description(&"y".to_string()).map(|d| d.name.as_str()), Some("Second"));
    assert!(manager.description(&"z".to_string()).is_none());
    let copy = manager.descriptions[0].clone();
    assert_eq!(copy.features, vec!["instrument".to_string()]);
    assert_eq!(copy.path, "/plugins/First.clap");
}

#[test]
fn lane_cursor_moves_through_ui_commands() {
    let mut state = AppState::new();
    state.run_ui_command(&UiCommand::Lane(LaneCommand::CursorDown));
    state.run_ui_command(&UiCommand::Lane(LaneCommand::CursorDown));
    assert_eq!(state.cursor_track, CursorTrack { track: 0, lane: 0, line: 2 });
    state.run_ui_command(&UiCommand::Lane(LaneCommand::CursorUp));
    assert_eq!(state.cursor_track.line, 1);
    state.run_ui_command(&UiCommand::Lane(LaneCommand::CursorUp));
    state.run_ui_command(&UiCommand::Lane(LaneCommand::CursorUp));
    assert_eq!(state.cursor_track.line, 0);
    state.run_ui_command(&UiCommand::FocusedPartNext);
    assert_eq!(state.focused_part, FocusedPart::Mixer);
    state.run_ui_command(&UiCommand::TrackAdd);
    assert!(matches!(state.to_singer.last(), Some(MainToAudio::TrackAdd)));
}

#[test]
fn split_whitespace_gives_the_words() {
    assert_eq!(split_whitespace("  120  bpm\t"), vec!["120".to_string(), "bpm".to_string()]);
    assert_eq!(split_whitespace("a\u{3000}b\nc"), vec!["a".to_string(), "b".to_string(), "c".to_string()]);
    assert!(split_whitespace(" \u{85} ").is_empty());
    assert!(split_whitespace("").is_empty());
    assert_eq!(split_whitespace("intro"), vec!["intro".to_string()]);
}

fn word(s: &str) -> Word {
    Word::Word(s.to_string())
}

#[test]
fn eval_bpm_sends_the_tempo() {
    let mut state = AppState::new();
    Eval::eval(vec![Word::Number(0x405e000000000000, "120".to_string()), word("bpm")], &mut state);
    assert!(matches!(state.to_singer.last(), Some(MainToAudio::Bpm(0x405e000000000000))));
    let n = state.to_singer.len();
    Eval::eval(vec![word("fast"), word("bpm")], &mut state);
    Eval::eval(vec![word("bpm")], &mut state);
    assert_eq!(state.to_singer.len(), n);
}

#[test]
fn eval_call_label_and_ret_write_under_the_cursor() {
    let mut state = AppState::new();
    state.cursor_track = CursorTrack { track: 1, lane: 0, line: 4 };
    Eval::eval(vec![word("verse"), word("c")], &mut state);
    Eval::eval(vec![Word::Number(0x4000000000000000, "2".to_string()), word("label")], &mut state);
    Eval::eval(vec![word("r")], &mut state);
    Eval::eval(vec![word("call")], &mut state);
    Eval::eval(vec![word("x"), word("unknown")], &mut state);
    Eval::eval(vec![], &mut state);
    assert_eq!(state.to_singer.len(), 3);
    let items: Vec<String> = state
        .to_singer
        .iter()
        .map(|m| match m {
            MainToAudio::LaneItem(v) => match &v[0] {
                (c, Some(sing_like_coding::model::lane_item::LaneItem::Call(s))) if c.line == 4 => format!("call {s}"),
                (c, Some(sing_like_coding::model::lane_item::LaneItem::Label(s))) if c.line == 4 => format!("label {s}"),
                (c, Some(sing_like_coding::model::lane_item::LaneItem::Ret)) if c.line == 4 => "ret".to_string(),
                _ => "other".to_string(),
            },
            _ => "other".to_string(),
        })
        .collect();
    assert_eq!(items, vec!["call verse", "label 2", "ret"]);
}

#[test]
fn admissible_requests_in_a_new_editor() {
    let mut state = AppState::new();
    assert!(state.ui_command_admissible(&UiCommand::Lane(LaneCommand::CursorDown)));
    assert!(!state.ui_command_admissible(&UiCommand::Lane(LaneCommand::CursorLeft)));
    assert!(!state.ui_command_admissible(&UiCommand::Track(sing_like_coding::editor::ui_command::TrackCommand::Copy)));
    assert!(!state.ui_command_admissible(&UiCommand::TrackMute(None, None)));
    assert!(state.ui_command_admissible(&UiCommand::TrackMute(None, Some(true))));
    assert!(state.ui_command_admissible(&UiCommand::Lane(LaneCommand::LaneItemUpdate(1, 0, 0, false, 1))));
    assert!(!state.ui_command_admissible(&UiCommand::Lane(LaneCommand::LaneItemMove(i64::MIN, 0))));
    state.cursor_track.line = usize::MAX;
    assert!(!state.ui_command_admissible(&UiCommand::Lane(LaneCommand::CursorDown)));
    state.select_p = true;
    assert!(!state.ui_command_admissible(&UiCommand::Lane(LaneCommand::SelectMode)));
    state.selection_track_min = Some(CursorTrack { track: 0, lane: 0, line: 0 });
    assert!(state.ui_command_admissible(&UiCommand::Lane(LaneCommand::SelectMode)));
}

#[test]
fn cell_shades() {
    let mut state = AppState::new();
    assert_eq!(state.cell_shade(0, 0, 0, 99), CellShade::Cursor);
    assert_eq!(state.cell_shade(0, 0, 5, 5), CellShade::Play);
    assert_eq!(state.cell_shade(0, 0, 16, 99), CellShade::Bar);
    assert_eq!(state.cell_shade(0, 0, 8, 99), CellShade::Beat);
    assert_eq!(state.cell_shade(0, 0, 3, 99), CellShade::Plain);
    state.focused_part = FocusedPart::Track;
    assert_eq!(state.cell_shade(0, 0, 0, 99), CellShade::Bar);
    state.selection_track_min = Some(CursorTrack { track: 0, lane: 0, line: 2 });
    state.selection_track_max = Some(CursorTrack { track: 1, lane: 0, line: 6 });
    assert_eq!(state.cell_shade(0, 1, 4, 99), CellShade::Selected);
    assert_eq!(state.cell_shade(0, 1, 7, 99), CellShade::Plain);
    assert_eq!(state.cell_shade(0, 0, 16, 99), CellShade::Plain);
}

#[test]
fn choices_on_lists() {
    let mut state = AppState::new();
    state.route = Route::PluginSelect;
    state.cursor_track = CursorTrack { track: 2, lane: 0, line: 0 };
    state.plugin_chosen(&description("com.x.synth", "Synth"));
    assert_eq!(state.route, Route::Track);
    assert!(matches!(state.to_singer.last(), Some(MainToAudio::PluginLoad(2, id, name)) if id == "com.x.synth" && name == "Synth"));
    state.route = Route::ParamSelect;
    state.select_cancel();
    assert_eq!(state.route, Route::Track);
    let n = state.to_singer.len();
    state.route = Route::ParamSelect;
    assert!(!state.param_learn(1, 0, 7));
    assert_eq!(state.route, Route::ParamSelect);
    assert!(state.param_learn(2, 0, 7));
    assert_eq!(state.route, Route::Track);
    assert_eq!(state.to_singer.len(), n);
    state.param_chosen(0, 9);
    assert_eq!(state.to_singer.len(), n);
}

#[test]
fn param_chosen_on_a_point_asks_for_the_automation() {
    let mut state = AppState::new();
    state.song.track_add();
    state.song.tracks[0].lanes[0].set(3, Some(sing_like_coding::model::lane_item::LaneItem::Point(sing_like_coding::model::point::Point::default())));
    state.cursor_track = CursorTrack { track: 0, lane: 0, line: 3 };
    state.route = Route::ParamSelect;
    state.param_chosen(1, 0x42);
    assert_eq!(state.route, Route::Track);
    assert!(matches!(state.to_singer.last(), Some(MainToAudio::PointNew(c, 1, 0x42)) if c.line == 3));
}

#[test]
fn key_bindings_by_focused_part() {
    assert_eq!(shortcut_command(FocusedPart::Lane, Modifier::Plain, Key::J), Some(UiCommand::Lane(LaneCommand::CursorDown)));
    assert_eq!(shortcut_command(FocusedPart::Track, Modifier::Plain, Key::H), Some(UiCommand::Track(TrackCommand::CursorLeft)));
    assert_eq!(shortcut_command(FocusedPart::Module, Modifier::Plain, Key::K), Some(UiCommand::Module(ModuleCommand::CursorUp)));
    assert_eq!(
        shortcut_command(FocusedPart::Mixer, Modifier::S, Key::L),
        Some(UiCommand::Mixer(MixerCommand::Pan(0.1f32.to_bits())))
    );
    assert_eq!(
        shortcut_command(FocusedPart::Lane, Modifier::C, Key::ArrowLeft),
        Some(UiCommand::Lane(LaneCommand::LaneItemUpdate(-12, 0, 0, false, -16)))
    );
    assert_eq!(
        shortcut_command(FocusedPart::Lane, Modifier::Plain, Key::N),
        Some(UiCommand::Lane(LaneCommand::LaneItemUpdate(0, 0, 0, true, 0)))
    );
    assert_eq!(shortcut_command(FocusedPart::Mixer, Modifier::Plain, Key::M), Some(UiCommand::TrackMute(None, None)));
    assert_eq!(shortcut_command(FocusedPart::Track, Modifier::Plain, Key::Space), Some(UiCommand::PlayToggle));
    assert_eq!(shortcut_command(FocusedPart::Lane, Modifier::C, Key::Space), Some(UiCommand::Command));
    assert_eq!(shortcut_command(FocusedPart::Lane, Modifier::S, Key::V), Some(UiCommand::FocusedPartPrev));
    assert_eq!(shortcut_command(FocusedPart::Lane, Modifier::CS, Key::T), Some(UiCommand::LaneAdd));
    assert_eq!(shortcut_command(FocusedPart::Lane, Modifier::Plain, Key::Num3), None);
    assert_eq!(shortcut_command(FocusedPart::Module, Modifier::Plain, Key::Enter), None);
}

#[test]
fn cursor_follows_the_play_line() {
    let mut state = AppState::new();
    assert!(state.follow_p);
    state.follow_play_line(false, 40);
    assert_eq!(state.cursor_track.line, 0);
    state.follow_play_line(true, 40);
    assert_eq!(state.cursor_track.line, 40);
    state.follow_p = false;
    state.follow_play_line(true, 50);
    assert_eq!(state.cursor_track.line, 40);
}

#[test]
fn descriptions_sort_by_name_keeping_ties_in_order() {
    let mut manager = ClapManager::new("/s");
    for (id, name) in [("1", "b"), ("2", "ab"), ("3", "b"), ("4", "a"), ("5", "B"), ("6", "ab")] {
        manager.descriptions.push(description(id, name));
    }
    manager.sort_by_name();
    let order: Vec<&str> = manager.descriptions.iter().map(|d| d.id.as_str()).collect();
    assert_eq!(order, vec!["5", "4", "2", "6", "1", "3"]);
    assert!(bytes_less(b"ab", b"b"));
    assert!(bytes_less(b"a", b"ab"));
    assert!(!bytes_less(b"ab", b"ab"));
    assert!(!bytes_less(b"b", b"B"));
}
