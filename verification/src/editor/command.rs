//! The command palette: named commands, and finding them by a loosely typed
//! query.
use crate::editor::app_commands::{effected, sent};
use crate::editor::app_state::{AppState, PluginReply, UiEffect};
use crate::editor::ui_command::Route;
use crate::engine::message::MainToAudio;
use crate::protocol::MainToPlugin;
use crate::text::{is_subseq_ci, is_subsequence_case_insensitive};
use vstd::prelude::*;

verus! {

/// Opens the list of MIDI input devices.
#[derive(Clone, Copy, Debug)]
pub struct MidiDeviceInput {}

/// Opens the list of plugins to load one on the current track.
#[derive(Clone, Copy, Debug)]
pub struct PluginLoad {}

/// Asks the plugin host to scan for plugins.
#[derive(Clone, Copy, Debug)]
pub struct PluginScan {}

/// Asks the user for a song file to open.
#[derive(Clone, Copy, Debug)]
pub struct SongOpen {}

/// Saving from the palette; it does nothing.
#[derive(Clone, Copy, Debug)]
pub struct SongSave {}

/// Asks the engine to add a track.
#[derive(Clone, Copy, Debug)]
pub struct TrackAdd {}

impl MidiDeviceInput {
    pub fn new() -> Self {
        MidiDeviceInput {}
    }

    pub fn name(&self) -> (r: &'static str)
        ensures
            r@ == "Midi Device Input"@,
    {
        "Midi Device Input"
    }

    /// Shows the list of MIDI input devices.
    pub fn call(&mut self, state: &mut AppState)
        ensures
            *final(state) == (AppState { route: Route::MidiDeviceInputSelect, ..*old(state) }),
    {
        state.route = Route::MidiDeviceInputSelect;
    }
}

impl PluginLoad {
    pub fn new() -> Self {
        PluginLoad {}
    }

    pub fn name(&self) -> (r: &'static str)
        ensures
            r@ == "Plugin Load"@,
    {
        "Plugin Load"
    }

    /// Shows the list of plugins.
    pub fn call(&mut self, state: &mut AppState)
        ensures
            *final(state) == (AppState { route: Route::PluginSelect, ..*old(state) }),
    {
        state.route = Route::PluginSelect;
    }
}

impl PluginScan {
    pub fn new() -> Self {
        PluginScan {}
    }

    pub fn name(&self) -> (r: &'static str)
        ensures
            r@ == "Plugin Scan"@,
    {
        "Plugin Scan"
    }

    /// Asks the plugin host to scan, ignoring its answer.
    pub fn call(&mut self, state: &mut AppState)
        ensures
            final(state).to_plugin@ == old(state).to_plugin@.push(MainToPlugin::Scan),
            final(state).callbacks_plugin_to_main@ == old(state).callbacks_plugin_to_main@.push(PluginReply::Ignore),
            *final(state) == (AppState {
                to_plugin: final(state).to_plugin,
                callbacks_plugin_to_main: final(state).callbacks_plugin_to_main,
                ..*old(state)
            }),
    {
        state.send_to_plugin(MainToPlugin::Scan, PluginReply::Ignore);
    }
}

impl SongOpen {
    pub fn new() -> Self {
        SongOpen {}
    }

    pub fn name(&self) -> (r: &'static str)
        ensures
            r@ == "Open"@,
    {
        "Open"
    }

    /// Asks the user for a song file to open.
    pub fn call(&mut self, state: &mut AppState)
        ensures
            effected(*old(state), *final(state), UiEffect::SongOpenDialog),
    {
        state.song_open();
    }
}

impl SongSave {
    pub fn new() -> Self {
        SongSave {}
    }

    pub fn name(&self) -> (r: &'static str)
        ensures
            r@ == "Save"@,
    {
        "Save"
    }

    /// Leaves the editor as it is.
    pub fn call(&mut self, state: &mut AppState)
        ensures
            *final(state) == *old(state),
    {
    }
}

impl TrackAdd {
    pub fn new() -> Self {
        TrackAdd {}
    }

    pub fn name(&self) -> (r: &'static str)
        ensures
            r@ == "Track Add"@,
    {
        "Track Add"
    }

    /// Asks the engine to add a track.
    pub fn call(&mut self, state: &mut AppState)
        ensures
            sent(*old(state), *final(state), MainToAudio::TrackAdd),
    {
        state.track_add();
    }
}

/// A command of the palette.
#[derive(Clone, Copy, Debug)]
pub enum Command {
    MidiDeviceInput(MidiDeviceInput),
    PluginLoad(PluginLoad),
    PluginScan(PluginScan),
    SongOpen(SongOpen),
    SongSave(SongSave),
    TrackAdd(TrackAdd),
}

/// The name a command is shown and found by.
pub open spec fn command_name(c: Command) -> Seq<char> {
    match c {
        Command::MidiDeviceInput(_) => "Midi Device Input"@,
        Command::PluginLoad(_) => "Plugin Load"@,
        Command::PluginScan(_) => "Plugin Scan"@,
        Command::SongOpen(_) => "Open"@,
        Command::SongSave(_) => "Save"@,
        Command::TrackAdd(_) => "Track Add"@,
    }
}

/// What running command `c` does to the editor `a`, giving `b`.
pub open spec fn command_effect(a: AppState, b: AppState, c: Command) -> bool {
    match c {
        Command::MidiDeviceInput(_) => b == (AppState { route: Route::MidiDeviceInputSelect, ..a }),
        Command::PluginLoad(_) => b == (AppState { route: Route::PluginSelect, ..a }),
        Command::PluginScan(_) => {
            &&& b.to_plugin@ == a.to_plugin@.push(MainToPlugin::Scan)
            &&& b.callbacks_plugin_to_main@ == a.callbacks_plugin_to_main@.push(PluginReply::Ignore)
            &&& b == (AppState { to_plugin: b.to_plugin, callbacks_plugin_to_main: b.callbacks_plugin_to_main, ..a })
        },
        Command::SongOpen(_) => effected(a, b, UiEffect::SongOpenDialog),
        Command::SongSave(_) => b == a,
        Command::TrackAdd(_) => sent(a, b, MainToAudio::TrackAdd),
    }
}

impl Command {
    pub fn name(&self) -> (r: &'static str)
        ensures
            r@ == command_name(*self),
    {
        match self {
            Command::MidiDeviceInput(c) => c.name(),
            Command::PluginLoad(c) => c.name(),
            Command::PluginScan(c) => c.name(),
            Command::SongOpen(c) => c.name(),
            Command::SongSave(c) => c.name(),
            Command::TrackAdd(c) => c.name(),
        }
    }

    /// Runs the command on the editor.
    pub fn call(&mut self, state: &mut AppState)
        ensures
            command_effect(*old(state), *final(state), *old(self)),
    {
        match self {
            Command::MidiDeviceInput(c) => c.call(state),
            Command::PluginLoad(c) => c.call(state),
            Command::PluginScan(c) => c.call(state),
            Command::SongOpen(c) => c.call(state),
            Command::SongSave(c) => c.call(state),
            Command::TrackAdd(c) => c.call(state),
        }
    }
}

/// The commands of the palette, in the order they are offered.
#[derive(Debug)]
pub struct Commander {
    pub commands: Vec<Command>,
}

/// Whether `c` is found by `query`.
pub open spec fn command_matches(query: Seq<char>) -> spec_fn(Command) -> bool {
    |c: Command| is_subseq_ci(command_name(c), query)
}

impl Commander {
    /// The palette: plugin load, plugin scan, track add, open and save, in that
    /// order.
    pub fn new() -> (r: Self)
        ensures
            r.commands@ == seq![
                Command::PluginLoad(PluginLoad {}),
                Command::PluginScan(PluginScan {}),
                Command::TrackAdd(TrackAdd {}),
                Command::SongOpen(SongOpen {}),
                Command::SongSave(SongSave {}),
            ],
    {
        let mut commands: Vec<Command> = Vec::new();
        commands.push(Command::PluginLoad(PluginLoad::new()));
        commands.push(Command::PluginScan(PluginScan::new()));
        commands.push(Command::TrackAdd(TrackAdd::new()));
        commands.push(Command::SongOpen(SongOpen::new()));
        commands.push(Command::SongSave(SongSave::new()));
        Commander { commands }
    }

    /// The commands whose name holds the characters of `q` in order, up to
    /// ASCII case, in palette order.
    pub fn query(&self, q: &str) -> (r: Vec<Command>)
        ensures
            r@ == self.commands@.filter(command_matches(q@)),
    {
        let mut r: Vec<Command> = Vec::new();
        let mut i: usize = 0;
        while i < self.commands.len()
            invariant
                i <= self.commands@.len(),
                r@ == self.commands@.take(i as int).filter(command_matches(q@)),
            decreases self.commands@.len() - i,
        {
            let c = self.commands[i];
            let name = c.name();
            let m = is_subsequence_case_insensitive(name, q);
            proof {
                let s = self.commands@.take(i as int + 1);
                assert(s.drop_last() =~= self.commands@.take(i as int));
                assert(s.last() == c);
                reveal(Seq::filter);
            }
            if m {
                r.push(c);
            }
            i = i + 1;
        }
        assert(self.commands@.take(self.commands@.len() as int) =~= self.commands@);
        r
    }
}

} // verus!
