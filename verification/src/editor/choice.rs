//! What the editor does with a choice made on one of its lists: a plugin to
//! load, a parameter to automate, or no choice.
use crate::editor::app_commands::sent;
use crate::editor::app_state::AppState;
use crate::editor::ui_command::Route;
use crate::engine::message::MainToAudio;
use crate::model::lane_item::LaneItem;
use crate::model::song::spec_lane_item;
use crate::settings::Description;
use vstd::prelude::*;

verus! {

impl AppState {
    /// The plugin `description` was chosen: the engine is asked to load it as the
    /// last module of the current track, and the track screen comes back.
    pub fn plugin_chosen(&mut self, description: &Description)
        ensures
            final(self).to_singer@.len() == old(self).to_singer@.len() + 1,
            final(self).to_singer@.drop_last() == old(self).to_singer@,
            final(self).to_singer@.last() matches MainToAudio::PluginLoad(t, id, name) && t
                == old(self).cursor_track.track && id@ == description.id@ && name@ == description.name@,
            *final(self) == (AppState { to_singer: final(self).to_singer, route: Route::Track, ..*old(self) }),
    {
        self.send(MainToAudio::PluginLoad(self.cursor_track.track, description.id.clone(), description.name.clone()));
        self.route = Route::Track;
        assert(self.to_singer@.drop_last() =~= old(self).to_singer@);
    }

    /// The list was left without a choice: the track screen comes back.
    pub fn select_cancel(&mut self)
        ensures
            *final(self) == (AppState { route: Route::Track, ..*old(self) }),
    {
        self.route = Route::Track;
    }

    /// Parameter `param_id` of module `module_index` of the current track was
    /// chosen to be automated: the track screen comes back and the automation point
    /// under the cursor automates it, as [`AppState::param_set`] says.
    pub fn param_chosen(&mut self, module_index: usize, param_id: u32)
        ensures
            ({
                let a = AppState { route: Route::Track, ..*old(self) };
                &&& (spec_lane_item(a.song@, a.cursor_track) matches Some(LaneItem::Point(_))) ==> sent(
                    a,
                    *final(self),
                    MainToAudio::PointNew(a.cursor_track, module_index, param_id),
                )
                &&& !(spec_lane_item(a.song@, a.cursor_track) matches Some(LaneItem::Point(_))) ==> *final(self) == a
            }),
    {
        self.route = Route::Track;
        self.param_set(module_index, param_id);
    }

    /// The engine last saw parameter `param_id` of module `param_module_index` of
    /// track `param_track_index` change. When that is the current track, the
    /// parameter is taken as chosen, as [`AppState::param_chosen`] says, and `true`
    /// is returned; otherwise nothing changes and the parameters are to be listed.
    pub fn param_learn(&mut self, param_track_index: usize, param_module_index: usize, param_id: u32) -> (r: bool)
        ensures
            r == (param_track_index == old(self).cursor_track.track),
            !r ==> *final(self) == *old(self),
            r ==> ({
                let a = AppState { route: Route::Track, ..*old(self) };
                &&& (spec_lane_item(a.song@, a.cursor_track) matches Some(LaneItem::Point(_))) ==> sent(
                    a,
                    *final(self),
                    MainToAudio::PointNew(a.cursor_track, param_module_index, param_id),
                )
                &&& !(spec_lane_item(a.song@, a.cursor_track) matches Some(LaneItem::Point(_))) ==> *final(self) == a
            }),
    {
        if param_track_index == self.cursor_track.track {
            self.param_chosen(param_module_index, param_id);
            true
        } else {
            false
        }
    }
}

} // verus!
