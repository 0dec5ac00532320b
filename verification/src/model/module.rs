//! Plugin modules of a track and how their audio inputs are routed.
use vstd::prelude::*;

verus! {

/// `(track_index, module_index)`: where a module stands in a song.
pub type ModuleIndex = (usize, usize);

/// An audio connection into a module: output port `src_port_index` of the module at
/// `src_module_index` feeds input port `dst_port_index`.
#[derive(Clone, Copy, Debug)]
pub struct AudioInput {
    pub src_module_index: ModuleIndex,
    pub src_port_index: usize,
    pub dst_port_index: usize,
}

/// A plugin instance of a track: the plugin's id, its display name, its audio
/// inputs and the plugin state saved with the song.
#[derive(Debug)]
pub struct Module {
    pub id: String,
    pub name: String,
    pub audio_inputs: Vec<AudioInput>,
    pub state: Option<Vec<u8>>,
}

/// The mathematical value of a module.
pub struct ModuleV {
    pub id: String,
    pub name: String,
    pub audio_inputs: Seq<AudioInput>,
    pub state: Option<Seq<u8>>,
}

impl View for Module {
    type V = ModuleV;

    open spec fn view(&self) -> ModuleV {
        ModuleV {
            id: self.id,
            name: self.name,
            audio_inputs: self.audio_inputs@,
            state: match self.state {
                Some(v) => Some(v@),
                None => None,
            },
        }
    }
}

/// Copies a byte vector.
pub fn copy_bytes(v: &Vec<u8>) -> (r: Vec<u8>)
    ensures
        r@ == v@,
{
    let mut r: Vec<u8> = Vec::new();
    for i in 0..v.len()
        invariant
            r@ == v@.take(i as int),
    {
        r.push(v[i]);
        assert(r@ =~= v@.take(i + 1));
    }
    assert(r@ =~= v@);
    r
}

/// Copies a list of audio inputs.
pub fn copy_inputs(v: &Vec<AudioInput>) -> (r: Vec<AudioInput>)
    ensures
        r@ == v@,
{
    let mut r: Vec<AudioInput> = Vec::new();
    for i in 0..v.len()
        invariant
            r@ == v@.take(i as int),
    {
        r.push(v[i]);
        assert(r@ =~= v@.take(i + 1));
    }
    assert(r@ =~= v@);
    r
}

impl Clone for Module {
    fn clone(&self) -> (r: Self)
        ensures
            r@ == self@,
    {
        let state = match &self.state {
            Some(v) => Some(copy_bytes(v)),
            None => None,
        };
        Module {
            id: self.id.clone(),
            name: self.name.clone(),
            audio_inputs: copy_inputs(&self.audio_inputs),
            state,
        }
    }
}

impl Module {
    /// A module with no saved state.
    pub fn new(id: String, name: String, audio_inputs: Vec<AudioInput>) -> (r: Self)
        ensures
            r.id == id,
            r.name == name,
            r.audio_inputs@ == audio_inputs@,
            r.state is None,
    {
        Module { id, name, audio_inputs, state: None }
    }
}

} // verus!
