//! The messages between the editor and the plugin host, their framing on a pipe,
//! and the names of the shared state.
use crate::text::digits;
use vstd::prelude::*;

verus! {

/// The name of the shared song state.
pub const SONG_STATE_NAME: &'static str = "SingLikeCoding.Song.State";

/// A plugin parameter as the host reports it; the `f64` values travel as their bit
/// patterns.
#[derive(Debug)]
pub struct Param {
    pub id: u32,
    pub flags: u32,
    pub name: String,
    pub module: String,
    pub min_value_bits: u64,
    pub max_value_bits: u64,
    pub default_value_bits: u64,
    pub value_bits: u64,
}

/// A request from the editor to the plugin host. `Load` carries the plugin
/// instance id, the plugin id and the plugin's index in its file; `GuiOpen`,
/// `Params` and `StateSave` name a module by track and module index.
#[derive(Debug)]
pub enum MainToPlugin {
    Load(usize, String, usize),
    GuiOpen(usize, usize),
    Params(usize, usize),
    Scan,
    StateSave(usize, usize),
    Quit,
}

/// An answer of the plugin host: a plugin was loaded, the parameters of a module,
/// the saved state of a module, or the host quits.
#[derive(Debug)]
pub enum PluginToMain {
    DidLoad,
    DidParams(Vec<Param>),
    DidStateSave(usize, usize, Vec<u8>),
    Quit,
}

/// The name of the shared process data of plugin instance `id`.
pub fn process_data_name(id: usize) -> (r: String)
    ensures
        r@ == "SingLikeCoding.Process.Data."@ + digits(id as nat, 10, true),
{
    let mut s = String::from_str("SingLikeCoding.Process.Data.");
    crate::text::push_digits(&mut s, id, 10, true);
    s
}

/// Distinct plugin instances get distinct names for their shared process data.
pub proof fn lemma_process_data_names_distinct(id1: usize, id2: usize)
    requires
        id1 != id2,
    ensures
        "SingLikeCoding.Process.Data."@ + digits(id1 as nat, 10, true) != "SingLikeCoding.Process.Data."@ + digits(
            id2 as nat,
            10,
            true,
        ),
{
    let p = "SingLikeCoding.Process.Data."@;
    let a = p + digits(id1 as nat, 10, true);
    let b = p + digits(id2 as nat, 10, true);
    if a == b {
        assert(a.skip(p.len() as int) =~= digits(id1 as nat, 10, true));
        assert(b.skip(p.len() as int) =~= digits(id2 as nat, 10, true));
        crate::text::lemma_decimal_digits_injective(id1 as nat, id2 as nat);
    }
}

/// The length field of a frame: the payload length, modulo 2^32.
pub open spec fn length_field(len: nat) -> nat {
    len % 0x1_0000_0000
}

/// The four bytes of `x` (below 2^32), least significant first.
pub open spec fn le_bytes(x: nat) -> Seq<u8> {
    seq![(x % 256) as u8, (x / 256 % 256) as u8, (x / 0x10000 % 256) as u8, (x / 0x1000000 % 256) as u8]
}

/// The number that four bytes encode, least significant first.
pub open spec fn le_value(b: Seq<u8>) -> nat {
    (b[0] + 256 * b[1] + 0x10000 * b[2] + 0x1000000 * b[3]) as nat
}

/// A message as it goes over a pipe: the payload's length as four bytes, least
/// significant first, then the payload.
pub fn frame_message(payload: &Vec<u8>) -> (r: Vec<u8>)
    ensures
        r@ == le_bytes(length_field(payload@.len())) + payload@,
{
    let len = payload.len() as u64 % 0x1_0000_0000u64;
    let mut r: Vec<u8> = Vec::new();
    r.push((len % 256) as u8);
    r.push((len / 256 % 256) as u8);
    r.push((len / 0x10000 % 256) as u8);
    r.push((len / 0x1000000 % 256) as u8);
    let ghost header = r@;
    assert(header =~= le_bytes(length_field(payload@.len())));
    for i in 0..payload.len()
        invariant
            r@ == header + payload@.take(i as int),
    {
        r.push(payload[i]);
        assert(r@ =~= header + payload@.take(i + 1));
    }
    assert(payload@.take(payload@.len() as int) =~= payload@);
    r
}

/// The payload length that the four header bytes of a frame announce.
pub fn frame_length(header: [u8; 4]) -> (r: u32)
    ensures
        r == le_value(header@),
{
    header[0] as u32 + 256 * header[1] as u32 + 0x10000 * header[2] as u32 + 0x1000000 * header[3] as u32
}

/// The header of a framed message announces the payload's length, modulo 2^32.
pub proof fn lemma_frame_length(len: nat)
    ensures
        le_value(le_bytes(length_field(len))) == length_field(len),
{
    let x = length_field(len);
    let b = le_bytes(x);
    assert(b[0] == x % 256);
    assert(b[1] == x / 256 % 256);
    assert(b[2] == x / 0x10000 % 256);
    assert(b[3] == x / 0x1000000 % 256);
    assert(x < 0x1_0000_0000);
    assert(x % 256 + 256 * (x / 256 % 256) + 0x10000 * (x / 0x10000 % 256) + 0x1000000 * (x / 0x1000000 % 256) == x)
        by (nonlinear_arith)
        requires
            x < 0x1_0000_0000,
    ;
}

} // verus!
