//! The transport state that the audio engine publishes to the editor: playing,
//! looping, recording, the song file, and per-track meters.
use vstd::prelude::*;
use vstd::string::StringSliceAdditionalSpecFns;

verus! {

/// Room for the song file path, its terminating zero byte included.
pub const MAX_PATH_LEN: usize = 1024;

/// The number of tracks whose state is published.
pub const MAX_TRACKS: usize = 0xff;

/// Bit pattern of the `f32` -60.0: the bottom of the meter scale in dB.
pub const DB_MIN_BITS: u32 = 0xc2700000;

/// A track's meters (bit patterns of `f32` peak levels in dB, left and right) and
/// whether it records.
#[derive(Clone, Copy, Debug, PartialEq, Eq, Structural)]
pub struct TrackState {
    pub peak_left_bits: u32,
    pub peak_right_bits: u32,
    pub rec_p: bool,
}

/// The transport state. `song_file` holds the path of the song as UTF-8 bytes up to
/// the first zero byte; `loop_start`, `loop_end` are in 1/256 of a line;
/// `param_track_index` is `usize::MAX` while no plugin reported a parameter change.
#[derive(Debug)]
pub struct SongState {
    pub song_file: Vec<u8>,
    pub play_p: bool,
    pub line_play: usize,
    pub loop_p: bool,
    pub loop_start: usize,
    pub loop_end: usize,
    pub ms_play: usize,
    pub process_elasped_avg_bits: u64,
    pub cpu_usage_bits: u64,
    pub tracks: Vec<TrackState>,
    pub param_track_index: usize,
    pub param_module_index: usize,
    pub param_id: u32,
    pub rec_p: bool,
    pub song_dirty_p: bool,
}

/// The buffers have their fixed sizes.
pub open spec fn song_state_wf(s: SongState) -> bool {
    s.song_file@.len() == MAX_PATH_LEN && s.tracks@.len() == MAX_TRACKS
}

/// The bytes of the song file path: everything before the first zero byte.
pub open spec fn file_bytes(b: Seq<u8>) -> Seq<u8> {
    b.take(first_zero(b, 0))
}

/// The index of the first zero byte from `i` on, or the length when there is none.
pub open spec fn first_zero(b: Seq<u8>, i: int) -> int
    decreases b.len() - i,
{
    if i >= b.len() {
        b.len() as int
    } else if b[i] == 0 {
        i
    } else {
        first_zero(b, i + 1)
    }
}

/// Calls `std::str::from_utf8` and copies the text it accepts into a `String`: the
/// text is there exactly when the bytes are valid UTF-8, and then it is their
/// decoding.
#[verifier::external_body]
fn utf8_text(bytes: &[u8]) -> (r: Option<String>)
    ensures
        match r {
            Some(s) => vstd::utf8::valid_utf8(bytes@) && s@ == vstd::utf8::decode_utf8(bytes@),
            None => !vstd::utf8::valid_utf8(bytes@),
        },
{
    std::str::from_utf8(bytes).ok().map(|s| s.to_string())
}

proof fn lemma_first_zero(b: Seq<u8>, i: int)
    requires
        0 <= i <= b.len(),
    ensures
        i <= first_zero(b, i) <= b.len(),
        first_zero(b, i) < b.len() ==> b[first_zero(b, i)] == 0,
        forall|j: int| i <= j < first_zero(b, i) ==> b[j] != 0,
    decreases b.len() - i,
{
    if i < b.len() && b[i] != 0 {
        lemma_first_zero(b, i + 1);
    }
}

impl SongState {
    /// A stopped, non-looping, non-recording state with no song file, a loop over
    /// the first 32 lines and all meters at the bottom.
    pub fn new() -> (r: Self)
        ensures
            song_state_wf(r),
            spec_initial(r),
    {
        let mut song_file: Vec<u8> = Vec::new();
        for i in 0..MAX_PATH_LEN
            invariant
                song_file@.len() == i,
                forall|j: int| 0 <= j < i ==> song_file@[j] == 0,
        {
            song_file.push(0);
        }
        let mut tracks: Vec<TrackState> = Vec::new();
        for i in 0..MAX_TRACKS
            invariant
                tracks@.len() == i,
                forall|j: int| 0 <= j < i ==> tracks@[j] == (TrackState { peak_left_bits: DB_MIN_BITS, peak_right_bits: DB_MIN_BITS, rec_p: false }),
        {
            tracks.push(TrackState { peak_left_bits: DB_MIN_BITS, peak_right_bits: DB_MIN_BITS, rec_p: false });
        }
        let mut r = SongState {
            song_file,
            play_p: false,
            line_play: 0,
            loop_p: false,
            loop_start: 0,
            loop_end: 0,
            ms_play: 0,
            process_elasped_avg_bits: 0,
            cpu_usage_bits: 0,
            tracks,
            param_track_index: 0,
            param_module_index: 0,
            param_id: 0,
            rec_p: false,
            song_dirty_p: false,
        };
        r.init();
        r
    }

    /// Resets the transport: stopped, not looping, loop over lines 0 to 0x20, no
    /// song file, meters at the bottom, no track recording, nothing reported.
    pub fn init(&mut self)
        requires
            song_state_wf(*old(self)),
        ensures
            song_state_wf(*final(self)),
            spec_initial(*final(self)),
            final(self).song_file@.subrange(1, MAX_PATH_LEN as int) == old(self).song_file@.subrange(1, MAX_PATH_LEN as int),
            final(self).param_module_index == old(self).param_module_index,
            final(self).param_id == old(self).param_id,
    {
        self.song_file.set(0, 0);
        self.play_p = false;
        self.line_play = 0;
        self.loop_p = false;
        self.loop_start = 0;
        self.loop_end = 0x100 * 0x20;
        self.ms_play = 0;
        self.process_elasped_avg_bits = 0;
        self.cpu_usage_bits = 0;
        for i in 0..MAX_TRACKS
            invariant
                self.tracks@.len() == MAX_TRACKS,
                self.song_file@ == old(self).song_file@.update(0, 0),
                old(self).song_file@.len() == MAX_PATH_LEN,
                !self.play_p,
                self.line_play == 0,
                !self.loop_p,
                self.loop_start == 0,
                self.loop_end == 0x2000,
                self.ms_play == 0,
                self.process_elasped_avg_bits == 0,
                self.cpu_usage_bits == 0,
                self.param_module_index == old(self).param_module_index,
                self.param_id == old(self).param_id,
                forall|j: int| 0 <= j < i ==> self.tracks@[j] == (TrackState { peak_left_bits: DB_MIN_BITS, peak_right_bits: DB_MIN_BITS, rec_p: false }),
        {
            self.tracks.set(i, TrackState { peak_left_bits: DB_MIN_BITS, peak_right_bits: DB_MIN_BITS, rec_p: false });
        }
        self.param_track_index = usize::MAX;
        self.rec_p = false;
        self.song_dirty_p = false;
        assert(self.song_file@.subrange(1, MAX_PATH_LEN as int) =~= old(self).song_file@.subrange(1, MAX_PATH_LEN as int));
    }

    /// The song file path, when one is set and its bytes are valid UTF-8.
    pub fn song_file_get(&self) -> (r: Option<String>)
        requires
            song_state_wf(*self),
        ensures
            match r {
                Some(s) => file_bytes(self.song_file@).len() > 0 && vstd::utf8::valid_utf8(file_bytes(self.song_file@))
                    && s@ == vstd::utf8::decode_utf8(file_bytes(self.song_file@)),
                None => file_bytes(self.song_file@).len() == 0 || !vstd::utf8::valid_utf8(file_bytes(self.song_file@)),
            },
    {
        let mut pos: usize = 0;
        while pos < self.song_file.len() && self.song_file[pos] != 0
            invariant
                0 <= pos <= self.song_file@.len(),
                first_zero(self.song_file@, 0) == first_zero(self.song_file@, pos as int),
            decreases self.song_file@.len() - pos,
        {
            pos = pos + 1;
        }
        if pos == 0 {
            return None;
        }
        let bytes = bytes_prefix(&self.song_file, pos);
        assert(bytes@ =~= file_bytes(self.song_file@));
        utf8_text(bytes.as_slice())
    }

    /// Stores `name` as the song file path, cut to the first 1023 bytes, with a
    /// terminating zero byte.
    pub fn song_file_set(&mut self, name: &str)
        requires
            song_state_wf(*old(self)),
        ensures
            song_state_wf(*final(self)),
            ({
                let b = name.spec_bytes();
                let len = if b.len() < MAX_PATH_LEN - 1 { b.len() as int } else { MAX_PATH_LEN - 1 };
                final(self).song_file@ == b.take(len) + seq![0u8] + old(self).song_file@.subrange(len + 1, MAX_PATH_LEN as int)
            }),
            *final(self) == (SongState { song_file: final(self).song_file, ..*old(self) }),
    {
        let bytes = name.as_bytes();
        let len = if bytes.len() < MAX_PATH_LEN - 1 {
            bytes.len()
        } else {
            MAX_PATH_LEN - 1
        };
        let ghost old_file = self.song_file@;
        for i in 0..len
            invariant
                len < MAX_PATH_LEN,
                len <= bytes@.len(),
                old_file.len() == MAX_PATH_LEN,
                self.song_file@.len() == MAX_PATH_LEN,
                self.song_file@ == bytes@.take(i as int) + old_file.subrange(i as int, MAX_PATH_LEN as int),
                *self == (SongState { song_file: self.song_file, ..*old(self) }),
        {
            self.song_file.set(i, bytes[i]);
            assert(self.song_file@ =~= bytes@.take(i + 1) + old_file.subrange(i + 1, MAX_PATH_LEN as int));
        }
        self.song_file.set(len, 0);
        assert(self.song_file@ =~= bytes@.take(len as int) + seq![0u8] + old_file.subrange(len + 1, MAX_PATH_LEN as int));
    }
}

/// The first `n` bytes of `s`.
fn bytes_prefix(s: &Vec<u8>, n: usize) -> (r: Vec<u8>)
    requires
        n <= s@.len(),
    ensures
        r@ == s@.take(n as int),
{
    let mut r: Vec<u8> = Vec::new();
    let mut i: usize = 0;
    while i < n
        invariant
            i <= n <= s@.len(),
            r@ == s@.take(i as int),
        decreases n - i,
    {
        r.push(s[i]);
        i = i + 1;
        assert(r@ =~= s@.take(i as int));
    }
    r
}

/// The state right after `init`.
pub open spec fn spec_initial(s: SongState) -> bool {
    &&& s.song_file@[0] == 0
    &&& !s.play_p
    &&& s.line_play == 0
    &&& !s.loop_p
    &&& s.loop_start == 0
    &&& s.loop_end == 0x2000
    &&& s.ms_play == 0
    &&& s.process_elasped_avg_bits == 0
    &&& s.cpu_usage_bits == 0
    &&& forall|j: int| 0 <= j < MAX_TRACKS ==> #[trigger] s.tracks@[j] == (TrackState { peak_left_bits: DB_MIN_BITS, peak_right_bits: DB_MIN_BITS, rec_p: false })
    &&& s.param_track_index == usize::MAX
    &&& !s.rec_p
    &&& !s.song_dirty_p
}

/// A path of at most 1023 bytes, none of them zero, reads back as it was stored.
pub proof fn lemma_song_file_round_trip(before: Seq<u8>, name: Seq<char>, after: Seq<u8>)
    requires
        before.len() == MAX_PATH_LEN,
        vstd::utf8::encode_utf8(name).len() < MAX_PATH_LEN,
        forall|i: int| 0 <= i < vstd::utf8::encode_utf8(name).len() ==> #[trigger] vstd::utf8::encode_utf8(name)[i] != 0,
        after == vstd::utf8::encode_utf8(name) + seq![0u8] + before.subrange(
            vstd::utf8::encode_utf8(name).len() + 1int,
            MAX_PATH_LEN as int,
        ),
    ensures
        file_bytes(after) == vstd::utf8::encode_utf8(name),
        vstd::utf8::valid_utf8(file_bytes(after)),
        vstd::utf8::decode_utf8(file_bytes(after)) == name,
{
    let b = vstd::utf8::encode_utf8(name);
    lemma_first_zero(after, 0);
    assert(after[b.len() as int] == 0);
    if first_zero(after, 0) < b.len() {
        assert(after[first_zero(after, 0)] == b[first_zero(after, 0)]);
    }
    assert(first_zero(after, 0) == b.len());
    assert(file_bytes(after) =~= b);
    vstd::utf8::encode_utf8_valid_utf8(name);
    vstd::utf8::encode_utf8_decode_utf8(name);
}

} // verus!
