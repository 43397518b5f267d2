//! The decoder as its users see it: compressed data in, pictures out.
use vstd::prelude::*;

use crate::data::Data;
use crate::error::{Rav2dError, Result};
use crate::headers::{FrameHeader, SequenceHeader};
use crate::intops::{clip, min};
use crate::refsetup::RefSlot;
use crate::tile::TileGroup;

verus! {

pub const MAX_THREADS: u32 = 256;

pub const MAX_FRAME_DELAY: u32 = 256;

/// Which in-loop filters to apply during decoding.
#[derive(Debug, Clone, Copy, PartialEq, Eq, Structural)]
#[non_exhaustive]
pub enum InloopFilterType {
    Off,
    Deblock,
    Cdef,
    Restoration,
    Wiener,
    Gdf,
    All,
}

impl InloopFilterType {
    /// The set of filters as a mask, one bit for each.
    pub open spec fn mask(self) -> int {
        match self {
            InloopFilterType::Off => 0,
            InloopFilterType::Deblock => 1,
            InloopFilterType::Cdef => 2,
            InloopFilterType::Restoration => 4,
            InloopFilterType::Wiener => 8,
            InloopFilterType::Gdf => 16,
            InloopFilterType::All => 31,
        }
    }

    pub fn bits(self) -> (r: u8)
        ensures
            r == self.mask(),
    {
        match self {
            InloopFilterType::Off => 0,
            InloopFilterType::Deblock => 1,
            InloopFilterType::Cdef => 2,
            InloopFilterType::Restoration => 4,
            InloopFilterType::Wiener => 8,
            InloopFilterType::Gdf => 16,
            InloopFilterType::All => 31,
        }
    }
}

impl Default for InloopFilterType {
    fn default() -> (r: Self)
        ensures
            r == InloopFilterType::All,
    {
        InloopFilterType::All
    }
}

/// Which frame types to decode.
#[derive(Debug, Clone, Copy, PartialEq, Eq, Structural)]
#[non_exhaustive]
pub enum DecodeFrameType {
    All,
    Reference,
    Intra,
    Key,
}

impl Default for DecodeFrameType {
    fn default() -> (r: Self)
        ensures
            r == DecodeFrameType::All,
    {
        DecodeFrameType::All
    }
}

/// Decoder configuration. Use `Settings::default()` for sensible defaults.
#[derive(Debug, Clone, Copy, PartialEq, Eq, Structural)]
pub struct Settings {
    /// Number of worker threads. 0 = one for each logical processor.
    pub n_threads: u32,
    /// Number of logical processors, as far as the caller knows it.
    pub n_cpus: u32,
    /// Maximum frame delay for pipelining. 0 = auto based on thread count.
    pub max_frame_delay: u32,
    /// Apply film grain synthesis to decoded output.
    pub apply_grain: bool,
    /// Scalability operating point index (0 to 31).
    pub operating_point: u32,
    /// Output all temporal and spatial layers.
    pub all_layers: bool,
    /// Maximum frame size in pixels (width times height). 0 = unlimited.
    pub frame_size_limit: u32,
    /// Abort on bitstreams that break the standard instead of best effort.
    pub strict_std_compliance: bool,
    /// Output frames not marked for display.
    pub output_invisible_frames: bool,
    /// Which in-loop filters to apply.
    pub inloop_filters: InloopFilterType,
    /// Which frame types to decode.
    pub decode_frame_type: DecodeFrameType,
    /// Reconstruct frames and emit pictures.
    pub run_decode: bool,
}

impl Default for Settings {
    fn default() -> (r: Self)
        ensures
            r == (Settings {
                n_threads: 0,
                n_cpus: 1,
                max_frame_delay: 0,
                apply_grain: true,
                operating_point: 0,
                all_layers: true,
                frame_size_limit: 0,
                strict_std_compliance: false,
                output_invisible_frames: false,
                inloop_filters: InloopFilterType::All,
                decode_frame_type: DecodeFrameType::All,
                run_decode: false,
            }),
    {
        Settings {
            n_threads: 0,
            n_cpus: 1,
            max_frame_delay: 0,
            apply_grain: true,
            operating_point: 0,
            all_layers: true,
            frame_size_limit: 0,
            strict_std_compliance: false,
            output_invisible_frames: false,
            inloop_filters: InloopFilterType::All,
            decode_frame_type: DecodeFrameType::All,
            run_decode: false,
        }
    }
}

/// The number of frames decoded at once, by number of threads less one.
pub const FC_LUT: [u8; 49] = [
    1, 2, 2, 2, 3, 3, 3, 3, 3, 4, 4, 4, 4, 4, 4, 4, 5, 5, 5, 5, 5, 5, 5, 5, 5, 6, 6, 6, 6, 6, 6, 6, 6,
    6, 6, 6, 7, 7, 7, 7, 7, 7, 7, 7, 7, 7, 7, 7, 7,
];

/// The number of worker threads.
pub open spec fn thread_count(s: Settings) -> int {
    clip(if s.n_threads > 0 { s.n_threads as int } else { s.n_cpus as int }, 1, MAX_THREADS as int)
}

/// The number of frames decoded at once where the settings leave it open: the
/// square root of the number of threads, rounded up, and at most 8.
pub open spec fn auto_frames(n_tc: int) -> int {
    if n_tc < 50 { FC_LUT[n_tc - 1] as int } else { 8 }
}

/// The number of frames decoded at once.
pub open spec fn frame_count(s: Settings) -> int {
    if s.max_frame_delay > 0 {
        min(s.max_frame_delay as int, thread_count(s))
    } else {
        auto_frames(thread_count(s))
    }
}

/// The number of worker threads, and of frames decoded at once.
pub fn get_num_threads(s: &Settings) -> (r: (u32, u32))
    ensures
        r.0 == thread_count(*s),
        r.1 == frame_count(*s),
        1 <= r.0 <= MAX_THREADS,
        1 <= r.1 <= r.0,
{
    assert(forall|i: int|
        0 <= i < 49 ==> 1 <= #[trigger] FC_LUT[i] <= i + 1 && FC_LUT[i] <= 7);
    let wanted: u32 = if s.n_threads > 0 { s.n_threads } else { s.n_cpus };
    let n_tc: u32 = if wanted < 1 { 1 } else if wanted > MAX_THREADS { MAX_THREADS } else { wanted };
    let n_fc: u32 = if s.max_frame_delay > 0 {
        if s.max_frame_delay < n_tc { s.max_frame_delay } else { n_tc }
    } else if n_tc < 50 {
        FC_LUT[(n_tc - 1) as usize] as u32
    } else {
        8
    };
    (n_tc, n_fc)
}

/// The automatic number of frames is the least whose square is at least the
/// number of threads, but never more than 8.
pub proof fn law_auto_frames_is_root(n_tc: int)
    requires
        1 <= n_tc <= MAX_THREADS,
    ensures
        ({
            let f = auto_frames(n_tc);
            &&& 1 <= f <= 8
            &&& (f - 1) * (f - 1) < n_tc
            &&& f < 8 ==> n_tc <= f * f
        }),
{
    assert(forall|i: int|
        0 <= i < 49 ==> {
            let f = #[trigger] FC_LUT[i] as int;
            1 <= f <= 7 && (f == 1 ==> i < 1) && (f == 2 ==> 1 <= i < 4) && (f == 3 ==> 4 <= i < 9)
                && (f == 4 ==> 9 <= i < 16) && (f == 5 ==> 16 <= i < 25) && (f == 6 ==> 25 <= i
                < 36) && (f == 7 ==> 36 <= i < 49)
        });
    let f = auto_frames(n_tc);
    assert((f - 1) * (f - 1) == (if f == 1 {
        0int
    } else if f == 2 {
        1
    } else if f == 3 {
        4
    } else if f == 4 {
        9
    } else if f == 5 {
        16
    } else if f == 6 {
        25
    } else if f == 7 {
        36
    } else {
        49
    })) by (nonlinear_arith)
        requires
            1 <= f <= 8,
    ;
    assert(f * f == (f - 1) * (f - 1) + 2 * f - 1) by (nonlinear_arith);
}

/// The settings name a number of threads and a delay that the decoder can
/// have.
pub open spec fn delay_valid(s: Settings) -> bool {
    s.n_threads <= MAX_THREADS && s.max_frame_delay <= MAX_FRAME_DELAY
}

/// The number of frames that go in before the first one comes out.
pub fn get_frame_delay(s: &Settings) -> (r: Result<u32>)
    ensures
        delay_valid(*s) ==> (r matches Ok(n) && n == frame_count(*s)),
        !delay_valid(*s) ==> r == Err::<u32, Rav2dError>(Rav2dError::InvalidParam),
{
    if s.n_threads > MAX_THREADS || s.max_frame_delay > MAX_FRAME_DELAY {
        return Err(Rav2dError::InvalidParam);
    }
    let (_n_tc, n_fc) = get_num_threads(s);
    Ok(n_fc)
}

/// A decoded picture, by the number under which its planes are kept.
#[derive(Debug, Clone, Copy, PartialEq, Eq, Structural)]
pub struct Picture {
    pub frame: Option<u64>,
}

impl Picture {
    pub fn new() -> (r: Self)
        ensures
            r.frame is None,
    {
        Picture { frame: None }
    }

    pub fn has_data(&self) -> (r: bool)
        ensures
            r == self.frame is Some,
    {
        self.frame.is_some()
    }
}

/// What the parser of the bitstream goes by: the headers in force, the tiles of
/// the frame that is being put together, and what later frames can refer to.
pub struct DecoderContext {
    pub seq_hdr: Option<SequenceHeader>,
    pub frame_hdr: Option<FrameHeader>,
    pub tile: Vec<TileGroup>,
    pub n_tile_data: u32,
    pub n_tiles: u32,
    pub refs: [RefSlot; 8],
}

impl DecoderContext {
    /// Nothing has been parsed, and there is nothing to refer to.
    pub open spec fn is_empty(self) -> bool {
        &&& self.seq_hdr is None
        &&& self.frame_hdr is None
        &&& self.tile@.len() == 0
        &&& self.n_tile_data == 0
        &&& self.n_tiles == 0
        &&& forall|i: int| 0 <= i < 8 ==> (#[trigger] self.refs[i]).is_empty()
    }

    pub fn new() -> (r: Self)
        ensures
            r.is_empty(),
    {
        DecoderContext {
            seq_hdr: None,
            frame_hdr: None,
            tile: Vec::new(),
            n_tile_data: 0,
            n_tiles: 0,
            refs: [RefSlot::new(); 8],
        }
    }
}

/// What parsing a piece of input came to.
#[derive(Debug, Clone, Copy, PartialEq, Eq, Structural)]
pub enum ParseOutcome {
    /// That many bytes were consumed, and perhaps a picture was completed.
    Parsed(usize, Option<Picture>),
    Failed,
}

/// How tasks are handed out where there is more than one thread.
#[derive(Debug, Clone, Copy, PartialEq, Eq, Structural)]
pub struct TaskThread {
    pub cur: u32,
    pub n_passes: u32,
}

/// AV2 bitstream decoder.
///
/// Feed compressed OBU data with [`Decoder::send_data`]. While
/// [`Decoder::wants_parse`] holds, hand what parsing [`Decoder::input`] came to
/// to [`Decoder::parsed`]. Then pull decoded frames with
/// [`Decoder::get_picture`].
pub struct Decoder {
    settings: Settings,
    n_tc: u32,
    n_fc: u32,
    input: Data,
    drain: bool,
    dpb: Vec<Picture>,
    dpb_in: usize,
    dpb_out: usize,
    ctx: DecoderContext,
    task_thread: Option<TaskThread>,
}

/// What a user can tell of a decoder: input not yet parsed, whether the end of
/// the stream was signalled, and the pictures that wait to be fetched.
#[verifier::ext_equal]
pub struct DecoderState {
    pub input: Seq<u8>,
    pub drain: bool,
    pub queue: Seq<Picture>,
}

/// The state after data, or the end of the stream, was sent.
pub open spec fn send_step(st: DecoderState, data: Option<Seq<u8>>) -> (Result<()>, DecoderState) {
    match data {
        None => (Ok(()), DecoderState { drain: true, ..st }),
        Some(d) => if st.drain {
            (Err(Rav2dError::Eof), st)
        } else if d.len() == 0 || d.len() > usize::MAX / 2 {
            (Err(Rav2dError::InvalidParam), st)
        } else if st.input.len() > 0 {
            (Err(Rav2dError::Again), st)
        } else {
            (Ok(()), DecoderState { input: d, ..st })
        },
    }
}

/// The state after input was parsed. While a picture waits nothing changes.
pub open spec fn parse_step(st: DecoderState, outcome: ParseOutcome) -> (Result<()>, DecoderState) {
    if st.queue.len() > 0 {
        (Ok(()), st)
    } else {
        match outcome {
            ParseOutcome::Parsed(n, pic) => (
                Ok(()),
                DecoderState {
                    input: st.input.subrange(n as int, st.input.len() as int),
                    queue: match pic {
                        Some(p) => st.queue.push(p),
                        None => st.queue,
                    },
                    ..st
                },
            ),
            ParseOutcome::Failed => (
                Err(Rav2dError::InvalidData),
                DecoderState { input: Seq::empty(), ..st },
            ),
        }
    }
}

/// Whether input has to be parsed before a picture can be asked for: there is
/// some, and no picture waits.
pub open spec fn parse_wanted(st: DecoderState) -> bool {
    st.queue.len() == 0 && st.input.len() > 0
}

/// The state after a picture was asked for, once there is nothing to parse or a
/// picture waits. At the end of a stream the decoder takes data again.
pub open spec fn get_step(st: DecoderState) -> (Result<Picture>, DecoderState) {
    if st.queue.len() > 0 {
        (Ok(st.queue[0]), DecoderState { queue: st.queue.drop_first(), ..st })
    } else if !st.drain {
        (Err(Rav2dError::Again), st)
    } else {
        (Err(Rav2dError::Eof), DecoderState { drain: false, ..st })
    }
}

/// The state after input was parsed until a picture was completed, none was
/// left, or parsing failed, and then a picture was asked for; `outcomes` are
/// what the parser finds. Nothing is known where they run out.
pub open spec fn fetch_run(st: DecoderState, outcomes: Seq<ParseOutcome>) -> Option<DecoderState>
    decreases outcomes.len(),
{
    if st.queue.len() > 0 || st.input.len() == 0 {
        Some(get_step(st).1)
    } else if outcomes.len() == 0 {
        None
    } else {
        let (r, next) = parse_step(st, outcomes[0]);
        if r is Err {
            Some(next)
        } else {
            fetch_run(next, outcomes.drop_first())
        }
    }
}

/// What a user asks of a decoder.
pub enum UserCall {
    Send(Option<Seq<u8>>),
    Fetch(Seq<ParseOutcome>),
    Flush,
}

/// The state of a decoder that has been given nothing.
pub open spec fn idle_state() -> DecoderState {
    DecoderState { input: Seq::empty(), drain: false, queue: Seq::empty() }
}

/// The state after a sequence of calls.
pub open spec fn calls_run(st: DecoderState, calls: Seq<UserCall>) -> Option<DecoderState>
    decreases calls.len(),
{
    if calls.len() == 0 {
        Some(st)
    } else {
        let next = match calls[0] {
            UserCall::Send(data) => Some(send_step(st, data).1),
            UserCall::Fetch(outcomes) => fetch_run(st, outcomes),
            UserCall::Flush => Some(idle_state()),
        };
        match next {
            Some(s) => calls_run(s, calls.drop_first()),
            None => None,
        }
    }
}

proof fn lemma_fetch_empties(st: DecoderState, outcomes: Seq<ParseOutcome>)
    requires
        st.queue.len() <= 1,
    ensures
        fetch_run(st, outcomes) matches Some(s) ==> s.queue.len() == 0,
    decreases outcomes.len(),
{
    if st.queue.len() == 0 && st.input.len() > 0 && outcomes.len() > 0 {
        lemma_fetch_empties(parse_step(st, outcomes[0]).1, outcomes.drop_first());
    }
}

/// No picture waits between the calls of a user: every picture that a call
/// completes is handed out by the same call.
pub proof fn law_no_picture_waits_between_calls(st: DecoderState, calls: Seq<UserCall>)
    requires
        st.queue.len() == 0,
    ensures
        calls_run(st, calls) matches Some(s) ==> s.queue.len() == 0,
    decreases calls.len(),
{
    if calls.len() > 0 {
        match calls[0] {
            UserCall::Send(data) => {
                law_no_picture_waits_between_calls(send_step(st, data).1, calls.drop_first());
            },
            UserCall::Fetch(outcomes) => {
                lemma_fetch_empties(st, outcomes);
                if let Some(s) = fetch_run(st, outcomes) {
                    law_no_picture_waits_between_calls(s, calls.drop_first());
                }
            },
            UserCall::Flush => {
                law_no_picture_waits_between_calls(idle_state(), calls.drop_first());
            },
        }
    }
}

/// A picture that was completed is the next one fetched, and fetching it
/// leaves the decoder as if it had not been completed.
pub proof fn law_completed_picture_is_fetched(st: DecoderState, n: usize, p: Picture)
    requires
        st.queue.len() == 0,
        n <= st.input.len(),
    ensures
        ({
            let parsed = parse_step(st, ParseOutcome::Parsed(n, Some(p))).1;
            &&& get_step(parsed).0 == Ok::<Picture, Rav2dError>(p)
            &&& get_step(parsed).1 == parse_step(st, ParseOutcome::Parsed(n, None)).1
        }),
{
    let parsed = parse_step(st, ParseOutcome::Parsed(n, Some(p))).1;
    assert(parsed.queue.drop_first() =~= st.queue);
}

/// Data is refused while earlier data has not been parsed as a whole, and
/// taken once it has.
pub proof fn law_data_is_taken_when_parsed(st: DecoderState, d: Seq<u8>)
    requires
        !st.drain,
        0 < d.len() <= usize::MAX / 2,
    ensures
        send_step(st, Some(d)).0 is Ok <==> st.input.len() == 0,
        st.input.len() > 0 ==> send_step(st, Some(d)).0 == Err::<(), Rav2dError>(Rav2dError::Again),
{
}

/// Once the end of the stream was signalled no data is taken, until all
/// pictures were fetched and the end was reported.
pub proof fn law_end_of_stream(st: DecoderState, d: Seq<u8>)
    requires
        st.queue.len() == 0,
        st.input.len() == 0,
        0 < d.len() <= usize::MAX / 2,
    ensures
        ({
            let ended = send_step(st, None).1;
            let (end, after) = get_step(ended);
            &&& send_step(ended, Some(d)).0 == Err::<(), Rav2dError>(Rav2dError::Eof)
            &&& end == Err::<Picture, Rav2dError>(Rav2dError::Eof)
            &&& send_step(after, Some(d)).0 is Ok
        }),
{
}

/// The number of pictures between two places of a ring.
pub open spec fn ring_len(from: int, to: int, size: int) -> int {
    if to >= from { to - from } else { to - from + size }
}

/// The place `k` after `from` in a ring.
pub open spec fn ring_at(from: int, k: int, size: int) -> int {
    if from + k < size { from + k } else { from + k - size }
}

impl View for Decoder {
    type V = DecoderState;

    closed spec fn view(&self) -> DecoderState {
        let size = self.dpb@.len() as int;
        let (i, o) = (self.dpb_in as int, self.dpb_out as int);
        DecoderState {
            input: self.input@,
            drain: self.drain,
            queue: Seq::new(
                ring_len(o, i, size) as nat,
                |k: int| self.dpb@[ring_at(o, k, size)],
            ),
        }
    }
}

impl Decoder {
    pub closed spec fn wf(self) -> bool {
        &&& self.input.wf()
        &&& self.n_tc == thread_count(self.settings)
        &&& self.n_fc == frame_count(self.settings)
        &&& self.dpb@.len() == self.n_fc + 16
        &&& self.n_fc <= MAX_THREADS
        &&& self.dpb_in < self.dpb@.len()
        &&& self.dpb_out < self.dpb@.len()
        &&& self@.queue.len() <= 1
    }

    pub closed spec fn configured(self) -> Settings {
        self.settings
    }

    /// What the parser goes by.
    pub closed spec fn context(self) -> DecoderContext {
        self.ctx
    }

    pub closed spec fn tasks(self) -> Option<TaskThread> {
        self.task_thread
    }

    /// Nothing has been sent, parsed or decoded.
    pub open spec fn is_fresh(self) -> bool {
        &&& self@.input == Seq::<u8>::empty()
        &&& !self@.drain
        &&& self@.queue == Seq::<Picture>::empty()
        &&& self.context().is_empty()
    }

    /// Creates a new decoder with the given settings.
    pub fn open(s: &Settings) -> (r: Result<Self>)
        ensures
            !(delay_valid(*s) && s.operating_point <= 31) ==> r == Err::<Decoder, Rav2dError>(
                Rav2dError::InvalidParam,
            ),
            delay_valid(*s) && s.operating_point <= 31 ==> r is Ok,
            r matches Ok(d) ==> {
                &&& d.wf()
                &&& d.configured() == *s
                &&& d.is_fresh()
                &&& d.tasks() == (if thread_count(*s) > 1 {
                    Some(
                        TaskThread {
                            cur: frame_count(*s) as u32,
                            n_passes: if frame_count(*s) > 1 { 3 } else { 2 },
                        },
                    )
                } else {
                    None::<TaskThread>
                })
            },
    {
        if s.n_threads > MAX_THREADS || s.max_frame_delay > MAX_FRAME_DELAY {
            return Err(Rav2dError::InvalidParam);
        }
        if s.operating_point > 31 {
            return Err(Rav2dError::InvalidParam);
        }
        let (n_tc, n_fc) = get_num_threads(s);
        let size: usize = n_fc as usize + 16;
        let mut dpb: Vec<Picture> = Vec::new();
        while dpb.len() < size
            invariant
                dpb@.len() <= size,
            decreases size - dpb@.len(),
        {
            dpb.push(Picture::new());
        }
        let task_thread: Option<TaskThread> = if n_tc > 1 {
            Some(TaskThread { cur: n_fc, n_passes: if n_fc > 1 { 3 } else { 2 } })
        } else {
            None
        };
        let d: Decoder = Decoder {
            settings: *s,
            n_tc,
            n_fc,
            input: Data::new(),
            drain: false,
            dpb,
            dpb_in: 0,
            dpb_out: 0,
            ctx: DecoderContext::new(),
            task_thread,
        };
        assert(d@.queue =~= Seq::<Picture>::empty());
        Ok(d)
    }

    /// All but input, end of stream and queue is as it was.
    pub open spec fn same_rest(self, after: Decoder) -> bool {
        &&& after.configured() == self.configured()
        &&& after.context() == self.context()
        &&& after.tasks() == self.tasks()
    }

    /// Feeds compressed data to the decoder. Pass `None` to signal the end of
    /// the stream.
    ///
    /// Returns `Err(Again)` if the decoder has not consumed earlier data yet.
    pub fn send_data(&mut self, data: Option<Data>) -> (r: Result<()>)
        requires
            old(self).wf(),
            data matches Some(d) ==> d.wf(),
        ensures
            final(self).wf(),
            old(self).same_rest(*final(self)),
            (r, final(self)@) == send_step(
                old(self)@,
                match data {
                    Some(d) => Some(d@),
                    None => None,
                },
            ),
    {
        match data {
            None => {
                self.drain = true;
                assert(self@.queue =~= old(self)@.queue);
                Ok(())
            },
            Some(d) => {
                if self.drain {
                    return Err(Rav2dError::Eof);
                }
                if d.is_empty() || d.len() > usize::MAX / 2 {
                    return Err(Rav2dError::InvalidParam);
                }
                if self.input.has_data() {
                    return Err(Rav2dError::Again);
                }
                self.input = d;
                assert(self@.queue =~= old(self)@.queue);
                Ok(())
            },
        }
    }

    /// Hands out what the parser goes by, leaving nothing in its place.
    pub fn take_context(&mut self) -> (r: DecoderContext)
        requires
            old(self).wf(),
        ensures
            r == old(self).context(),
            final(self).wf(),
            final(self)@ == old(self)@,
            final(self).context().is_empty(),
            final(self).configured() == old(self).configured(),
            final(self).tasks() == old(self).tasks(),
    {
        let mut r: DecoderContext = DecoderContext::new();
        std::mem::swap(&mut r, &mut self.ctx);
        assert(self@.queue =~= old(self)@.queue);
        r
    }

    /// Takes back what the parser goes by.
    pub fn set_context(&mut self, ctx: DecoderContext)
        requires
            old(self).wf(),
        ensures
            final(self).wf(),
            final(self)@ == old(self)@,
            final(self).context() == ctx,
            final(self).configured() == old(self).configured(),
            final(self).tasks() == old(self).tasks(),
    {
        self.ctx = ctx;
        assert(self@.queue =~= old(self)@.queue);
    }

    /// Whether a picture waits to be fetched.
    pub fn output_picture_ready(&self) -> (r: bool)
        requires
            self.wf(),
        ensures
            r == (self@.queue.len() > 0),
    {
        self.dpb_out != self.dpb_in
    }

    /// Whether input has to be parsed before there can be a picture.
    pub fn wants_parse(&self) -> (r: bool)
        requires
            self.wf(),
        ensures
            r == parse_wanted(self@),
    {
        !self.output_picture_ready() && !self.input.is_empty()
    }

    /// The input that is to be parsed.
    pub fn input(&self) -> (r: Vec<u8>)
        requires
            self.wf(),
        ensures
            r@ == self@.input,
    {
        self.input.data()
    }

    /// Takes what parsing the input came to. A picture that was completed is
    /// queued. Input that cannot be parsed is dropped. While a picture waits
    /// nothing changes.
    pub fn parsed(&mut self, outcome: ParseOutcome) -> (r: Result<()>)
        requires
            old(self).wf(),
            outcome matches ParseOutcome::Parsed(n, _) ==> n <= old(self)@.input.len(),
        ensures
            final(self).wf(),
            old(self).same_rest(*final(self)),
            (r, final(self)@) == parse_step(old(self)@, outcome),
    {
        if self.output_picture_ready() {
            return Ok(());
        }
        match outcome {
            ParseOutcome::Parsed(n, pic) => {
                self.input.consume(n);
                if self.input.is_empty() {
                    self.input.unref();
                    assert(self.input@ =~= old(self)@.input.subrange(
                        n as int,
                        old(self)@.input.len() as int,
                    ));
                }
                match pic {
                    Some(p) => {
                        let at: usize = self.dpb_in;
                        self.dpb.set(at, p);
                        self.dpb_in = at + 1;
                        if self.dpb_in == self.dpb.len() {
                            self.dpb_in = 0;
                        }
                        assert(self@.queue =~= old(self)@.queue.push(p));
                    },
                    None => {
                        assert(self@.queue =~= Seq::<Picture>::empty());
                    },
                }
                Ok(())
            },
            ParseOutcome::Failed => {
                self.input.unref();
                assert(self@.queue =~= Seq::<Picture>::empty());
                Err(Rav2dError::InvalidData)
            },
        }
    }

    /// Retrieves a decoded picture from the output queue. Input is parsed
    /// first, until a picture waits or none is left.
    ///
    /// Returns `Err(Again)` when no picture is available yet: send more data.
    /// Returns `Err(Eof)` when the stream has been fully drained; the decoder
    /// then takes data again.
    pub fn get_picture(&mut self) -> (r: Result<Picture>)
        requires
            old(self).wf(),
            !parse_wanted(old(self)@),
        ensures
            final(self).wf(),
            old(self).same_rest(*final(self)),
            (r, final(self)@) == get_step(old(self)@),
    {
        if self.dpb_in == self.dpb_out {
            if !self.drain {
                return Err(Rav2dError::Again);
            }
            self.drain = false;
            assert(self@.queue =~= old(self)@.queue);
            return Err(Rav2dError::Eof);
        }
        let at: usize = self.dpb_out;
        let pic: Picture = self.dpb[at];
        self.dpb.set(at, Picture::new());
        self.dpb_out = at + 1;
        if self.dpb_out == self.dpb.len() {
            self.dpb_out = 0;
        }
        assert(self@.queue =~= old(self)@.queue.drop_first());
        Ok(pic)
    }

    /// Resets the decoder, discarding all buffered data and references.
    pub fn flush(&mut self)
        requires
            old(self).wf(),
        ensures
            final(self).wf(),
            final(self).is_fresh(),
            final(self).configured() == old(self).configured(),
            final(self).tasks() == old(self).tasks(),
    {
        self.input.unref();
        let mut i: usize = 0;
        let size: usize = self.dpb.len();
        while i < size
            invariant
                i <= size,
                self.dpb@.len() == size,
                self.input@ == Seq::<u8>::empty(),
                self.input.wf(),
                self.settings == old(self).settings,
                self.n_tc == old(self).n_tc,
                self.n_fc == old(self).n_fc,
                self.task_thread == old(self).task_thread,
            decreases size - i,
        {
            if self.dpb[i].has_data() {
                self.dpb.set(i, Picture::new());
            }
            i = i + 1;
        }
        self.dpb_in = 0;
        self.dpb_out = 0;
        self.drain = false;
        self.ctx = DecoderContext::new();
        assert(self@.queue =~= Seq::<Picture>::empty());
    }

    pub fn n_threads(&self) -> (r: u32)
        requires
            self.wf(),
        ensures
            r == thread_count(self.configured()),
    {
        self.n_tc
    }

    pub fn n_frame_contexts(&self) -> (r: u32)
        requires
            self.wf(),
        ensures
            r == frame_count(self.configured()),
    {
        self.n_fc
    }

    /// Whether the end of the stream was signalled.
    pub fn is_draining(&self) -> (r: bool)
        ensures
            r == self@.drain,
    {
        self.drain
    }

    /// Whether there is no input left.
    pub fn input_is_empty(&self) -> (r: bool)
        requires
            self.wf(),
        ensures
            r == (self@.input.len() == 0),
    {
        self.input.is_empty()
    }
}

pub fn version() -> (r: &'static str)
    ensures
        r@ == "0.1.0"@,
{
    "0.1.0"
}

pub fn version_api() -> (r: u32)
    ensures
        r == 256,
{
    256
}

/// Going on from one place of a ring by the number of pictures up to another
/// ends at that other; places stay within the ring.
pub proof fn law_ring_goes_round(from: int, to: int, size: int, k: int)
    requires
        0 <= from < size,
        0 <= to < size,
        0 <= k < size,
    ensures
        0 <= ring_len(from, to, size) < size,
        ring_at(from, ring_len(from, to, size), size) == to,
        0 <= ring_at(from, k, size) < size,
        ring_len(from, ring_at(from, k, size), size) == k,
{
}

/// The number of threads is the one that is asked for, or that of processors,
/// and at least one; no more frames than threads are decoded at once, and no
/// more than the delay allows.
pub proof fn law_threads_and_frames(s: Settings)
    requires
        delay_valid(s),
    ensures
        1 <= thread_count(s) <= MAX_THREADS,
        s.n_threads > 0 ==> thread_count(s) == s.n_threads,
        s.n_threads == 0 && 1 <= s.n_cpus <= MAX_THREADS ==> thread_count(s) == s.n_cpus,
        1 <= frame_count(s) <= thread_count(s),
        s.max_frame_delay > 0 ==> frame_count(s) <= s.max_frame_delay,
        s.max_frame_delay > 0 && s.max_frame_delay <= thread_count(s) ==> frame_count(s)
            == s.max_frame_delay,
{
    law_auto_frames_is_root(thread_count(s));
    let f = auto_frames(thread_count(s));
    if s.max_frame_delay == 0 && thread_count(s) < 50 {
        assert(f <= thread_count(s)) by (nonlinear_arith)
            requires
                1 <= thread_count(s) < 50,
                f <= 1 || (f - 1) * (f - 1) < thread_count(s),
        ;
    }
}

/// Refused data changes nothing: none is taken at the end of the stream, an
/// empty piece never, and a second piece not before the first is used up.
/// Without data the stream ends.
pub proof fn law_refused_data_changes_nothing(st: DecoderState, d: Seq<u8>)
    ensures
        ({
            let (r, e) = send_step(st, Some(d));
            &&& r is Err ==> e == st
            &&& st.drain ==> r is Err
            &&& d.len() == 0 ==> r is Err
            &&& st.input.len() > 0 ==> r is Err
            &&& r is Ok ==> e.input == d && e.queue == st.queue && !e.drain
            &&& send_step(st, None).1.drain && send_step(st, None).0 is Ok
            &&& send_step(st, None).1.input == st.input
        }),
{
}

/// Parsing takes what it used from the front of the input; what it cannot
/// parse is dropped. Pictures come out in the order in which they went in.
pub proof fn law_input_is_used_from_the_front(st: DecoderState, n: usize, p: Option<Picture>)
    requires
        st.queue.len() == 0,
        n <= st.input.len(),
    ensures
        ({
            let (r, e) = parse_step(st, ParseOutcome::Parsed(n, p));
            &&& r is Ok
            &&& st.input == st.input.take(n as int) + e.input
            &&& e.input.len() == st.input.len() - n
            &&& p matches Some(x) ==> get_step(e).0 == Ok::<Picture, Rav2dError>(x)
            &&& p is None ==> e.queue == st.queue
            &&& parse_step(st, ParseOutcome::Failed).1.input.len() == 0
            &&& parse_step(st, ParseOutcome::Failed).0 is Err
            &&& e.drain == st.drain
        }),
{
    let (r, e) = parse_step(st, ParseOutcome::Parsed(n, p));
    assert(st.input =~= st.input.take(n as int) + e.input);
}

} // verus!
