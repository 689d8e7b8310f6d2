//! The performance panel: per-frame timing of each pipeline stage, slow
//! frames (over the 16 ms budget) and aggregate statistics. Frame rates
//! and their text are computed with floating point by the application.
use vstd::prelude::*;
use crate::units::{average_of, Duration};

verus! {

/// The frame budget at 60 frames per second, in nanoseconds.
pub const FRAME_BUDGET_NANOS: u64 = 16_000_000;

/// The most frames kept.
pub const MAX_FRAME_RECORDS: usize = 600;

/// A stage of the rendering pipeline.
#[derive(Debug, Clone, Copy, PartialEq, Eq, Hash, Structural)]
pub enum PipelineStage {
    /// HTML parsing.
    Parse,
    /// CSS cascade and style computation.
    Style,
    /// Layout.
    Layout,
    /// Paint.
    Paint,
    /// JavaScript execution.
    Script,
    /// Everything else.
    Other,
}

/// The stages in display order.
pub open spec fn stage_order() -> Seq<PipelineStage> {
    seq![
        PipelineStage::Parse,
        PipelineStage::Style,
        PipelineStage::Layout,
        PipelineStage::Paint,
        PipelineStage::Script,
        PipelineStage::Other,
    ]
}

impl PipelineStage {
    /// The label.
    pub fn label(self) -> (r: &'static str)
        ensures
            r@ == match self {
                PipelineStage::Parse => "Parse"@,
                PipelineStage::Style => "Style"@,
                PipelineStage::Layout => "Layout"@,
                PipelineStage::Paint => "Paint"@,
                PipelineStage::Script => "Script"@,
                PipelineStage::Other => "Other"@,
            },
    {
        match self {
            PipelineStage::Parse => "Parse",
            PipelineStage::Style => "Style",
            PipelineStage::Layout => "Layout",
            PipelineStage::Paint => "Paint",
            PipelineStage::Script => "Script",
            PipelineStage::Other => "Other",
        }
    }

    /// All stages, in display order.
    pub fn all() -> (r: [PipelineStage; 6])
        ensures
            r@ == stage_order(),
    {
        let r = [
            PipelineStage::Parse,
            PipelineStage::Style,
            PipelineStage::Layout,
            PipelineStage::Paint,
            PipelineStage::Script,
            PipelineStage::Other,
        ];
        assert(r@ =~= seq![
            PipelineStage::Parse,
            PipelineStage::Style,
            PipelineStage::Layout,
            PipelineStage::Paint,
            PipelineStage::Script,
            PipelineStage::Other,
        ]);
        r
    }
}

/// The timing of one frame.
#[derive(Debug, Clone, Copy, PartialEq, Eq, Structural)]
pub struct FrameRecord {
    /// Frame number.
    pub frame_number: u64,
    /// HTML parsing.
    pub parse: Duration,
    /// Style computation.
    pub style: Duration,
    /// Layout.
    pub layout: Duration,
    /// Paint.
    pub paint: Duration,
    /// JavaScript execution.
    pub script: Duration,
    /// Other work.
    pub other: Duration,
}

/// The total time of a frame, in nanoseconds.
pub open spec fn frame_total(f: FrameRecord) -> nat {
    f.parse@ + f.style@ + f.layout@ + f.paint@ + f.script@ + f.other@
}

/// The time of one stage of a frame.
pub open spec fn stage_time(f: FrameRecord, s: PipelineStage) -> Duration {
    match s {
        PipelineStage::Parse => f.parse,
        PipelineStage::Style => f.style,
        PipelineStage::Layout => f.layout,
        PipelineStage::Paint => f.paint,
        PipelineStage::Script => f.script,
        PipelineStage::Other => f.other,
    }
}

impl FrameRecord {
    /// The sum of all stages.
    pub fn total(&self) -> (r: Duration)
        requires
            frame_total(*self) <= u64::MAX,
        ensures
            r@ == frame_total(*self),
    {
        self.parse.plus(self.style).plus(self.layout).plus(self.paint).plus(self.script).plus(self.other)
    }

    fn total_nanos(&self) -> (r: u128)
        ensures
            r == frame_total(*self),
    {
        self.parse.as_nanos() as u128 + self.style.as_nanos() as u128 + self.layout.as_nanos() as u128
            + self.paint.as_nanos() as u128 + self.script.as_nanos() as u128 + self.other.as_nanos() as u128
    }

    /// Whether the frame took longer than the 16 ms budget.
    pub fn is_slow(&self) -> (r: bool)
        ensures
            r == (frame_total(*self) > FRAME_BUDGET_NANOS),
    {
        self.total_nanos() > FRAME_BUDGET_NANOS as u128
    }

    /// The time of a stage.
    pub fn stage_duration(&self, stage: PipelineStage) -> (r: Duration)
        ensures
            r == stage_time(*self, stage),
    {
        match stage {
            PipelineStage::Parse => self.parse,
            PipelineStage::Style => self.style,
            PipelineStage::Layout => self.layout,
            PipelineStage::Paint => self.paint,
            PipelineStage::Script => self.script,
            PipelineStage::Other => self.other,
        }
    }
}

/// Statistics over the recorded frames; the frame rate is derived from the
/// average frame time by the application.
#[derive(Debug, Clone, PartialEq, Eq)]
pub struct FrameStats {
    /// The number of frames.
    pub frame_count: usize,
    /// The average total frame time.
    pub avg_frame_time: Duration,
    /// The longest total frame time.
    pub max_frame_time: Duration,
    /// The number of frames over budget.
    pub slow_frame_count: usize,
    /// The average time of each stage.
    pub avg_by_stage: [(PipelineStage, Duration); 6],
}

/// The sum of the frames' totals.
pub open spec fn sum_totals(s: Seq<FrameRecord>) -> nat
    decreases s.len(),
{
    if s.len() == 0 {
        0
    } else {
        sum_totals(s.drop_last()) + frame_total(s.last())
    }
}

/// The sum of one stage over the frames.
pub open spec fn sum_stage(s: Seq<FrameRecord>, st: PipelineStage) -> nat
    decreases s.len(),
{
    if s.len() == 0 {
        0
    } else {
        sum_stage(s.drop_last(), st) + stage_time(s.last(), st)@
    }
}

/// The longest total among the frames (0 for none).
pub open spec fn max_total(s: Seq<FrameRecord>) -> nat
    decreases s.len(),
{
    if s.len() == 0 {
        0
    } else {
        let m = max_total(s.drop_last());
        let t = frame_total(s.last());
        if t > m {
            t
        } else {
            m
        }
    }
}

/// The number of frames over budget.
pub open spec fn slow_count(s: Seq<FrameRecord>) -> nat {
    s.filter(|f: FrameRecord| frame_total(f) > FRAME_BUDGET_NANOS).len()
}

/// Every frame's total fits in a span.
pub open spec fn totals_fit(s: Seq<FrameRecord>) -> bool {
    forall|i: int| 0 <= i < s.len() ==> frame_total(#[trigger] s[i]) <= u64::MAX
}

/// The state of the performance panel.
#[derive(Debug, Clone)]
pub struct PerformanceState {
    frames: Vec<FrameRecord>,
    recording: bool,
    selected_frame: Option<usize>,
    scroll_offset: usize,
    next_frame: u64,
}

/// The value of the panel state.
pub struct PerfView {
    pub frames: Seq<FrameRecord>,
    pub recording: bool,
    pub selected_frame: Option<usize>,
    pub scroll_offset: usize,
    pub next_frame: u64,
}

impl View for PerformanceState {
    type V = PerfView;

    closed spec fn view(&self) -> PerfView {
        PerfView {
            frames: self.frames@,
            recording: self.recording,
            selected_frame: self.selected_frame,
            scroll_offset: self.scroll_offset,
            next_frame: self.next_frame,
        }
    }
}

/// The frames after one more: the oldest beyond the limit are dropped.
pub open spec fn capped_frames(s: Seq<FrameRecord>) -> Seq<FrameRecord> {
    if s.len() > 600 {
        s.skip(s.len() - 600)
    } else {
        s
    }
}

proof fn lemma_max_total_bound(s: Seq<FrameRecord>)
    requires
        totals_fit(s),
    ensures
        max_total(s) <= u64::MAX,
        forall|i: int| 0 <= i < s.len() ==> frame_total(#[trigger] s[i]) <= max_total(s),
        s.len() > 0 ==> exists|i: int| 0 <= i < s.len() && frame_total(s[i]) == max_total(s),
    decreases s.len(),
{
    if s.len() > 0 {
        let d = s.drop_last();
        assert forall|i: int| 0 <= i < d.len() implies frame_total(#[trigger] d[i]) <= u64::MAX by {
            assert(d[i] == s[i]);
        }
        lemma_max_total_bound(d);
        assert forall|i: int| 0 <= i < s.len() implies frame_total(#[trigger] s[i]) <= max_total(s) by {
            if i < d.len() {
                assert(d[i] == s[i]);
            }
        }
        if frame_total(s.last()) <= max_total(d) && d.len() > 0 {
            let i = choose|i: int| 0 <= i < d.len() && frame_total(d[i]) == max_total(d);
            assert(s[i] == d[i]);
        }
        assert(frame_total(s[s.len() - 1]) <= u64::MAX);
    }
}

proof fn lemma_sum_bound(s: Seq<FrameRecord>, st: PipelineStage)
    ensures
        sum_stage(s, st) <= s.len() * u64::MAX,
        totals_fit(s) ==> sum_totals(s) <= s.len() * u64::MAX,
    decreases s.len(),
{
    if s.len() > 0 {
        let d = s.drop_last();
        lemma_sum_bound(d, st);
        if totals_fit(s) {
            assert forall|i: int| 0 <= i < d.len() implies frame_total(#[trigger] d[i]) <= u64::MAX by {
                assert(d[i] == s[i]);
            }
            assert(frame_total(s[s.len() - 1]) <= u64::MAX);
        }
        Duration::lemma_bounded(stage_time(s.last(), st));
    }
}

proof fn lemma_quotient_fits(x: nat, n: nat)
    requires
        n > 0,
        x <= n * u64::MAX,
    ensures
        x / n <= u64::MAX,
{
    assert(x / n <= u64::MAX) by (nonlinear_arith)
        requires
            x <= n * u64::MAX,
            n > 0,
    ;
}

impl Default for PerformanceState {
    fn default() -> (r: Self)
        ensures
            r@ == (PerfView {
                frames: Seq::empty(),
                recording: false,
                selected_frame: None,
                scroll_offset: 0,
                next_frame: 1,
            }),
    {
        let r = PerformanceState {
            frames: Vec::new(),
            recording: false,
            selected_frame: None,
            scroll_offset: 0,
            next_frame: 1,
        };
        assert(r@.frames =~= Seq::<FrameRecord>::empty());
        r
    }
}

impl PerformanceState {
    /// An empty panel, not recording.
    pub fn new() -> (r: Self)
        ensures
            r@ == (PerfView {
                frames: Seq::empty(),
                recording: false,
                selected_frame: None,
                scroll_offset: 0,
                next_frame: 1,
            }),
    {
        Self::default()
    }

    /// Starts recording.
    pub fn start_recording(&mut self)
        ensures
            final(self)@ == (PerfView { recording: true, ..old(self)@ }),
    {
        self.recording = true;
    }

    /// Stops recording.
    pub fn stop_recording(&mut self)
        ensures
            final(self)@ == (PerfView { recording: false, ..old(self)@ }),
    {
        self.recording = false;
    }

    /// Whether recording is on.
    pub fn is_recording(&self) -> (r: bool)
        ensures
            r == self@.recording,
    {
        self.recording
    }

    /// Records a frame while recording; the oldest frames beyond the limit
    /// are dropped.
    pub fn record_frame(&mut self, record: FrameRecord)
        ensures
            !old(self)@.recording ==> final(self)@ == old(self)@,
            old(self)@.recording ==> final(self)@ == (PerfView {
                frames: capped_frames(old(self)@.frames.push(record)),
                ..old(self)@
            }),
    {
        if !self.recording {
            return;
        }
        let ghost s0 = self@;
        self.frames.push(record);
        let ghost pushed = self.frames@;
        let cur_len = self.frames.len();
        let mut dropped: usize = 0;
        while self.frames.len() > MAX_FRAME_RECORDS
            invariant
                self.frames@.len() + dropped == pushed.len(),
                pushed.len() == cur_len,
                self.frames@ == pushed.skip(dropped as int),
                dropped > 0 ==> self.frames@.len() >= MAX_FRAME_RECORDS,
                self@ == (PerfView { frames: self.frames@, ..s0 }),
            decreases self.frames.len(),
        {
            self.frames.remove(0);
            assert(self.frames@ =~= pushed.skip(dropped + 1));
            dropped += 1;
        }
        assert(self.frames@ =~= capped_frames(pushed));
    }

    /// Records a frame from its stage times, numbered in turn.
    pub fn record_frame_timings(
        &mut self,
        parse: Duration,
        style: Duration,
        layout: Duration,
        paint: Duration,
        script: Duration,
        other: Duration,
    )
        requires
            old(self)@.next_frame < u64::MAX,
        ensures
            ({
                let rec = FrameRecord {
                    frame_number: old(self)@.next_frame,
                    parse,
                    style,
                    layout,
                    paint,
                    script,
                    other,
                };
                let s1 = PerfView { next_frame: (old(self)@.next_frame + 1) as u64, ..old(self)@ };
                &&& !old(self)@.recording ==> final(self)@ == s1
                &&& old(self)@.recording ==> final(self)@ == (PerfView {
                    frames: capped_frames(old(self)@.frames.push(rec)),
                    ..s1
                })
            }),
    {
        let record = FrameRecord { frame_number: self.next_frame, parse, style, layout, paint, script, other };
        self.next_frame = self.next_frame + 1;
        self.record_frame(record);
    }

    /// The frames, oldest first.
    pub fn frames(&self) -> (r: &[FrameRecord])
        ensures
            r@ == self@.frames,
    {
        self.frames.as_slice()
    }

    /// The number of frames.
    pub fn frame_count(&self) -> (r: usize)
        ensures
            r == self@.frames.len(),
    {
        self.frames.len()
    }

    /// Clears the frames and the selection and restarts numbering at 1.
    pub fn clear(&mut self)
        ensures
            final(self)@ == (PerfView { frames: Seq::empty(), selected_frame: None, next_frame: 1, ..old(self)@ }),
    {
        self.frames.clear();
        self.selected_frame = None;
        self.next_frame = 1;
    }

    /// Selects a frame by position; an out-of-range position changes nothing.
    pub fn select_frame(&mut self, index: usize)
        ensures
            index < old(self)@.frames.len() ==> final(self)@ == (PerfView {
                selected_frame: Some(index),
                ..old(self)@
            }),
            index >= old(self)@.frames.len() ==> final(self)@ == old(self)@,
    {
        if index < self.frames.len() {
            self.selected_frame = Some(index);
        }
    }

    /// Clears the selection.
    pub fn deselect_frame(&mut self)
        ensures
            final(self)@ == (PerfView { selected_frame: None, ..old(self)@ }),
    {
        self.selected_frame = None;
    }

    /// The selected frame, if its position is still in range.
    pub fn selected_frame(&self) -> (r: Option<&FrameRecord>)
        ensures
            match self@.selected_frame {
                Some(i) => if i < self@.frames.len() {
                    r == Some(&self@.frames[i as int])
                } else {
                    r is None
                },
                None => r is None,
            },
    {
        match self.selected_frame {
            Some(i) => if i < self.frames.len() {
                Some(&self.frames[i])
            } else {
                None
            },
            None => None,
        }
    }

    /// The longest total frame time (zero without frames).
    pub fn max_frame_time(&self) -> (r: Duration)
        requires
            totals_fit(self@.frames),
        ensures
            r@ == max_total(self@.frames),
    {
        let n = self.frames.len();
        let mut m: u128 = 0;
        let mut i: usize = 0;
        proof {
            lemma_max_total_bound(self@.frames);
        }
        while i < n
            invariant
                n == self.frames@.len(),
                i <= n,
                totals_fit(self@.frames),
                m == max_total(self@.frames.take(i as int)),
            decreases n - i,
        {
            let t = self.frames[i].total_nanos();
            assert(self@.frames.take(i + 1).drop_last() =~= self@.frames.take(i as int));
            assert(self@.frames.take(i + 1).last() == self@.frames[i as int]);
            if t > m {
                m = t;
            }
            i += 1;
        }
        assert(self@.frames.take(n as int) =~= self@.frames);
        Duration::from_nanos(m as u64)
    }

    /// Statistics over the frames: averages rounded down, the
    /// longest frame, and the number of slow frames.
    pub fn stats(&self) -> (r: FrameStats)
        requires
            totals_fit(self@.frames),
            self@.frames.len() <= u32::MAX,
        ensures
            r.frame_count == self@.frames.len(),
            r.slow_frame_count == slow_count(self@.frames),
            r.max_frame_time@ == max_total(self@.frames),
            self@.frames.len() == 0 ==> r.avg_frame_time@ == 0,
            self@.frames.len() > 0 ==> r.avg_frame_time@ == sum_totals(self@.frames) / self@.frames.len(),
            forall|k: int| 0 <= k < 6 ==> (#[trigger] r.avg_by_stage@[k]).0 == stage_order()[k],
            forall|k: int|
                0 <= k < 6 ==> (#[trigger] r.avg_by_stage@[k]).1@ == if self@.frames.len() == 0 {
                    0
                } else {
                    sum_stage(self@.frames, stage_order()[k]) / self@.frames.len()
                },
    {
        let ghost fs = self@.frames;
        let n = self.frames.len();
        let max = self.max_frame_time();
        let mut totals: u128 = 0;
        let mut s0: u128 = 0;
        let mut s1: u128 = 0;
        let mut s2: u128 = 0;
        let mut s3: u128 = 0;
        let mut s4: u128 = 0;
        let mut s5: u128 = 0;
        let mut slow: usize = 0;
        let mut i: usize = 0;
        let ghost pred = |f: FrameRecord| frame_total(f) > FRAME_BUDGET_NANOS;
        while i < n
            invariant
                n == fs.len(),
                fs == self@.frames,
                i <= n,
                n <= u32::MAX,
                totals_fit(fs),
                pred == (|f: FrameRecord| frame_total(f) > FRAME_BUDGET_NANOS),
                totals == sum_totals(fs.take(i as int)),
                slow == fs.take(i as int).filter(pred).len(),
                slow <= i,
                totals <= i * u64::MAX,
                s0 == sum_stage(fs.take(i as int), PipelineStage::Parse),
                s1 == sum_stage(fs.take(i as int), PipelineStage::Style),
                s2 == sum_stage(fs.take(i as int), PipelineStage::Layout),
                s3 == sum_stage(fs.take(i as int), PipelineStage::Paint),
                s4 == sum_stage(fs.take(i as int), PipelineStage::Script),
                s5 == sum_stage(fs.take(i as int), PipelineStage::Other),
                s0 <= i * u64::MAX,
                s1 <= i * u64::MAX,
                s2 <= i * u64::MAX,
                s3 <= i * u64::MAX,
                s4 <= i * u64::MAX,
                s5 <= i * u64::MAX,
            decreases n - i,
        {
            let f = self.frames[i];
            assert(fs.take(i + 1).drop_last() =~= fs.take(i as int));
            assert(fs.take(i + 1).last() == f);
            assert(frame_total(fs[i as int]) <= u64::MAX);
            assert((i + 1) * u64::MAX == i * u64::MAX + u64::MAX) by (nonlinear_arith);
            totals = totals + f.total_nanos();
            s0 = s0 + f.parse.as_nanos() as u128;
            s1 = s1 + f.style.as_nanos() as u128;
            s2 = s2 + f.layout.as_nanos() as u128;
            s3 = s3 + f.paint.as_nanos() as u128;
            s4 = s4 + f.script.as_nanos() as u128;
            s5 = s5 + f.other.as_nanos() as u128;
            reveal_with_fuel(Seq::filter, 1);
            if f.is_slow() {
                slow = slow + 1;
            }
            i += 1;
        }
        assert(fs.take(n as int) =~= fs);
        if n == 0 {
            let z = Duration::zero();
            let r = FrameStats {
                frame_count: 0,
                avg_frame_time: z,
                max_frame_time: z,
                slow_frame_count: 0,
                avg_by_stage: [
                    (PipelineStage::Parse, z),
                    (PipelineStage::Style, z),
                    (PipelineStage::Layout, z),
                    (PipelineStage::Paint, z),
                    (PipelineStage::Script, z),
                    (PipelineStage::Other, z),
                ],
            };
            return r;
        }
        let nn = n as u32;
        proof {
            lemma_quotient_fits(totals as nat, nn as nat);
            lemma_quotient_fits(s0 as nat, nn as nat);
            lemma_quotient_fits(s1 as nat, nn as nat);
            lemma_quotient_fits(s2 as nat, nn as nat);
            lemma_quotient_fits(s3 as nat, nn as nat);
            lemma_quotient_fits(s4 as nat, nn as nat);
            lemma_quotient_fits(s5 as nat, nn as nat);
        }
        let avg = average_of(totals, nn);
        let r = FrameStats {
            frame_count: n,
            avg_frame_time: avg,
            max_frame_time: max,
            slow_frame_count: slow,
            avg_by_stage: [
                (PipelineStage::Parse, average_of(s0, nn)),
                (PipelineStage::Style, average_of(s1, nn)),
                (PipelineStage::Layout, average_of(s2, nn)),
                (PipelineStage::Paint, average_of(s3, nn)),
                (PipelineStage::Script, average_of(s4, nn)),
                (PipelineStage::Other, average_of(s5, nn)),
            ],
        };
        r
    }

    /// The scroll offset.
    pub fn scroll_offset(&self) -> (r: usize)
        ensures
            r == self@.scroll_offset,
    {
        self.scroll_offset
    }

    /// Sets the scroll offset.
    pub fn set_scroll_offset(&mut self, offset: usize)
        ensures
            final(self)@ == (PerfView { scroll_offset: offset, ..old(self)@ }),
    {
        self.scroll_offset = offset;
    }
}

} // verus!
