//! Counters: one sample per frame, statistics over a window of frames, and
//! an optional history of the most recent frames.

use vstd::prelude::*;
use std::collections::VecDeque;
use std::ops::Range;
use crate::geometry::Color;
use crate::text::str_eq;

verus! {

/// A sample of a counter. A counter shown as [`Format::Float`] holds hundredths.
pub type Sample = i64;

/// The position of a counter in its registry.
#[derive(Copy, Clone, Debug, PartialEq, Eq, Hash, Structural)]
pub struct CounterId(pub u16);

impl CounterId {
    /// The position as an index into the registry's counters.
    pub fn index(self) -> (i: usize)
        ensures
            i == self.0,
    {
        self.0 as usize
    }
}

/// The position of a counter within its group.
#[derive(Copy, Clone, Debug, PartialEq, Eq, Hash, Structural)]
pub struct CounterIndex(pub u16);

/// The counters `start..end` of a registry, registered together.
#[derive(Copy, Clone, Debug, PartialEq, Eq, Hash, Structural)]
pub struct CounterGroup {
    pub(crate) start: u16,
    pub(crate) end: u16,
}

impl CounterGroup {
    /// The id of the group's first counter.
    pub closed spec fn spec_start(self) -> u16 {
        self.start
    }

    /// The id after the group's last counter.
    pub closed spec fn spec_end(self) -> u16 {
        self.end
    }

    /// The id of the group's first counter.
    #[verifier::when_used_as_spec(spec_start)]
    pub fn start(self) -> (id: u16)
        ensures
            id == self.start(),
    {
        self.start
    }

    /// The id after the group's last counter.
    #[verifier::when_used_as_spec(spec_end)]
    pub fn end(self) -> (id: u16)
        ensures
            id == self.end(),
    {
        self.end
    }

    /// The id of the group's counter at `index`.
    pub fn counter(self, index: CounterIndex) -> (id: CounterId)
        requires
            self.start() + index.0 <= u16::MAX,
        ensures
            id.0 == self.start() + index.0,
    {
        CounterId(self.start + index.0)
    }

    /// Walks the ids of the group in ascending order.
    pub fn all(self) -> (ids: CounterIterator)
        ensures
            ids.remaining() == Seq::new(
                if self.start() <= self.end() {
                    (self.end() - self.start()) as nat
                } else {
                    0
                },
                |i: int| CounterId((self.start() + i) as u16),
            ),
    {
        let ids = CounterIterator { next: self.start, end: self.end };
        assert(ids.remaining() =~= Seq::new(
            if self.start() <= self.end() {
                (self.end() - self.start()) as nat
            } else {
                0
            },
            |i: int| CounterId((self.start() + i) as u16),
        ));
        ids
    }
}

/// The ids of a group that were not handed out yet.
pub struct CounterIterator {
    next: u16,
    end: u16,
}

impl CounterIterator {
    /// The ids that `next` will still return, in order.
    pub closed spec fn remaining(self) -> Seq<CounterId> {
        Seq::new(
            if self.next <= self.end {
                (self.end - self.next) as nat
            } else {
                0
            },
            |i: int| CounterId((self.next + i) as u16),
        )
    }

    /// The next id, or `None` when all were handed out.
    pub fn next(&mut self) -> (id: Option<CounterId>)
        ensures
            old(self).remaining().len() == 0 ==> id is None && final(self).remaining() == old(self).remaining(),
            old(self).remaining().len() > 0 ==> id == Some(old(self).remaining()[0]) && final(self).remaining() == old(self).remaining().drop_first(),
    {
        if self.next < self.end {
            let id = CounterId(self.next);
            self.next = self.next + 1;
            assert(self.remaining() =~= old(self).remaining().drop_first());
            Some(id)
        } else {
            None
        }
    }
}

/// How a counter's samples are written out.
#[derive(Copy, Clone, Debug, PartialEq, Eq, Structural)]
pub enum Format {
    /// Whole numbers.
    Int,
    /// Hundredths, written with two decimals.
    Float,
}

/// The axis along which things are laid out.
#[derive(Copy, Clone, Debug, PartialEq, Eq, Structural)]
pub enum Orientation {
    Vertical,
    Horizontal,
}

/// What a counter is: its name, unit, format, color and the range in which
/// its values are unremarkable.
#[derive(Copy, Clone, Debug)]
pub struct CounterDescriptor {
    pub name: &'static str,
    pub unit: &'static str,
    pub id: CounterId,
    pub format: Format,
    pub color: Color,
    /// Lowest and highest unremarkable value, both included.
    pub safe_range: Option<(Sample, Sample)>,
}

impl CounterDescriptor {
    /// A white counter of whole numbers.
    pub fn integer(name: &'static str, unit: &'static str, id: CounterId) -> (descriptor: Self)
        ensures
            descriptor == (CounterDescriptor {
                name,
                unit,
                id,
                format: Format::Int,
                color: (255u8, 255u8, 255u8, 255u8),
                safe_range: None,
            }),
    {
        CounterDescriptor {
            name,
            unit,
            id,
            format: Format::Int,
            color: (255, 255, 255, 255),
            safe_range: None,
        }
    }

    /// A white counter of hundredths.
    pub fn float(name: &'static str, unit: &'static str, id: CounterId) -> (descriptor: Self)
        ensures
            descriptor == (CounterDescriptor {
                name,
                unit,
                id,
                format: Format::Float,
                color: (255u8, 255u8, 255u8, 255u8),
                safe_range: None,
            }),
    {
        CounterDescriptor {
            name,
            unit,
            id,
            format: Format::Float,
            color: (255, 255, 255, 255),
            safe_range: None,
        }
    }

    /// The same counter in another color.
    pub fn color(self, color: Color) -> (descriptor: Self)
        ensures
            descriptor == (CounterDescriptor { color, ..self }),
    {
        CounterDescriptor { color, ..self }
    }

    /// The same counter with `range.start` and `range.end` as the ends of its safe range.
    pub fn safe_range(self, range: Range<Sample>) -> (descriptor: Self)
        ensures
            descriptor == (CounterDescriptor {
                safe_range: Some((range.start, range.end)),
                ..self
            }),
    {
        CounterDescriptor { safe_range: Some((range.start, range.end)), ..self }
    }

    /// Whether the displayed extremes lie outside the safe range. Without a
    /// safe range, or without displayed extremes, nothing does.
    pub open spec fn spec_out_of_range(self, displayed_min: Option<Sample>, displayed_max: Option<Sample>) -> bool {
        match self.safe_range {
            Some((low, high)) => (displayed_max is Some && displayed_max->0 > high) || (
            displayed_min is Some && displayed_min->0 < low),
            None => false,
        }
    }

    #[verifier::when_used_as_spec(spec_out_of_range)]
    pub fn out_of_range(self, displayed_min: Option<Sample>, displayed_max: Option<Sample>) -> (out: bool)
        ensures
            out == self.out_of_range(displayed_min, displayed_max),
    {
        match self.safe_range {
            Some((low, high)) => {
                let above = match displayed_max {
                    Some(v) => v > high,
                    None => false,
                };
                let below = match displayed_min {
                    Some(v) => v < low,
                    None => false,
                };
                above || below
            },
            None => false,
        }
    }
}

/// The mean of `samples` samples that add up to `sum`, rounded toward zero.
pub open spec fn mean(sum: int, samples: int) -> int
    recommends
        samples > 0,
{
    if sum >= 0 {
        sum / samples
    } else {
        -((-sum) / samples)
    }
}

/// The samples of a window, added up.
pub(crate) struct Window {
    sum: i128,
    samples: u64,
}

impl Window {
    /// The sum is one that the counted samples can add up to.
    #[verifier::type_invariant]
    spec fn well_formed(&self) -> bool {
        self.samples * i64::MIN <= self.sum <= self.samples * i64::MAX
    }

    closed spec fn sum(&self) -> int {
        self.sum as int
    }

    closed spec fn samples(&self) -> nat {
        self.samples as nat
    }

    /// An empty window.
    fn new() -> (window: Window)
        ensures
            window.sum() == 0,
            window.samples() == 0,
    {
        Window { sum: 0, samples: 0 }
    }

    /// Takes one more sample, unless the window holds as many as can be counted.
    fn add(&mut self, v: Sample) -> (taken: bool)
        ensures
            taken == (old(self).samples() < u64::MAX),
            taken ==> final(self).sum() == old(self).sum() + v && final(self).samples() == old(self).samples() + 1,
            !taken ==> final(self).sum() == old(self).sum() && final(self).samples() == old(self).samples(),
    {
        proof {
            use_type_invariant(&*self);
        }
        if self.samples == u64::MAX {
            return false;
        }
        assert((self.samples + 1) * i64::MIN == self.samples * i64::MIN + i64::MIN)
            by (nonlinear_arith);
        assert((self.samples + 1) * i64::MAX == self.samples * i64::MAX + i64::MAX)
            by (nonlinear_arith);
        assert(self.samples * i64::MAX <= u64::MAX * i64::MAX) by (nonlinear_arith)
            requires
                self.samples <= u64::MAX,
        ;
        assert(self.samples * i64::MIN >= u64::MAX * i64::MIN) by (nonlinear_arith)
            requires
                self.samples <= u64::MAX,
        ;
        self.samples = self.samples + 1;
        self.sum = self.sum + v as i128;
        true
    }

    /// The mean of the samples, rounded toward zero, if there is any.
    fn mean(&self) -> (avg: Option<Sample>)
        ensures
            self.samples() == 0 ==> avg is None,
            self.samples() > 0 ==> avg == Some(mean(self.sum(), self.samples() as int) as i64),
            self.samples() * i64::MIN <= self.sum() <= self.samples() * i64::MAX,
    {
        proof {
            use_type_invariant(self);
        }
        if self.samples > 0 {
            proof {
                lemma_mean_in_range(self.sum as int, self.samples as int);
            }
            let avg: i128 = self.sum / (self.samples as i128);
            Some(avg as i64)
        } else {
            None
        }
    }

    fn sum_of(&self) -> (sum: i128)
        ensures
            sum == self.sum(),
            self.samples() * i64::MIN <= self.sum() <= self.samples() * i64::MAX,
    {
        proof {
            use_type_invariant(self);
        }
        self.sum
    }

    fn samples_of(&self) -> (samples: u64)
        ensures
            samples == self.samples(),
    {
        self.samples
    }
}

/// The state of one counter.
pub struct Counter {
    pub(crate) current_value: Option<Sample>,
    pub(crate) last_value: Option<Sample>,
    pub(crate) window: Window,
    pub(crate) min: Sample,
    pub(crate) max: Sample,
    pub(crate) displayed_avg: Option<Sample>,
    pub(crate) displayed_min: Option<Sample>,
    pub(crate) displayed_max: Option<Sample>,
    pub(crate) descriptor: CounterDescriptor,
    pub(crate) history: VecDeque<Option<Sample>>,
}

/// A counter as mathematics.
pub struct CounterView {
    /// The sample of the frame that is being recorded, if one was set.
    pub current_value: Option<Sample>,
    /// The sample that was set last, in whichever frame.
    pub last_value: Option<Sample>,
    /// Sum of the samples of the window that is being filled.
    pub sum: int,
    /// Number of the samples of the window that is being filled.
    pub samples: nat,
    /// Lowest sample of the window that is being filled.
    pub min: Sample,
    /// Highest sample of the window that is being filled.
    pub max: Sample,
    /// Mean of the last full window, if it held a sample.
    pub displayed_avg: Option<Sample>,
    /// Lowest sample of the last full window, if it held one.
    pub displayed_min: Option<Sample>,
    /// Highest sample of the last full window, if it held one.
    pub displayed_max: Option<Sample>,
    pub descriptor: CounterDescriptor,
    /// The samples of the most recent frames, oldest first; empty when no
    /// history is kept.
    pub history: Seq<Option<Sample>>,
}

impl CounterView {
    /// The sum is one that `samples` samples can add up to.
    pub open spec fn wf(self) -> bool {
        &&& self.samples <= u64::MAX
        &&& self.samples * i64::MIN <= self.sum
        &&& self.sum <= self.samples * i64::MAX
    }

    /// A fresh counter: no sample, no statistics, no history, and an empty
    /// window, whose extremes are the first sample that it takes.
    pub open spec fn fresh(descriptor: CounterDescriptor) -> CounterView {
        CounterView {
            current_value: None,
            last_value: None,
            sum: 0,
            samples: 0,
            min: i64::MAX,
            max: i64::MIN,
            displayed_avg: None,
            displayed_min: None,
            displayed_max: None,
            descriptor,
            history: Seq::empty(),
        }
    }

    /// The counter after `value` was set: it replaces the frame's sample,
    /// and a sample that is one is remembered as the last.
    pub open spec fn with_sample(self, value: Option<Sample>) -> CounterView {
        CounterView {
            current_value: value,
            last_value: if value is Some {
                value
            } else {
                self.last_value
            },
            ..self
        }
    }

    /// Sum of the window with the frame's sample counted in.
    pub open spec fn sum_with_pending(self) -> int {
        match self.current_value {
            Some(v) => self.sum + v,
            None => self.sum,
        }
    }

    /// Number of the window's samples with the frame's sample counted in.
    pub open spec fn samples_with_pending(self) -> nat {
        match self.current_value {
            Some(v) => self.samples + 1,
            None => self.samples,
        }
    }

    /// Lowest sample of the window with the frame's sample counted in.
    pub open spec fn min_with_pending(self) -> Sample {
        match self.current_value {
            Some(v) if v < self.min => v,
            _ => self.min,
        }
    }

    /// Highest sample of the window with the frame's sample counted in.
    pub open spec fn max_with_pending(self) -> Sample {
        match self.current_value {
            Some(v) if v > self.max => v,
            _ => self.max,
        }
    }

    /// The counter after the frame's sample went into the window. A
    /// window that holds as many samples as can be counted takes no more.
    pub open spec fn folded(self) -> CounterView {
        match self.current_value {
            Some(v) if self.samples < u64::MAX => CounterView {
                sum: self.sum + v,
                samples: self.samples + 1,
                min: if v < self.min {
                    v
                } else {
                    self.min
                },
                max: if v > self.max {
                    v
                } else {
                    self.max
                },
                ..self
            },
            _ => self,
        }
    }

    /// The history after the frame's sample took the place of the oldest one.
    pub open spec fn rotated(self) -> Seq<Option<Sample>> {
        if self.history.len() > 0 {
            self.history.drop_first().push(self.current_value)
        } else {
            self.history
        }
    }

    /// The counter after the window was closed: its statistics are
    /// displayed and an empty window begins.
    pub open spec fn closed(self) -> CounterView {
        CounterView {
            displayed_avg: if self.samples > 0 {
                Some(mean(self.sum, self.samples as int) as i64)
            } else {
                None
            },
            displayed_min: if self.samples > 0 {
                Some(self.min)
            } else {
                None
            },
            displayed_max: if self.samples > 0 {
                Some(self.max)
            } else {
                None
            },
            sum: 0,
            samples: 0,
            min: i64::MAX,
            max: i64::MIN,
            ..self
        }
    }

    /// The counter after the end of a frame, which closes the window if
    /// `boundary` is set.
    pub open spec fn updated(self, boundary: bool) -> CounterView {
        let recorded = CounterView {
            current_value: None,
            history: self.rotated(),
            ..self.folded()
        };
        if boundary {
            recorded.closed()
        } else {
            recorded
        }
    }

    /// The counter with a history of `slots` frames, none of which holds a sample.
    pub open spec fn with_history(self, slots: nat) -> CounterView {
        CounterView { history: Seq::new(slots, |i: int| None), ..self }
    }

    /// The counter without a history.
    pub open spec fn without_history(self) -> CounterView {
        CounterView { history: Seq::empty(), ..self }
    }
}

/// The mean of samples lies between the lowest and the highest value that
/// a sample can have.
pub proof fn lemma_mean_in_range(sum: int, samples: int)
    requires
        samples > 0,
        samples * i64::MIN <= sum,
        sum <= samples * i64::MAX,
    ensures
        i64::MIN <= mean(sum, samples) <= i64::MAX,
{
    if sum >= 0 {
        assert(sum / samples <= i64::MAX) by (nonlinear_arith)
            requires
                samples > 0,
                0 <= sum <= samples * i64::MAX,
        ;
        assert(0 <= sum / samples) by (nonlinear_arith)
            requires
                samples > 0,
                0 <= sum,
        ;
    } else {
        assert((-sum) / samples <= -i64::MIN) by (nonlinear_arith)
            requires
                samples > 0,
                0 <= -sum <= samples * (-i64::MIN),
        ;
        assert(0 <= (-sum) / samples) by (nonlinear_arith)
            requires
                samples > 0,
                0 <= -sum,
        ;
    }
}

/// A frame keeps a counter well formed.
pub proof fn lemma_updated_wf(c: CounterView, boundary: bool)
    requires
        c.wf(),
    ensures
        c.updated(boundary).wf(),
{
    match c.current_value {
        Some(v) => {
            assert((c.samples + 1) * i64::MIN == c.samples * i64::MIN + i64::MIN) by (nonlinear_arith);
            assert((c.samples + 1) * i64::MAX == c.samples * i64::MAX + i64::MAX) by (nonlinear_arith);
        },
        None => {},
    }
}

impl View for Counter {
    type V = CounterView;

    closed spec fn view(&self) -> CounterView {
        CounterView {
            current_value: self.current_value,
            last_value: self.last_value,
            sum: self.window.sum(),
            samples: self.window.samples(),
            min: self.min,
            max: self.max,
            displayed_avg: self.displayed_avg,
            displayed_min: self.displayed_min,
            displayed_max: self.displayed_max,
            descriptor: self.descriptor,
            history: self.history@,
        }
    }
}

impl Counter {
    /// A fresh counter.
    pub fn new(descriptor: CounterDescriptor) -> (counter: Self)
        ensures
            counter@ == CounterView::fresh(descriptor),
            counter@.wf(),
    {
        Counter {
            current_value: None,
            last_value: None,
            window: Window::new(),
            min: i64::MAX,
            max: i64::MIN,
            displayed_avg: None,
            displayed_min: None,
            displayed_max: None,
            descriptor,
            history: VecDeque::new(),
        }
    }

    /// Sets the sample of the current frame, or takes it back with `None`.
    /// Of several calls in one frame the last one counts.
    pub fn set(&mut self, value: Option<Sample>)
        ensures
            final(self)@ == old(self)@.with_sample(value),
    {
        match value {
            Some(v) => {
                self.current_value = Some(v);
                self.last_value = Some(v);
            },
            None => {
                self.current_value = None;
            },
        }
    }

    /// Ends the frame: the frame's sample goes into the window and into the
    /// history, and if `update_avg` is set the window is closed.
    ///
    /// A frame that closes the window displays the mean and the extremes of
    /// the window's samples, the frame's own sample among them, or nothing
    /// if the window has no sample; then an empty window begins. A frame
    /// that does not close it leaves what is displayed as it was and takes
    /// its sample, if it has one, into the window's sum, count and
    /// extremes. Either way no sample is pending afterwards, and the
    /// descriptor and the sample that was set last stay.
    pub fn update(&mut self, update_avg: bool)
        ensures
            final(self)@ == old(self)@.updated(update_avg),
            final(self)@.wf(),
            final(self)@.current_value is None,
            final(self)@.last_value == old(self)@.last_value,
            final(self)@.descriptor == old(self)@.descriptor,
            final(self)@.history == old(self)@.rotated(),
            update_avg ==> final(self)@.sum == 0 && final(self)@.samples == 0 && final(self)@.min
                == i64::MAX && final(self)@.max == i64::MIN,
            update_avg && old(self)@.samples < u64::MAX && old(self)@.samples_with_pending() > 0
                ==> final(self)@.displayed_avg == Some(
                mean(old(self)@.sum_with_pending(), old(self)@.samples_with_pending() as int) as i64,
            ) && final(self)@.displayed_min == Some(old(self)@.min_with_pending())
                && final(self)@.displayed_max == Some(old(self)@.max_with_pending()),
            update_avg && old(self)@.samples_with_pending() == 0 ==> final(self)@.displayed_avg
                is None && final(self)@.displayed_min is None && final(self)@.displayed_max
                is None,
            !update_avg ==> final(self)@.displayed_avg == old(self)@.displayed_avg && final(self)@.displayed_min == old(self)@.displayed_min && final(self)@.displayed_max == old(self)@.displayed_max,
            !update_avg && old(self)@.samples < u64::MAX ==> final(self)@.sum == old(self)@.sum_with_pending() && final(self)@.samples == old(self)@.samples_with_pending()
                && final(self)@.min == old(self)@.min_with_pending() && final(self)@.max == old(self)@.max_with_pending(),
    {
        match self.current_value {
            Some(v) => {
                let taken: bool = self.window.add(v);
                if taken {
                    if v < self.min {
                        self.min = v;
                    }
                    if v > self.max {
                        self.max = v;
                    }
                }
            },
            None => {},
        }
        if self.history.len() > 0 {
            self.history.pop_front();
            self.history.push_back(self.current_value);
        }
        self.current_value = None;
        if update_avg {
            match self.window.mean() {
                Some(avg) => {
                    self.displayed_avg = Some(avg);
                    self.displayed_max = Some(self.max);
                    self.displayed_min = Some(self.min);
                },
                None => {
                    self.displayed_avg = None;
                    self.displayed_max = None;
                    self.displayed_min = None;
                },
            }
            self.window = Window::new();
            self.min = i64::MAX;
            self.max = i64::MIN;
        }
        proof {
            use_type_invariant(&self.window);
        }
    }

    /// The counter's name.
    pub fn name(&self) -> (name: &'static str)
        ensures
            name == self@.descriptor.name,
    {
        self.descriptor.name
    }

    /// What the counter is.
    pub fn descriptor(&self) -> (descriptor: CounterDescriptor)
        ensures
            descriptor == self@.descriptor,
    {
        self.descriptor
    }

    /// The sample that was set last, in whichever frame.
    pub fn last_value(&self) -> (value: Option<Sample>)
        ensures
            value == self@.last_value,
    {
        self.last_value
    }

    /// Mean of the last full window, if it held a sample.
    pub fn displayed_avg(&self) -> (value: Option<Sample>)
        ensures
            value == self@.displayed_avg,
    {
        self.displayed_avg
    }

    /// Lowest sample of the last full window, if it held one.
    pub fn displayed_min(&self) -> (value: Option<Sample>)
        ensures
            value == self@.displayed_min,
    {
        self.displayed_min
    }

    /// Highest sample of the last full window, if it held one.
    pub fn displayed_max(&self) -> (value: Option<Sample>)
        ensures
            value == self@.displayed_max,
    {
        self.displayed_max
    }

    /// Sum of the samples of the window that is being filled.
    pub fn window_sum(&self) -> (sum: i128)
        ensures
            sum == self@.sum,
            self@.wf(),
    {
        self.window.sum_of()
    }

    /// Number of the samples of the window that is being filled.
    pub fn window_samples(&self) -> (samples: u64)
        ensures
            samples == self@.samples,
    {
        self.window.samples_of()
    }

    /// The number of frames that the history holds; zero when none is kept.
    pub fn history_len(&self) -> (slots: usize)
        ensures
            slots == self@.history.len(),
    {
        self.history.len()
    }

    /// The history's sample at `slot`, counted from the oldest frame.
    pub fn history_slot(&self, slot: usize) -> (sample: Option<Sample>)
        requires
            slot < self@.history.len(),
        ensures
            sample == self@.history[slot as int],
    {
        self.history[slot]
    }

    /// Walks the history from the oldest frame on, or `None` if no history is kept.
    pub fn history(&self) -> (walk: Option<HistoryIter<'_>>)
        ensures
            self@.history.len() == 0 ==> walk is None,
            self@.history.len() > 0 ==> walk is Some && walk->0.remaining() == self@.history,
    {
        if self.history.len() == 0 {
            return None;
        }
        let walk = HistoryIter { inner: &self.history, position: 0 };
        assert(walk.remaining() =~= self@.history);
        Some(walk)
    }

    /// Starts a history of `samples` frames, none of which holds a sample.
    /// What an earlier history held is gone.
    pub fn enable_history(&mut self, samples: usize)
        ensures
            final(self)@ == old(self)@.with_history(samples as nat),
    {
        self.history.clear();
        let mut i: usize = 0;
        while i < samples
            invariant
                i <= samples,
                self.history@ =~= Seq::new(i as nat, |k: int| None::<Sample>),
                self.current_value == old(self).current_value,
                self.last_value == old(self).last_value,
                self.window == old(self).window,
                self.min == old(self).min,
                self.max == old(self).max,
                self.displayed_avg == old(self).displayed_avg,
                self.displayed_min == old(self).displayed_min,
                self.displayed_max == old(self).displayed_max,
                self.descriptor == old(self).descriptor,
            decreases samples - i,
        {
            self.history.push_back(None);
            i = i + 1;
        }
    }

    /// Drops the history.
    pub fn disable_history(&mut self)
        ensures
            final(self)@ == old(self)@.without_history(),
    {
        self.history = VecDeque::new();
    }
}

/// A walk through a counter's history, oldest frame first.
pub struct HistoryIter<'l> {
    inner: &'l VecDeque<Option<Sample>>,
    position: usize,
}

impl<'l> HistoryIter<'l> {
    /// The frames that `next` will still return, in order.
    pub closed spec fn remaining(self) -> Seq<Option<Sample>> {
        if self.position <= self.inner@.len() {
            self.inner@.skip(self.position as int)
        } else {
            Seq::empty()
        }
    }

    /// The sample of the next frame (`Some(None)` for a frame without one),
    /// or `None` when the walk is over.
    pub fn next(&mut self) -> (frame: Option<Option<Sample>>)
        ensures
            old(self).remaining().len() == 0 ==> frame is None && final(self).remaining() == old(self).remaining(),
            old(self).remaining().len() > 0 ==> frame == Some(old(self).remaining()[0]) && final(self).remaining() == old(self).remaining().drop_first(),
    {
        if self.position < self.inner.len() {
            let frame = self.inner[self.position];
            self.position = self.position + 1;
            assert(self.remaining() =~= old(self).remaining().drop_first());
            Some(frame)
        } else {
            None
        }
    }

    /// The rest of the walk in one piece.
    pub fn collect(self) -> (frames: Vec<Option<Sample>>)
        ensures
            frames@ == self.remaining(),
    {
        let mut frames: Vec<Option<Sample>> = Vec::new();
        let mut i: usize = self.position;
        while i < self.inner.len()
            invariant
                self.position <= i,
                i <= self.inner@.len() || i == self.position,
                self.position <= self.inner@.len() ==> frames@ =~= self.inner@.subrange(
                    self.position as int,
                    i as int,
                ),
                self.position > self.inner@.len() ==> frames@ =~= Seq::<Option<Sample>>::empty(),
            decreases self.inner@.len() - i,
        {
            frames.push(self.inner[i]);
            i = i + 1;
        }
        assert(frames@ =~= self.remaining());
        frames
    }
}

/// A named group of a registry.
pub(crate) struct Group {
    pub(crate) name: &'static str,
    pub(crate) start: u16,
    pub(crate) end: u16,
}

/// The registry: every counter of the application, in groups.
pub struct Counters {
    groups: Vec<Group>,
    counters: Vec<Counter>,
    history_size: usize,
    counter_avg_window: u32,
    frame_idx: u32,
}

/// A group as mathematics: its name and the ids `start..end` of its counters.
pub struct GroupView {
    pub name: Seq<char>,
    pub start: int,
    pub end: int,
}

/// A registry as mathematics.
pub struct CountersView {
    /// The groups in the order of their registration.
    pub groups: Seq<GroupView>,
    /// The counters; a counter's id is its position here.
    pub counters: Seq<CounterView>,
    /// The number of frames in the history of a counter that keeps one.
    pub history_size: nat,
    /// The number of frames in a window.
    pub avg_window: nat,
    /// The number of frames since the last window was closed.
    pub frame_idx: nat,
}

/// The descriptors carry the ids `0, 1, 2, ...` in this order.
pub open spec fn dense_ids(descriptors: Seq<CounterDescriptor>) -> bool {
    forall|i: int| 0 <= i < descriptors.len() ==> (#[trigger] descriptors[i]).id.0 == i
}

impl CountersView {
    /// The groups lie end to end and cover the counters, every counter
    /// carries its position in its group as its id, and a counter that
    /// keeps a history keeps one of the registry's history size.
    pub open spec fn wf(self) -> bool {
        &&& 0 < self.avg_window <= u32::MAX
        &&& self.frame_idx < self.avg_window
        &&& self.counters.len() < u16::MAX
        &&& forall|i: int|
            0 <= i < self.counters.len() ==> (#[trigger] self.counters[i]).history.len() == 0
                || self.counters[i].history.len() == self.history_size
        &&& forall|g: int|
            0 <= g < self.groups.len() ==> 0 <= (#[trigger] self.groups[g]).start
                <= self.groups[g].end <= self.counters.len()
        &&& forall|g: int|
            0 <= g < self.groups.len() ==> (#[trigger] self.groups[g]).start == self.end_of_groups(g)
        &&& self.end_of_groups(self.groups.len() as int) == self.counters.len()
        &&& forall|g: int, i: int|
            0 <= g < self.groups.len() && self.groups[g].start <= i < self.groups[g].end ==> (
            #[trigger] self.counters[i]).descriptor.id.0 == i - (#[trigger] self.groups[g]).start
    }

    /// The id after the last counter of the first `g` groups.
    pub open spec fn end_of_groups(self, g: int) -> int {
        if 0 < g <= self.groups.len() {
            self.groups[g - 1].end
        } else {
            0
        }
    }

    /// An empty registry.
    pub open spec fn empty(history_size: nat) -> CountersView {
        CountersView {
            groups: Seq::empty(),
            counters: Seq::empty(),
            history_size,
            avg_window: 30,
            frame_idx: 0,
        }
    }

    /// The registry after one more group: fresh counters for `descriptors`
    /// behind the counters that are there.
    pub open spec fn with_group(self, name: Seq<char>, descriptors: Seq<CounterDescriptor>) -> CountersView {
        CountersView {
            groups: self.groups.push(
                GroupView {
                    name,
                    start: self.counters.len() as int,
                    end: (self.counters.len() + descriptors.len()) as int,
                },
            ),
            counters: self.counters + Seq::new(
                descriptors.len(),
                |i: int| CounterView::fresh(descriptors[i]),
            ),
            ..self
        }
    }

    /// Whether the frame that ends next closes a window.
    pub open spec fn at_boundary(self) -> bool {
        self.frame_idx + 1 == self.avg_window
    }

    /// The registry after the end of a frame: every counter has seen the
    /// frame, and every `avg_window`-th frame closes the window of all.
    pub open spec fn updated(self) -> CountersView {
        CountersView {
            counters: Seq::new(
                self.counters.len(),
                |i: int| self.counters[i].updated(self.at_boundary()),
            ),
            frame_idx: if self.at_boundary() {
                0
            } else {
                self.frame_idx + 1
            },
            ..self
        }
    }

    /// The registry with counter `id` replaced, if there is such a counter.
    pub open spec fn with_counter(self, id: int, counter: CounterView) -> CountersView {
        if 0 <= id < self.counters.len() {
            CountersView { counters: self.counters.update(id, counter), ..self }
        } else {
            self
        }
    }

    /// `g` is the first group that is called `name`.
    pub open spec fn is_first_group(self, g: int, name: Seq<char>) -> bool {
        &&& 0 <= g < self.groups.len()
        &&& self.groups[g].name == name
        &&& forall|j: int| 0 <= j < g ==> (#[trigger] self.groups[j]).name != name
    }

    /// No group is called `name`.
    pub open spec fn no_group(self, name: Seq<char>) -> bool {
        forall|j: int| 0 <= j < self.groups.len() ==> (#[trigger] self.groups[j]).name != name
    }

    /// `id` is the first counter of group `g` that is called `name`.
    pub open spec fn is_first_counter(self, g: int, id: int, name: Seq<char>) -> bool {
        &&& self.groups[g].start <= id < self.groups[g].end
        &&& self.counters[id].descriptor.name@ == name
        &&& forall|k: int|
            self.groups[g].start <= k < id ==> (#[trigger] self.counters[k]).descriptor.name@
                != name
    }

    /// No counter of group `g` is called `name`.
    pub open spec fn no_counter(self, g: int, name: Seq<char>) -> bool {
        forall|k: int|
            self.groups[g].start <= k < self.groups[g].end ==> (
            #[trigger] self.counters[k]).descriptor.name@ != name
    }
}

impl View for Counters {
    type V = CountersView;

    closed spec fn view(&self) -> CountersView {
        CountersView {
            groups: Seq::new(
                self.groups@.len(),
                |g: int|
                    GroupView {
                        name: self.groups@[g].name@,
                        start: self.groups@[g].start as int,
                        end: self.groups@[g].end as int,
                    },
            ),
            counters: Seq::new(self.counters@.len(), |i: int| self.counters@[i]@),
            history_size: self.history_size as nat,
            avg_window: self.counter_avg_window as nat,
            frame_idx: self.frame_idx as nat,
        }
    }
}

impl Counters {
    /// An empty registry whose counters keep `history_size` frames of
    /// history once they are asked to, and whose windows are 30 frames long.
    pub fn new(history_size: usize) -> (registry: Self)
        ensures
            registry@ == CountersView::empty(history_size as nat),
            registry@.wf(),
    {
        let registry = Counters {
            counters: Vec::new(),
            groups: Vec::new(),
            history_size,
            counter_avg_window: 30,
            frame_idx: 0,
        };
        assert(registry@.groups =~= Seq::empty());
        assert(registry@.counters =~= Seq::empty());
        registry
    }

    /// The number of frames in the history of a counter that keeps one.
    pub fn history_size(&self) -> (frames: usize)
        ensures
            frames == self@.history_size,
    {
        self.history_size
    }

    /// The number of frames in a window.
    pub fn avg_window(&self) -> (frames: u32)
        ensures
            frames == self@.avg_window,
    {
        self.counter_avg_window
    }

    /// The number of frames since the last window was closed.
    pub fn frame_idx(&self) -> (frames: u32)
        ensures
            frames == self@.frame_idx,
    {
        self.frame_idx
    }

    /// The number of counters.
    pub fn len(&self) -> (n: usize)
        ensures
            n == self@.counters.len(),
    {
        self.counters.len()
    }

    /// Whether `register_group` takes these descriptors: they carry the ids
    /// `0, 1, 2, ...` in this order, and the registry has room for them.
    pub fn can_register(&self, descriptors: &[CounterDescriptor]) -> (ok: bool)
        ensures
            ok == (self@.counters.len() + descriptors@.len() < u16::MAX && dense_ids(descriptors@)),
    {
        if self.counters.len() >= 0xffff || descriptors.len() >= 0xffff - self.counters.len() {
            return false;
        }
        let mut i: usize = 0;
        while i < descriptors.len()
            invariant
                i <= descriptors@.len(),
                descriptors@.len() < 0xffff,
                forall|k: int| 0 <= k < i ==> (#[trigger] descriptors@[k]).id.0 == k,
            decreases descriptors@.len() - i,
        {
            if descriptors[i].id.index() != i {
                return false;
            }
            i = i + 1;
        }
        true
    }

    /// Registers a group of fresh counters, one for each descriptor, and
    /// returns their ids.
    pub fn register_group(&mut self, name: &'static str, descriptors: &[CounterDescriptor]) -> (group: CounterGroup)
        requires
            old(self)@.wf(),
            old(self)@.counters.len() + descriptors@.len() < u16::MAX,
            dense_ids(descriptors@),
        ensures
            final(self)@ == old(self)@.with_group(name@, descriptors@),
            final(self)@.wf(),
            group.start() == old(self)@.counters.len(),
            group.end() == old(self)@.counters.len() + descriptors@.len(),
    {
        let start: u16 = self.counters.len() as u16;
        let end: u16 = (self.counters.len() + descriptors.len()) as u16;
        let ghost goal = old(self)@.with_group(name@, descriptors@);
        self.groups.push(Group { name, start, end });
        assert(self@.groups =~= goal.groups);
        let mut i: usize = 0;
        while i < descriptors.len()
            invariant
                i <= descriptors@.len(),
                self.groups@ == old(self).groups@.push(Group { name, start, end }),
                self@.groups == goal.groups,
                self.history_size == old(self).history_size,
                self.counter_avg_window == old(self).counter_avg_window,
                self.frame_idx == old(self).frame_idx,
                self@.counters =~= goal.counters.take(old(self)@.counters.len() + i),
                goal == old(self)@.with_group(name@, descriptors@),
            decreases descriptors@.len() - i,
        {
            let ghost before = self@.counters;
            self.counters.push(Counter::new(descriptors[i]));
            proof {
                let at: int = old(self)@.counters.len() + i;
                assert(self@.counters =~= before.push(CounterView::fresh(descriptors@[i as int])));
                assert(goal.counters[at] == CounterView::fresh(descriptors@[i as int]));
                assert(goal.counters.take(at + 1) =~= goal.counters.take(at).push(goal.counters[at]));
            }
            i = i + 1;
        }
        assert(self@.counters =~= goal.counters);
        proof {
            lemma_with_group_wf(old(self)@, name@, descriptors@);
        }
        CounterGroup { start, end }
    }

    /// Ends the frame for every counter. Every 30th frame closes the window.
    pub fn update(&mut self)
        requires
            old(self)@.wf(),
        ensures
            final(self)@ == old(self)@.updated(),
            final(self)@.wf(),
    {
        let update_avg: bool = self.frame_idx + 1 == self.counter_avg_window;
        let n: usize = self.counters.len();
        let mut i: usize = 0;
        while i < n
            invariant
                i <= n,
                n == self.counters@.len(),
                n == old(self).counters@.len(),
                self.groups == old(self).groups,
                self.history_size == old(self).history_size,
                self.counter_avg_window == old(self).counter_avg_window,
                self.frame_idx == old(self).frame_idx,
                old(self)@.wf(),
                update_avg == old(self)@.at_boundary(),
                forall|k: int|
                    0 <= k < i ==> (#[trigger] self.counters@[k])@ == old(self)@.counters[k].updated(
                        update_avg,
                    ),
                forall|k: int| i <= k < n ==> (#[trigger] self.counters@[k]) == old(self).counters@[k],
            decreases n - i,
        {
            self.counters[i].update(update_avg);
            i = i + 1;
        }
        if update_avg {
            self.frame_idx = 0;
        } else {
            self.frame_idx = self.frame_idx + 1;
        }
        assert(self@.counters =~= old(self)@.updated().counters);
        assert(self@.groups =~= old(self)@.groups);
        proof {
            lemma_registry_updated_wf(old(self)@);
        }
    }

    /// Sets the sample of counter `id` for the current frame.
    pub fn set(&mut self, id: CounterId, val: Option<Sample>)
        requires
            id.0 < old(self)@.counters.len(),
        ensures
            final(self)@ == old(self)@.with_counter(
                id.0 as int,
                old(self)@.counters[id.0 as int].with_sample(val),
            ),
            old(self)@.wf() ==> final(self)@.wf(),
    {
        self.counters[id.index()].set(val);
        assert(self@.counters =~= old(self)@.counters.update(
            id.0 as int,
            old(self)@.counters[id.0 as int].with_sample(val),
        ));
        assert(self@.groups =~= old(self)@.groups);
        proof {
            lemma_with_counter_wf(
                old(self)@,
                id.0 as int,
                old(self)@.counters[id.0 as int].with_sample(val),
            );
        }
    }

    /// Starts the history of counter `id` anew, at the registry's history size.
    pub fn enable_history(&mut self, id: CounterId)
        requires
            id.0 < old(self)@.counters.len(),
        ensures
            final(self)@ == old(self)@.with_counter(
                id.0 as int,
                old(self)@.counters[id.0 as int].with_history(old(self)@.history_size),
            ),
            old(self)@.wf() ==> final(self)@.wf(),
    {
        let slots: usize = self.history_size;
        self.counters[id.index()].enable_history(slots);
        assert(self@.counters =~= old(self)@.counters.update(
            id.0 as int,
            old(self)@.counters[id.0 as int].with_history(old(self)@.history_size),
        ));
        assert(self@.groups =~= old(self)@.groups);
        proof {
            lemma_with_counter_wf(
                old(self)@,
                id.0 as int,
                old(self)@.counters[id.0 as int].with_history(old(self)@.history_size),
            );
        }
    }

    /// Drops the history of counter `id`.
    pub fn disable_history(&mut self, id: CounterId)
        requires
            id.0 < old(self)@.counters.len(),
        ensures
            final(self)@ == old(self)@.with_counter(
                id.0 as int,
                old(self)@.counters[id.0 as int].without_history(),
            ),
            old(self)@.wf() ==> final(self)@.wf(),
    {
        self.counters[id.index()].disable_history();
        assert(self@.counters =~= old(self)@.counters.update(
            id.0 as int,
            old(self)@.counters[id.0 as int].without_history(),
        ));
        assert(self@.groups =~= old(self)@.groups);
        proof {
            lemma_with_counter_wf(
                old(self)@,
                id.0 as int,
                old(self)@.counters[id.0 as int].without_history(),
            );
        }
    }

    /// Appends the counters with the given ids to `selection`, in the order of the ids.
    pub fn select_counters<'b, 'a: 'b>(&'a self, ids: &[CounterId], selection: &'b mut Vec<&'a Counter>)
        requires
            forall|k: int| 0 <= k < ids@.len() ==> (#[trigger] ids@[k]).0 < self@.counters.len(),
        ensures
            final(selection)@.len() == old(selection)@.len() + ids@.len(),
            forall|k: int|
                0 <= k < old(selection)@.len() ==> (#[trigger] final(selection)@[k]) == old(selection)@[k],
            forall|k: int|
                0 <= k < ids@.len() ==> (#[trigger] final(selection)@[old(selection)@.len() + k])@
                    == self@.counters[ids@[k].0 as int],
    {
        let mut i: usize = 0;
        while i < ids.len()
            invariant
                i <= ids@.len(),
                forall|k: int| 0 <= k < ids@.len() ==> (#[trigger] ids@[k]).0 < self@.counters.len(),
                selection@.len() == old(selection)@.len() + i,
                forall|k: int|
                    0 <= k < old(selection)@.len() ==> (#[trigger] selection@[k]) == old(selection)@[k],
                forall|k: int|
                    0 <= k < i ==> (#[trigger] selection@[old(selection)@.len() + k])@
                        == self@.counters[ids@[k].0 as int],
            decreases ids@.len() - i,
        {
            selection.push(&self.counters[ids[i].index()]);
            i = i + 1;
        }
    }

    /// The counter with the given id.
    pub fn get_counter(&self, id: CounterId) -> (counter: &Counter)
        requires
            id.0 < self@.counters.len(),
        ensures
            counter@ == self@.counters[id.0 as int],
    {
        &self.counters[id.index()]
    }

    /// The position of the first group that is called `group_name`.
    fn group_position(&self, group_name: &str) -> (found: Option<usize>)
        ensures
            match found {
                Some(g) => self@.is_first_group(g as int, group_name@),
                None => self@.no_group(group_name@),
            },
    {
        let mut g: usize = 0;
        while g < self.groups.len()
            invariant
                g <= self.groups@.len(),
                forall|j: int| 0 <= j < g ==> (#[trigger] self@.groups[j]).name != group_name@,
            decreases self.groups@.len() - g,
        {
            if str_eq(self.groups[g].name, group_name) {
                return Some(g);
            }
            g = g + 1;
        }
        None
    }

    /// The ids of the first group that is called `group_name`, or `None`
    /// if no group is called so.
    pub fn find_group_by_name(&self, group_name: &str) -> (found: Option<CounterGroup>)
        ensures
            match found {
                Some(group) => exists|g: int|
                    #![trigger self@.groups[g]]
                    self@.is_first_group(g, group_name@) && group.start() == self@.groups[g].start
                        && group.end() == self@.groups[g].end,
                None => self@.no_group(group_name@),
            },
    {
        match self.group_position(group_name) {
            Some(g) => {
                let group = CounterGroup { start: self.groups[g].start, end: self.groups[g].end };
                assert(self@.is_first_group(g as int, group_name@) && group.start()
                    == self@.groups[g as int].start && group.end() == self@.groups[g as int].end);
                Some(group)
            },
            None => None,
        }
    }

    /// The id of the first counter called `counter_name` in the first group
    /// called `group_name`, or `None` if there is no such group or no such
    /// counter in it.
    pub fn find_counter_by_name(&self, group_name: &str, counter_name: &str) -> (found: Option<CounterId>)
        requires
            self@.wf(),
        ensures
            match found {
                Some(id) => exists|g: int|
                    #![trigger self@.groups[g]]
                    self@.is_first_group(g, group_name@) && self@.is_first_counter(
                        g,
                        id.0 as int,
                        counter_name@,
                    ),
                None => self@.no_group(group_name@) || exists|g: int|
                    #![trigger self@.groups[g]]
                    self@.is_first_group(g, group_name@) && self@.no_counter(g, counter_name@),
            },
    {
        match self.group_position(group_name) {
            Some(g) => {
                let start: u16 = self.groups[g].start;
                let end: u16 = self.groups[g].end;
                assert(self@.groups[g as int].start == start && self@.groups[g as int].end == end);
                let mut id: u16 = start;
                while id < end
                    invariant
                        start <= id <= end,
                        end <= self.counters@.len(),
                        g < self.groups@.len(),
                        self@.is_first_group(g as int, group_name@),
                        self@.groups[g as int].start == start,
                        self@.groups[g as int].end == end,
                        forall|k: int|
                            start <= k < id ==> (#[trigger] self@.counters[k]).descriptor.name@
                                != counter_name@,
                    decreases end - id,
                {
                    if str_eq(self.counters[id as usize].name(), counter_name) {
                        assert(self@.is_first_group(g as int, group_name@)
                            && self@.is_first_counter(g as int, id as int, counter_name@));
                        return Some(CounterId(id));
                    }
                    id = id + 1;
                }
                assert(self@.is_first_group(g as int, group_name@) && self@.no_counter(
                    g as int,
                    counter_name@,
                ));
                None
            },
            None => None,
        }
    }
}

/// Registering a group keeps a registry well formed.
pub proof fn lemma_with_group_wf(r: CountersView, name: Seq<char>, descriptors: Seq<CounterDescriptor>)
    requires
        r.wf(),
        r.counters.len() + descriptors.len() < u16::MAX,
        dense_ids(descriptors),
    ensures
        r.with_group(name, descriptors).wf(),
{
    let after = r.with_group(name, descriptors);
    assert forall|i: int| 0 <= i < after.counters.len() implies (
    #[trigger] after.counters[i]).history.len() == 0 || after.counters[i].history.len()
        == after.history_size by {
        if i < r.counters.len() {
            assert(after.counters[i] == r.counters[i]);
        }
    }
    assert forall|g: int| 0 <= g < after.groups.len() implies 0 <= (#[trigger] after.groups[g]).start
        <= after.groups[g].end <= after.counters.len() && after.groups[g].start
        == after.end_of_groups(g) by {
        if g < r.groups.len() {
            assert(after.groups[g] == r.groups[g]);
            assert(r.groups[g].start == r.end_of_groups(g));
            if g > 0 {
                assert(after.groups[g - 1] == r.groups[g - 1]);
            }
        } else {
            assert(r.end_of_groups(r.groups.len() as int) == r.counters.len());
            if g > 0 {
                assert(after.groups[g - 1] == r.groups[g - 1]);
            }
        }
    }
    assert forall|g: int, i: int|
        0 <= g < after.groups.len() && after.groups[g].start <= i < after.groups[g].end implies (
    #[trigger] after.counters[i]).descriptor.id.0 == i - (#[trigger] after.groups[g]).start by {
        if g < r.groups.len() {
            assert(after.groups[g] == r.groups[g]);
            assert(after.counters[i] == r.counters[i]);
        } else {
            assert(descriptors[i - r.counters.len()].id.0 == i - r.counters.len());
        }
    }
}

/// Replacing a counter by one with the same descriptor, and with no
/// history or one of the registry's history size, keeps a registry well
/// formed.
pub proof fn lemma_with_counter_wf(r: CountersView, id: int, counter: CounterView)
    requires
        0 <= id < r.counters.len(),
        counter.descriptor == r.counters[id].descriptor,
        counter.history.len() == 0 || counter.history.len() == r.history_size
            || counter.history.len() == r.counters[id].history.len(),
    ensures
        r.wf() ==> r.with_counter(id, counter).wf(),
{
    if r.wf() {
        let after = r.with_counter(id, counter);
        assert forall|i: int| 0 <= i < after.counters.len() implies (
        #[trigger] after.counters[i]).history.len() == 0 || after.counters[i].history.len()
            == after.history_size by {
            assert(r.counters[i].history.len() == 0 || r.counters[i].history.len()
                == r.history_size);
        }
        assert forall|g: int, i: int|
            0 <= g < after.groups.len() && after.groups[g].start <= i < after.groups[g].end implies (
        #[trigger] after.counters[i]).descriptor.id.0 == i - (#[trigger] after.groups[g]).start by {
            assert(r.counters[i].descriptor.id.0 == i - r.groups[g].start);
        }
        assert forall|g: int| 0 <= g < after.groups.len() implies (#[trigger] after.groups[g]).start
            == after.end_of_groups(g) by {
            assert(r.groups[g].start == r.end_of_groups(g));
        }
    }
}

/// A frame keeps a registry well formed.
pub proof fn lemma_registry_updated_wf(r: CountersView)
    requires
        r.wf(),
    ensures
        r.updated().wf(),
{
    let after = r.updated();
    assert forall|i: int| 0 <= i < after.counters.len() implies (
    #[trigger] after.counters[i]).history.len() == 0 || after.counters[i].history.len()
        == after.history_size by {
        assert(r.counters[i].history.len() == 0 || r.counters[i].history.len() == r.history_size);
    }
    assert forall|g: int, i: int|
        0 <= g < after.groups.len() && after.groups[g].start <= i < after.groups[g].end implies (
    #[trigger] after.counters[i]).descriptor.id.0 == i - (#[trigger] after.groups[g]).start by {
        assert(r.counters[i].descriptor.id.0 == i - r.groups[g].start);
    }
    assert forall|g: int| 0 <= g < after.groups.len() implies (#[trigger] after.groups[g]).start
        == after.end_of_groups(g) by {
        assert(r.groups[g].start == r.end_of_groups(g));
    }
}

/// Of several samples set in one frame the last one counts: the frame
/// records what it would have recorded had only the last been set. Only
/// the memory of the sample that was set last can tell the two apart, and
/// only if the last call took the sample back.
pub proof fn lemma_last_write_wins(c: CounterView, first: Option<Sample>, last: Option<Sample>, boundary: bool)
    ensures
        c.with_sample(first).with_sample(last).updated(boundary) == (CounterView {
            last_value: c.with_sample(first).with_sample(last).last_value,
            ..c.with_sample(last).updated(boundary)
        }),
        last is Some ==> c.with_sample(first).with_sample(last).updated(boundary) == c.with_sample(last).updated(boundary),
{
}

/// The history always keeps its length: a frame moves every sample one
/// slot toward the oldest end and records its own sample in the newest.
pub proof fn lemma_history_rotates(c: CounterView, boundary: bool)
    ensures
        c.updated(boundary).history.len() == c.history.len(),
        forall|i: int|
            0 <= i < c.history.len() - 1 ==> c.updated(boundary).history[i] == c.history[i + 1],
        c.history.len() > 0 ==> c.updated(boundary).history.last() == c.current_value,
{
}

/// A frame that does not close the window leaves what every counter
/// displays as it was. The frame that closes the window empties the
/// window of every counter, and the count of frames starts again.
pub proof fn lemma_window_boundary(r: CountersView, i: int)
    requires
        0 <= i < r.counters.len(),
    ensures
        !r.at_boundary() ==> r.updated().counters[i].displayed_avg == r.counters[i].displayed_avg
            && r.updated().counters[i].displayed_min == r.counters[i].displayed_min
            && r.updated().counters[i].displayed_max == r.counters[i].displayed_max
            && r.updated().frame_idx == r.frame_idx + 1,
        r.at_boundary() ==> r.updated().counters[i].sum == 0 && r.updated().counters[i].samples
            == 0 && r.updated().frame_idx == 0,
{
}

/// One call of `set` on a registry: the counter and the sample.
pub type SetCall = (int, Option<Sample>);

impl CountersView {
    /// The registry after the calls of `set` in `calls`, one after the other.
    pub open spec fn with_samples(self, calls: Seq<SetCall>) -> CountersView
        decreases calls.len(),
    {
        if calls.len() == 0 {
            self
        } else {
            let before = self.with_samples(calls.drop_last());
            before.with_counter(
                calls.last().0,
                before.counters[calls.last().0].with_sample(calls.last().1),
            )
        }
    }

    /// The registry after some frames, each given by its calls of `set`
    /// and ended by `update`.
    pub open spec fn after_frames(self, frames: Seq<Seq<SetCall>>) -> CountersView
        decreases frames.len(),
    {
        if frames.len() == 0 {
            self
        } else {
            self.after_frames(frames.drop_last()).with_samples(frames.last()).updated()
        }
    }
}

/// Setting samples changes neither the count of frames nor the windows
/// nor what the counters display.
pub proof fn lemma_with_samples_keeps_display(r: CountersView, calls: Seq<SetCall>)
    ensures
        r.with_samples(calls).counters.len() == r.counters.len(),
        r.with_samples(calls).frame_idx == r.frame_idx,
        r.with_samples(calls).avg_window == r.avg_window,
        forall|i: int|
            0 <= i < r.counters.len() ==> (#[trigger] r.with_samples(calls).counters[i]).displayed_avg
                == r.counters[i].displayed_avg && r.with_samples(calls).counters[i].displayed_min
                == r.counters[i].displayed_min && r.with_samples(calls).counters[i].displayed_max
                == r.counters[i].displayed_max && r.with_samples(calls).counters[i].sum
                == r.counters[i].sum && r.with_samples(calls).counters[i].samples
                == r.counters[i].samples,
    decreases calls.len(),
{
    if calls.len() > 0 {
        lemma_with_samples_keeps_display(r, calls.drop_last());
    }
}

/// What the counters display changes only with the frame that closes the
/// window: through any frames short of it, whatever samples are set in
/// them, every counter displays what it displayed before. With windows of
/// 30 frames that is every 30th call of `update`.
pub proof fn lemma_display_changes_only_at_boundary(r: CountersView, frames: Seq<Seq<SetCall>>, i: int)
    requires
        0 <= i < r.counters.len(),
        r.frame_idx + frames.len() < r.avg_window,
    ensures
        r.after_frames(frames).counters.len() == r.counters.len(),
        r.after_frames(frames).avg_window == r.avg_window,
        r.after_frames(frames).frame_idx == r.frame_idx + frames.len(),
        r.after_frames(frames).counters[i].displayed_avg == r.counters[i].displayed_avg,
        r.after_frames(frames).counters[i].displayed_min == r.counters[i].displayed_min,
        r.after_frames(frames).counters[i].displayed_max == r.counters[i].displayed_max,
    decreases frames.len(),
{
    if frames.len() > 0 {
        lemma_display_changes_only_at_boundary(r, frames.drop_last(), i);
        let before = r.after_frames(frames.drop_last());
        lemma_with_samples_keeps_display(before, frames.last());
        let set = before.with_samples(frames.last());
        assert(set.counters[i].displayed_avg == before.counters[i].displayed_avg);
        lemma_window_boundary(set, i);
    }
}

/// The first group of a name, and the first counter of a name in a group,
/// are the only ones: a search that finds one cannot find another.
pub proof fn lemma_first_is_unique(r: CountersView, g: int, h: int, id: int, other: int, group_name: Seq<char>, counter_name: Seq<char>)
    requires
        r.is_first_group(g, group_name),
        r.is_first_group(h, group_name),
        r.is_first_counter(g, id, counter_name),
        r.is_first_counter(h, other, counter_name),
    ensures
        g == h,
        id == other,
{
    if g < h {
        assert(r.groups[g].name != group_name);
    }
    if h < g {
        assert(r.groups[h].name != group_name);
    }
    if id < other {
        assert(r.counters[id].descriptor.name@ != counter_name);
    }
    if other < id {
        assert(r.counters[other].descriptor.name@ != counter_name);
    }
}

/// A counter that was registered is found under its names, with the id
/// that follows from its place: the group's first id plus the counter's
/// position among the descriptors. This holds for a group whose name was
/// not taken, and for the first descriptor of each name.
pub proof fn lemma_registered_counter_is_found(r: CountersView, name: Seq<char>, descriptors: Seq<CounterDescriptor>, i: int)
    requires
        r.wf(),
        r.no_group(name),
        0 <= i < descriptors.len(),
        forall|j: int| 0 <= j < i ==> (#[trigger] descriptors[j]).name@ != descriptors[i].name@,
    ensures
        r.with_group(name, descriptors).is_first_group(r.groups.len() as int, name),
        r.with_group(name, descriptors).is_first_counter(
            r.groups.len() as int,
            r.counters.len() + i,
            descriptors[i].name@,
        ),
{
    let after = r.with_group(name, descriptors);
    let g = r.groups.len() as int;
    assert forall|j: int| 0 <= j < g implies (#[trigger] after.groups[j]).name != name by {
        assert(after.groups[j] == r.groups[j]);
    }
    assert forall|k: int| after.groups[g].start <= k < r.counters.len() + i implies (
    #[trigger] after.counters[k]).descriptor.name@ != descriptors[i].name@ by {
        assert(after.counters[k] == CounterView::fresh(descriptors[k - r.counters.len()]));
    }
}

} // verus!
