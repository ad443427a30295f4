//! The counters that mirror the internal counters of a GPU device.

use vstd::prelude::*;
use crate::counter::{
    dense_ids, CounterDescriptor, CounterGroup, CounterId, Counters, Format, Sample,
};

verus! {

/// The number of internal counters.
pub const COUNT: usize = 16;

pub const BUFFERS: u16 = 0;

pub const TEXTURES: u16 = 1;

pub const TEXTURE_VIEWS: u16 = 2;

pub const BIND_GROUPS: u16 = 3;

pub const BIND_GROUP_LAYOUTS: u16 = 4;

pub const RENDER_PIPELINES: u16 = 5;

pub const COMPUTE_PIPELINES: u16 = 6;

pub const PIPELINE_LAYOUTS: u16 = 7;

pub const SAMPLERS: u16 = 8;

pub const COMMAND_ENCODERS: u16 = 9;

pub const SHADER_MODULES: u16 = 10;

pub const QUERY_SETS: u16 = 11;

pub const FENCES: u16 = 12;

pub const BUFFER_MEMORY: u16 = 13;

pub const TEXTURE_MEMORY: u16 = 14;

pub const MEMORY_ALLOCATIONS: u16 = 15;

/// What a device reports of itself: how many objects of each kind are
/// alive, and how many bytes its buffers and textures take.
#[derive(Copy, Clone, Debug)]
pub struct InternalCounters {
    pub buffers: i64,
    pub textures: i64,
    pub texture_views: i64,
    pub bind_groups: i64,
    pub bind_group_layouts: i64,
    pub render_pipelines: i64,
    pub compute_pipelines: i64,
    pub pipeline_layouts: i64,
    pub samplers: i64,
    pub command_encoders: i64,
    pub shader_modules: i64,
    pub query_sets: i64,
    pub fences: i64,
    /// Bytes.
    pub buffer_memory: i64,
    /// Bytes.
    pub texture_memory: i64,
    pub memory_allocations: i64,
}

/// A number of bytes in hundredths of a megabyte, rounded toward zero.
pub open spec fn megabytes(bytes: i64) -> Sample {
    if bytes >= 0 {
        (bytes / 10_000) as i64
    } else {
        (-((-bytes) / 10_000)) as i64
    }
}

/// Converts bytes to hundredths of a megabyte.
pub fn mb(bytes: i64) -> (sample: Sample)
    ensures
        sample == megabytes(bytes),
{
    bytes / 10_000
}

impl InternalCounters {
    /// The samples in the order of the counters: counts as they are,
    /// memory in hundredths of a megabyte.
    pub open spec fn samples(self) -> Seq<Sample> {
        seq![
            self.buffers,
            self.textures,
            self.texture_views,
            self.bind_groups,
            self.bind_group_layouts,
            self.render_pipelines,
            self.compute_pipelines,
            self.pipeline_layouts,
            self.samplers,
            self.command_encoders,
            self.shader_modules,
            self.query_sets,
            self.fences,
            megabytes(self.buffer_memory),
            megabytes(self.texture_memory),
            self.memory_allocations,
        ]
    }

    /// The samples in the order of the counters.
    pub fn to_samples(&self) -> (samples: [Sample; 16])
        ensures
            samples@ == self.samples(),
    {
        let samples: [Sample; 16] = [
            self.buffers,
            self.textures,
            self.texture_views,
            self.bind_groups,
            self.bind_group_layouts,
            self.render_pipelines,
            self.compute_pipelines,
            self.pipeline_layouts,
            self.samplers,
            self.command_encoders,
            self.shader_modules,
            self.query_sets,
            self.fences,
            mb(self.buffer_memory),
            mb(self.texture_memory),
            self.memory_allocations,
        ];
        assert(samples@ =~= self.samples());
        samples
    }
}

/// A white counter without a safe range.
pub open spec fn described(name: &'static str, unit: &'static str, id: u16, format: Format) -> CounterDescriptor {
    CounterDescriptor {
        name,
        unit,
        id: CounterId(id),
        format,
        color: (255u8, 255u8, 255u8, 255u8),
        safe_range: None,
    }
}

/// The descriptors of the internal counters: whole numbers, but for the
/// memory of buffers and textures, which is shown in megabytes.
pub open spec fn descriptor_table() -> Seq<CounterDescriptor> {
    seq![
        described("buffers", "", 0, Format::Int),
        described("textures", "", 1, Format::Int),
        described("texture_views", "", 2, Format::Int),
        described("bind_groups", "", 3, Format::Int),
        described("bind group layouts", "", 4, Format::Int),
        described("render pipelines", "", 5, Format::Int),
        described("compute pipelines", "", 6, Format::Int),
        described("pipeline layouts", "", 7, Format::Int),
        described("samplers", "", 8, Format::Int),
        described("command encoders", "", 9, Format::Int),
        described("shader modules", "", 10, Format::Int),
        described("query sets", "", 11, Format::Int),
        described("fences", "", 12, Format::Int),
        described("buffer memory", "MB", 13, Format::Float),
        described("texture memory", "MB", 14, Format::Float),
        described("memory allocations", "", 15, Format::Int),
    ]
}

/// The descriptors of the internal counters.
pub fn descriptors() -> (descriptors: Vec<CounterDescriptor>)
    ensures
        descriptors@ == descriptor_table(),
        descriptors@.len() == COUNT,
        dense_ids(descriptors@),
{
    let mut descriptors: Vec<CounterDescriptor> = Vec::new();
    descriptors.push(CounterDescriptor::integer("buffers", "", CounterId(BUFFERS)));
    descriptors.push(CounterDescriptor::integer("textures", "", CounterId(TEXTURES)));
    descriptors.push(CounterDescriptor::integer("texture_views", "", CounterId(TEXTURE_VIEWS)));
    descriptors.push(CounterDescriptor::integer("bind_groups", "", CounterId(BIND_GROUPS)));
    descriptors.push(
        CounterDescriptor::integer("bind group layouts", "", CounterId(BIND_GROUP_LAYOUTS)),
    );
    descriptors.push(
        CounterDescriptor::integer("render pipelines", "", CounterId(RENDER_PIPELINES)),
    );
    descriptors.push(
        CounterDescriptor::integer("compute pipelines", "", CounterId(COMPUTE_PIPELINES)),
    );
    descriptors.push(
        CounterDescriptor::integer("pipeline layouts", "", CounterId(PIPELINE_LAYOUTS)),
    );
    descriptors.push(CounterDescriptor::integer("samplers", "", CounterId(SAMPLERS)));
    descriptors.push(
        CounterDescriptor::integer("command encoders", "", CounterId(COMMAND_ENCODERS)),
    );
    descriptors.push(CounterDescriptor::integer("shader modules", "", CounterId(SHADER_MODULES)));
    descriptors.push(CounterDescriptor::integer("query sets", "", CounterId(QUERY_SETS)));
    descriptors.push(CounterDescriptor::integer("fences", "", CounterId(FENCES)));
    descriptors.push(CounterDescriptor::float("buffer memory", "MB", CounterId(BUFFER_MEMORY)));
    descriptors.push(CounterDescriptor::float("texture memory", "MB", CounterId(TEXTURE_MEMORY)));
    descriptors.push(
        CounterDescriptor::integer("memory allocations", "", CounterId(MEMORY_ALLOCATIONS)),
    );
    assert(descriptors@ =~= descriptor_table());
    descriptors
}

/// Registers the internal counters as a group called `name`.
pub fn register(name: &'static str, counters: &mut Counters) -> (ids: CounterGroup)
    requires
        old(counters)@.wf(),
        old(counters)@.counters.len() + COUNT < u16::MAX,
    ensures
        final(counters)@.wf(),
        final(counters)@.counters.len() == old(counters)@.counters.len() + COUNT,
        ids.start() == old(counters)@.counters.len(),
        ids.end() == old(counters)@.counters.len() + COUNT,
        final(counters)@ == old(counters)@.with_group(name@, descriptor_table()),
{
    let table = descriptors();
    counters.register_group(name, table.as_slice())
}

/// Sets the internal counters of the group `ids` to what the device
/// reports, for the current frame.
pub fn update_wgpu_internal_counters(counters: &mut Counters, ids: CounterGroup, values: &InternalCounters)
    requires
        old(counters)@.wf(),
        ids.start() + COUNT <= old(counters)@.counters.len(),
    ensures
        final(counters)@.wf(),
        final(counters)@.counters.len() == old(counters)@.counters.len(),
        final(counters)@.groups == old(counters)@.groups,
        final(counters)@.history_size == old(counters)@.history_size,
        final(counters)@.avg_window == old(counters)@.avg_window,
        final(counters)@.frame_idx == old(counters)@.frame_idx,
        forall|i: int|
            0 <= i < COUNT ==> (#[trigger] final(counters)@.counters[ids.start() + i]) == old(counters)@.counters[ids.start() + i].with_sample(Some(values.samples()[i])),
        forall|k: int|
            0 <= k < old(counters)@.counters.len() && !(ids.start() <= k < ids.start() + COUNT) ==> (
            #[trigger] final(counters)@.counters[k]) == old(counters)@.counters[k],
{
    let samples: [Sample; 16] = values.to_samples();
    let start: u16 = ids.start();
    let mut i: u16 = 0;
    while i < 16
        invariant
            i <= 16,
            start == ids.start(),
            start + COUNT <= old(counters)@.counters.len(),
            samples@ == values.samples(),
            counters@.counters.len() == old(counters)@.counters.len(),
            counters@.groups == old(counters)@.groups,
            counters@.history_size == old(counters)@.history_size,
            counters@.avg_window == old(counters)@.avg_window,
            counters@.frame_idx == old(counters)@.frame_idx,
            forall|j: int|
                0 <= j < i ==> (#[trigger] counters@.counters[start + j]) == old(counters)@.counters[start + j].with_sample(Some(samples@[j])),
            forall|k: int|
                0 <= k < counters@.counters.len() && !(start <= k < start + i) ==> (
                #[trigger] counters@.counters[k]) == old(counters)@.counters[k],
            old(counters)@.wf(),
            counters@.wf(),
        decreases 16 - i,
    {
        assert(counters@.counters[start + i] == old(counters)@.counters[start + i]);
        counters.set(CounterId(start + i), Some(samples[i as usize]));
        i = i + 1;
    }
}

} // verus!
