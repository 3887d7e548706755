//! What a server and a client say to each other.

use crate::json::Json;
use crate::session::IpAddress;
use crate::text::{decimal, decimal_text};
use crate::time::{duration_nanos, from_nanos};
use std::time::Duration;
use vstd::prelude::*;
use vstd::std_specs::convert::FromSpecImpl;
use vstd::string::*;

verus! {

/// The streams between a server and a client.
pub const TRACKING: u16 = 0;

pub const HAPTICS: u16 = 1;

pub const AUDIO: u16 = 2;

pub const VIDEO: u16 = 3;

pub const STATISTICS: u16 = 4;

/// What a server tells a client while they are connected.
pub enum ServerControlPacket {
    StartStream,
    InitializeDecoder { config_buffer: Vec<u8> },
    Restarting,
    KeepAlive,
    ServerPredictionAverage(Duration),
    Reserved(String),
    ReservedBuffer(Vec<u8>),
}

#[derive(Debug)]
pub struct AudioDevicesList {
    pub output: Vec<String>,
    pub input: Vec<String>,
}

pub enum GpuVendor {
    Nvidia,
    Amd,
    Other,
}

/// One step on the way to a value inside the session.
#[derive(Clone)]
pub enum PathSegment {
    Name(String),
    Index(usize),
}

/// The steps of a path, as text.
pub enum SegmentModel {
    Name(Seq<char>),
    Index(usize),
}

impl View for PathSegment {
    type V = SegmentModel;

    open spec fn view(&self) -> SegmentModel {
        match self {
            PathSegment::Name(name) => SegmentModel::Name(name@),
            PathSegment::Index(index) => SegmentModel::Index(*index),
        }
    }
}

impl SegmentModel {
    /// A name is written as it is, an index in brackets.
    pub open spec fn text(self) -> Seq<char> {
        match self {
            SegmentModel::Name(name) => name,
            SegmentModel::Index(index) => seq!['['] + decimal(index as nat) + seq![']'],
        }
    }
}

impl PathSegment {
    /// The segment as it is shown to a developer.
    pub fn debug_text(&self) -> (text: String)
        ensures
            text@ == self@.text(),
    {
        match self {
            PathSegment::Name(name) => name.clone(),
            PathSegment::Index(index) => {
                let mut text = String::new();
                text.push('[');
                text.append(decimal_text(*index).as_str());
                text.push(']');
                assert(text@ =~= self@.text());
                text
            },
        }
    }
}

impl From<&str> for PathSegment {
    fn from(value: &str) -> (segment: PathSegment)
        ensures
            segment@ == SegmentModel::Name(value@),
    {
        PathSegment::Name(value.to_owned())
    }
}

impl FromSpecImpl<&str> for PathSegment {
    open spec fn obeys_from_spec() -> bool {
        false
    }

    open spec fn from_spec(value: &str) -> PathSegment {
        arbitrary()
    }
}

impl From<String> for PathSegment {
    fn from(value: String) -> (segment: PathSegment) {
        PathSegment::Name(value)
    }
}

impl FromSpecImpl<String> for PathSegment {
    open spec fn obeys_from_spec() -> bool {
        true
    }

    open spec fn from_spec(value: String) -> PathSegment {
        PathSegment::Name(value)
    }
}

impl From<usize> for PathSegment {
    fn from(value: usize) -> (segment: PathSegment) {
        PathSegment::Index(value)
    }
}

impl FromSpecImpl<usize> for PathSegment {
    open spec fn obeys_from_spec() -> bool {
        true
    }

    open spec fn from_spec(value: usize) -> PathSegment {
        PathSegment::Index(value)
    }
}

/// The parts of a text between the dots in it. There is one part more than there are dots.
pub open spec fn split_at_dots(text: Seq<char>) -> Seq<Seq<char>>
    decreases text.len(),
{
    if text.len() == 0 {
        seq![Seq::empty()]
    } else {
        let before = split_at_dots(text.drop_last());
        if text.last() == '.' {
            before.push(Seq::empty())
        } else {
            before.drop_last().push(before.last().push(text.last()))
        }
    }
}

/// Parts of a text, with a dot between each two of them.
pub open spec fn join_with_dots(parts: Seq<Seq<char>>) -> Seq<char>
    decreases parts.len(),
{
    if parts.len() == 0 {
        Seq::empty()
    } else if parts.len() == 1 {
        parts[0]
    } else {
        join_with_dots(parts.drop_last()).push('.') + parts.last()
    }
}

/// The parts of a text hold no dots, and the text is what they are when they are joined again.
pub proof fn law_parts_make_up_path(text: Seq<char>)
    ensures
        split_at_dots(text).len() > 0,
        join_with_dots(split_at_dots(text)) == text,
        forall|i: int|
            0 <= i < split_at_dots(text).len() ==> !(#[trigger] split_at_dots(text)[i]).contains(
                '.',
            ),
    decreases text.len(),
{
    let parts = split_at_dots(text);
    if text.len() == 0 {
        assert(join_with_dots(parts) =~= text);
    } else {
        law_parts_make_up_path(text.drop_last());
        let before = split_at_dots(text.drop_last());
        if text.last() == '.' {
            assert(parts.drop_last() =~= before);
            assert(join_with_dots(parts) =~= text);
        } else {
            assert(parts.drop_last() =~= before.drop_last());
            assert(text =~= text.drop_last().push(text.last()));
            if before.len() == 1 {
                assert(parts =~= seq![before[0].push(text.last())]);
            } else {
                assert(join_with_dots(before) == join_with_dots(before.drop_last()).push('.')
                    + before.last());
            }
            assert(join_with_dots(parts) =~= join_with_dots(before).push(text.last()));
            let last = before.last();
            let c = text.last();
            assert forall|j: int| 0 <= j < last.push(c).len() implies last.push(c)[j] != '.' by {
                if j < last.len() {
                    assert(before[before.len() - 1].contains(last[j]));
                }
            }
            assert forall|i: int| 0 <= i < parts.len() implies !(#[trigger] parts[i]).contains(
                '.',
            ) by {
                if i < before.len() - 1 {
                    assert(parts[i] == before[i]);
                }
            }
        }
    }
}

/// Segments whose names are the parts of a text.
pub open spec fn names(parts: Seq<Seq<char>>) -> Seq<SegmentModel> {
    parts.map_values(|part: Seq<char>| SegmentModel::Name(part))
}

/// The models of segments.
pub open spec fn segment_models(segments: Seq<PathSegment>) -> Seq<SegmentModel> {
    segments.map_values(|segment: PathSegment| segment@)
}

/// Cuts a path at its dots.
pub fn parse_path(path: &str) -> (segments: Vec<PathSegment>)
    ensures
        segment_models(segments@) == names(split_at_dots(path@)),
{
    let mut segments: Vec<PathSegment> = Vec::new();
    let mut part = String::new();
    assert(path@.take(0) =~= Seq::empty());
    for c in iter: path.chars()
        invariant
            iter.seq() == path@,
            segment_models(segments@) == names(
                split_at_dots(path@.take(iter.index())).drop_last(),
            ),
            part@ == split_at_dots(path@.take(iter.index())).last(),
            split_at_dots(path@.take(iter.index())).len() > 0,
    {
        let ghost i = iter.index();
        let ghost before = split_at_dots(path@.take(i));
        assert(path@.take(i + 1).drop_last() =~= path@.take(i));
        if c == '.' {
            let ghost old_segments = segments@;
            segments.push(PathSegment::from(part));
            part = String::new();
            assert(split_at_dots(path@.take(i + 1)).drop_last() =~= before);
            assert(names(before) =~= names(before.drop_last()).push(
                SegmentModel::Name(before.last()),
            ));
            assert(segment_models(segments@) =~= segment_models(old_segments).push(
                SegmentModel::Name(before.last()),
            ));
        } else {
            part.push(c);
            assert(split_at_dots(path@.take(i + 1)).drop_last() =~= before.drop_last());
        }
    }
    assert(path@.take(path@.len() as int) =~= path@);
    let ghost parts = split_at_dots(path@);
    let ghost old_segments = segments@;
    segments.push(PathSegment::from(part));
    proof {
        assert(names(parts) =~= names(parts.drop_last()).push(SegmentModel::Name(parts.last())));
        assert(segment_models(segments@) =~= segment_models(old_segments).push(
            SegmentModel::Name(parts.last()),
        ));
    }
    segments
}

/// How long the stages of a frame took on a client.
#[derive(Clone, Copy)]
pub struct ClientStatistics {
    /// Identifies the frame.
    pub target_timestamp: Duration,
    pub frame_interval: Duration,
    pub video_decode: Duration,
    pub video_decoder_queue: Duration,
    pub rendering: Duration,
    pub vsync_queue: Duration,
    pub total_pipeline_latency: Duration,
}

impl Default for ClientStatistics {
    fn default() -> (statistics: ClientStatistics)
        ensures
            duration_nanos(statistics.target_timestamp) == 0,
            duration_nanos(statistics.frame_interval) == 0,
            duration_nanos(statistics.video_decode) == 0,
            duration_nanos(statistics.video_decoder_queue) == 0,
            duration_nanos(statistics.rendering) == 0,
            duration_nanos(statistics.vsync_queue) == 0,
            duration_nanos(statistics.total_pipeline_latency) == 0,
    {
        let zero = from_nanos(0);
        ClientStatistics {
            target_timestamp: zero,
            frame_interval: zero,
            video_decode: zero,
            video_decoder_queue: zero,
            rendering: zero,
            vsync_queue: zero,
            total_pipeline_latency: zero,
        }
    }
}

/// A value to be set, and where.
pub struct PathValuePair {
    pub path: Vec<PathSegment>,
    pub value: Json,
}

/// What is to be done to a client in the list of clients.
#[derive(Debug)]
pub enum ClientListAction {
    AddIfMissing { trusted: bool, manual_ips: Vec<IpAddress> },
    SetDisplayName(String),
    Trust,
    SetManualIps(Vec<IpAddress>),
    RemoveEntry,
    UpdateCurrentIp(Option<IpAddress>),
}

#[derive(Debug)]
pub enum ServerResponse {
    AudioDevices(AudioDevicesList),
}

/// A path has one segment for each part between its dots, in their order, and each of them is the
/// name of that part.
pub proof fn law_segments_are_the_parts(parts: Seq<Seq<char>>, i: int)
    requires
        0 <= i < parts.len(),
    ensures
        names(parts).len() == parts.len(),
        names(parts)[i] == SegmentModel::Name(parts[i]),
{
}

/// A segment is shown by its name, or by its index in brackets.
pub proof fn law_segment_is_shown_as_it_is(name: Seq<char>, index: usize)
    ensures
        SegmentModel::Name(name).text() == name,
        SegmentModel::Index(index).text().len() == decimal(index as nat).len() + 2,
        SegmentModel::Index(index).text()[0] == '[',
        SegmentModel::Index(index).text().last() == ']',
        SegmentModel::Index(index).text().subrange(
            1,
            SegmentModel::Index(index).text().len() - 1,
        ) == decimal(index as nat),
{
    let text = SegmentModel::Index(index).text();
    assert(text.subrange(1, text.len() - 1) =~= decimal(index as nat));
}

/// There is one model for each segment, in their order. It tells names from numbers, and has the
/// same name or number.
pub proof fn law_models_are_those_of_the_segments(segments: Seq<PathSegment>, i: int)
    requires
        0 <= i < segments.len(),
    ensures
        segment_models(segments).len() == segments.len(),
        segment_models(segments)[i] is Name <==> segments[i] is Name,
        segments[i] is Name ==> segment_models(segments)[i]->Name_0 == segments[i]->Name_0@,
        segments[i] is Index ==> segment_models(segments)[i]->Index_0 == segments[i]->Index_0,
{
}

} // verus!
