//! What the streamer and the client have agreed on.

use crate::json::{Json, JsonNumber, JsonTree};
use crate::json_text::parsed_object;
use vstd::prelude::*;

verus! {

/// The bits of the double precision number 60.
pub const DEFAULT_REFRESH_RATE_BITS: u64 = 0x404e_0000_0000_0000;

pub const DEFAULT_SAMPLE_RATE: u64 = 44100;

/// What the streamer and the client have agreed on.
#[derive(Clone, Copy, Debug, PartialEq, Eq)]
pub struct NegotiatedConfig {
    /// Width and height.
    pub view_resolution: (u32, u32),
    pub refresh_rate_hint: JsonNumber,
    pub game_audio_sample_rate: u32,
}

/// A value is an integer that fits in 32 bits.
pub open spec fn is_u32(tree: JsonTree) -> bool {
    tree matches JsonTree::Number(JsonNumber::PosInt(n)) && n <= u32::MAX
}

/// A value as an integer of 32 bits.
pub open spec fn as_u32(tree: JsonTree) -> u32 {
    tree->Number_0->PosInt_0 as u32
}

/// A resolution is given by two integers. Anything else is none.
pub open spec fn resolution_of(tree: JsonTree) -> (u32, u32) {
    if tree is Array && tree->Array_0.len() == 2 && is_u32(tree->Array_0[0]) && is_u32(
        tree->Array_0[1],
    ) {
        (as_u32(tree->Array_0[0]), as_u32(tree->Array_0[1]))
    } else {
        (0, 0)
    }
}

/// What an agreement says. What it does not say has a default.
pub open spec fn negotiated(tree: JsonTree) -> NegotiatedConfig {
    NegotiatedConfig {
        view_resolution: resolution_of(tree.field("view_resolution"@)),
        refresh_rate_hint: match tree.field("refresh_rate_hint"@) {
            JsonTree::Number(number) => number,
            _ => JsonNumber::Float(DEFAULT_REFRESH_RATE_BITS),
        },
        game_audio_sample_rate: match tree.field("game_audio_sample_rate"@) {
            JsonTree::Number(JsonNumber::PosInt(n)) => (n % 0x1_0000_0000) as u32,
            _ => DEFAULT_SAMPLE_RATE as u32,
        },
    }
}

/// An integer that fits in 32 bits.
fn small_integer(json: &Json) -> (n: Option<u32>)
    ensures
        n == if is_u32(json.tree()) {
            Some(as_u32(json.tree()))
        } else {
            None
        },
{
    match json {
        Json::Number(JsonNumber::PosInt(n)) => if *n <= 0xffff_ffff {
            Some(*n as u32)
        } else {
            None
        },
        _ => None,
    }
}

/// A resolution is given by two integers. Anything else is none.
fn resolution(json: &Json) -> (resolution: (u32, u32))
    ensures
        resolution == resolution_of(json.tree()),
{
    if let Json::Array(items) = json {
        if items.len() == 2 {
            assert(json.tree()->Array_0[0] == items@[0].tree());
            assert(json.tree()->Array_0[1] == items@[1].tree());
            if let (Some(width), Some(height)) = (
                small_integer(&items[0]),
                small_integer(&items[1]),
            ) {
                return (width, height);
            }
        }
    }
    (0, 0)
}

/// Reads an agreement.
pub fn negotiated_config(json: &Json) -> (config: NegotiatedConfig)
    ensures
        config == negotiated(json.tree()),
{
    let view_resolution: (u32, u32) = match json.get("view_resolution") {
        Some(value) => resolution(value),
        None => (0, 0),
    };
    let refresh_rate_hint = match json.get("refresh_rate_hint") {
        Some(Json::Number(number)) => *number,
        _ => JsonNumber::Float(DEFAULT_REFRESH_RATE_BITS),
    };
    let sample_rate: u64 = match json.get("game_audio_sample_rate") {
        Some(Json::Number(JsonNumber::PosInt(n))) => *n,
        _ => DEFAULT_SAMPLE_RATE,
    };
    NegotiatedConfig {
        view_resolution,
        refresh_rate_hint,
        game_audio_sample_rate: (sample_rate % 0x1_0000_0000) as u32,
    }
}

/// Reads the text of an agreement, which has to be an object. The error is the message of the
/// parser.
pub fn read_negotiated(text: &str) -> (config: Result<NegotiatedConfig, String>)
    ensures
        match parsed_object(text@) {
            Ok(fields) => config == Ok::<NegotiatedConfig, String>(
                negotiated(JsonTree::Object(fields)),
            ),
            Err(message) => config is Err && config->Err_0@ == message,
        },
{
    match Json::parse_object(text) {
        Ok(json) => Ok(negotiated_config(&json)),
        Err(message) => Err(message),
    }
}

/// A resolution of two integers of 32 bits is read as it is, whatever they are.
pub proof fn law_resolution_is_read_as_given(
    fields: Map<Seq<char>, JsonTree>,
    width: u32,
    height: u32,
)
    requires
        fields.contains_key("view_resolution"@),
        fields["view_resolution"@] == JsonTree::Array(
            seq![
                JsonTree::Number(JsonNumber::PosInt(width as u64)),
                JsonTree::Number(JsonNumber::PosInt(height as u64)),
            ],
        ),
    ensures
        negotiated(JsonTree::Object(fields)).view_resolution == (width, height),
{
    assert(JsonTree::Object(fields).field("view_resolution"@) == fields["view_resolution"@]);
}

/// A resolution of anything but two integers of 32 bits is none.
pub proof fn law_other_resolutions_are_none(
    fields: Map<Seq<char>, JsonTree>,
    items: Seq<JsonTree>,
    i: int,
)
    requires
        fields.contains_key("view_resolution"@),
        fields["view_resolution"@] == JsonTree::Array(items),
        0 <= i < items.len(),
        match items[i] {
            JsonTree::Number(JsonNumber::PosInt(n)) => n > u32::MAX,
            _ => true,
        },
    ensures
        negotiated(JsonTree::Object(fields)).view_resolution == (0u32, 0u32),
{
    assert(JsonTree::Object(fields).field("view_resolution"@) == fields["view_resolution"@]);
}

/// A refresh rate is read as it is, whatever number it is, and so is a sample rate that fits in 32
/// bits. Of a larger sample rate the lowest 32 bits count.
pub proof fn law_rates_are_read_as_given(
    fields: Map<Seq<char>, JsonTree>,
    refresh_rate: JsonNumber,
    sample_rate: u64,
)
    ensures
        fields.contains_key("refresh_rate_hint"@) && fields["refresh_rate_hint"@]
            == JsonTree::Number(refresh_rate) ==> negotiated(
            JsonTree::Object(fields),
        ).refresh_rate_hint == refresh_rate,
        fields.contains_key("game_audio_sample_rate"@) && fields["game_audio_sample_rate"@]
            == JsonTree::Number(JsonNumber::PosInt(sample_rate)) ==> negotiated(
            JsonTree::Object(fields),
        ).game_audio_sample_rate == sample_rate % 0x1_0000_0000,
{
    let tree = JsonTree::Object(fields);
    if fields.contains_key("refresh_rate_hint"@) {
        assert(tree.field("refresh_rate_hint"@) == fields["refresh_rate_hint"@]);
    }
    if fields.contains_key("game_audio_sample_rate"@) {
        assert(tree.field("game_audio_sample_rate"@) == fields["game_audio_sample_rate"@]);
    }
}

/// What an agreement does not say, or says in a way that means nothing, has a default: no
/// resolution, a refresh rate of 60, and a sample rate of 44100.
pub proof fn law_agreement_has_defaults(fields: Map<Seq<char>, JsonTree>)
    ensures
        ({
            let config = negotiated(JsonTree::Object(fields));
            &&& !fields.contains_key("view_resolution"@) || !(fields["view_resolution"@] is Array)
                || fields["view_resolution"@]->Array_0.len() != 2 ==> config.view_resolution == (
                0u32,
                0u32,
            )
            &&& !fields.contains_key("refresh_rate_hint"@) || !(
            fields["refresh_rate_hint"@] is Number) ==> config.refresh_rate_hint
                == JsonNumber::Float(0x404e_0000_0000_0000)
            &&& !fields.contains_key("game_audio_sample_rate"@) || !(
            fields["game_audio_sample_rate"@] is Number) || !(
            fields["game_audio_sample_rate"@]->Number_0 is PosInt)
                ==> config.game_audio_sample_rate == 44100
        }),
{
}

} // verus!
