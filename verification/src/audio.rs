//! What is known of the microphone, and how its samples are laid out.

use vstd::prelude::*;

use crate::text;

verus! {

/// The sample rate that speech recognition expects.
pub const TARGET_SAMPLE_RATE: u32 = 16_000;

/// The source of a recording.
#[derive(Debug)]
pub struct Recorder {
    pub device_name: String,
    pub source_sample_rate: u32,
    pub source_channels: u16,
}

impl Recorder {
    /// A source by its name, which may not be known, its rate and its channels.
    pub fn new(device_name: Option<String>, source_sample_rate: u32, source_channels: u16) -> (r:
        Recorder)
        ensures
            device_name matches Some(name) ==> r.device_name == name,
            device_name is None ==> r.device_name@ == "unknown"@,
            r.source_sample_rate == source_sample_rate,
            r.source_channels == source_channels,
    {
        let device_name = match device_name {
            Some(name) => name,
            None => String::from_str("unknown"),
        };
        Recorder { device_name, source_sample_rate, source_channels }
    }

    /// The name of the device.
    pub fn device_name(&self) -> (r: &str)
        ensures
            r@ == self.device_name@,
    {
        self.device_name.as_str()
    }

    /// The sample rate and the number of channels.
    pub fn source_info(&self) -> (r: (u32, u16))
        ensures
            r == (self.source_sample_rate, self.source_channels),
    {
        (self.source_sample_rate, self.source_channels)
    }
}

/// The items of a list that are there, in their order.
pub open spec fn known_names(names: Seq<Option<String>>) -> Seq<Seq<char>>
    decreases names.len(),
{
    if names.len() == 0 {
        seq![]
    } else {
        let before = known_names(names.drop_last());
        match names.last() {
            Some(name) => before.push(name@),
            None => before,
        }
    }
}

/// The names of the input devices: those that have one, and none where the
/// devices could not be listed.
pub fn list_devices(names: Option<Vec<Option<String>>>) -> (r: Vec<String>)
    ensures
        names matches Some(list) ==> text::texts(r@) == known_names(list@),
        names is None ==> r@.len() == 0,
{
    let mut out: Vec<String> = Vec::new();
    if let Some(list) = names {
        let mut i: usize = 0;
        while i < list.len()
            invariant
                i <= list.len(),
                text::texts(out@) == known_names(list@.take(i as int)),
            decreases list.len() - i,
        {
            let ghost before = out@;
            assert(list@.take(i + 1).drop_last() == list@.take(i as int));
            if let Some(name) = &list[i] {
                out.push(name.clone());
                assert(text::texts(out@) == text::texts(before).push(name@));
            }
            i += 1;
        }
        assert(list@.take(list@.len() as int) == list@);
    }
    out
}

/// The name of the default input device, or "none".
pub fn default_device_name(name: Option<String>) -> (r: String)
    ensures
        name matches Some(n) ==> r == n,
        name is None ==> r@ == "none"@,
{
    match name {
        Some(n) => n,
        None => String::from_str("none"),
    }
}

/// The number of samples that belong together: one for each channel, and one
/// where there is no channel.
pub open spec fn frame_width(channels: u16) -> int {
    if channels == 0 {
        1
    } else {
        channels as int
    }
}

/// The number of whole frames in a block of interleaved samples.
pub fn frame_count(len: usize, channels: u16) -> (r: usize)
    ensures
        r == len as int / frame_width(channels),
{
    if channels == 0 {
        len
    } else {
        len / (channels as usize)
    }
}

/// Where the samples of a frame lie in a block of interleaved samples.
pub fn frame_bounds(len: usize, channels: u16, frame: usize) -> (r: (usize, usize))
    requires
        frame < len as int / frame_width(channels),
    ensures
        r.0 == frame * frame_width(channels),
        r.1 == r.0 + frame_width(channels),
        r.1 <= len,
{
    let width: usize = if channels == 0 {
        1
    } else {
        channels as usize
    };
    proof {
        let count = len as int / width as int;
        vstd::arithmetic::div_mod::lemma_fundamental_div_mod(len as int, width as int);
        assert((frame + 1) * width <= count * width) by (nonlinear_arith)
            requires
                frame + 1 <= count,
                width > 0,
        ;
        assert(count * width == width * count) by (nonlinear_arith);
        assert((frame + 1) * width == frame * width + width) by (nonlinear_arith);
        assert(0 <= frame * width) by (nonlinear_arith)
            requires
                frame >= 0,
                width >= 0,
        ;
        vstd::arithmetic::div_mod::lemma_mod_bound(len as int, width as int);
    }
    let start: usize = frame * width;
    (start, start + width)
}

/// Devices without a name are passed over, and the others keep their order.
pub proof fn law_names_are_listed_one_by_one(
    a: Seq<Option<String>>,
    b: Seq<Option<String>>,
    name: String,
)
    ensures
        known_names(a + b) == known_names(a) + known_names(b),
        known_names(seq![Some(name)]) == seq![name@],
        known_names(seq![None]).len() == 0,
    decreases b.len(),
{
    let none = Seq::<Option<String>>::empty();
    assert(seq![Some(name)].drop_last() == none);
    assert(seq![Some(name)].last() == Some(name));
    assert(seq![None::<String>].drop_last() == none);
    assert(seq![None::<String>].last() is None);
    assert(known_names(none) == Seq::<Seq<char>>::empty());
    if b.len() == 0 {
        assert(a + b == a);
    } else {
        law_names_are_listed_one_by_one(a, b.drop_last(), name);
        assert((a + b).drop_last() == a + b.drop_last());
        assert((a + b).last() == b.last());
    }
}

/// The frames of a block lie side by side and fill it, but for less than one frame; each
/// has one sample for each channel.
pub proof fn law_frames_fill_the_block(len: int, channels: u16)
    requires
        0 <= len,
    ensures
        channels > 0 ==> frame_width(channels) == channels,
        channels == 0 ==> frame_width(channels) == 1,
        ({
            let width = frame_width(channels);
            let count = len / width;
            0 <= len - count * width < width
        }),
{
    let width = frame_width(channels);
    vstd::arithmetic::div_mod::lemma_fundamental_div_mod(len, width);
    vstd::arithmetic::div_mod::lemma_mod_bound(len, width);
    assert(len / width * width == width * (len / width)) by (nonlinear_arith);
}

} // verus!
