//! Format negotiation: which of the formats that a device supports serves a
//! request best.
//!
//! A request fixes the sample encoding, and may fix the channel count and the
//! sample rate. A supported family of formats is *admitted* when it has the
//! encoding and, where one is requested, the channel count; a family without
//! channels, or whose lowest rate lies above its highest, is never admitted. The sample rate
//! never rules a family out: it only ranks the admitted ones, by how far the
//! requested rate lies outside their range. The first family at the smallest
//! distance wins, and the stream gets the rate of that family which is nearest
//! to the requested one. With no rate requested, every family is at distance
//! zero and the stream gets the chosen family's highest rate.
//!
//! The device's own default format comes before all of that: it is taken when
//! it has the encoding and the requested channel count, and the device
//! supports it at the requested rate (or at its own rate when none is
//! requested).

use super::BuildError;
use crate::audio::device::{is_supported, supports, Format, SampleFormat, SupportedFormat};
use vstd::prelude::*;

verus! {

/// What a stream asks of a device.
#[derive(Clone, Copy, Debug, PartialEq, Eq, Structural)]
pub struct Request {
    pub sample_format: SampleFormat,
    pub channels: Option<usize>,
    pub sample_rate: Option<u32>,
}

impl Request {
    /// `entry` has the requested encoding and channel count.
    pub open spec fn admits(self, entry: SupportedFormat) -> bool {
        &&& entry.data_type == self.sample_format
        &&& entry.channels > 0
        &&& (self.channels matches Some(n) ==> n == entry.channels)
        &&& entry.min_sample_rate <= entry.max_sample_rate
    }

    /// How far the requested sample rate lies outside the range of `entry`:
    /// zero when it lies inside or when none is requested.
    pub open spec fn distance(self, entry: SupportedFormat) -> int {
        match self.sample_rate {
            None => 0,
            Some(rate) => if rate < entry.min_sample_rate {
                entry.min_sample_rate - rate
            } else if rate > entry.max_sample_rate {
                rate - entry.max_sample_rate
            } else {
                0
            },
        }
    }

    /// The format of `entry` that is nearest to the request: the requested rate
    /// brought into the range of `entry`, or its highest rate when none is
    /// requested.
    pub open spec fn format_in(self, entry: SupportedFormat) -> Format {
        Format {
            channels: entry.channels,
            sample_rate: match self.sample_rate {
                None => entry.max_sample_rate,
                Some(rate) => if rate < entry.min_sample_rate {
                    entry.min_sample_rate
                } else if rate > entry.max_sample_rate {
                    entry.max_sample_rate
                } else {
                    rate
                },
            },
            data_type: entry.data_type,
        }
    }

    /// The device's default format at the requested rate, or as it is when no
    /// rate is requested.
    pub open spec fn format_from_default(self, default_format: Format) -> Format {
        Format {
            channels: default_format.channels,
            sample_rate: match self.sample_rate {
                None => default_format.sample_rate,
                Some(rate) => rate,
            },
            data_type: default_format.data_type,
        }
    }

    /// The device's default format serves the request: it has the encoding and
    /// the channel count, and the device supports it at the rate the stream
    /// would get.
    pub open spec fn prefers_default(
        self,
        default_format: Format,
        supported: Seq<SupportedFormat>,
    ) -> bool {
        &&& default_format.data_type == self.sample_format
        &&& default_format.channels > 0
        &&& (self.channels matches Some(n) ==> n == default_format.channels)
        &&& is_supported(supported, self.format_from_default(default_format))
    }

    /// Whether `entry` has the requested encoding and channel count.
    pub fn is_admitting(&self, entry: &SupportedFormat) -> (b: bool)
        ensures
            b == self.admits(*entry),
    {
        let channels_match = match self.channels {
            None => true,
            Some(n) => entry.channels as usize == n,
        };
        entry.data_type == self.sample_format && entry.channels > 0 && channels_match
            && entry.min_sample_rate <= entry.max_sample_rate
    }

    /// How far the requested sample rate lies outside the range of `entry`.
    pub fn distance_to(&self, entry: &SupportedFormat) -> (d: u32)
        ensures
            d == self.distance(*entry),
    {
        match self.sample_rate {
            None => 0,
            Some(rate) => if rate < entry.min_sample_rate {
                entry.min_sample_rate - rate
            } else if rate > entry.max_sample_rate {
                rate - entry.max_sample_rate
            } else {
                0
            },
        }
    }

    /// The format of `entry` that is nearest to the request.
    pub fn nearest_format(&self, entry: &SupportedFormat) -> (format: Format)
        ensures
            format == self.format_in(*entry),
    {
        let sample_rate = match self.sample_rate {
            None => entry.max_sample_rate,
            Some(rate) => if rate < entry.min_sample_rate {
                entry.min_sample_rate
            } else if rate > entry.max_sample_rate {
                entry.max_sample_rate
            } else {
                rate
            },
        };
        Format { channels: entry.channels, sample_rate, data_type: entry.data_type }
    }
}

/// `i` is the place in `supported` of the first admitted family at the
/// smallest distance from the requested rate.
pub open spec fn is_best_match(request: Request, supported: Seq<SupportedFormat>, i: int) -> bool {
    &&& 0 <= i < supported.len()
    &&& request.admits(supported[i])
    &&& forall|j: int|
        0 <= j < supported.len() && request.admits(#[trigger] supported[j]) ==> request.distance(
            supported[i],
        ) <= request.distance(supported[j])
    &&& forall|j: int|
        0 <= j < i && request.admits(#[trigger] supported[j]) ==> request.distance(supported[i])
            < request.distance(supported[j])
}

/// The place in `supported` of the family that serves `request` best, if any
/// is admitted: the list is gone through from its start, and a later family
/// replaces an earlier one only when it is strictly nearer.
pub open spec fn best_match(request: Request, supported: Seq<SupportedFormat>) -> Option<int>
    decreases supported.len(),
{
    if supported.len() == 0 {
        None
    } else {
        let last = supported.len() - 1;
        match best_match(request, supported.drop_last()) {
            Some(i) => if request.admits(supported[last]) && request.distance(supported[last])
                < request.distance(supported[i]) {
                Some(last)
            } else {
                Some(i)
            },
            None => if request.admits(supported[last]) {
                Some(last)
            } else {
                None
            },
        }
    }
}

/// The format that a stream with `request` gets on a device with this default
/// format and these supported formats; `None` when the device supports no
/// format with the requested encoding and channel count.
pub open spec fn negotiated(
    request: Request,
    default_format: Option<Format>,
    supported: Seq<SupportedFormat>,
) -> Option<Format> {
    if default_format is Some && request.prefers_default(default_format->0, supported) {
        Some(request.format_from_default(default_format->0))
    } else {
        match best_match(request, supported) {
            Some(i) => Some(request.format_in(supported[i])),
            None => None,
        }
    }
}

/// What `find_best_matching_format` gives: the negotiated format, or the
/// error that says that there is none.
pub open spec fn outcome(
    request: Request,
    default_format: Option<Format>,
    supported: Seq<SupportedFormat>,
) -> Result<Format, BuildError> {
    match negotiated(request, default_format, supported) {
        Some(format) => Ok(format),
        None => Err(BuildError::FormatUnsupported),
    }
}

/// The same request on the same device is always answered in the same way:
/// whatever two negotiations give, they give the same.
pub proof fn lemma_same_request_same_answer(
    request: Request,
    default_format: Option<Format>,
    supported: Seq<SupportedFormat>,
    first: Result<Format, BuildError>,
    second: Result<Format, BuildError>,
)
    requires
        first == outcome(request, default_format, supported),
        second == outcome(request, default_format, supported),
    ensures
        first == second,
{
}

/// `best_match` finds the first admitted family at the smallest distance, and
/// finds none only when none is admitted.
pub proof fn lemma_best_match(request: Request, supported: Seq<SupportedFormat>)
    ensures
        match best_match(request, supported) {
            Some(i) => is_best_match(request, supported, i),
            None => forall|j: int|
                0 <= j < supported.len() ==> !request.admits(#[trigger] supported[j]),
        },
    decreases supported.len(),
{
    if supported.len() > 0 {
        let front = supported.drop_last();
        let last = supported.len() - 1;
        lemma_best_match(request, front);
        assert(forall|j: int| 0 <= j < last ==> front[j] == supported[j]);
        match best_match(request, front) {
            Some(i) => {
                assert(is_best_match(request, front, i));
                assert(forall|j: int|
                    0 <= j < last && request.admits(#[trigger] supported[j]) ==> request.distance(
                        front[i],
                    ) <= request.distance(front[j]));
                assert(forall|j: int|
                    0 <= j < i && request.admits(#[trigger] supported[j]) ==> request.distance(
                        front[i],
                    ) < request.distance(front[j]));
            },
            None => {
                assert(forall|j: int| 0 <= j < last ==> !request.admits(#[trigger] front[j]));
            },
        }
    }
}

/// At most one place in `supported` is the best match.
pub proof fn lemma_best_match_is_unique(
    request: Request,
    supported: Seq<SupportedFormat>,
    i: int,
    j: int,
)
    requires
        is_best_match(request, supported, i),
        is_best_match(request, supported, j),
    ensures
        i == j,
{
}

/// The format of a stream is one that its device supports.
pub proof fn lemma_negotiated_is_supported(
    request: Request,
    default_format: Option<Format>,
    supported: Seq<SupportedFormat>,
)
    ensures
        negotiated(request, default_format, supported) matches Some(format) ==> {
            &&& is_supported(supported, format)
            &&& format.channels > 0
            &&& format.data_type == request.sample_format
            &&& (request.channels matches Some(n) ==> n == format.channels)
        },
{
    lemma_best_match(request, supported);
    if !(default_format is Some && request.prefers_default(default_format->0, supported)) {
        if let Some(i) = best_match(request, supported) {
            assert(supported[i].covers(request.format_in(supported[i])));
        }
    }
}

/// Negotiation fails exactly when the device supports no format with the
/// requested encoding and channel count, whatever the sample rates.
pub proof fn lemma_negotiation_fails_iff_none_admitted(
    request: Request,
    default_format: Option<Format>,
    supported: Seq<SupportedFormat>,
)
    ensures
        negotiated(request, default_format, supported) is None <==> forall|j: int|
            0 <= j < supported.len() ==> !request.admits(#[trigger] supported[j]),
{
    lemma_best_match(request, supported);
    if default_format is Some && request.prefers_default(default_format->0, supported) {
        let format = request.format_from_default(default_format->0);
        let i = choose|i: int| 0 <= i < supported.len() && (#[trigger] supported[i]).covers(format);
        assert(request.admits(supported[i]));
    }
}

/// A request for a channel count that none of the supported formats has fails
/// with `BuildError::FormatUnsupported`.
pub proof fn lemma_unsupported_channel_count_fails(
    request: Request,
    default_format: Option<Format>,
    supported: Seq<SupportedFormat>,
)
    requires
        request.channels is Some,
        forall|j: int|
            0 <= j < supported.len() ==> (#[trigger] supported[j]).channels != request.channels->0,
    ensures
        negotiated(request, default_format, supported) is None,
        outcome(request, default_format, supported) == Err::<Format, BuildError>(
            BuildError::FormatUnsupported,
        ),
{
    lemma_negotiation_fails_iff_none_admitted(request, default_format, supported);
}

/// Where the device supports the requested encoding and channel count at the
/// requested sample rate, the stream gets exactly that rate.
pub proof fn lemma_exact_rate_is_preferred(
    request: Request,
    default_format: Option<Format>,
    supported: Seq<SupportedFormat>,
    j: int,
)
    requires
        request.sample_rate is Some,
        0 <= j < supported.len(),
        request.admits(supported[j]),
        supported[j].min_sample_rate <= request.sample_rate->0 <= supported[j].max_sample_rate,
    ensures
        negotiated(request, default_format, supported) matches Some(format) && format.sample_rate
            == request.sample_rate->0,
{
    lemma_best_match(request, supported);
}

/// Finds the format for a stream with the given wishes on a device with the
/// given default format and supported formats.
///
/// Fails with `BuildError::FormatUnsupported` exactly when `negotiated` finds
/// no format: when none of the supported formats has the requested encoding
/// and channel count.
pub fn find_best_matching_format(
    sample_format: SampleFormat,
    channels: Option<usize>,
    sample_rate: Option<u32>,
    default_format: Option<Format>,
    supported_formats: &Vec<SupportedFormat>,
) -> (result: Result<Format, BuildError>)
    ensures
        result == outcome(
            (Request { sample_format, channels, sample_rate }),
            default_format,
            supported_formats@,
        ),
{
    let request = Request { sample_format, channels, sample_rate };
    if let Some(format) = default_format {
        let channels_match = match channels {
            None => true,
            Some(n) => format.channels as usize == n,
        };
        if format.data_type == sample_format && format.channels > 0 && channels_match {
            let wanted = Format {
                channels: format.channels,
                sample_rate: match sample_rate {
                    None => format.sample_rate,
                    Some(rate) => rate,
                },
                data_type: format.data_type,
            };
            if supports(supported_formats, &wanted) {
                return Ok(wanted);
            }
        }
    }
    let ghost supported = supported_formats@;
    let mut best: Option<usize> = None;
    let mut i: usize = 0;
    while i < supported_formats.len()
        invariant
            supported == supported_formats@,
            i <= supported.len(),
            match best {
                Some(b) => b < i && best_match(request, supported.take(i as int)) == Some(b as int),
                None => best_match(request, supported.take(i as int)) is None,
            },
        decreases supported.len() - i,
    {
        let entry = &supported_formats[i];
        proof {
            assert(supported.take(i + 1).drop_last() =~= supported.take(i as int));
        }
        if request.is_admitting(entry) {
            match best {
                None => {
                    best = Some(i);
                },
                Some(b) => {
                    if request.distance_to(entry) < request.distance_to(&supported_formats[b]) {
                        best = Some(i);
                    }
                },
            }
        }
        i += 1;
    }
    proof {
        assert(supported.take(i as int) =~= supported);
    }
    match best {
        Some(b) => Ok(request.nearest_format(&supported_formats[b])),
        None => Err(BuildError::FormatUnsupported),
    }
}

} // verus!
