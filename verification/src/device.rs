//! Output device negotiation.
//!
//! Given the source's sample rate and channel count and the list of
//! configurations the output device supports, pick the stream configuration
//! to open, preferring no conversion at all: an exact match first, then
//! stereo at the source rate, then the highest usable rate, and the device's
//! default configuration as a last resort.

use vstd::prelude::*;

verus! {

/// One configuration range an output device supports.
#[derive(Clone, Copy, Debug, PartialEq, Eq, Structural)]
pub struct SupportedConfig {
    /// Channel count of this configuration.
    pub channels: u16,
    /// Lowest supported sample rate, in hertz.
    pub min_sample_rate: u32,
    /// Highest supported sample rate, in hertz.
    pub max_sample_rate: u32,
}

/// The configuration chosen for the output stream.
#[derive(Clone, Copy, Debug, PartialEq, Eq, Structural)]
pub struct NegotiatedConfig {
    /// Channel count to open the stream with.
    pub channels: u16,
    /// Sample rate to open the stream with, in hertz.
    pub sample_rate: u32,
    /// Whether the source must be resampled to this configuration.
    pub needs_resample: bool,
    /// Whether the source's channel layout must be converted.
    pub needs_rechannel: bool,
}

/// Whether `c` can carry `channels` channels at `rate`.
pub open spec fn config_carries(c: SupportedConfig, channels: u16, rate: u32) -> bool {
    c.channels == channels && c.min_sample_rate <= rate <= c.max_sample_rate
}

/// Whether some supported configuration carries `channels` at `rate`.
pub open spec fn some_config_carries(s: Seq<SupportedConfig>, channels: u16, rate: u32) -> bool {
    exists|i: int| 0 <= i < s.len() && config_carries(#[trigger] s[i], channels, rate)
}

/// Whether `c` is eligible for the highest-rate fallback: it carries either
/// the source's channel count or stereo.
pub open spec fn config_eligible(c: SupportedConfig, src_channels: u16) -> bool {
    c.channels == src_channels || c.channels == 2
}

/// The eligible configuration with the highest maximum rate, later entries
/// winning ties (the last maximal element).
pub open spec fn spec_best_eligible(s: Seq<SupportedConfig>, src_channels: u16) -> Option<
    SupportedConfig,
>
    decreases s.len(),
{
    if s.len() == 0 {
        Option::None
    } else {
        let prev = spec_best_eligible(s.drop_last(), src_channels);
        let c = s.last();
        if config_eligible(c, src_channels) {
            match prev {
                Option::Some(p) => if c.max_sample_rate >= p.max_sample_rate {
                    Option::Some(c)
                } else {
                    prev
                },
                Option::None => Option::Some(c),
            }
        } else {
            prev
        }
    }
}

/// The eligible configuration with the highest maximum rate.
#[verifier::loop_isolation(false)]
fn best_eligible(configs: &Vec<SupportedConfig>, src_channels: u16) -> (r: Option<SupportedConfig>)
    ensures
        r == spec_best_eligible(configs@, src_channels),
{
    let mut best: Option<SupportedConfig> = Option::None;
    let mut i: usize = 0;
    while i < configs.len()
        invariant
            0 <= i <= configs@.len(),
            best == spec_best_eligible(configs@.subrange(0, i as int), src_channels),
        decreases configs@.len() - i,
    {
        proof {
            assert(configs@.subrange(0, i + 1).drop_last() =~= configs@.subrange(0, i as int));
            assert(configs@.subrange(0, i + 1).last() == configs@[i as int]);
        }
        let c = configs[i];
        if c.channels == src_channels || c.channels == 2 {
            best = match best {
                Option::Some(p) => if c.max_sample_rate >= p.max_sample_rate {
                    Option::Some(c)
                } else {
                    Option::Some(p)
                },
                Option::None => Option::Some(c),
            };
        }
        i = i + 1;
    }
    proof {
        assert(configs@.subrange(0, configs@.len() as int) =~= configs@);
    }
    best
}

/// Whether some supported configuration carries `channels` at `rate`.
#[verifier::loop_isolation(false)]
fn find_carrier(configs: &Vec<SupportedConfig>, channels: u16, rate: u32) -> (r: bool)
    ensures
        r == some_config_carries(configs@, channels, rate),
{
    let mut i: usize = 0;
    while i < configs.len()
        invariant
            0 <= i <= configs@.len(),
            forall|j: int| 0 <= j < i ==> !config_carries(#[trigger] configs@[j], channels, rate),
        decreases configs@.len() - i,
    {
        let c = configs[i];
        if c.channels == channels && c.min_sample_rate <= rate && rate <= c.max_sample_rate {
            return true;
        }
        i = i + 1;
    }
    false
}

/// Choose the output configuration for a source of `src_rate` hertz and
/// `src_channels` channels, in order of preference:
/// 1. the source's own rate and channels (no conversion);
/// 2. stereo at the source's rate (rechannel only);
/// 3. the eligible configuration with the highest rate (resample, and
///    rechannel if its channel count differs);
/// 4. the device's default configuration, when one is known.
///
/// `None` only when the device supports nothing eligible and no default
/// configuration is known.
pub fn negotiate_output_config(
    src_rate: u32,
    src_channels: u16,
    configs: &Vec<SupportedConfig>,
    device_default: Option<(u16, u32)>,
) -> (r: Option<NegotiatedConfig>)
    ensures
        some_config_carries(configs@, src_channels, src_rate) ==> r == Option::Some(
            NegotiatedConfig {
                channels: src_channels,
                sample_rate: src_rate,
                needs_resample: false,
                needs_rechannel: false,
            },
        ),
        (!some_config_carries(configs@, src_channels, src_rate) && some_config_carries(
            configs@,
            2,
            src_rate,
        )) ==> r == Option::Some(
            NegotiatedConfig {
                channels: 2,
                sample_rate: src_rate,
                needs_resample: false,
                needs_rechannel: (src_channels != 2),
            },
        ),
        (!some_config_carries(configs@, src_channels, src_rate) && !some_config_carries(
            configs@,
            2,
            src_rate,
        ) && spec_best_eligible(configs@, src_channels) is Some) ==> r == Option::Some(
            ({
                let b = spec_best_eligible(configs@, src_channels)->0;
                NegotiatedConfig {
                    channels: b.channels,
                    sample_rate: b.max_sample_rate,
                    needs_resample: (b.max_sample_rate != src_rate),
                    needs_rechannel: (b.channels != src_channels),
                }
            }),
        ),
        (!some_config_carries(configs@, src_channels, src_rate) && !some_config_carries(
            configs@,
            2,
            src_rate,
        ) && spec_best_eligible(configs@, src_channels) is None) ==> r == (match device_default {
            Option::Some(d) => Option::Some(
                NegotiatedConfig {
                    channels: d.0,
                    sample_rate: d.1,
                    needs_resample: (d.1 != src_rate),
                    needs_rechannel: (d.0 != src_channels),
                },
            ),
            Option::None => Option::None,
        }),
{
    if find_carrier(configs, src_channels, src_rate) {
        return Option::Some(
            NegotiatedConfig {
                channels: src_channels,
                sample_rate: src_rate,
                needs_resample: false,
                needs_rechannel: false,
            },
        );
    }
    if find_carrier(configs, 2, src_rate) {
        return Option::Some(
            NegotiatedConfig {
                channels: 2,
                sample_rate: src_rate,
                needs_resample: false,
                needs_rechannel: src_channels != 2,
            },
        );
    }
    match best_eligible(configs, src_channels) {
        Option::Some(b) => Option::Some(
            NegotiatedConfig {
                channels: b.channels,
                sample_rate: b.max_sample_rate,
                needs_resample: b.max_sample_rate != src_rate,
                needs_rechannel: b.channels != src_channels,
            },
        ),
        Option::None => match device_default {
            Option::Some(d) => Option::Some(
                NegotiatedConfig {
                    channels: d.0,
                    sample_rate: d.1,
                    needs_resample: d.1 != src_rate,
                    needs_rechannel: d.0 != src_channels,
                },
            ),
            Option::None => Option::None,
        },
    }
}

/// The best eligible configuration really is the maximum: every eligible
/// configuration's ceiling is at most the chosen one's.
pub proof fn lemma_best_eligible_is_max(s: Seq<SupportedConfig>, src_channels: u16)
    ensures
        spec_best_eligible(s, src_channels) matches Option::Some(b) ==> config_eligible(
            b,
            src_channels,
        ) && forall|i: int|
            0 <= i < s.len() && config_eligible(#[trigger] s[i], src_channels)
                ==> s[i].max_sample_rate <= b.max_sample_rate,
        spec_best_eligible(s, src_channels) is None ==> forall|i: int|
            0 <= i < s.len() ==> !config_eligible(#[trigger] s[i], src_channels),
    decreases s.len(),
{
    if s.len() > 0 {
        lemma_best_eligible_is_max(s.drop_last(), src_channels);
        assert forall|i: int| 0 <= i < s.len() - 1 implies s[i] == s.drop_last()[i] by {}
    }
}

} // verus!
