use audio_limiter::format::{agree, FormatRange, StreamFormat, PREFERRED_SAMPLE_RATE};

fn range(channels: u16, min_rate: u32, max_rate: u32) -> FormatRange {
    FormatRange { channels, min_rate, max_rate, float_samples: true }
}

#[test]
fn preferred_rate_is_48_khz() {
    assert_eq!(PREFERRED_SAMPLE_RATE, 48000);
}

#[test]
fn agree_picks_preferred_rate_inside_both_ranges() {
    let a = range(2, 8000, 96000);
    let b = range(2, 44100, 192000);
    assert_eq!(agree(&a, &b), Some(StreamFormat { sample_rate: 48000, channels: 2 }));
}

#[test]
fn agree_picks_highest_common_rate_below_preferred() {
    let a = range(1, 8000, 44100);
    let b = range(1, 22050, 96000);
    assert_eq!(agree(&a, &b), Some(StreamFormat { sample_rate: 44100, channels: 1 }));
}

#[test]
fn agree_picks_lowest_common_rate_above_preferred() {
    let a = range(2, 88200, 192000);
    let b = range(2, 96000, 96000);
    assert_eq!(agree(&a, &b), Some(StreamFormat { sample_rate: 96000, channels: 2 }));
}

#[test]
fn agree_rejects_disjoint_rates() {
    let a = range(2, 44100, 44100);
    let b = range(2, 48000, 48000);
    assert_eq!(agree(&a, &b), None);
    assert_eq!(agree(&b, &a), None);
}

#[test]
fn agree_rejects_different_channel_counts() {
    let a = range(1, 48000, 48000);
    let b = range(2, 48000, 48000);
    assert_eq!(agree(&a, &b), None);
}

#[test]
fn agree_rejects_zero_channels() {
    let a = range(0, 48000, 48000);
    assert_eq!(agree(&a, &a), None);
}

#[test]
fn agree_rejects_ranges_of_other_sample_kinds() {
    let floats = range(2, 48000, 48000);
    let integers = FormatRange { channels: 2, min_rate: 48000, max_rate: 48000, float_samples: false };
    assert_eq!(agree(&floats, &integers), None);
    assert_eq!(agree(&integers, &floats), None);
    assert_eq!(agree(&integers, &integers), None);
}

#[test]
fn agree_never_settles_on_rate_zero() {
    let from_zero = range(2, 0, 10);
    assert_eq!(agree(&from_zero, &from_zero), Some(StreamFormat { sample_rate: 10, channels: 2 }));
    let only_zero = range(2, 0, 0);
    assert_eq!(agree(&only_zero, &only_zero), None);
}

#[test]
fn agree_rejects_an_empty_range() {
    let empty = range(2, 48000, 44100);
    let wide = range(2, 1, 192000);
    assert_eq!(agree(&empty, &wide), None);
}

#[test]
fn accepts_checks_channels_rate_and_sample_kind() {
    let r = range(2, 44100, 48000);
    assert!(r.accepts(&StreamFormat { sample_rate: 44100, channels: 2 }));
    assert!(r.accepts(&StreamFormat { sample_rate: 48000, channels: 2 }));
    assert!(!r.accepts(&StreamFormat { sample_rate: 48001, channels: 2 }));
    assert!(!r.accepts(&StreamFormat { sample_rate: 44099, channels: 2 }));
    assert!(!r.accepts(&StreamFormat { sample_rate: 48000, channels: 1 }));
    let integers = FormatRange { float_samples: false, ..r };
    assert!(!integers.accepts(&StreamFormat { sample_rate: 48000, channels: 2 }));
}

#[test]
fn agreed_format_is_accepted_by_both_ranges() {
    let a = range(2, 8000, 44100);
    let b = range(2, 11025, 96000);
    let f = agree(&a, &b).unwrap();
    assert!(a.accepts(&f));
    assert!(b.accepts(&f));
    assert!(f.channels > 0 && f.sample_rate > 0);
}
