use self_recorder_decoder::page::Page;
use self_recorder_decoder::reconstruct::reconstruct_samples;

fn page(
    timestamp: u64,
    base_interval_ms: u32,
    interleave_p: u32,
    interleave_t: u32,
    fp_len: usize,
    ft_len: usize,
) -> Page {
    Page {
        this_block_id: 0,
        prev_block_id: 0,
        timestamp,
        base_interval_ms,
        interleave_p,
        interleave_t,
        data_crc32: 0,
        consistent: true,
        fp_len,
        ft_len,
    }
}

/// Unit ratios and N records per channel yield exactly N samples with tick
/// indices 0..N-1 and wall times timestamp + i * base_interval_ms.
#[test]
fn unit_ratios_one_sample_per_record() {
    let p = page(1000, 250, 1, 1, 4, 4);
    let samples = reconstruct_samples(&p);
    assert_eq!(samples.len(), 4);
    for (i, s) in samples.iter().enumerate() {
        assert_eq!(s.tick, i as u32);
        assert_eq!(s.wall_time_ms, 1000 + i as u64 * 250);
        assert_eq!(s.fp_index, Some(i));
        assert_eq!(s.ft_index, Some(i));
    }
}

/// With ratio [2, 1] the pressure cursor advances only on even ticks.
#[test]
fn two_one_ratio_pressure_advances_on_even_ticks() {
    let p = page(0, 10, 2, 1, 3, 10);
    let samples = reconstruct_samples(&p);
    // pressure exhausts at tick 3 * 2 = 6, temperature at tick 10.
    assert_eq!(samples.len(), 6);
    let fp: Vec<Option<usize>> = samples.iter().map(|s| s.fp_index).collect();
    assert_eq!(fp, vec![Some(0), Some(0), Some(1), Some(1), Some(2), Some(2)]);
    let ticks: Vec<u32> = samples.iter().map(|s| s.tick).collect();
    assert_eq!(ticks, vec![0, 1, 2, 3, 4, 5]);
}

/// Reconstruction stops the moment either channel is exhausted, even if the
/// other channel has records left.
#[test]
fn two_one_ratio_stops_at_first_exhausted_channel() {
    let p = page(0, 10, 2, 1, 5, 3);
    let samples = reconstruct_samples(&p);
    // temperature exhausts at tick 3, far before pressure's tick 10.
    assert_eq!(samples.len(), 3);
    assert_eq!(samples[2].tick, 2);
    assert_eq!(samples[2].fp_index, Some(1));
    assert_eq!(samples[2].ft_index, Some(2));
}

/// Ticks that move neither cursor emit no sample; the carried values are
/// reported again only when one channel has fresh data.
#[test]
fn skipped_ticks_between_divisors() {
    let p = page(500, 7, 3, 2, 2, 3);
    let samples = reconstruct_samples(&p);
    // both channels exhaust at tick 6; ticks 1 and 5 move no cursor.
    let ticks: Vec<u32> = samples.iter().map(|s| s.tick).collect();
    assert_eq!(ticks, vec![0, 2, 3, 4]);
    let fp: Vec<Option<usize>> = samples.iter().map(|s| s.fp_index).collect();
    assert_eq!(fp, vec![Some(0), Some(0), Some(1), Some(1)]);
    let ft: Vec<Option<usize>> = samples.iter().map(|s| s.ft_index).collect();
    assert_eq!(ft, vec![Some(0), Some(1), Some(1), Some(2)]);
    let walls: Vec<u64> = samples.iter().map(|s| s.wall_time_ms).collect();
    assert_eq!(walls, vec![500, 514, 521, 528]);
}

/// An empty channel reads as "no record at all" and exhausts at its first
/// due tick.
#[test]
fn empty_pressure_channel_reports_none() {
    let p = page(0, 1, 2, 1, 0, 5);
    let samples = reconstruct_samples(&p);
    // the empty pressure channel exhausts at tick 2.
    assert_eq!(samples.len(), 2);
    assert_eq!(samples[0].fp_index, None);
    assert_eq!(samples[0].ft_index, Some(0));
    assert_eq!(samples[1].tick, 1);
    assert_eq!(samples[1].fp_index, None);
    assert_eq!(samples[1].ft_index, Some(1));
}

/// A single record per channel yields only the initial tick-zero sample.
#[test]
fn single_record_yields_only_tick_zero() {
    let p = page(42, 9, 1, 1, 1, 1);
    let samples = reconstruct_samples(&p);
    assert_eq!(samples.len(), 1);
    assert_eq!(samples[0].tick, 0);
    assert_eq!(samples[0].wall_time_ms, 42);
    assert_eq!(samples[0].fp_index, Some(0));
    assert_eq!(samples[0].ft_index, Some(0));
}
