use sfy::gps::{fix_counts, Sample};

fn sample(sec: u8, nano: i32) -> Sample {
    Sample {
        year: 2024,
        month: 10,
        day: 29,
        hour: 12,
        minute: 33,
        sec,
        nano,
        time_acc: 20,
        lon: 103_000_000,
        lat: 600_000_000,
        msl: 12_000,
        hor_acc: 1_500,
        vert_acc: 2_500,
        velN: 10,
        velE: -20,
        velD: 3,
        sAcc: 50,
        fix: 3,
        soln: 0,
    }
}

#[test]
fn sample_timestamp() {
    assert_eq!(sample(39, 250_000_000).timestamp(), Some(1730205219250));
    // a negative nanosecond is borrowed from the second
    assert_eq!(sample(39, -500_000_000).timestamp(), Some(1730205218500));

    let mut bad = sample(39, 0);
    bad.month = 13;
    assert_eq!(bad.timestamp(), None);
    let mut bad = sample(39, 0);
    bad.day = 0;
    assert_eq!(bad.timestamp(), None);
}

#[test]
fn fix_histogram() {
    let mut samples = vec![sample(1, 0), sample(2, 0), sample(3, 0)];
    samples[1].fix = 2;
    samples[2].soln = 2;
    let (fix, soln) = fix_counts(&samples);
    assert_eq!(fix, [0, 0, 1, 2, 0, 0, 0, 0]);
    assert_eq!(soln, [2, 0, 1, 0, 0, 0, 0, 0]);
}
