use sfy::welch::{Segments, NOVERLAP, NSEG};

/// Duration in seconds covered by the segments at sample rate `fs`.
fn length(s: &Segments, fs: f32) -> f32 {
    s.covered() as f32 / fs
}

#[test]
fn test_length() {
    let w = Segments::new();
    assert_eq!(length(&w, 26.), 0.0);

    let mut w = Segments::new();
    for _ in 0..4096 {
        w.push();
    }
    assert!((length(&w, 26.) - 157.53847).abs() <= f32::EPSILON);

    for _ in 0..4096 {
        w.push();
    }
    assert!((length(&w, 26.) - 2.0 * 157.53847).abs() <= f32::EPSILON);

    for _ in 0..10 {
        for _ in 0..4096 {
            w.push();
        }
    }
    assert!((length(&w, 26.) - 1890.46153).abs() <= f32::EPSILON);
}

#[test]
fn test_overlap() {
    let mut w = Segments::new();

    let big_n = 26 * 20 * 60; // 20 minutes
    let mut n = 0;

    for i in 0..big_n {
        let s = w.push();
        n += 1;

        if s {
            assert_eq!(w.len(), NOVERLAP);
        }

        // first segment, no overlap
        if i < (NSEG - 1) {
            assert!(!s);
        } else if n == NSEG {
            assert!(s); // first segment
            n = 0;
        } else if n % (NSEG - NOVERLAP) == 0 {
            assert!(s); // new segment
            n = 0;
        } else {
            assert!(!s);
        }
    }

    let t = 20.0 * 60.0 - (w.len() - NOVERLAP) as f32 / 26.;
    assert!((length(&w, 26.) - t).abs() <= f32::EPSILON);
}

#[test]
fn segment_counts() {
    let mut w = Segments::new();
    for _ in 0..NSEG {
        w.push();
    }
    assert_eq!(w.nseg(), 1);
    assert_eq!(w.covered(), NSEG as u64);
    for _ in 0..(NSEG - NOVERLAP) {
        w.push();
    }
    assert_eq!(w.nseg(), 2);
    assert_eq!(w.covered(), (2 * NSEG - NOVERLAP) as u64);
    w.reset();
    assert_eq!(w.nseg(), 0);
    assert_eq!(w.len(), 0);
}
