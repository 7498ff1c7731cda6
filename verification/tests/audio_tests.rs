use voice_service::audio::{
    detect_silences, frame_samples, generate_vst_path, get_libritts_name, get_system_time, duration_millis,
    keep_unmarked, segment_in_bounds, silence_removed_samples, voice_code_path,
};

#[test]
fn libritts_name_of_an_episode_path() {
    assert_eq!(get_libritts_name("a/b/c/d.wav".to_string()), "a/b/c/a_b_c_d.wav");
    assert_eq!(get_libritts_name("x/y/z/w/extra".to_string()), "x/y/z/x_y_z_w");
}

#[test]
fn vst_path_of_a_target() {
    assert_eq!(generate_vst_path(&"abc".to_string()), "VST/custom_test/abc_gen.wav");
}

#[test]
fn voice_code_path_uses_the_folder_or_the_file() {
    assert_eq!(voice_code_path(&"Names/folder/123.wav".to_string()), "Names/folder/folder.csv");
    assert_eq!(voice_code_path(&"Names/Temp/abc.wav".to_string()), "Names/Temp/abc.wav.csv");
}

#[test]
fn silences_are_long_quiet_runs() {
    let raw = vec![5, 0, 0, 0, 0, 5, 0, 5, 0, 0, 0];
    assert_eq!(detect_silences(&raw, 1, 2), vec![(1, 4)]);
    assert_eq!(detect_silences(&raw, 1, 1), vec![(1, 4), (8, 10)]);
    assert_eq!(detect_silences(&raw, 6, 100), Vec::<(usize, usize)>::new());
    assert_eq!(detect_silences(&raw, 6, 5), vec![(0, 10)]);
    assert_eq!(detect_silences(&vec![-3, 2, -1, 9], 4, 1), vec![(0, 2)]);
}

#[test]
fn silences_come_in_order_and_are_quiet() {
    let raw: Vec<i32> = (0..200).map(|i| if (i / 10) % 2 == 0 { 0 } else { 100 }).collect();
    let r = detect_silences(&raw, 50, 3);
    assert_eq!(r.len(), 10);
    for w in r.windows(2) {
        assert!(w[0].1 < w[1].0);
    }
    for (a, b) in r {
        for i in a..=b {
            assert!(raw[i].abs() < 50);
        }
    }
}

#[test]
fn unmarked_samples_are_kept() {
    assert_eq!(keep_unmarked(&vec![10, 11, 12, 13, 14], &vec![(1, 2)]), vec![10, 13, 14]);
    assert_eq!(keep_unmarked(&vec![10, 11, 12], &vec![]), vec![10, 11, 12]);
    assert_eq!(keep_unmarked(&vec![10, 11, 12], &vec![(0, 0), (2, 5)]), vec![11]);
}

#[test]
fn frames_repeat_each_channel_sample() {
    let s = vec![1, 2, 3, 4, 5, 6];
    assert!(segment_in_bounds(6, 0, 6, 2));
    assert!(!segment_in_bounds(3, 0, 6, 2));
    assert_eq!(frame_samples(&s, 0, 6, 2), vec![1, 1, 3, 3, 5, 5]);
    assert_eq!(frame_samples(&s, 1, 4, 3), vec![2, 2, 2]);
}

#[test]
fn silence_removal_writes_the_rest() {
    let raw = vec![1, 2, 3, 4, 5, 6];
    assert_eq!(silence_removed_samples(&raw, &vec![(2, 3)], 2), vec![1, 1, 5, 5]);
    assert_eq!(silence_removed_samples(&raw, &vec![], 2), raw);
    assert_eq!(silence_removed_samples(&raw, &vec![(0, 1)], 1), vec![3, 4, 5, 6]);
}

#[test]
fn system_time_is_after_2020() {
    let t = get_system_time().unwrap();
    assert!(t > 1_577_836_800_000);
    assert!(get_system_time().unwrap() >= t);
}

#[test]
fn every_long_quiet_run_is_reported() {
    let raw: Vec<i32> = (0..300i32).map(|i| if (i * 7919) % 13 < 9 { 1 } else { 50 }).collect();
    let below = 10u64;
    for min_gap in 0..6u64 {
        let r = detect_silences(&raw, below, min_gap);
        let quiet = |k: usize| (raw[k].abs() as u64) < below;
        let mut expected = Vec::new();
        let mut k = 0;
        while k < raw.len() {
            if quiet(k) {
                let s = k;
                while k + 1 < raw.len() && quiet(k + 1) {
                    k += 1;
                }
                if s < k && (k - s) as u64 > min_gap {
                    expected.push((s, k));
                }
            }
            k += 1;
        }
        assert_eq!(r, expected);
    }
}

#[test]
fn milliseconds_of_a_duration() {
    assert_eq!(duration_millis(0, 0), 0);
    assert_eq!(duration_millis(2, 999_999), 2000);
    assert_eq!(duration_millis(2, 1_000_000), 2001);
    assert_eq!(duration_millis(u64::MAX, 999_999_999), std::time::Duration::new(u64::MAX, 999_999_999).as_millis());
    let d = std::time::Duration::new(1_700_000_000, 123_456_789);
    assert_eq!(duration_millis(d.as_secs(), d.subsec_nanos()), d.as_millis());
}
