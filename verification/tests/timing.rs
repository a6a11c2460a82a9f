use bytes::Bytes;
use tributary::generation::PassMode;
use tributary::protocol::{Frame, MsgType};
use tributary::timing::{
    check_summarize, check_summarize_steps, percentile, summarize, summarize_values, times_of, timing_csv,
    timing_summary, Stage, StepTiming, Summary, TimingLog,
};

fn step(n: u128) -> StepTiming {
    StepTiming {
        local_us: n,
        serialize_us: n + 1,
        roundtrip_us: n + 2,
        worker_us: n + 3,
        network_us: n + 4,
        deserialize_us: n + 5,
        sample_us: n + 6,
        activation_bytes: 6144,
        logits_bytes: 256512,
    }
}

#[test]
fn percentiles_are_by_nearest_rank() {
    let ten: Vec<u128> = (1..=10).collect();
    assert_eq!(percentile(&ten, 50), 5);
    assert_eq!(percentile(&ten, 90), 9);
    assert_eq!(percentile(&ten, 91), 10);
    assert_eq!(percentile(&ten, 100), 10);
    assert_eq!(percentile(&ten, 1), 1);
    assert_eq!(percentile(&ten, 0), 1);
    assert_eq!(percentile(&[7], 50), 7);
    assert_eq!(percentile(&[1, 2, 3], 50), 2);
    assert_eq!(percentile(&[1, 2], 50), 1);
}

#[test]
fn values_are_summarized() {
    assert_eq!(summarize_values(&vec![]), None);
    assert_eq!(
        summarize_values(&vec![60, 10, 20, 41]),
        Some(Summary { mean: 32, p50: 20, p90: 60, max: 60 })
    );
    assert_eq!(summarize_values(&vec![20, 41, 60, 10]), summarize_values(&vec![60, 10, 20, 41]));
    let s = summarize_values(&vec![5, 1, 4, 1, 3]).unwrap();
    assert!(s.p50 <= s.p90 && s.p90 <= s.max && s.mean <= s.max);
}

#[test]
fn a_row_has_its_columns() {
    let mut out = String::from("|");
    summarize(&mut out, "local", &vec![60, 10, 20, 41]);
    assert_eq!(out, "|local              32       20       60       60\n");
    summarize(&mut out, "none", &vec![]);
    assert_eq!(out, "|local              32       20       60       60\n");
}

#[test]
fn sums_that_do_not_fit_are_found() {
    assert!(check_summarize(&vec![u128::MAX]));
    assert!(!check_summarize(&vec![u128::MAX, 1]));
    assert!(check_summarize_steps(&vec![step(1), step(2)]));
    let mut long = step(0);
    long.sample_us = u128::MAX;
    assert!(check_summarize_steps(&vec![long]));
    assert!(!check_summarize_steps(&vec![long, step(2)]));
}

#[test]
fn stages_have_their_times() {
    let steps = vec![step(10), step(20)];
    assert_eq!(times_of(&steps, Stage::Local), vec![10, 20]);
    assert_eq!(times_of(&steps, Stage::Serialize), vec![11, 21]);
    assert_eq!(times_of(&steps, Stage::Roundtrip), vec![12, 22]);
    assert_eq!(times_of(&steps, Stage::Worker), vec![13, 23]);
    assert_eq!(times_of(&steps, Stage::Network), vec![14, 24]);
    assert_eq!(times_of(&steps, Stage::Deserialize), vec![15, 25]);
    assert_eq!(times_of(&steps, Stage::Sample), vec![16, 26]);
}

#[test]
fn the_summary_is_a_table() {
    let text = timing_summary(&step(100), &vec![step(30), step(10)]);
    let expected = [
        "",
        "per-token timing over 2 decode tokens (\u{b5}s)",
        "stage            mean      p50      p90      max",
        "local              20       10       30       30",
        "serialize          21       11       31       31",
        "network            24       14       34       34",
        "worker             23       13       33       33",
        "deserialize        25       15       35       35",
        "sample             26       16       36       36",
        "roundtrip          22       12       32       32",
        "prefill: local=100 net=104 worker=103 sample=106 | activation=6144B logits=256512B",
        "",
    ];
    assert_eq!(text, expected.join("\n"));
}

#[test]
fn the_summary_of_no_steps_has_no_rows() {
    let text = timing_summary(&StepTiming::default(), &vec![]);
    let expected = [
        "",
        "per-token timing over 0 decode tokens (\u{b5}s)",
        "stage            mean      p50      p90      max",
        "prefill: local=0 net=0 worker=0 sample=0 | activation=0B logits=0B",
        "",
    ];
    assert_eq!(text, expected.join("\n"));
}

#[test]
fn the_listing_is_csv() {
    let text = timing_csv(&step(100), &vec![step(10), step(20)]);
    let expected = [
        "token,phase,local_us,serialize_us,network_us,worker_us,roundtrip_us,deserialize_us,sample_us,activation_bytes,logits_bytes",
        "0,prefill,100,101,104,103,102,105,106,6144,256512",
        "1,decode,10,11,14,13,12,15,16,6144,256512",
        "2,decode,20,21,24,23,22,25,26,6144,256512",
        "",
    ];
    assert_eq!(text, expected.join("\n"));
    for line in text.lines() {
        assert_eq!(line.matches(',').count(), 10);
    }
    assert_eq!(text.lines().count(), 4);
}

#[test]
fn an_exchange_is_measured() {
    let mut sent = Frame::control(MsgType::DecodeStep, 3);
    sent.payload = Bytes::from(vec![0; 6144]);
    let mut reply = Frame::control(MsgType::Logits, 3);
    reply.payload = Bytes::from(vec![0; 12]);
    reply.worker_compute_us = 22600;
    let mut t = StepTiming::packed(5, &sent);
    assert_eq!(t, StepTiming { serialize_us: 5, activation_bytes: 6144, ..StepTiming::default() });
    t.replied(23400, &reply);
    assert_eq!((t.roundtrip_us, t.worker_us, t.network_us, t.logits_bytes), (23400, 22600, 800, 12));
    assert_eq!((t.serialize_us, t.activation_bytes), (5, 6144));
    t.replied(100, &reply);
    assert_eq!((t.worker_us, t.network_us), (22600, 0));
}

#[test]
fn a_log_tells_prefill_from_decode() {
    let mut log = TimingLog::new();
    assert_eq!(log.prefill, StepTiming::default());
    assert!(log.steps.is_empty());
    log.record(PassMode::Prefill, step(1));
    log.record(PassMode::Decode, step(2));
    log.record(PassMode::Decode, step(3));
    assert_eq!(log.prefill, step(1));
    assert_eq!(log.steps, vec![step(2), step(3)]);
}
