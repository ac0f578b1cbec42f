use spark_matcher::dispatch::{identity_for_batch, plan_batches, Batch};
use spark_matcher::encode::encode_batch_ids;
use spark_matcher::limiter::Limiter;
use spark_matcher::order::{Fill, Order};
use spark_matcher::round::{decide_round, prepare_round, total_matched, BatchStatus, RoundDecision};

fn fill(buy: &str, sell: &str, amount: u128) -> Fill {
    Fill { buy_id: String::from(buy), sell_id: String::from(sell), amount }
}

fn batch_ids(b: &Batch) -> Vec<(String, String)> {
    b.fills.iter().map(|f| (f.buy_id.clone(), f.sell_id.clone())).collect()
}

#[test]
fn batches_partition_the_fill_list_in_order() {
    let fills = vec![
        fill("B1", "S1", 1),
        fill("B2", "S2", 2),
        fill("B3", "S3", 3),
        fill("B4", "S4", 4),
        fill("B5", "S5", 5),
    ];
    let batches = plan_batches(fills, 2, 2);
    assert_eq!(batches.len(), 3);
    assert_eq!(batches[0].fills.len(), 2);
    assert_eq!(batches[1].fills.len(), 2);
    assert_eq!(batches[2].fills.len(), 1);
    let flat: Vec<(String, String)> = batches.iter().flat_map(batch_ids).collect();
    let expected: Vec<(String, String)> = ["B1", "B2", "B3", "B4", "B5"]
        .iter()
        .zip(["S1", "S2", "S3", "S4", "S5"].iter())
        .map(|(b, s)| (String::from(*b), String::from(*s)))
        .collect();
    assert_eq!(flat, expected);
}

#[test]
fn empty_fill_list_gives_no_batches() {
    let batches = plan_batches(Vec::new(), 2, 2);
    assert!(batches.is_empty());
}

#[test]
fn identity_rotation_depends_on_index_alone() {
    assert_eq!(identity_for_batch(0, 2), 0);
    assert_eq!(identity_for_batch(1, 2), 1);
    assert_eq!(identity_for_batch(2, 2), 2);
    assert_eq!(identity_for_batch(3, 2), 0);
    assert_eq!(identity_for_batch(7, 2), 0);
    assert_eq!(identity_for_batch(1, 0), 0);
}

#[test]
fn batches_carry_rotated_identities() {
    let fills = vec![
        fill("B1", "S1", 1),
        fill("B2", "S2", 2),
        fill("B3", "S3", 3),
        fill("B4", "S4", 4),
    ];
    let batches = plan_batches(fills, 1, 2);
    assert_eq!(batches.len(), 4);
    assert_eq!(batches[0].identity, 0);
    assert_eq!(batches[1].identity, 1);
    assert_eq!(batches[2].identity, 2);
    assert_eq!(batches[3].identity, 0);
}

#[test]
fn limiter_never_exceeds_capacity() {
    let mut limiter = Limiter::new(3);
    let mut held: usize = 0;
    let mut max_seen: usize = 0;
    for _task in 0..10 {
        if limiter.try_acquire() {
            held += 1;
        }
        assert!(limiter.current() <= 3);
        if limiter.current() > max_seen {
            max_seen = limiter.current();
        }
    }
    assert_eq!(held, 3);
    assert_eq!(max_seen, 3);
    limiter.release();
    assert_eq!(limiter.current(), 2);
    assert!(limiter.try_acquire());
    assert!(!limiter.try_acquire());
}

#[test]
fn round_commits_only_when_every_batch_confirmed() {
    let all_ok = vec![BatchStatus::Confirmed, BatchStatus::Confirmed];
    match decide_round(&all_ok) {
        RoundDecision::Commit => {}
        RoundDecision::Abort(_) => panic!("a fully confirmed round must commit"),
    }
}

#[test]
fn any_failed_batch_aborts_the_round_with_the_first_error() {
    let results = vec![
        BatchStatus::Confirmed,
        BatchStatus::Failed(String::from("sequence gap")),
        BatchStatus::Failed(String::from("timeout")),
    ];
    match decide_round(&results) {
        RoundDecision::Commit => panic!("a failed batch must abort the round"),
        RoundDecision::Abort(msg) => assert_eq!(msg, "sequence gap"),
    }
}

#[test]
fn matched_total_is_the_sum_of_fill_amounts() {
    let fills = vec![fill("B1", "S1", 2), fill("B2", "S2", 3)];
    assert_eq!(total_matched(&fills), Some(5));
    assert_eq!(total_matched(&Vec::new()), Some(0));
}

#[test]
fn matched_total_reports_overflow() {
    let fills = vec![fill("B1", "S1", u128::MAX), fill("B2", "S2", 1)];
    assert_eq!(total_matched(&fills), None);
}

#[test]
fn prepare_round_matches_totals_and_batches_one_snapshot() {
    let buys = vec![
        Order { id: String::from("B1"), price: 100, amount: 5 },
        Order { id: String::from("B2"), price: 90, amount: 3 },
    ];
    let sells = vec![
        Order { id: String::from("S1"), price: 95, amount: 4 },
        Order { id: String::from("S2"), price: 101, amount: 2 },
    ];
    let prep = prepare_round(buys, sells, 2, 2);
    assert_eq!(prep.fill_count, 1);
    assert_eq!(prep.total_amount, Some(4));
    assert_eq!(prep.resting_buy_count, 2);
    assert_eq!(prep.resting_sell_count, 1);
    assert_eq!(prep.batches.len(), 1);
    assert_eq!(prep.batches[0].identity, 0);
    assert_eq!(prep.batches[0].fills[0].buy_id, "B1");
    assert_eq!(prep.batches[0].fills[0].sell_id, "S1");
    assert_eq!(prep.batches[0].fills[0].amount, 4);
}

#[test]
fn encoding_interleaves_buy_and_sell_words() {
    let buy_hex: String = (0u8..32).map(|i| format!("{:02x}", i)).collect();
    let sell_hex: String = (0u8..32).map(|i| format!("{:02X}", 255 - i)).collect();
    let batch = vec![Fill {
        buy_id: format!("0x{}", buy_hex),
        sell_id: sell_hex,
        amount: 1,
    }];
    let words = encode_batch_ids(&batch).expect("both identifiers are well-formed");
    assert_eq!(words.len(), 2);
    for (k, byte) in words[0].iter().enumerate() {
        assert_eq!(*byte, k as u8);
    }
    for (k, byte) in words[1].iter().enumerate() {
        assert_eq!(*byte, 255 - k as u8);
    }
}

#[test]
fn zero_capacity_limiter_hands_out_nothing() {
    let mut limiter = Limiter::new(0);
    assert!(!limiter.try_acquire());
    assert_eq!(limiter.current(), 0);
}

#[test]
fn one_batch_when_the_window_exceeds_the_fill_count() {
    let fills = vec![fill("B1", "S1", 1), fill("B2", "S2", 2), fill("B3", "S3", 3)];
    let batches = plan_batches(fills, 10, 2);
    assert_eq!(batches.len(), 1);
    assert_eq!(batches[0].fills.len(), 3);
    assert_eq!(batches[0].identity, 0);
}

#[test]
fn uppercase_prefix_is_not_stripped() {
    let hex: String = (0u8..32).map(|i| format!("{:02x}", i)).collect();
    let batch = vec![fill(format!("0X{}", hex).as_str(), hex.as_str(), 1)];
    assert_eq!(encode_batch_ids(&batch), None);
}

#[test]
fn malformed_identifier_refuses_the_batch() {
    let good: String = (0u8..32).map(|i| format!("{:02x}", i)).collect();
    let batch = vec![fill("not-hex", good.as_str(), 1)];
    assert_eq!(encode_batch_ids(&batch), None);
    let short = vec![fill("0xabcd", good.as_str(), 1)];
    assert_eq!(encode_batch_ids(&short), None);
}
