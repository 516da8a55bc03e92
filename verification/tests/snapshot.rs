use dsboard::dates::date_at;
use dsboard::snapshot::{
    build_snapshot, checked_snapshot, checked_snapshot_at, data_fits, freshness, snapshot_at, stable_signature, CacheSummary, HitRate,
    ModelUsage, Snapshot, SNAPSHOT_V,
};
use dsboard::state::{BalanceInfo, DataFile, DayModelUsage};

fn sample() -> Snapshot<f64> {
    Snapshot {
        v: SNAPSHOT_V,
        generated_at: 1_754_000_000,
        provider: "deepseek".into(),
        balance: Some(BalanceInfo {
            total: 128.47,
            top_up: Some(118.0),
            granted: Some(10.47),
            currency: "CNY".into(),
            checked_at: 1_754_000_000,
        }),
        cache: CacheSummary {
            date: "2026-07-13".into(),
            hit_rate: Some(HitRate { hits: 105_402_624, total: 107_288_244 }),
            hit_tokens: 105_402_624,
            miss_tokens: 1_885_620,
        },
        models: vec![ModelUsage {
            model: "deepseek-v4-pro".into(),
            calls: 666,
            hit_tokens: 105_402_624,
            miss_tokens: 1_885_620,
            output_tokens: 352_921,
            cost: 10.4094516,
        }],
        freshness: "current",
    }
}

#[test]
fn stable_signature_ignores_volatile_fields() {
    let sig = stable_signature(&sample());

    let mut regenerated = sample();
    regenerated.generated_at += 123;
    regenerated.freshness = "cached";
    assert_eq!(stable_signature(&regenerated), sig);

    let mut changed = sample();
    changed.models[0].calls += 1;
    assert_ne!(stable_signature(&changed), sig);

    let mut refreshed = sample();
    refreshed.balance.as_mut().unwrap().checked_at += 60;
    assert_ne!(stable_signature(&refreshed), sig);
}

#[test]
fn signatures_hold_the_data() {
    let snap = sample();
    let sig = stable_signature(&snap);
    assert_eq!(sig.provider, snap.provider);
    assert_eq!(sig.balance, snap.balance);
    assert_eq!(sig.cache, snap.cache);
    assert_eq!(sig.models, snap.models);
}

fn row(model: &str, calls: u64, hit: u64, miss: u64) -> DayModelUsage<f64> {
    DayModelUsage {
        model: model.to_string(),
        calls,
        hit_tokens: hit,
        miss_tokens: miss,
        output_tokens: 1,
        cost: 0.25,
    }
}

const NOW: i64 = 1_754_000_000;

#[test]
fn snapshots_show_the_busiest_models_of_today() {
    let mut data: DataFile<f64> = DataFile::new();
    let today = date_at(NOW, 480);
    for (model, calls) in [("a", 1), ("b", 5), ("c", 5), ("d", 9), ("e", 3)] {
        data.upsert_daily(&today, row(model, calls, 30, 10));
    }
    data.upsert_daily("2025-07-30", row("z", 99, 1000, 1000));
    let snap = snapshot_at(&data, "deepseek", 480, NOW);
    let models: Vec<&str> = snap.models.iter().map(|m| m.model.as_str()).collect();
    assert_eq!(models, vec!["d", "b", "c", "e"]);
    assert_eq!(snap.cache.hit_tokens, 150);
    assert_eq!(snap.cache.miss_tokens, 50);
    assert_eq!(snap.cache.hit_rate, Some(HitRate { hits: 150, total: 200 }));
    assert_eq!(snap.cache.date, "2025-08-01");
    assert_eq!(snap.v, 1);
    assert_eq!(snap.generated_at, NOW);
    assert_eq!(snap.models[0].cost, 0.25);
    assert_eq!(snap.freshness, "unavailable");
}

#[test]
fn snapshots_of_a_day_without_calls() {
    let mut data: DataFile<f64> = DataFile::new();
    data.last_import_at = Some(NOW - 61);
    let snap = snapshot_at(&data, "p", 0, NOW);
    assert_eq!(snap.cache.hit_rate, None);
    assert_eq!(snap.models.len(), 0);
    assert_eq!(snap.freshness, "cached");
    assert_eq!(snap.balance, None);
    assert_eq!(snap.provider, "p");
}

#[test]
fn signatures_stay_within_a_day() {
    let mut data: DataFile<f64> = DataFile::new();
    data.upsert_daily(&date_at(NOW, 0), row("a", 1, 2, 3));
    data.balance = sample().balance;
    let early = snapshot_at(&data, "p", 0, NOW);
    let late = snapshot_at(&data, "p", 0, NOW + 600);
    assert_ne!(early, late);
    assert_eq!(stable_signature(&early), stable_signature(&late));
    let tomorrow = snapshot_at(&data, "p", 0, NOW + 86_400);
    assert_ne!(stable_signature(&early), stable_signature(&tomorrow));
}

#[test]
fn freshness_by_age() {
    assert_eq!(freshness(Some(100), None, 160), "current");
    assert_eq!(freshness(Some(100), None, 161), "cached");
    assert_eq!(freshness(Some(0), Some(101), 161), "current");
    assert_eq!(freshness(None, Some(0), 161), "cached");
    assert_eq!(freshness(None, None, 161), "unavailable");
    assert_eq!(freshness(Some(i64::MIN), None, i64::MAX), "cached");
    assert_eq!(freshness(Some(200), None, 100), "current");
}

#[test]
fn token_sums_within_64_bits() {
    let mut data: DataFile<f64> = DataFile::new();
    data.upsert_daily("2025-08-01", row("a", 1, u64::MAX - 1, 1));
    assert!(data_fits(&data));
    data.upsert_daily("2025-08-02", row("a", 1, u64::MAX, 1));
    assert!(!data_fits(&data));
}

#[test]
fn only_the_day_that_is_shown_has_to_add_up() {
    let mut data: DataFile<f64> = DataFile::new();
    data.upsert_daily("2025-07-30", row("a", 1, u64::MAX, 1));
    assert!(!data_fits(&data));
    assert_eq!(
        checked_snapshot_at(&data, "p", 480, NOW),
        Some(snapshot_at(&data, "p", 480, NOW))
    );
    assert_eq!(checked_snapshot_at(&data, "p", 480, NOW - 2 * 86_400), None);
    let snap = checked_snapshot(&data, "p", 480).unwrap();
    assert_eq!(snap.cache.date, date_at(snap.generated_at, 480));
}

#[test]
fn dates_roll_over_into_the_signature() {
    let data: DataFile<f64> = DataFile::new();
    let sig = |now: i64| stable_signature(&snapshot_at(&data, "p", 0, now));
    assert_eq!(sig(86_399), sig(0));
    assert_ne!(sig(86_400), sig(86_399));
    assert_ne!(sig(-1), sig(0));
}

#[test]
fn snapshots_of_now() {
    let data: DataFile<f64> = DataFile::new();
    let snap = build_snapshot(&data, "deepseek", 0);
    assert_eq!(snap.cache.date, date_at(snap.generated_at, 0));
    assert!(snap.generated_at > 1_700_000_000);
}

#[test]
fn freshness_fades() {
    let ages: Vec<&str> = (0..4).map(|i| freshness(Some(0), None, 20 + 20 * i)).collect();
    assert_eq!(ages, vec!["current", "current", "current", "cached"]);
}
