//! Dream cycle settings and embedding identities.

use memory_engine::binary64::Binary64;
use memory_engine::error::{ConflictError, MemoryError};
use memory_engine::types::cognitive::{DreamCycleConfig, EmbeddingFingerprint};
use memory_engine::types::facts::FactType;

fn num(x: f64) -> Binary64 {
    Binary64::from_bits(x.to_bits())
}

fn value(x: Option<Binary64>) -> f64 {
    f64::from_bits(x.unwrap().to_bits())
}

fn rule_of(err: MemoryError) -> String {
    match err {
        MemoryError::Conflict(ConflictError::PolicyParameter { rule, .. }) => rule,
        other => panic!("unexpected error {other:?}"),
    }
}

#[test]
fn dream_cycle_config_default_has_expected_ratios() {
    let cfg = DreamCycleConfig::default();
    assert!(
        (value(cfg.compression_ratios.get(FactType::Episodic)) - 0.2).abs() < f64::EPSILON,
        "Episodic should be 0.2"
    );
    assert!(
        (value(cfg.compression_ratios.get(FactType::Semantic)) - 0.8).abs() < f64::EPSILON,
        "Semantic should be 0.8"
    );
    assert!(
        (value(cfg.compression_ratios.get(FactType::Procedural)) - 0.8).abs() < f64::EPSILON,
        "Procedural should be 0.8"
    );
    assert!(
        (value(Some(cfg.promotion_percentile)) - 0.75).abs() < f64::EPSILON,
        "promotion_percentile should be 0.75"
    );
}

#[test]
fn dream_cycle_config_validate_ok() {
    DreamCycleConfig::default().validate().unwrap();
}

#[test]
fn dream_cycle_config_validate_rejects_ratio_above_one() {
    let mut cfg = DreamCycleConfig::default();
    cfg.compression_ratios.insert(FactType::Episodic, num(1.5));
    let err = rule_of(cfg.validate().unwrap_err());
    assert!(err.contains("Episodic"), "error: {err}");
}

#[test]
fn dream_cycle_config_validate_rejects_negative_ratio() {
    let mut cfg = DreamCycleConfig::default();
    cfg.compression_ratios.insert(FactType::Semantic, num(-0.1));
    assert!(cfg.validate().is_err());
}

#[test]
fn dream_cycle_config_validate_rejects_nan_ratio() {
    let mut cfg = DreamCycleConfig::default();
    cfg.compression_ratios.insert(FactType::Procedural, num(f64::NAN));
    assert!(cfg.validate().is_err());
}

#[test]
fn dream_cycle_config_validate_rejects_bad_percentile() {
    let cfg = DreamCycleConfig { promotion_percentile: num(1.5), ..DreamCycleConfig::default() };
    assert!(cfg.validate().is_err());

    let cfg = DreamCycleConfig { promotion_percentile: num(-0.1), ..DreamCycleConfig::default() };
    assert!(cfg.validate().is_err());

    let cfg =
        DreamCycleConfig { promotion_percentile: num(f64::NAN), ..DreamCycleConfig::default() };
    assert!(cfg.validate().is_err());
}

#[test]
fn dream_cycle_config_validate_accepts_boundaries() {
    let cfg = DreamCycleConfig { promotion_percentile: num(0.0), ..DreamCycleConfig::default() };
    cfg.validate().unwrap();

    let cfg = DreamCycleConfig { promotion_percentile: num(1.0), ..DreamCycleConfig::default() };
    cfg.validate().unwrap();
}

#[test]
fn dream_cycle_error_carries_the_value() {
    let cfg = DreamCycleConfig { promotion_percentile: num(1.5), ..DreamCycleConfig::default() };
    match cfg.validate().unwrap_err() {
        MemoryError::Conflict(ConflictError::PolicyParameter { got, .. }) => {
            assert_eq!(got, num(1.5));
        }
        other => panic!("unexpected error {other:?}"),
    }
}

#[test]
fn ratio_insert_hands_back_the_old_one() {
    let mut cfg = DreamCycleConfig::default();
    assert_eq!(cfg.compression_ratios.insert(FactType::Episodic, num(0.4)), Some(num(0.2)));
    assert_eq!(cfg.compression_ratios.get(FactType::Episodic), Some(num(0.4)));
    assert_eq!(cfg.compression_ratios.get(FactType::Semantic), Some(num(0.8)));
}

#[test]
fn negative_zero_is_in_the_unit_interval() {
    assert!(num(-0.0).in_unit_interval());
    assert!(num(0.5).in_unit_interval());
    assert!(!num(f64::INFINITY).in_unit_interval());
    assert!(!num(1.0000000000000002).in_unit_interval());
    assert!(!num(-f64::MIN_POSITIVE).in_unit_interval());
}

#[test]
fn comparison_agrees_with_the_hardware() {
    let samples = [
        f64::NEG_INFINITY,
        -2.5,
        -f64::MIN_POSITIVE,
        -0.0,
        0.0,
        f64::MIN_POSITIVE,
        0.5,
        1.0,
        f64::MAX,
        f64::INFINITY,
        f64::NAN,
    ];
    for a in samples {
        assert_eq!(num(a).is_nan(), a.is_nan());
        assert_eq!(num(a).is_finite(), a.is_finite());
        assert_eq!(num(a).in_unit_interval(), (0.0..=1.0).contains(&a));
        for b in samples {
            assert_eq!(num(a).less(num(b)), a < b, "{a} < {b}");
        }
    }
}

#[test]
fn fingerprint_new_sets_float32_untruncated_defaults() {
    let fp = EmbeddingFingerprint::new("m", "p", 768);
    assert_eq!(fp.model, "m");
    assert_eq!(fp.provider, "p");
    assert_eq!(fp.dim, 768);
    assert_eq!(fp.matryoshka_base_dim, None);
    assert_eq!(fp.element_type, EmbeddingFingerprint::ELEMENT_F32);
    assert_eq!(fp.element_type, "float32");
}

#[test]
fn fingerprint_with_matryoshka_records_base_dim() {
    let fp = EmbeddingFingerprint::with_matryoshka("qwen", "tei", 512, 1024);
    assert_eq!(fp.dim, 512);
    assert_eq!(fp.matryoshka_base_dim, Some(1024));
    assert_eq!(fp.element_type, "float32");
}

#[test]
fn fingerprint_eq_requires_every_field() {
    let base = EmbeddingFingerprint::new("m", "p", 768);
    assert_eq!(base, EmbeddingFingerprint::new("m", "p", 768));
    assert_ne!(base, EmbeddingFingerprint::new("other", "p", 768));
    assert_ne!(base, EmbeddingFingerprint::new("m", "other", 768));
    assert_ne!(base, EmbeddingFingerprint::new("m", "p", 384));
    assert_ne!(base, EmbeddingFingerprint::with_matryoshka("m", "p", 768, 1024));
    let mut int8 = EmbeddingFingerprint::new("m", "p", 768);
    int8.element_type = "int8".to_string();
    assert_ne!(base, int8);
}

#[test]
fn fingerprint_hash_consistent_with_eq() {
    let mut set = std::collections::HashSet::new();
    set.insert(EmbeddingFingerprint::new("m", "p", 768));
    assert!(set.contains(&EmbeddingFingerprint::new("m", "p", 768)));
    assert!(!set.contains(&EmbeddingFingerprint::new("m", "p", 384)));
}

#[test]
fn fingerprint_match_requires_every_field() {
    let base = EmbeddingFingerprint::new("m", "p", 768);
    assert!(base.matches(&base.copied()));
    assert!(!base.matches(&EmbeddingFingerprint::new("other", "p", 768)));
    assert!(!base.matches(&EmbeddingFingerprint::new("m", "other", 768)));
    assert!(!base.matches(&EmbeddingFingerprint::new("m", "p", 384)));
    assert!(!base.matches(&EmbeddingFingerprint::with_matryoshka("m", "p", 768, 1024)));
    let mut int8 = base.copied();
    int8.element_type = "int8".to_string();
    assert!(!base.matches(&int8));
}
