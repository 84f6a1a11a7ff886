//! Insights, promotion, and the identity of an embedding space.

use crate::binary64::Binary64;
use crate::error::{ConflictError, MemoryError};
use crate::text::same_text;
use crate::types::facts::{FactId, FactType};
use vstd::prelude::*;

verus! {

/// The place of a lineage record in the store.
pub type LineageId = i64;

/// An observation worth keeping, made by a model during a conversation.
#[derive(Debug, Clone, PartialEq)]
pub struct Insight {
    pub content: String,
    pub fact_type: FactType,
    /// A hint in `[0, 1]`.
    pub importance: Option<Binary64>,
    pub metadata: Option<serde_json::Value>,
    /// The scope path; `None` is the root.
    pub scope: Option<String>,
}

/// A ratio for some of the fact types.
#[derive(Debug, Clone, Copy, PartialEq, Eq, Structural)]
pub struct CompressionRatios {
    pub episodic: Option<Binary64>,
    pub semantic: Option<Binary64>,
    pub procedural: Option<Binary64>,
}

impl CompressionRatios {
    /// The ratio of a fact type, if it has one.
    pub open spec fn ratio(self, fact_type: FactType) -> Option<Binary64> {
        match fact_type {
            FactType::Episodic => self.episodic,
            FactType::Semantic => self.semantic,
            FactType::Procedural => self.procedural,
        }
    }

    /// The ratio of a fact type, if it has one.
    pub fn get(&self, fact_type: FactType) -> (r: Option<Binary64>)
        ensures
            r == self.ratio(fact_type),
    {
        match fact_type {
            FactType::Episodic => self.episodic,
            FactType::Semantic => self.semantic,
            FactType::Procedural => self.procedural,
        }
    }

    /// Sets the ratio of a fact type and returns the one it had.
    pub fn insert(&mut self, fact_type: FactType, ratio: Binary64) -> (r: Option<Binary64>)
        ensures
            r == old(self).ratio(fact_type),
            final(self).ratio(fact_type) == Some(ratio),
            forall|other: FactType|
                other != fact_type ==> #[trigger] final(self).ratio(other) == old(self).ratio(
                    other,
                ),
    {
        let before = self.get(fact_type);
        match fact_type {
            FactType::Episodic => {
                self.episodic = Some(ratio);
            },
            FactType::Semantic => {
                self.semantic = Some(ratio);
            },
            FactType::Procedural => {
                self.procedural = Some(ratio);
            },
        }
        before
    }
}

/// How hard a dream cycle compresses, and what it promotes.
#[derive(Debug, Clone, Copy, PartialEq, Eq, Structural)]
pub struct DreamCycleConfig {
    /// The fraction of facts to keep, by type: 0 compresses all, 1 keeps all.
    pub compression_ratios: CompressionRatios,
    /// The importance percentile above which a fact may be promoted.
    pub promotion_percentile: Binary64,
}

/// Bit pattern of 0.2.
pub const ONE_FIFTH_BITS: u64 = 0x3FC9_9999_9999_999A;

/// Bit pattern of 0.8.
pub const FOUR_FIFTHS_BITS: u64 = 0x3FE9_9999_9999_999A;

/// Bit pattern of 0.75.
pub const THREE_QUARTERS_BITS: u64 = 0x3FE8_0000_0000_0000;

impl Default for DreamCycleConfig {
    fn default() -> (r: DreamCycleConfig)
        ensures
            r.compression_ratios.ratio(FactType::Episodic) == Some(
                (Binary64 { bits: ONE_FIFTH_BITS }),
            ),
            r.compression_ratios.ratio(FactType::Semantic) == Some(
                (Binary64 { bits: FOUR_FIFTHS_BITS }),
            ),
            r.compression_ratios.ratio(FactType::Procedural) == Some(
                (Binary64 { bits: FOUR_FIFTHS_BITS }),
            ),
            r.promotion_percentile == (Binary64 { bits: THREE_QUARTERS_BITS }),
            r.in_range(),
    {
        DreamCycleConfig {
            compression_ratios: CompressionRatios {
                episodic: Some(Binary64 { bits: ONE_FIFTH_BITS }),
                semantic: Some(Binary64 { bits: FOUR_FIFTHS_BITS }),
                procedural: Some(Binary64 { bits: FOUR_FIFTHS_BITS }),
            },
            promotion_percentile: Binary64 { bits: THREE_QUARTERS_BITS },
        }
    }
}

/// The name of a fact type.
pub open spec fn name_of_type(fact_type: FactType) -> Seq<char> {
    match fact_type {
        FactType::Episodic => "Episodic"@,
        FactType::Semantic => "Semantic"@,
        FactType::Procedural => "Procedural"@,
    }
}

fn type_label(fact_type: FactType) -> (r: &'static str)
    ensures
        r@ == name_of_type(fact_type),
{
    match fact_type {
        FactType::Episodic => "Episodic",
        FactType::Semantic => "Semantic",
        FactType::Procedural => "Procedural",
    }
}

/// The rule that the ratio of a fact type obeys.
pub open spec fn ratio_rule(fact_type: FactType) -> Seq<char> {
    "compression ratio for "@ + name_of_type(fact_type) + " must be in [0.0, 1.0]"@
}

/// The rule that the percentile obeys.
pub open spec fn percentile_rule() -> Seq<char> {
    "promotion_percentile must be in [0.0, 1.0]"@
}

fn ratio_error(fact_type: FactType, got: Binary64) -> (r: MemoryError)
    ensures
        r matches MemoryError::Conflict(ConflictError::PolicyParameter { rule, got: value })
            && rule@ == ratio_rule(fact_type) && value == got,
{
    let mut rule = "compression ratio for ".to_owned();
    rule.append(type_label(fact_type));
    rule.append(" must be in [0.0, 1.0]");
    MemoryError::Conflict(ConflictError::PolicyParameter { rule, got })
}

impl DreamCycleConfig {
    /// The ratio of the type is set and out of range.
    pub open spec fn bad_ratio(self, fact_type: FactType) -> bool {
        self.compression_ratios.ratio(fact_type) matches Some(x) && !x.spec_in_unit_interval()
    }

    /// All ratios and the percentile lie in `[0, 1]`.
    pub open spec fn in_range(self) -> bool {
        &&& forall|fact_type: FactType| !#[trigger] self.bad_ratio(fact_type)
        &&& self.promotion_percentile.spec_in_unit_interval()
    }

    /// The rule that is broken first, in the order of the types and then the
    /// percentile, with the value that breaks it.
    pub open spec fn first_breach(self) -> Option<(Seq<char>, Binary64)> {
        if self.bad_ratio(FactType::Episodic) {
            Some((ratio_rule(FactType::Episodic), self.compression_ratios.episodic->0))
        } else if self.bad_ratio(FactType::Semantic) {
            Some((ratio_rule(FactType::Semantic), self.compression_ratios.semantic->0))
        } else if self.bad_ratio(FactType::Procedural) {
            Some((ratio_rule(FactType::Procedural), self.compression_ratios.procedural->0))
        } else if !self.promotion_percentile.spec_in_unit_interval() {
            Some((percentile_rule(), self.promotion_percentile))
        } else {
            None
        }
    }

    /// Checks that all ratios and the percentile lie in `[0, 1]`.
    pub fn validate(&self) -> (r: Result<(), MemoryError>)
        ensures
            r is Ok <==> self.in_range(),
            r matches Err(e) ==> e matches MemoryError::Conflict(
                ConflictError::PolicyParameter { rule, got },
            ) && self.first_breach() == Some((rule@, got)),
    {
        assert(self.bad_ratio(FactType::Episodic) || !self.bad_ratio(FactType::Episodic));
        if let Some(ratio) = self.compression_ratios.episodic {
            if !ratio.in_unit_interval() {
                return Err(ratio_error(FactType::Episodic, ratio));
            }
        }
        if let Some(ratio) = self.compression_ratios.semantic {
            if !ratio.in_unit_interval() {
                assert(self.bad_ratio(FactType::Semantic));
                return Err(ratio_error(FactType::Semantic, ratio));
            }
        }
        if let Some(ratio) = self.compression_ratios.procedural {
            if !ratio.in_unit_interval() {
                assert(self.bad_ratio(FactType::Procedural));
                return Err(ratio_error(FactType::Procedural, ratio));
            }
        }
        if !self.promotion_percentile.in_unit_interval() {
            return Err(
                MemoryError::Conflict(
                    ConflictError::PolicyParameter {
                        rule: "promotion_percentile must be in [0.0, 1.0]".to_owned(),
                        got: self.promotion_percentile,
                    },
                ),
            );
        }
        Ok(())
    }
}

/// A request to promote a fact to wisdom.
#[derive(Debug, Clone, PartialEq)]
pub struct PromoteRequest {
    pub content: String,
    pub fact_type: FactType,
    /// The bit patterns of the vector's single-precision components.
    pub embedding: Vec<u32>,
    pub importance: Binary64,
    pub metadata: serde_json::Value,
    /// The scope path; `None` is the root.
    pub scope: Option<String>,
    /// The facts that the promoted one was drawn from.
    pub source_fact_ids: Vec<FactId>,
    /// How the promotion came about, as a document.
    pub provenance: serde_json::Value,
}

/// A promotion that was carried out.
#[derive(Debug, Clone, Copy, PartialEq, Eq, Structural)]
pub struct PromotionResult {
    pub fact_id: FactId,
    pub lineage_id: LineageId,
}

/// What became of switching the store to another embedding space.
#[derive(Debug, Clone, PartialEq, Eq)]
pub struct PromoteOutcome {
    /// Facts whose vector was replaced.
    pub promoted: usize,
    /// The space that served before.
    pub deprecated_space: String,
    /// The identity that serves now.
    pub new_fingerprint: EmbeddingFingerprint,
    /// Facts that were embedded at the last moment.
    pub stragglers_caught: usize,
    /// A live vector index must be rebuilt.
    pub rebuild_index: bool,
}

/// The identity of the model that produced a vector.
///
/// A vector means something only within the space of the exact model that made
/// it: two models may share a dimension and yet not be comparable.
#[derive(Debug, Clone, PartialEq, Eq, Hash)]
pub struct EmbeddingFingerprint {
    pub model: String,
    pub provider: String,
    /// The dimension of the stored vectors.
    pub dim: usize,
    /// The dimension before Matryoshka truncation, if there was any.
    pub matryoshka_base_dim: Option<usize>,
    pub element_type: String,
}

impl EmbeddingFingerprint {
    /// The element type of single-precision vectors.
    pub const ELEMENT_F32: &'static str = "float32";

    /// The two fingerprints agree in every field.
    pub open spec fn same_identity(self, other: EmbeddingFingerprint) -> bool {
        &&& self.model@ == other.model@
        &&& self.provider@ == other.provider@
        &&& self.dim == other.dim
        &&& self.matryoshka_base_dim == other.matryoshka_base_dim
        &&& self.element_type@ == other.element_type@
    }

    /// The fingerprint of an untruncated single-precision space.
    pub fn new(model: &str, provider: &str, dim: usize) -> (r: EmbeddingFingerprint)
        ensures
            r.model@ == model@,
            r.provider@ == provider@,
            r.dim == dim,
            r.matryoshka_base_dim is None,
            r.element_type@ == "float32"@,
    {
        EmbeddingFingerprint {
            model: model.to_owned(),
            provider: provider.to_owned(),
            dim,
            matryoshka_base_dim: None,
            element_type: Self::ELEMENT_F32.to_owned(),
        }
    }

    /// The fingerprint of a single-precision space truncated from `base_dim` to
    /// `dim`.
    pub fn with_matryoshka(model: &str, provider: &str, dim: usize, base_dim: usize) -> (r:
        EmbeddingFingerprint)
        ensures
            r.model@ == model@,
            r.provider@ == provider@,
            r.dim == dim,
            r.matryoshka_base_dim == Some(base_dim),
            r.element_type@ == "float32"@,
    {
        let plain = EmbeddingFingerprint::new(model, provider, dim);
        EmbeddingFingerprint { matryoshka_base_dim: Some(base_dim), ..plain }
    }

    /// Whether the two fingerprints agree in every field.
    pub fn matches(&self, other: &EmbeddingFingerprint) -> (r: bool)
        ensures
            r == self.same_identity(*other),
    {
        let same_base = match (self.matryoshka_base_dim, other.matryoshka_base_dim) {
            (Some(a), Some(b)) => a == b,
            (None, None) => true,
            _ => false,
        };
        same_text(self.model.as_str(), other.model.as_str()) && same_text(
            self.provider.as_str(),
            other.provider.as_str(),
        ) && self.dim == other.dim && same_base && same_text(
            self.element_type.as_str(),
            other.element_type.as_str(),
        )
    }

    /// A copy of the fingerprint.
    pub fn copied(&self) -> (r: EmbeddingFingerprint)
        ensures
            r == *self,
    {
        EmbeddingFingerprint {
            model: self.model.clone(),
            provider: self.provider.clone(),
            dim: self.dim,
            matryoshka_base_dim: self.matryoshka_base_dim,
            element_type: self.element_type.clone(),
        }
    }
}

/// Agreement of fingerprints is an equivalence.
pub proof fn same_identity_is_equivalence(
    a: EmbeddingFingerprint,
    b: EmbeddingFingerprint,
    c: EmbeddingFingerprint,
)
    ensures
        a.same_identity(a),
        a.same_identity(b) ==> b.same_identity(a),
        a.same_identity(b) && b.same_identity(c) ==> a.same_identity(c),
{
}

/// Two fingerprints match just when they agree in the model, the provider, the
/// dimension, the truncation and the element type. A copy matches its original.
pub proof fn fingerprints_match_in_every_field(
    a: &EmbeddingFingerprint,
    b: &EmbeddingFingerprint,
    r: bool,
    copy: EmbeddingFingerprint,
)
    requires
        call_ensures(EmbeddingFingerprint::matches, (a, b), r),
        call_ensures(EmbeddingFingerprint::copied, (a,), copy),
    ensures
        r <==> a.model@ == b.model@ && a.provider@ == b.provider@ && a.dim == b.dim
            && a.matryoshka_base_dim == b.matryoshka_base_dim && a.element_type@ == b.element_type@,
        r == a.same_identity(*b),
        copy == *a,
{
}

/// A new fingerprint says what it was made of; a truncated one differs from a plain
/// one in its base dimension alone.
pub proof fn fingerprint_says_what_it_was_made_of(
    model: &str,
    provider: &str,
    dim: usize,
    base_dim: usize,
    plain: EmbeddingFingerprint,
    truncated: EmbeddingFingerprint,
)
    requires
        call_ensures(EmbeddingFingerprint::new, (model, provider, dim), plain),
        call_ensures(
            EmbeddingFingerprint::with_matryoshka,
            (model, provider, dim, base_dim),
            truncated,
        ),
    ensures
        plain.model@ == model@ && truncated.model@ == model@,
        plain.provider@ == provider@ && truncated.provider@ == provider@,
        plain.dim == dim && truncated.dim == dim,
        plain.matryoshka_base_dim is None && truncated.matryoshka_base_dim == Some(base_dim),
        plain.element_type@ == "float32"@ && truncated.element_type@ == "float32"@,
{
}

/// A ratio that is set for a type is found for that type, and for no other; the ratio
/// that it had is handed back.
pub proof fn ratio_is_found_where_it_was_set(
    ratios: &mut CompressionRatios,
    fact_type: FactType,
    ratio: Binary64,
    r: Option<Binary64>,
)
    requires
        call_ensures(CompressionRatios::insert, (ratios, fact_type, ratio), r),
    ensures
        fact_type is Episodic ==> final(ratios).episodic == Some(ratio) && r
            == old(ratios).episodic,
        fact_type is Semantic ==> final(ratios).semantic == Some(ratio) && r
            == old(ratios).semantic,
        fact_type is Procedural ==> final(ratios).procedural == Some(ratio) && r
            == old(ratios).procedural,
        fact_type !is Episodic ==> final(ratios).episodic == old(ratios).episodic,
        fact_type !is Semantic ==> final(ratios).semantic == old(ratios).semantic,
        fact_type !is Procedural ==> final(ratios).procedural == old(ratios).procedural,
{
    let a = *old(ratios);
    let b = *final(ratios);
    assert(fact_type != FactType::Episodic ==> b.ratio(FactType::Episodic) == a.ratio(
        FactType::Episodic,
    ));
    assert(fact_type != FactType::Semantic ==> b.ratio(FactType::Semantic) == a.ratio(
        FactType::Semantic,
    ));
    assert(fact_type != FactType::Procedural ==> b.ratio(FactType::Procedural) == a.ratio(
        FactType::Procedural,
    ));
}

/// Each type has its own ratio.
pub proof fn each_type_has_its_ratio(
    ratios: &CompressionRatios,
    fact_type: FactType,
    r: Option<Binary64>,
)
    requires
        call_ensures(CompressionRatios::get, (ratios, fact_type), r),
    ensures
        fact_type is Episodic ==> r == ratios.episodic,
        fact_type is Semantic ==> r == ratios.semantic,
        fact_type is Procedural ==> r == ratios.procedural,
{
}

/// A configuration is valid just when every ratio that is set and the percentile lie
/// between zero and one. The first value that does not, in the order of the types and
/// then the percentile, is the one that is reported.
pub proof fn configuration_lies_between_zero_and_one(
    config: &DreamCycleConfig,
    r: Result<(), MemoryError>,
)
    requires
        call_ensures(DreamCycleConfig::validate, (config,), r),
    ensures
        ({
            let episodic = config.compression_ratios.episodic matches Some(x)
                ==> x.spec_in_unit_interval();
            let semantic = config.compression_ratios.semantic matches Some(x)
                ==> x.spec_in_unit_interval();
            let procedural = config.compression_ratios.procedural matches Some(x)
                ==> x.spec_in_unit_interval();
            let percentile = config.promotion_percentile.spec_in_unit_interval();
            &&& r is Ok <==> episodic && semantic && procedural && percentile
            &&& r matches Err(e) ==> (e matches MemoryError::Conflict(
                ConflictError::PolicyParameter { rule, got },
            ) && {
                &&& !episodic ==> Some(got) == config.compression_ratios.episodic && rule@
                    == "compression ratio for "@ + "Episodic"@ + " must be in [0.0, 1.0]"@
                &&& episodic && !semantic ==> Some(got) == config.compression_ratios.semantic
                    && rule@ == "compression ratio for "@ + "Semantic"@ + " must be in [0.0, 1.0]"@
                &&& episodic && semantic && !procedural ==> Some(got)
                    == config.compression_ratios.procedural && rule@ == "compression ratio for "@
                    + "Procedural"@ + " must be in [0.0, 1.0]"@
                &&& episodic && semantic && procedural ==> got == config.promotion_percentile
                    && rule@ == "promotion_percentile must be in [0.0, 1.0]"@
            })
        }),
{
    assert(config.bad_ratio(FactType::Episodic) || !config.bad_ratio(FactType::Episodic));
    assert(config.bad_ratio(FactType::Semantic) || !config.bad_ratio(FactType::Semantic));
    assert(config.bad_ratio(FactType::Procedural) || !config.bad_ratio(FactType::Procedural));
    if !config.bad_ratio(FactType::Episodic) && !config.bad_ratio(FactType::Semantic)
        && !config.bad_ratio(FactType::Procedural) {
        assert forall|t: FactType| !#[trigger] config.bad_ratio(t) by {
            match t {
                FactType::Episodic => {},
                FactType::Semantic => {},
                FactType::Procedural => {},
            }
        }
    }
}

} // verus!
