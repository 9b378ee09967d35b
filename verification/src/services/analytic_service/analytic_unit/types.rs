use vstd::prelude::*;
use vstd::string::StrSliceExecFns;
use vstd::string::StringExecFns;

verus! {

/// Weights of the pattern detector's score. Each field is the IEEE-754 bit
/// pattern of an `f32` (`f32::to_bits`); the library only stores and moves
/// them, the detector reads them as floats.
#[derive(Debug, Clone, Copy, PartialEq, Eq, Structural)]
pub struct PatternConfig {
    pub correlation_score: u32,
    pub anti_correlation_score: u32,
    pub model_score: u32,
    pub threshold_score: u32,
}

/// The default pattern weights: 0.3, 0.1, 0.8 and 1.0.
pub open spec fn default_pattern_config() -> PatternConfig {
    PatternConfig {
        correlation_score: 0x3e99999a,
        anti_correlation_score: 0x3dcccccd,
        model_score: 0x3f4ccccd,
        threshold_score: 0x3f800000,
    }
}

impl Default for PatternConfig {
    fn default() -> (c: Self)
        ensures
            c == default_pattern_config(),
    {
        PatternConfig {
            correlation_score: 0x3e99999a,
            anti_correlation_score: 0x3dcccccd,
            model_score: 0x3f4ccccd,
            threshold_score: 0x3f800000,
        }
    }
}

/// Settings of the seasonal anomaly detector. `alpha` and `confidence` are the
/// IEEE-754 bit patterns of `f64` values (`f64::to_bits`); `seasonality` is a
/// step in seconds and `seasonality_iterations` the number of seasons learned from.
#[derive(Debug, Clone, Copy, PartialEq, Eq, Structural)]
pub struct AnomalyConfig {
    pub alpha: u64,
    pub confidence: u64,
    pub seasonality: u64,
    pub seasonality_iterations: u64,
}

/// The default anomaly settings: alpha 0.5, confidence 10.0, one hour of
/// seasonality, learned over three seasons.
pub open spec fn default_anomaly_config() -> AnomalyConfig {
    AnomalyConfig {
        alpha: 0x3fe0000000000000,
        confidence: 0x4024000000000000,
        seasonality: 3600,
        seasonality_iterations: 3,
    }
}

impl Default for AnomalyConfig {
    fn default() -> (c: Self)
        ensures
            c == default_anomaly_config(),
    {
        AnomalyConfig {
            alpha: 0x3fe0000000000000,
            confidence: 0x4024000000000000,
            seasonality: 60 * 60,
            seasonality_iterations: 3,
        }
    }
}

/// Settings of the threshold detector: `threshold` is the IEEE-754 bit pattern
/// of an `f64` (`f64::to_bits`).
#[derive(Debug, Clone, Copy, PartialEq, Eq, Structural)]
pub struct ThresholdConfig {
    pub threshold: u64,
}

/// The default threshold: 0.5.
pub open spec fn default_threshold_config() -> ThresholdConfig {
    ThresholdConfig { threshold: 0x3fe0000000000000 }
}

impl Default for ThresholdConfig {
    fn default() -> (c: Self)
        ensures
            c == default_threshold_config(),
    {
        ThresholdConfig { threshold: 0x3fe0000000000000 }
    }
}

/// The configuration of the active analytic unit; its variant is the unit's kind.
#[derive(Debug, Clone, Copy, PartialEq, Eq, Structural)]
pub enum AnalyticUnitConfig {
    Pattern(PatternConfig),
    Threshold(ThresholdConfig),
    Anomaly(AnomalyConfig),
}

/// A requested change of configuration: a kind, with new settings or none for the defaults.
#[derive(Debug, Clone, Copy, PartialEq, Eq, Structural)]
pub enum PatchConfig {
    Pattern(Option<PatternConfig>),
    Threshold(Option<ThresholdConfig>),
    Anomaly(Option<AnomalyConfig>),
}

/// The configuration that `patch` yields, and whether the unit's kind changed.
pub open spec fn patch_result(cfg: AnalyticUnitConfig, patch: PatchConfig) -> (AnalyticUnitConfig, bool) {
    match patch {
        PatchConfig::Pattern(c) => (
            AnalyticUnitConfig::Pattern(
                match c {
                    Some(c) => c,
                    None => default_pattern_config(),
                },
            ),
            !(cfg is Pattern),
        ),
        PatchConfig::Threshold(c) => (
            AnalyticUnitConfig::Threshold(
                match c {
                    Some(c) => c,
                    None => default_threshold_config(),
                },
            ),
            !(cfg is Threshold),
        ),
        PatchConfig::Anomaly(c) => (
            AnalyticUnitConfig::Anomaly(
                match c {
                    Some(c) => c,
                    None => default_anomaly_config(),
                },
            ),
            !(cfg is Anomaly),
        ),
    }
}

/// The id under which a kind of analytic unit is stored.
pub open spec fn config_id(cfg: AnalyticUnitConfig) -> Seq<char> {
    match cfg {
        AnalyticUnitConfig::Threshold(_) => seq!['1'],
        AnalyticUnitConfig::Pattern(_) => seq!['2'],
        AnalyticUnitConfig::Anomaly(_) => seq!['3'],
    }
}

/// The default configuration of the kind stored under `id`; an unknown id gives
/// the pattern kind.
pub open spec fn default_config_for_id(id: Seq<char>) -> AnalyticUnitConfig {
    if id == seq!['1'] {
        AnalyticUnitConfig::Threshold(default_threshold_config())
    } else if id == seq!['3'] {
        AnalyticUnitConfig::Anomaly(default_anomaly_config())
    } else {
        AnalyticUnitConfig::Pattern(default_pattern_config())
    }
}

impl AnalyticUnitConfig {
    /// Applies `patch`; the flag is `true` when the patch selects another kind of unit.
    pub fn patch(&self, patch: PatchConfig) -> (r: (AnalyticUnitConfig, bool))
        ensures
            r == patch_result(*self, patch),
    {
        match patch {
            PatchConfig::Pattern(tcfg) => match self {
                AnalyticUnitConfig::Pattern(_) => {
                    if tcfg.is_some() {
                        (AnalyticUnitConfig::Pattern(tcfg.unwrap()), false)
                    } else {
                        (AnalyticUnitConfig::Pattern(PatternConfig::default()), false)
                    }
                },
                _ => {
                    if tcfg.is_some() {
                        (AnalyticUnitConfig::Pattern(tcfg.unwrap()), true)
                    } else {
                        (AnalyticUnitConfig::Pattern(PatternConfig::default()), true)
                    }
                },
            },
            PatchConfig::Anomaly(tcfg) => match self {
                AnalyticUnitConfig::Anomaly(_) => {
                    if tcfg.is_some() {
                        (AnalyticUnitConfig::Anomaly(tcfg.unwrap()), false)
                    } else {
                        (AnalyticUnitConfig::Anomaly(AnomalyConfig::default()), false)
                    }
                },
                _ => {
                    if tcfg.is_some() {
                        (AnalyticUnitConfig::Anomaly(tcfg.unwrap()), true)
                    } else {
                        (AnalyticUnitConfig::Anomaly(AnomalyConfig::default()), true)
                    }
                },
            },
            PatchConfig::Threshold(tcfg) => match self {
                AnalyticUnitConfig::Threshold(_) => {
                    if tcfg.is_some() {
                        (AnalyticUnitConfig::Threshold(tcfg.unwrap()), false)
                    } else {
                        (AnalyticUnitConfig::Threshold(ThresholdConfig::default()), false)
                    }
                },
                _ => {
                    if tcfg.is_some() {
                        (AnalyticUnitConfig::Threshold(tcfg.unwrap()), true)
                    } else {
                        (AnalyticUnitConfig::Threshold(ThresholdConfig::default()), true)
                    }
                },
            },
        }
    }

    /// The default configuration of the kind stored under `id` (the pattern kind
    /// for an unknown id).
    pub fn get_default_by_id(id: &String) -> (c: AnalyticUnitConfig)
        ensures
            c == default_config_for_id(id@),
    {
        let s = id.as_str();
        if s.unicode_len() == 1 {
            let ch = s.get_char(0);
            proof {
                assert(id@ == seq![ch]) by {
                    assert(id@ =~= seq![ch]);
                }
            }
            if ch == '1' {
                return AnalyticUnitConfig::Threshold(ThresholdConfig::default());
            } else if ch == '3' {
                return AnalyticUnitConfig::Anomaly(AnomalyConfig::default());
            }
        } else {
            proof {
                assert(id@.len() != 1);
                assert(seq!['1'].len() == 1 && seq!['3'].len() == 1);
            }
        }
        AnalyticUnitConfig::Pattern(PatternConfig::default())
    }
}

/// The id under which the kind of `cfg` is stored: "1" threshold, "2" pattern, "3" anomaly.
pub fn get_config_id(cfg: &AnalyticUnitConfig) -> (id: String)
    ensures
        id@ == config_id(*cfg),
{
    match cfg {
        AnalyticUnitConfig::Threshold(_) => {
            let s = String::from_str("1");
            proof {
                reveal_strlit("1");
                assert(s@ =~= seq!['1']);
            }
            s
        },
        AnalyticUnitConfig::Pattern(_) => {
            let s = String::from_str("2");
            proof {
                reveal_strlit("2");
                assert(s@ =~= seq!['2']);
            }
            s
        },
        AnalyticUnitConfig::Anomaly(_) => {
            let s = String::from_str("3");
            proof {
                reveal_strlit("3");
                assert(s@ =~= seq!['3']);
            }
            s
        },
    }
}

/// Applying the same patch twice changes nothing the second time and asks for no relearning.
pub proof fn lemma_patch_idempotent(cfg: AnalyticUnitConfig, patch: PatchConfig)
    ensures
        patch_result(patch_result(cfg, patch).0, patch) == (patch_result(cfg, patch).0, false),
{
}

/// A patch yields a configuration of the patch's kind, and asks for relearning
/// exactly when that kind differs from the current one.
pub proof fn lemma_patch_kind(cfg: AnalyticUnitConfig, patch: PatchConfig)
    ensures
        patch_result(cfg, patch).1 <==> config_id(patch_result(cfg, patch).0) != config_id(cfg),
{
    assert(seq!['1'] != seq!['2'] && seq!['1'] != seq!['3'] && seq!['2'] != seq!['3']) by {
        assert(seq!['1'][0] != seq!['2'][0]);
        assert(seq!['1'][0] != seq!['3'][0]);
        assert(seq!['2'][0] != seq!['3'][0]);
    }
}

/// A patch that carries settings yields exactly those settings, whatever the
/// current configuration; one without settings yields the default of its kind.
/// Relearning is asked for exactly when the kind changes.
pub proof fn lemma_patch_uses_given_settings(cfg: AnalyticUnitConfig, patch: PatchConfig)
    ensures
        patch matches PatchConfig::Pattern(Some(c)) ==> patch_result(cfg, patch) == (
            AnalyticUnitConfig::Pattern(c),
            !(cfg is Pattern),
        ),
        patch matches PatchConfig::Threshold(Some(c)) ==> patch_result(cfg, patch) == (
            AnalyticUnitConfig::Threshold(c),
            !(cfg is Threshold),
        ),
        patch matches PatchConfig::Anomaly(Some(c)) ==> patch_result(cfg, patch) == (
            AnalyticUnitConfig::Anomaly(c),
            !(cfg is Anomaly),
        ),
        patch == PatchConfig::Pattern(None) ==> patch_result(cfg, patch).0 == AnalyticUnitConfig::Pattern(
            default_pattern_config(),
        ),
        patch == PatchConfig::Threshold(None) ==> patch_result(cfg, patch).0
            == AnalyticUnitConfig::Threshold(default_threshold_config()),
        patch == PatchConfig::Anomaly(None) ==> patch_result(cfg, patch).0 == AnalyticUnitConfig::Anomaly(
            default_anomaly_config(),
        ),
{
}

/// The default configuration stored under a kind's id is of that kind.
pub proof fn lemma_default_for_id_kind(cfg: AnalyticUnitConfig)
    ensures
        config_id(default_config_for_id(config_id(cfg))) == config_id(cfg),
{
    assert(seq!['1'] != seq!['2'] && seq!['1'] != seq!['3'] && seq!['2'] != seq!['3']) by {
        assert(seq!['1'][0] != seq!['2'][0]);
        assert(seq!['1'][0] != seq!['3'][0]);
        assert(seq!['2'][0] != seq!['3'][0]);
    }
}

/// How a learning run ended.
#[derive(Debug, Clone, Copy, PartialEq, Eq, Structural)]
pub enum LearningResult {
    Finished,
    FinishedEmpty,
    DatasourceError,
}

} // verus!
