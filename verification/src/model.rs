use vstd::prelude::*;

use crate::errors::PipelineError;
use crate::text::{eq_ignore_ascii_case, lower_spec};

verus! {

/// The selectable model sizes, a pure configuration value.
#[derive(Debug, Clone, Copy, PartialEq, Eq, Structural)]
pub enum WhisperModel {
    Tiny,
    Base,
    Small,
    Medium,
    Large,
}

/// The model that a selector string names, compared with its ASCII letters
/// folded to lower case; `None` when the string names no model.
pub open spec fn model_for(s: Seq<char>) -> Option<WhisperModel> {
    let l = lower_spec(s);
    if l == "tiny"@ {
        Some(WhisperModel::Tiny)
    } else if l == "base"@ {
        Some(WhisperModel::Base)
    } else if l == "small"@ {
        Some(WhisperModel::Small)
    } else if l == "medium"@ {
        Some(WhisperModel::Medium)
    } else if l == "large"@ {
        Some(WhisperModel::Large)
    } else {
        None
    }
}

impl WhisperModel {
    /// The resource identifier of the model, as configured.
    pub open spec fn model_name_spec(self) -> Seq<char> {
        match self {
            WhisperModel::Tiny => "models/ggml-tiny.bin"@,
            WhisperModel::Base => "openai/whisper-base"@,
            WhisperModel::Small => "openai/whisper-small"@,
            WhisperModel::Medium => "openai/whisper-medium"@,
            WhisperModel::Large => "openai/whisper-large-v3"@,
        }
    }

    /// The display name of the model.
    pub open spec fn description_spec(self) -> Seq<char> {
        match self {
            WhisperModel::Tiny => "Tiny (fastest, least accurate)"@,
            WhisperModel::Base => "Base (good balance of speed/accuracy)"@,
            WhisperModel::Small => "Small (better accuracy, slower)"@,
            WhisperModel::Medium => "Medium (high accuracy, slower)"@,
            WhisperModel::Large => "Large (highest accuracy, slowest)"@,
        }
    }

    /// Parses a selector string, case-insensitively; any string outside the
    /// set {tiny, base, small, medium, large} is rejected, carried back in
    /// the error.
    pub fn from_str(s: &str) -> (r: Result<WhisperModel, PipelineError>)
        ensures
            match r {
                Ok(m) => model_for(s@) == Some(m),
                Err(e) => model_for(s@) is None && (e matches PipelineError::UnsupportedModel(v)
                    && v@ == s@),
            },
    {
        if eq_ignore_ascii_case(s, "tiny") {
            Ok(WhisperModel::Tiny)
        } else if eq_ignore_ascii_case(s, "base") {
            Ok(WhisperModel::Base)
        } else if eq_ignore_ascii_case(s, "small") {
            Ok(WhisperModel::Small)
        } else if eq_ignore_ascii_case(s, "medium") {
            Ok(WhisperModel::Medium)
        } else if eq_ignore_ascii_case(s, "large") {
            Ok(WhisperModel::Large)
        } else {
            Err(PipelineError::UnsupportedModel(s.to_owned()))
        }
    }

    /// The resource identifier (a path or remote name) of this model.
    pub fn model_name(&self) -> (r: &'static str)
        ensures
            r@ == self.model_name_spec(),
    {
        match self {
            WhisperModel::Tiny => "models/ggml-tiny.bin",
            WhisperModel::Base => "openai/whisper-base",
            WhisperModel::Small => "openai/whisper-small",
            WhisperModel::Medium => "openai/whisper-medium",
            WhisperModel::Large => "openai/whisper-large-v3",
        }
    }

    /// A short human-readable description of this model's trade-off.
    pub fn description(&self) -> (r: &'static str)
        ensures
            r@ == self.description_spec(),
    {
        match self {
            WhisperModel::Tiny => "Tiny (fastest, least accurate)",
            WhisperModel::Base => "Base (good balance of speed/accuracy)",
            WhisperModel::Small => "Small (better accuracy, slower)",
            WhisperModel::Medium => "Medium (high accuracy, slower)",
            WhisperModel::Large => "Large (highest accuracy, slowest)",
        }
    }
}

} // verus!
