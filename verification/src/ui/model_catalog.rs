//! The model choices in Settings: which models are offered, how each is
//! labelled, which reasoning efforts a cleanup model supports, and where
//! the list came from.

use vstd::prelude::*;

use crate::text::str_eq;

verus! {

/// How hard a cleanup model reasons.
#[derive(Clone, Copy, Debug, PartialEq, Eq, Structural)]
pub enum ReasoningEffort {
    Default,
    NoReasoning,
    Minimal,
    Low,
    Medium,
    High,
    Xhigh,
    Max,
}

pub open spec fn spec_effort_value(effort: ReasoningEffort) -> Seq<char> {
    match effort {
        ReasoningEffort::Default => "default"@,
        ReasoningEffort::NoReasoning => "none"@,
        ReasoningEffort::Minimal => "minimal"@,
        ReasoningEffort::Low => "low"@,
        ReasoningEffort::Medium => "medium"@,
        ReasoningEffort::High => "high"@,
        ReasoningEffort::Xhigh => "xhigh"@,
        ReasoningEffort::Max => "max"@,
    }
}

pub open spec fn spec_effort_label(effort: ReasoningEffort) -> Seq<char> {
    match effort {
        ReasoningEffort::Default => "Default"@,
        ReasoningEffort::NoReasoning => "None"@,
        ReasoningEffort::Minimal => "Minimal"@,
        ReasoningEffort::Low => "Low"@,
        ReasoningEffort::Medium => "Medium"@,
        ReasoningEffort::High => "High"@,
        ReasoningEffort::Xhigh => "XHigh"@,
        ReasoningEffort::Max => "Max"@,
    }
}

impl ReasoningEffort {
    /// The value Settings stores for this effort.
    pub fn settings_value(self) -> (value: &'static str)
        ensures
            value@ == spec_effort_value(self),
    {
        match self {
            ReasoningEffort::Default => "default",
            ReasoningEffort::NoReasoning => "none",
            ReasoningEffort::Minimal => "minimal",
            ReasoningEffort::Low => "low",
            ReasoningEffort::Medium => "medium",
            ReasoningEffort::High => "high",
            ReasoningEffort::Xhigh => "xhigh",
            ReasoningEffort::Max => "max",
        }
    }
}

/// Where a catalog entry comes from.
#[derive(Clone, Copy, Debug, PartialEq, Eq, Structural)]
pub enum ModelCatalogOrigin {
    Builtin,
    Account,
    /// The model the settings name, which no catalog lists.
    Current,
}

/// Whether AgentDictate knows the model works with it.
#[derive(Clone, Copy, Debug, PartialEq, Eq, Structural)]
pub enum ModelCatalogSupport {
    Verified,
    Unverified,
}

#[derive(Clone, Debug, PartialEq, Eq)]
pub struct ModelCatalogEntry {
    pub id: String,
    pub origin: ModelCatalogOrigin,
    pub support: ModelCatalogSupport,
    pub reasoning_efforts: Vec<ReasoningEffort>,
}

#[derive(Clone, Copy, Debug, PartialEq, Eq, Structural)]
pub enum ModelCatalogFallback {
    Cached,
    Builtin,
}

/// Where the daemon's model list came from.
#[derive(Clone, Debug, PartialEq, Eq)]
pub enum ModelCatalogStatus {
    Live,
    Cached,
    Builtin,
    Failed { fallback: ModelCatalogFallback, message: String },
}

#[derive(Clone, Debug, PartialEq, Eq)]
pub struct ModelCatalogOptionViewModel {
    pub id: String,
    pub label: String,
    pub reasoning_efforts: Vec<ReasoningEffort>,
}

#[derive(Clone, Debug, PartialEq, Eq)]
pub struct ReasoningOptionViewModel {
    pub label: &'static str,
    pub value: &'static str,
}

#[derive(Clone, Copy, Debug, PartialEq, Eq, Structural)]
pub enum ModelCatalogStatusSource {
    Live,
    Cached,
    Builtin,
}

#[derive(Clone, Debug, PartialEq, Eq)]
pub struct ModelCatalogStatusViewModel {
    pub source: ModelCatalogStatusSource,
    pub label: &'static str,
    pub detail: String,
    pub is_error: bool,
}

impl ModelCatalogStatusViewModel {
    pub fn selector(&self) -> (selector: &'static str)
        ensures
            selector@ == match self.source {
                ModelCatalogStatusSource::Live => "settings-model-catalog-live"@,
                ModelCatalogStatusSource::Cached => "settings-model-catalog-cached"@,
                ModelCatalogStatusSource::Builtin => "settings-model-catalog-builtin"@,
            },
    {
        match self.source {
            ModelCatalogStatusSource::Live => "settings-model-catalog-live",
            ModelCatalogStatusSource::Cached => "settings-model-catalog-cached",
            ModelCatalogStatusSource::Builtin => "settings-model-catalog-builtin",
        }
    }
}

/// How a model is listed: marked when it is the settings' own custom model
/// or one AgentDictate has not verified.
pub open spec fn spec_option_label(id: Seq<char>, origin: ModelCatalogOrigin, support: ModelCatalogSupport) -> Seq<char> {
    if origin == ModelCatalogOrigin::Current {
        id + " — current custom model"@
    } else if support == ModelCatalogSupport::Unverified {
        id + " — compatibility unverified"@
    } else {
        id
    }
}

impl ModelCatalogOptionViewModel {
    pub fn from_entry(entry: ModelCatalogEntry) -> (option: Self)
        ensures
            option.id@ == entry.id@,
            option.label@ == spec_option_label(entry.id@, entry.origin, entry.support),
            option.reasoning_efforts@ == entry.reasoning_efforts@,
    {
        let label = if entry.origin == ModelCatalogOrigin::Current {
            let mut label = entry.id.clone();
            label.append(" — current custom model");
            label
        } else if entry.support == ModelCatalogSupport::Unverified {
            let mut label = entry.id.clone();
            label.append(" — compatibility unverified");
            label
        } else {
            entry.id.clone()
        };
        ModelCatalogOptionViewModel { id: entry.id, label, reasoning_efforts: entry.reasoning_efforts }
    }
}

pub fn reasoning_option(effort: ReasoningEffort) -> (option: ReasoningOptionViewModel)
    ensures
        option.label@ == spec_effort_label(effort),
        option.value@ == spec_effort_value(effort),
{
    let label: &'static str = match effort {
        ReasoningEffort::Default => "Default",
        ReasoningEffort::NoReasoning => "None",
        ReasoningEffort::Minimal => "Minimal",
        ReasoningEffort::Low => "Low",
        ReasoningEffort::Medium => "Medium",
        ReasoningEffort::High => "High",
        ReasoningEffort::Xhigh => "XHigh",
        ReasoningEffort::Max => "Max",
    };
    ReasoningOptionViewModel { label, value: effort.settings_value() }
}

/// How the list's origin is presented.
pub fn status_view_model(status: ModelCatalogStatus) -> (model: ModelCatalogStatusViewModel)
    ensures
        match status {
            ModelCatalogStatus::Live => model.source == ModelCatalogStatusSource::Live
                && model.label@ == "Models from OpenAI"@ && model.detail@
                == "Available models are up to date"@ && !model.is_error,
            ModelCatalogStatus::Cached => model.source == ModelCatalogStatusSource::Cached
                && model.label@ == "Using cached models"@ && model.detail@
                == "Refreshing from OpenAI in the background"@ && !model.is_error,
            ModelCatalogStatus::Builtin => model.source == ModelCatalogStatusSource::Builtin
                && model.label@ == "Using built-in models"@ && model.detail@
                == "Connect OpenAI to load the models available to your account"@ && !model.is_error,
            ModelCatalogStatus::Failed { fallback, message } => model.source == (match fallback {
                ModelCatalogFallback::Cached => ModelCatalogStatusSource::Cached,
                ModelCatalogFallback::Builtin => ModelCatalogStatusSource::Builtin,
            }) && model.label@ == (match fallback {
                ModelCatalogFallback::Cached => "Using cached models"@,
                ModelCatalogFallback::Builtin => "Using built-in models"@,
            }) && model.detail@ == message@ && model.is_error,
        },
{
    match status {
        ModelCatalogStatus::Live => ModelCatalogStatusViewModel {
            source: ModelCatalogStatusSource::Live,
            label: "Models from OpenAI",
            detail: String::from_str("Available models are up to date"),
            is_error: false,
        },
        ModelCatalogStatus::Cached => ModelCatalogStatusViewModel {
            source: ModelCatalogStatusSource::Cached,
            label: "Using cached models",
            detail: String::from_str("Refreshing from OpenAI in the background"),
            is_error: false,
        },
        ModelCatalogStatus::Builtin => ModelCatalogStatusViewModel {
            source: ModelCatalogStatusSource::Builtin,
            label: "Using built-in models",
            detail: String::from_str("Connect OpenAI to load the models available to your account"),
            is_error: false,
        },
        ModelCatalogStatus::Failed { fallback, message } => {
            let (source, label) = match fallback {
                ModelCatalogFallback::Cached => (ModelCatalogStatusSource::Cached, "Using cached models"),
                ModelCatalogFallback::Builtin => (ModelCatalogStatusSource::Builtin, "Using built-in models"),
            };
            ModelCatalogStatusViewModel { source, label, detail: message, is_error: true }
        },
    }
}

#[derive(Clone, Debug, PartialEq, Eq)]
pub struct ModelCatalogViewModel {
    pub transcription_models: Vec<ModelCatalogOptionViewModel>,
    pub cleanup_models: Vec<ModelCatalogOptionViewModel>,
    pub status: ModelCatalogStatusViewModel,
}

/// The index of the first model whose id is `id`.
pub open spec fn first_model(models: Seq<ModelCatalogOptionViewModel>, id: Seq<char>) -> Option<int>
    decreases models.len(),
{
    if models.len() == 0 {
        None
    } else if models[0].id@ == id {
        Some(0)
    } else {
        match first_model(models.drop_first(), id) {
            Some(k) => Some(k + 1),
            None => None,
        }
    }
}

/// The efforts offered for `id`: those its first listing advertises, or
/// Default alone when it advertises none or is not listed.
pub open spec fn offered_efforts(models: Seq<ModelCatalogOptionViewModel>, id: Seq<char>) -> Seq<ReasoningEffort> {
    match first_model(models, id) {
        Some(k) => if models[k].reasoning_efforts@.len() > 0 {
            models[k].reasoning_efforts@
        } else {
            seq![ReasoningEffort::Default]
        },
        None => seq![ReasoningEffort::Default],
    }
}

pub proof fn lemma_first_model_bounds(models: Seq<ModelCatalogOptionViewModel>, id: Seq<char>)
    ensures
        first_model(models, id) matches Some(k) ==> 0 <= k < models.len() && models[k].id@ == id
            && forall|j: int| 0 <= j < k ==> #[trigger] models[j].id@ != id,
        first_model(models, id) is None ==> forall|j: int| 0 <= j < models.len() ==> #[trigger] models[j].id@ != id,
    decreases models.len(),
{
    if models.len() > 0 && models[0].id@ != id {
        lemma_first_model_bounds(models.drop_first(), id);
        assert forall|j: int| 0 < j < models.len() implies #[trigger] models[j] == models.drop_first()[j - 1] by {}
    }
}

pub proof fn lemma_first_model_step(models: Seq<ModelCatalogOptionViewModel>, id: Seq<char>, i: int)
    requires
        0 <= i < models.len(),
        forall|j: int| 0 <= j < i ==> #[trigger] models[j].id@ != id,
        models[i].id@ == id,
    ensures
        first_model(models, id) == Some(i),
    decreases i,
{
    if i > 0 {
        assert forall|j: int| 0 <= j < i - 1 implies #[trigger] models.drop_first()[j].id@ != id by {
            assert(models.drop_first()[j] == models[j + 1]);
        }
        lemma_first_model_step(models.drop_first(), id, i - 1);
    }
}

/// A normalized reasoning choice is always one that the selected model
/// offers, so an unsupported value is never sent.
pub proof fn lemma_normalized_effort_is_offered(
    models: Seq<ModelCatalogOptionViewModel>,
    id: Seq<char>,
    requested: Seq<char>,
)
    ensures
        exists|i: int|
            0 <= i < offered_efforts(models, id).len() && spec_effort_value(
                #[trigger] offered_efforts(models, id)[i],
            ) == spec_normalized_effort(offered_efforts(models, id), requested),
{
    let offered = offered_efforts(models, id);
    let r = spec_normalized_effort(offered, requested);
    assert(offered.len() > 0);
    if exists|i: int| 0 <= i < offered.len() && spec_effort_value(#[trigger] offered[i]) == requested {
        let i = choose|i: int| 0 <= i < offered.len() && spec_effort_value(#[trigger] offered[i]) == requested;
        assert(spec_effort_value(offered[i]) == r);
    } else if exists|i: int| 0 <= i < offered.len() && #[trigger] offered[i] == ReasoningEffort::Default {
        let i = choose|i: int| 0 <= i < offered.len() && #[trigger] offered[i] == ReasoningEffort::Default;
        assert(spec_effort_value(offered[i]) == r);
    } else {
        assert(spec_effort_value(offered[0]) == r);
    }
}

impl ModelCatalogViewModel {
    /// The reasoning options offered for cleanup model `model_id`.
    pub fn reasoning_options_for(&self, model_id: &str) -> (options: Vec<ReasoningOptionViewModel>)
        ensures
            options@.len() == offered_efforts(self.cleanup_models@, model_id@).len(),
            forall|i: int| 0 <= i < options@.len() ==> (#[trigger] options@[i]).value@ == spec_effort_value(
                offered_efforts(self.cleanup_models@, model_id@)[i],
            ),
            forall|i: int| 0 <= i < options@.len() ==> (#[trigger] options@[i]).label@ == spec_effort_label(
                offered_efforts(self.cleanup_models@, model_id@)[i],
            ),
    {
        let ghost models = self.cleanup_models@;
        proof {
            lemma_first_model_bounds(models, model_id@);
        }
        let mut found: Option<usize> = None;
        let mut k: usize = 0;
        while k < self.cleanup_models.len()
            invariant
                models == self.cleanup_models@,
                k <= models.len(),
                found is None ==> forall|j: int| 0 <= j < k ==> #[trigger] models[j].id@ != model_id@,
                found matches Some(f) ==> first_model(models, model_id@) == Some(f as int) && f < models.len(),
            decreases models.len() - k,
        {
            if found.is_none() && str_eq(self.cleanup_models[k].id.as_str(), model_id) {
                proof {
                    lemma_first_model_step(models, model_id@, k as int);
                }
                found = Some(k);
            }
            k += 1;
        }
        let mut efforts: Vec<ReasoningEffort> = Vec::new();
        match found {
            Some(f) => {
                if self.cleanup_models[f].reasoning_efforts.len() > 0 {
                    efforts = self.cleanup_models[f].reasoning_efforts.clone();
                } else {
                    efforts.push(ReasoningEffort::Default);
                }
            },
            None => {
                efforts.push(ReasoningEffort::Default);
            },
        }
        proof {
            assert(efforts@ =~= offered_efforts(models, model_id@));
        }
        let mut options: Vec<ReasoningOptionViewModel> = Vec::new();
        let mut i: usize = 0;
        while i < efforts.len()
            invariant
                i <= efforts@.len(),
                efforts@ == offered_efforts(models, model_id@),
                models == self.cleanup_models@,
                options@.len() == i,
                forall|j: int| 0 <= j < i ==> #[trigger] options@[j].value@ == spec_effort_value(efforts@[j])
                    && options@[j].label@ == spec_effort_label(efforts@[j]),
            decreases efforts@.len() - i,
        {
            options.push(reasoning_option(efforts[i]));
            i += 1;
        }
        proof {
            let offered = offered_efforts(self.cleanup_models@, model_id@);
            assert(offered == efforts@);
            assert forall|j: int| 0 <= j < options@.len() implies (#[trigger] options@[j]).value@ == spec_effort_value(offered[j])
                && options@[j].label@ == spec_effort_label(offered[j]) by {
                assert(offered[j] == efforts@[j]);
            }
        }
        options
    }
}

/// The reasoning value kept for `model_id`: the requested one when the
/// model offers it, else Default when offered, else the first offered.
pub open spec fn spec_normalized_effort(offered: Seq<ReasoningEffort>, requested: Seq<char>) -> Seq<char> {
    if exists|i: int| 0 <= i < offered.len() && spec_effort_value(#[trigger] offered[i]) == requested {
        requested
    } else if exists|i: int| 0 <= i < offered.len() && #[trigger] offered[i] == ReasoningEffort::Default {
        "default"@
    } else if offered.len() > 0 {
        spec_effort_value(offered[0])
    } else {
        "default"@
    }
}

impl ModelCatalogViewModel {
    /// Keeps a reasoning choice only when the newly selected model
    /// advertises it, falling back to Default instead of sending an
    /// unsupported value.
    pub fn normalized_reasoning_effort(&self, model_id: &str, requested: &str) -> (value: String)
        ensures
            value@ == spec_normalized_effort(offered_efforts(self.cleanup_models@, model_id@), requested@),
    {
        let options = self.reasoning_options_for(model_id);
        let ghost offered = offered_efforts(self.cleanup_models@, model_id@);
        let mut i: usize = 0;
        while i < options.len()
            invariant
                i <= options@.len(),
                offered == offered_efforts(self.cleanup_models@, model_id@),
                options@.len() == offered.len(),
                forall|j: int| 0 <= j < options@.len() ==> (#[trigger] options@[j]).value@ == spec_effort_value(offered[j]),
                forall|j: int| 0 <= j < i ==> spec_effort_value(#[trigger] offered[j]) != requested@,
            decreases options@.len() - i,
        {
            if str_eq(options[i].value, requested) {
                proof {
                    assert(spec_effort_value(offered[i as int]) == requested@);
                    assert(exists|j: int| 0 <= j < offered.len() && spec_effort_value(#[trigger] offered[j]) == requested@);
                    assert(spec_normalized_effort(offered, requested@) == requested@);
                }
                return requested.to_owned();
            }
            i += 1;
        }
        let mut k: usize = 0;
        while k < options.len()
            invariant
                k <= options@.len(),
                offered == offered_efforts(self.cleanup_models@, model_id@),
                options@.len() == offered.len(),
                forall|j: int| 0 <= j < options@.len() ==> (#[trigger] options@[j]).value@ == spec_effort_value(offered[j]),
                forall|j: int| 0 <= j < offered.len() ==> spec_effort_value(#[trigger] offered[j]) != requested@,
                forall|j: int| 0 <= j < k ==> #[trigger] offered[j] != ReasoningEffort::Default,
            decreases options@.len() - k,
        {
            if str_eq(options[k].value, "default") {
                proof {
                    reveal_strlit("default");
                    let e = offered[k as int];
                    if e != ReasoningEffort::Default {
                        reveal_strlit("none");
                        reveal_strlit("minimal");
                        reveal_strlit("low");
                        reveal_strlit("medium");
                        reveal_strlit("high");
                        reveal_strlit("xhigh");
                        reveal_strlit("max");
                        assert(spec_effort_value(e).len() != 7 || spec_effort_value(e)[0] != 'd');
                    }
                    assert(offered[k as int] == ReasoningEffort::Default);
                    assert(exists|j: int| 0 <= j < offered.len() && #[trigger] offered[j] == ReasoningEffort::Default);
                    assert(!exists|j: int| 0 <= j < offered.len() && spec_effort_value(#[trigger] offered[j]) == requested@);
                    assert(spec_normalized_effort(offered, requested@) == "default"@);
                }
                return String::from_str("default");
            }
            proof {
                reveal_strlit("default");
                if offered[k as int] == ReasoningEffort::Default {
                    assert(options@[k as int].value@ == "default"@);
                }
            }
            k += 1;
        }
        if options.len() > 0 {
            options[0].value.to_owned()
        } else {
            String::from_str("default")
        }
    }
}

} // verus!
