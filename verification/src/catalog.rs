//! The static provider/model catalog offered in the menu. The core treats
//! it as an injected read-only collaborator; this is its current fixed
//! table.

use vstd::prelude::*;

use crate::types::{ModelInfo, ProviderInfo};

verus! {

/// What the fixed catalog holds: five providers in order, each with its
/// models' wire identifiers and display labels.
pub open spec fn is_catalog(ps: Seq<ProviderInfo>) -> bool {
    &&& ps.len() == 5
    &&& ps[0].name@ == "deepseek"@
    &&& ps[0].models@.len() == 2
    &&& ps[0].models@[0].id@ == "deepseek-reasoner"@
    &&& ps[0].models@[0].label@ == "DeepSeek Reasoner"@
    &&& ps[0].models@[1].id@ == "deepseek-chat"@
    &&& ps[0].models@[1].label@ == "DeepSeek Chat"@
    &&& ps[1].name@ == "zhipu"@
    &&& ps[1].models@.len() == 2
    &&& ps[1].models@[0].id@ == "GLM-5"@
    &&& ps[1].models@[0].label@ == "ZhiPu GLM-5"@
    &&& ps[1].models@[1].id@ == "glm-4v-flash"@
    &&& ps[1].models@[1].label@ == "ZhiPu GLM-4V Flash"@
    &&& ps[2].name@ == "minimax"@
    &&& ps[2].models@.len() == 1
    &&& ps[2].models@[0].id@ == "MiniMax-M2.5"@
    &&& ps[2].models@[0].label@ == "MiniMax M2.5"@
    &&& ps[3].name@ == "kimi"@
    &&& ps[3].models@.len() == 1
    &&& ps[3].models@[0].id@ == "K2.5"@
    &&& ps[3].models@[0].label@ == "Kimi K2.5"@
    &&& ps[4].name@ == "openai"@
    &&& ps[4].models@.len() == 1
    &&& ps[4].models@[0].id@ == "gpt-5.3-codex"@
    &&& ps[4].models@[0].label@ == "GPT-5.3 Codex"@
}

/// One model row of the catalog.
fn model(id: &str, label: &str) -> (m: ModelInfo)
    ensures
        m.id@ == id@,
        m.label@ == label@,
{
    ModelInfo { id: String::from_str(id), label: String::from_str(label) }
}

/// The fixed provider/model table offered in the menu.
pub fn get_providers_inner() -> (r: Vec<ProviderInfo>)
    ensures
        is_catalog(r@),
{
    let mut r: Vec<ProviderInfo> = Vec::new();
    let mut deepseek_models: Vec<ModelInfo> = Vec::new();
    deepseek_models.push(model("deepseek-reasoner", "DeepSeek Reasoner"));
    deepseek_models.push(model("deepseek-chat", "DeepSeek Chat"));
    r.push(ProviderInfo { name: String::from_str("deepseek"), models: deepseek_models });
    let mut zhipu_models: Vec<ModelInfo> = Vec::new();
    zhipu_models.push(model("GLM-5", "ZhiPu GLM-5"));
    zhipu_models.push(model("glm-4v-flash", "ZhiPu GLM-4V Flash"));
    r.push(ProviderInfo { name: String::from_str("zhipu"), models: zhipu_models });
    let mut minimax_models: Vec<ModelInfo> = Vec::new();
    minimax_models.push(model("MiniMax-M2.5", "MiniMax M2.5"));
    r.push(ProviderInfo { name: String::from_str("minimax"), models: minimax_models });
    let mut kimi_models: Vec<ModelInfo> = Vec::new();
    kimi_models.push(model("K2.5", "Kimi K2.5"));
    r.push(ProviderInfo { name: String::from_str("kimi"), models: kimi_models });
    let mut openai_models: Vec<ModelInfo> = Vec::new();
    openai_models.push(model("gpt-5.3-codex", "GPT-5.3 Codex"));
    r.push(ProviderInfo { name: String::from_str("openai"), models: openai_models });
    r
}

} // verus!
