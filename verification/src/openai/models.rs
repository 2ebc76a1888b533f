//! The OpenAI model list.
use vstd::prelude::*;
use crate::kagi::KagiModel;

verus! {

/// The model list response.
#[derive(Debug, Clone, PartialEq)]
pub struct ModelList {
    pub object: String,
    pub data: Vec<Model>,
}

/// One model.
#[derive(Debug, Clone, PartialEq)]
pub struct Model {
    pub id: String,
    pub object: String,
    pub created: u32,
    pub owned_by: String,
    pub permission: Vec<serde_json::Value>,
    pub root: String,
    pub parent: Option<String>,
}

/// `m` lists the Kagi model `k`: under its id, as a `model` created at
/// 1714067200, owned by its provider label (`kagi` when it has none),
/// without permissions, rooted at itself and without parent.
pub open spec fn lists_model(m: Model, k: KagiModel) -> bool {
    &&& m.id@ == k.id@
    &&& m.object@ == "model"@
    &&& m.created == 1714067200
    &&& m.owned_by@ == (match k.provider_label {
        Some(p) => p@,
        None => "kagi"@,
    })
    &&& m.permission@.len() == 0
    &&& m.root@ == k.id@
    &&& m.parent is None
}

fn model_of(k: &KagiModel) -> (m: Model)
    ensures
        lists_model(m, *k),
{
    Model {
        id: k.id.clone(),
        object: "model".to_owned(),
        created: 1714067200,
        owned_by: match &k.provider_label {
            Some(p) => p.clone(),
            None => "kagi".to_owned(),
        },
        permission: Vec::new(),
        root: k.id.clone(),
        parent: None,
    }
}

impl ModelList {
    /// The list of the given Kagi models, in their order.
    pub fn from_kagi_models(kagi_models: &[KagiModel]) -> (r: Self)
        ensures
            r.object@ == "list"@,
            r.data@.len() == kagi_models@.len(),
            forall|i: int|
                0 <= i < r.data@.len() ==> lists_model(#[trigger] r.data@[i], kagi_models@[i]),
    {
        let mut data: Vec<Model> = Vec::new();
        let mut i: usize = 0;
        while i < kagi_models.len()
            invariant
                i <= kagi_models@.len(),
                data@.len() == i,
                forall|k: int|
                    0 <= k < i ==> lists_model(#[trigger] data@[k], kagi_models@[k]),
            decreases kagi_models@.len() - i,
        {
            data.push(model_of(&kagi_models[i]));
            i = i + 1;
        }
        ModelList { object: "list".to_owned(), data }
    }
}

} // verus!
