//! The JSON value model: an executable tree type and its mathematical view.
//!
//! Numbers are carried as their decimal token, exactly as the parser rendered
//! them, so that canonical encodings can reproduce them byte for byte.

use vstd::prelude::*;

verus! {

/// Mathematical model of a JSON value, used in contracts.
pub enum JsonModel {
    Null,
    Bool(bool),
    Num(Seq<char>),
    Str(Seq<char>),
    Arr(Seq<JsonModel>),
    Obj(Seq<(Seq<char>, JsonModel)>),
}

/// Executable JSON value.
#[derive(Debug, PartialEq, Eq)]
pub enum Json {
    Null,
    Bool(bool),
    Num(String),
    Str(String),
    Arr(Vec<Json>),
    Obj(Vec<(String, Json)>),
}

pub open spec fn model_of(j: Json) -> JsonModel
    decreases j,
{
    match j {
        Json::Null => JsonModel::Null,
        Json::Bool(b) => JsonModel::Bool(b),
        Json::Num(t) => JsonModel::Num(t@),
        Json::Str(s) => JsonModel::Str(s@),
        Json::Arr(items) => JsonModel::Arr(models_of_seq(items@)),
        Json::Obj(entries) => JsonModel::Obj(entry_models_of(entries@)),
    }
}

pub open spec fn models_of_seq(items: Seq<Json>) -> Seq<JsonModel>
    decreases items,
{
    if items.len() == 0 {
        Seq::empty()
    } else {
        seq![model_of(items[0])] + models_of_seq(items.drop_first())
    }
}

pub open spec fn entry_models_of(entries: Seq<(String, Json)>) -> Seq<(Seq<char>, JsonModel)>
    decreases entries,
{
    if entries.len() == 0 {
        Seq::empty()
    } else {
        seq![(entries[0].0@, model_of(entries[0].1))] + entry_models_of(entries.drop_first())
    }
}

/// The two sequence helpers agree with pointwise mapping.
pub proof fn lemma_models_of_seq(items: Seq<Json>)
    ensures
        models_of_seq(items).len() == items.len(),
        forall|i: int| 0 <= i < items.len() ==> models_of_seq(items)[i] == model_of(items[i]),
    decreases items,
{
    if items.len() > 0 {
        lemma_models_of_seq(items.drop_first());
    }
}

pub proof fn lemma_entry_models_of(entries: Seq<(String, Json)>)
    ensures
        entry_models_of(entries).len() == entries.len(),
        forall|i: int| 0 <= i < entries.len() ==> entry_models_of(entries)[i] == (
            entries[i].0@,
            model_of(entries[i].1),
        ),
    decreases entries,
{
    if entries.len() > 0 {
        lemma_entry_models_of(entries.drop_first());
    }
}

impl View for Json {
    type V = JsonModel;

    open spec fn view(&self) -> JsonModel {
        model_of(*self)
    }
}

impl Clone for Json {
    #[verifier::loop_isolation(false)]
    fn clone(&self) -> (r: Json)
        ensures
            r@ == self@,
        decreases self,
    {
        match self {
            Json::Null => Json::Null,
            Json::Bool(b) => Json::Bool(*b),
            Json::Num(t) => Json::Num(t.clone()),
            Json::Str(s) => Json::Str(s.clone()),
            Json::Arr(items) => {
                let mut out: Vec<Json> = Vec::new();
                let mut i: usize = 0;
                while i < items.len()
                    invariant
                        i <= items.len(),
                        out@.len() == i as int,
                        forall|k: int| 0 <= k < i ==> out@[k]@ == items@[k]@,
                    decreases items.len() - i,
                {
                    out.push(items[i].clone());
                    i = i + 1;
                }
                proof {
                    lemma_models_of_seq(out@);
                    lemma_models_of_seq(items@);
                    assert(models_of_seq(out@) =~= models_of_seq(items@));
                }
                Json::Arr(out)
            },
            Json::Obj(entries) => {
                let mut out: Vec<(String, Json)> = Vec::new();
                let mut i: usize = 0;
                while i < entries.len()
                    invariant
                        i <= entries.len(),
                        out@.len() == i as int,
                        forall|k: int| 0 <= k < i ==> out@[k].0@ == entries@[k].0@ && out@[k].1@
                            == entries@[k].1@,
                    decreases entries.len() - i,
                {
                    let kv = &entries[i];
                    out.push((kv.0.clone(), kv.1.clone()));
                    i = i + 1;
                }
                proof {
                    lemma_entry_models_of(out@);
                    lemma_entry_models_of(entries@);
                    assert(entry_models_of(out@) =~= entry_models_of(entries@));
                }
                Json::Obj(out)
            },
        }
    }
}

} // verus!
