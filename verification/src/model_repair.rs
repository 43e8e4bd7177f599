//! Bringing a configured model and its provider together.

use crate::order::{self, comes_before};
use crate::text::{concat3, same_text};
use vstd::prelude::*;

verus! {

/// The provider of the DeepSeek models.
pub const DEEPSEEK_PROVIDER_ID: &'static str = "deepseek";

/// The model that is taken where the provider of the DeepSeek models has none configured.
pub const DEFAULT_DEEPSEEK_MODEL: &'static str = "deepseek-flash";

/// The provider that counts where none is configured.
pub const DEFAULT_PROVIDER_ID: &'static str = "openai";

/// A value of a TOML document.
#[verifier::external_type_specification]
#[verifier::external_body]
pub struct ExTomlValue(toml::Value);

/// The entries of a TOML table whose values are strings; a value that is no table has none.
pub uninterp spec fn toml_strings(value: toml::Value) -> Map<Seq<char>, Seq<char>>;

/// The entries of a TOML table whose values are tables, each with the keys of that table in its
/// order; a value that is no table has none.
pub uninterp spec fn toml_tables(value: toml::Value) -> Map<Seq<char>, Seq<Seq<char>>>;

/// Calls `toml::Value::get` and `toml::Value::as_str`: the string that a table holds under a key.
#[verifier::external_body]
fn toml_string(value: &toml::Value, key: &str) -> (r: Option<String>)
    ensures
        match r {
            Some(text) => toml_strings(*value).contains_key(key@) && toml_strings(*value)[key@]
                == text@,
            None => !toml_strings(*value).contains_key(key@),
        },
{
    value.get(key).and_then(toml::Value::as_str).map(str::to_owned)
}

/// Calls `toml::Value::get`, `toml::Value::as_table` and `toml::Table::keys`: the keys of the
/// table that a table holds under a key.
#[verifier::external_body]
fn toml_table_keys(value: &toml::Value, key: &str) -> (r: Option<Vec<String>>)
    ensures
        match r {
            Some(keys) => toml_tables(*value).contains_key(key@) && toml_tables(*value)[key@]
                == keys.deep_view(),
            None => !toml_tables(*value).contains_key(key@),
        },
{
    value.get(key).and_then(toml::Value::as_table).map(|table| table.keys().cloned().collect())
}

/// A model and a provider that go together.
#[derive(Debug, PartialEq, Eq)]
pub struct ModelProviderCorrection {
    pub model: String,
    pub model_provider: String,
}

impl DeepView for ModelProviderCorrection {
    type V = (Seq<char>, Seq<char>);

    open spec fn deep_view(&self) -> Self::V {
        (self.model@, self.model_provider@)
    }
}

/// The model that counts: the configured one, else the default one of the provider of the
/// DeepSeek models.
pub open spec fn model_of(model: Option<Seq<char>>, provider: Seq<char>) -> Option<Seq<char>> {
    if model is Some {
        model
    } else if provider == DEEPSEEK_PROVIDER_ID@ {
        Some(DEFAULT_DEEPSEEK_MODEL@)
    } else {
        None
    }
}

/// Whether an id is the first one, in the order of texts, of those that are not the provider of
/// the DeepSeek models.
pub open spec fn first_other_provider(ids: Seq<Seq<char>>, id: Seq<char>) -> bool {
    &&& ids.contains(id)
    &&& id != DEEPSEEK_PROVIDER_ID@
    &&& forall|i: int|
        0 <= i < ids.len() && (#[trigger] ids[i]) != DEEPSEEK_PROVIDER_ID@ ==> ids[i] == id
            || order::text_before(id, ids[i])
}

/// What a configuration needs. `deepseek` says whether the model that counts is a DeepSeek model.
pub open spec fn corrected(
    model: Option<Seq<char>>,
    deepseek: bool,
    provider: Seq<char>,
    ids: Seq<Seq<char>>,
    r: Result<Option<(Seq<char>, Seq<char>)>, Seq<char>>,
) -> bool {
    match model_of(model, provider) {
        None => r == Ok::<Option<(Seq<char>, Seq<char>)>, Seq<char>>(None),
        Some(name) => if deepseek {
            if provider == DEEPSEEK_PROVIDER_ID@ {
                r == Ok::<Option<(Seq<char>, Seq<char>)>, Seq<char>>(
                    if model is None {
                        Some((name, provider))
                    } else {
                        None
                    },
                )
            } else if ids.contains(DEEPSEEK_PROVIDER_ID@) {
                r == Ok::<Option<(Seq<char>, Seq<char>)>, Seq<char>>(
                    Some((name, DEEPSEEK_PROVIDER_ID@)),
                )
            } else {
                r == Err::<Option<(Seq<char>, Seq<char>)>, Seq<char>>(
                    "Model provider `"@ + DEEPSEEK_PROVIDER_ID@ + "` required by model `"@ + name
                        + "` was not found"@,
                )
            }
        } else if provider == DEEPSEEK_PROVIDER_ID@ {
            match r {
                Ok(Some((same, other))) => same == name && first_other_provider(ids, other),
                Ok(None) => false,
                Err(message) => message
                    == "No non-DeepSeek model provider is configured for model `"@ + name + "`"@
                    && forall|i: int|
                    0 <= i < ids.len() ==> (#[trigger] ids[i]) == DEEPSEEK_PROVIDER_ID@,
            }
        } else {
            r == Ok::<Option<(Seq<char>, Seq<char>)>, Seq<char>>(None)
        },
    }
}

/// The model of a result.
pub open spec fn result_model(r: Result<Option<ModelProviderCorrection>, String>) -> Result<
    Option<(Seq<char>, Seq<char>)>,
    Seq<char>,
> {
    match r {
        Ok(Some(correction)) => Ok(Some(correction.deep_view())),
        Ok(None) => Ok(None),
        Err(message) => Err(message@),
    }
}

fn first_other(ids: &Vec<String>) -> (r: Option<String>)
    ensures
        match r {
            Some(id) => first_other_provider(ids.deep_view(), id@),
            None => forall|i: int|
                0 <= i < ids@.len() ==> (#[trigger] ids.deep_view()[i]) == DEEPSEEK_PROVIDER_ID@,
        },
{
    let mut found: Option<usize> = None;
    let mut i: usize = 0;
    while i < ids.len()
        invariant
            i <= ids@.len(),
            match found {
                Some(f) => f < i && ids@[f as int]@ != DEEPSEEK_PROVIDER_ID@ && forall|k: int|
                    0 <= k < i && (#[trigger] ids@[k])@ != DEEPSEEK_PROVIDER_ID@ ==> ids@[k]@
                        == ids@[f as int]@ || order::text_before(ids@[f as int]@, ids@[k]@),
                None => forall|k: int|
                    0 <= k < i ==> (#[trigger] ids@[k])@ == DEEPSEEK_PROVIDER_ID@,
            },
        decreases ids@.len() - i,
    {
        if !same_text(ids[i].as_str(), DEEPSEEK_PROVIDER_ID) {
            match found {
                None => {
                    found = Some(i);
                },
                Some(f) => {
                    if comes_before(ids[i].as_str(), ids[f].as_str()) {
                        proof {
                            assert forall|k: int|
                                0 <= k < i && (#[trigger] ids@[k])@
                                    != DEEPSEEK_PROVIDER_ID@ implies ids@[k]@ == ids@[i as int]@
                                || order::text_before(ids@[i as int]@, ids@[k]@) by {
                                if ids@[k]@ != ids@[f as int]@ {
                                    order::text_order_transitive(
                                        ids@[i as int]@,
                                        ids@[f as int]@,
                                        ids@[k]@,
                                    );
                                }
                            }
                        }
                        found = Some(i);
                    } else {
                        proof {
                            order::text_order_total(ids@[f as int]@, ids@[i as int]@);
                        }
                    }
                },
            }
        }
        i += 1;
    }
    match found {
        Some(f) => {
            proof {
                let all = ids.deep_view();
                assert(all[f as int] == ids@[f as int]@);
                assert forall|k: int|
                    0 <= k < all.len() && (#[trigger] all[k]) != DEEPSEEK_PROVIDER_ID@ implies
                all[k] == all[f as int] || order::text_before(all[f as int], all[k]) by {
                    assert(ids@[k]@ == all[k]);
                }
            }
            Some(ids[f].clone())
        },
        None => None,
    }
}

fn contains_deepseek(ids: &Vec<String>) -> (r: bool)
    ensures
        r == ids.deep_view().contains(DEEPSEEK_PROVIDER_ID@),
{
    let mut i: usize = 0;
    while i < ids.len()
        invariant
            i <= ids@.len(),
            forall|k: int| 0 <= k < i ==> (#[trigger] ids@[k])@ != DEEPSEEK_PROVIDER_ID@,
        decreases ids@.len() - i,
    {
        if same_text(ids[i].as_str(), DEEPSEEK_PROVIDER_ID) {
            assert(ids.deep_view()[i as int] == DEEPSEEK_PROVIDER_ID@);
            return true;
        }
        i += 1;
    }
    proof {
        let all = ids.deep_view();
        if all.contains(DEEPSEEK_PROVIDER_ID@) {
            let k = choose|k: int| 0 <= k < all.len() && all[k] == DEEPSEEK_PROVIDER_ID@;
            assert(ids@[k]@ == DEEPSEEK_PROVIDER_ID@);
        }
    }
    false
}

/// The model that counts.
pub fn effective_model(model: &Option<String>, model_provider: &str) -> (r: Option<String>)
    ensures
        r.deep_view() == model_of(model.deep_view(), model_provider@),
{
    match model {
        Some(model) => Some(model.clone()),
        None => if same_text(model_provider, DEEPSEEK_PROVIDER_ID) {
            Some(DEFAULT_DEEPSEEK_MODEL.to_owned())
        } else {
            None
        },
    }
}

/// What a configuration needs so that the model and its provider go together; nothing where they
/// do. `is_deepseek_model` says whether the model that counts is a DeepSeek model.
pub fn correction(
    model: &Option<String>,
    is_deepseek_model: bool,
    model_provider: &str,
    configured_provider_ids: &Vec<String>,
) -> (r: Result<Option<ModelProviderCorrection>, String>)
    ensures
        corrected(
            model.deep_view(),
            is_deepseek_model,
            model_provider@,
            configured_provider_ids.deep_view(),
            result_model(r),
        ),
{
    let missing = model.is_none();
    let name = match effective_model(model, model_provider) {
        Some(name) => name,
        None => {
            return Ok(None);
        },
    };
    let provider_is_deepseek = same_text(model_provider, DEEPSEEK_PROVIDER_ID);
    if is_deepseek_model {
        if provider_is_deepseek {
            if missing {
                return Ok(
                    Some(
                        ModelProviderCorrection {
                            model: name,
                            model_provider: model_provider.to_owned(),
                        },
                    ),
                );
            }
            return Ok(None);
        }
        if !contains_deepseek(configured_provider_ids) {
            let mut message = concat3(
                "Model provider `",
                DEEPSEEK_PROVIDER_ID,
                "` required by model `",
            );
            message.append(name.as_str());
            message.append("` was not found");
            return Err(message);
        }
        Ok(
            Some(
                ModelProviderCorrection {
                    model: name,
                    model_provider: DEEPSEEK_PROVIDER_ID.to_owned(),
                },
            ),
        )
    } else if provider_is_deepseek {
        match first_other(configured_provider_ids) {
            Some(model_provider) => Ok(
                Some(ModelProviderCorrection { model: name, model_provider }),
            ),
            None => Err(
                concat3(
                    "No non-DeepSeek model provider is configured for model `",
                    name.as_str(),
                    "`",
                ),
            ),
        }
    } else {
        Ok(None)
    }
}

/// The model, the provider and the provider ids that a user's configuration holds.
pub open spec fn configured(config: toml::Value) -> (
    Option<Seq<char>>,
    Seq<char>,
    Seq<Seq<char>>,
) {
    (
        if toml_strings(config).contains_key("model"@) {
            Some(toml_strings(config)["model"@])
        } else {
            None
        },
        if toml_strings(config).contains_key("model_provider"@) {
            toml_strings(config)["model_provider"@]
        } else {
            DEFAULT_PROVIDER_ID@
        },
        if toml_tables(config).contains_key("model_providers"@) {
            toml_tables(config)["model_providers"@]
        } else {
            Seq::empty()
        },
    )
}

fn read_config(config: &toml::Value) -> (r: (Option<String>, String, Vec<String>))
    ensures
        (r.0.deep_view(), r.1@, r.2.deep_view()) == configured(*config),
{
    let model = toml_string(config, "model");
    let model_provider = match toml_string(config, "model_provider") {
        Some(provider) => provider,
        None => DEFAULT_PROVIDER_ID.to_owned(),
    };
    let ids = match toml_table_keys(config, "model_providers") {
        Some(ids) => ids,
        None => {
            let ids: Vec<String> = Vec::new();
            assert(ids.deep_view() =~= Seq::empty());
            ids
        },
    };
    (model, model_provider, ids)
}

/// The ids of the providers that a user's configuration holds.
pub fn user_provider_ids(config: &toml::Value) -> (r: Vec<String>)
    ensures
        r.deep_view() == configured(*config).2,
{
    read_config(config).2
}

/// The model that counts by a user's configuration.
pub fn configured_model(config: &toml::Value) -> (r: Option<String>)
    ensures
        r.deep_view() == model_of(configured(*config).0, configured(*config).1),
{
    let (model, model_provider, _) = read_config(config);
    effective_model(&model, model_provider.as_str())
}

/// What a user's configuration needs so that the model and its provider go together; nothing
/// where there is none. `is_deepseek_model` says whether the model that counts is a DeepSeek
/// model.
pub fn user_config_correction(config: Option<&toml::Value>, is_deepseek_model: bool) -> (r: Result<
    Option<ModelProviderCorrection>,
    String,
>)
    ensures
        match config {
            None => result_model(r) == Ok::<Option<(Seq<char>, Seq<char>)>, Seq<char>>(None),
            Some(config) => corrected(
                configured(*config).0,
                is_deepseek_model,
                configured(*config).1,
                configured(*config).2,
                result_model(r),
            ),
        },
{
    match config {
        None => Ok(None),
        Some(config) => {
            let (model, model_provider, ids) = read_config(config);
            correction(&model, is_deepseek_model, model_provider.as_str(), &ids)
        },
    }
}

/// The order in which the providers are configured does not matter to the correction of a model
/// that is no DeepSeek model.
pub proof fn provider_order_does_not_matter(
    ids: Seq<Seq<char>>,
    others: Seq<Seq<char>>,
    a: Seq<char>,
    b: Seq<char>,
)
    requires
        ids.to_set() == others.to_set(),
        first_other_provider(ids, a),
        first_other_provider(others, b),
    ensures
        a == b,
{
    assert(ids.to_set().contains(a));
    assert(others.to_set().contains(b));
    assert(others.contains(a));
    assert(ids.contains(b));
    let i = choose|i: int| 0 <= i < others.len() && others[i] == a;
    let j = choose|j: int| 0 <= j < ids.len() && ids[j] == b;
    assert(others[i] == a && ids[j] == b);
    if a != b {
        order::text_order_transitive(a, b, a);
        order::text_order_irreflexive(a);
    }
}

/// A correction keeps the model that counts, names a configured provider or the one that is
/// there, and makes up a configuration that needs no more correction.
pub proof fn corrections_settle_the_configuration(
    model: Option<Seq<char>>,
    deepseek: bool,
    provider: Seq<char>,
    ids: Seq<Seq<char>>,
    name: Seq<char>,
    other: Seq<char>,
    again: Result<Option<(Seq<char>, Seq<char>)>, Seq<char>>,
)
    requires
        corrected(
            model,
            deepseek,
            provider,
            ids,
            Ok::<Option<(Seq<char>, Seq<char>)>, Seq<char>>(Some((name, other))),
        ),
        corrected(Some(name), deepseek, other, ids, again),
    ensures
        model is Some ==> model == Some(name),
        model is None ==> name == DEFAULT_DEEPSEEK_MODEL@,
        ids.contains(other) || other == provider,
        deepseek <==> other == DEEPSEEK_PROVIDER_ID@,
        again == Ok::<Option<(Seq<char>, Seq<char>)>, Seq<char>>(None),
{
}

/// A model and a provider that go together are left alone, and so is a configuration without a
/// model that counts. Others are corrected or refused: a DeepSeek model needs its provider, and
/// another one a provider that is not that.
pub proof fn only_mismatches_are_corrected(
    model: Option<Seq<char>>,
    deepseek: bool,
    provider: Seq<char>,
    ids: Seq<Seq<char>>,
    r: Result<Option<(Seq<char>, Seq<char>)>, Seq<char>>,
)
    requires
        corrected(model, deepseek, provider, ids, r),
    ensures
        model is None && provider != DEEPSEEK_PROVIDER_ID@ ==> r == Ok::<
            Option<(Seq<char>, Seq<char>)>,
            Seq<char>,
        >(None),
        model is Some && (deepseek <==> provider == DEEPSEEK_PROVIDER_ID@) ==> r == Ok::<
            Option<(Seq<char>, Seq<char>)>,
            Seq<char>,
        >(None),
        model is Some && !(deepseek <==> provider == DEEPSEEK_PROVIDER_ID@) ==> {
            &&& r != Ok::<Option<(Seq<char>, Seq<char>)>, Seq<char>>(None)
            &&& deepseek ==> (r is Ok <==> ids.contains(DEEPSEEK_PROVIDER_ID@))
            &&& !deepseek ==> (r is Err <==> forall|i: int|
                0 <= i < ids.len() ==> (#[trigger] ids[i]) == DEEPSEEK_PROVIDER_ID@)
        },
{
    if model is Some && !deepseek && provider == DEEPSEEK_PROVIDER_ID@ {
        if let Ok(Some((same, other))) = r {
            let i = choose|i: int| 0 <= i < ids.len() && ids[i] == other;
            assert(ids[i] != DEEPSEEK_PROVIDER_ID@);
        }
    }
}

/// A model that is no DeepSeek model goes, where it has to leave the provider of those, to the
/// first of the other configured providers in the order of their ids; and each such provider is
/// the one that it goes to.
pub proof fn other_models_go_to_the_first_other_provider(
    name: Seq<char>,
    ids: Seq<Seq<char>>,
    other: Seq<char>,
    i: int,
)
    requires
        0 <= i < ids.len(),
    ensures
        corrected(
            Some(name),
            false,
            DEEPSEEK_PROVIDER_ID@,
            ids,
            Ok::<Option<(Seq<char>, Seq<char>)>, Seq<char>>(Some((name, other))),
        ) ==> {
            &&& ids.contains(other)
            &&& other != DEEPSEEK_PROVIDER_ID@
            &&& ids[i] != DEEPSEEK_PROVIDER_ID@ ==> !order::text_before(ids[i], other)
        },
        ids[i] != DEEPSEEK_PROVIDER_ID@ && (forall|k: int|
            0 <= k < ids.len() && (#[trigger] ids[k]) != DEEPSEEK_PROVIDER_ID@
                ==> !order::text_before(ids[k], ids[i])) ==> corrected(
            Some(name),
            false,
            DEEPSEEK_PROVIDER_ID@,
            ids,
            Ok::<Option<(Seq<char>, Seq<char>)>, Seq<char>>(Some((name, ids[i]))),
        ),
{
    order::text_order_irreflexive(ids[i]);
    order::text_order_irreflexive(other);
    if order::text_before(ids[i], other) && order::text_before(other, ids[i]) {
        order::text_order_transitive(ids[i], other, ids[i]);
    }
    if ids[i] != DEEPSEEK_PROVIDER_ID@ && (forall|k: int|
        0 <= k < ids.len() && (#[trigger] ids[k]) != DEEPSEEK_PROVIDER_ID@ ==> !order::text_before(
            ids[k],
            ids[i],
        )) {
        assert forall|k: int|
            0 <= k < ids.len() && (#[trigger] ids[k]) != DEEPSEEK_PROVIDER_ID@ implies ids[k]
            == ids[i] || order::text_before(ids[i], ids[k]) by {
            order::text_order_total(ids[i], ids[k]);
        }
    }
}

/// A configuration says the model under `model`, the provider under `model_provider` and the
/// providers in the table `model_providers`. Without the second the default provider counts, and
/// without the third there are none.
pub proof fn configurations_are_read_by_their_keys(config: toml::Value)
    ensures
        ({
            let (model, provider, ids) = configured(config);
            &&& model is Some <==> toml_strings(config).contains_key("model"@)
            &&& model is Some ==> model->0 == toml_strings(config)["model"@]
            &&& toml_strings(config).contains_key("model_provider"@) ==> provider == toml_strings(
                config,
            )["model_provider"@]
            &&& !toml_strings(config).contains_key("model_provider"@) ==> provider == "openai"@
            &&& toml_tables(config).contains_key("model_providers"@) ==> ids == toml_tables(
                config,
            )["model_providers"@]
            &&& !toml_tables(config).contains_key("model_providers"@) ==> ids.len() == 0
        }),
        model_of(None, "deepseek"@) == Some("deepseek-flash"@),
{
}

} // verus!
