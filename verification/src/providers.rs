//! The list of the model providers to choose from.

use crate::model_repair::{self, user_provider_ids};
use crate::order::{self, sort_texts};
use crate::text::{concat3, same_text};
use vstd::prelude::*;

verus! {

/// What is shown before a session has started.
pub const PROVIDER_SELECTION_DISABLED: &'static str =
    "Provider selection is disabled until startup completes.";

/// What is shown where the user has no provider configured.
pub const NO_PROVIDERS_CONFIGURED: &'static str =
    "No model providers are configured in config.toml.";

/// A model provider.
#[derive(Debug)]
pub struct ModelProvider {
    pub id: String,
    pub name: String,
    pub base_url: Option<String>,
}

/// The model of a provider.
pub ghost struct ProviderModel {
    pub id: Seq<char>,
    pub name: Seq<char>,
    pub base_url: Option<Seq<char>>,
}

impl DeepView for ModelProvider {
    type V = ProviderModel;

    open spec fn deep_view(&self) -> Self::V {
        ProviderModel { id: self.id@, name: self.name@, base_url: self.base_url.deep_view() }
    }
}

/// A provider to choose.
#[derive(Debug, PartialEq, Eq)]
pub struct ProviderItem {
    pub name: String,
    pub description: String,
    pub is_current: bool,
}

/// The model of a provider to choose.
pub ghost struct ProviderItemModel {
    pub name: Seq<char>,
    pub description: Seq<char>,
    pub is_current: bool,
}

impl DeepView for ProviderItem {
    type V = ProviderItemModel;

    open spec fn deep_view(&self) -> Self::V {
        ProviderItemModel {
            name: self.name@,
            description: self.description@,
            is_current: self.is_current,
        }
    }
}

/// What opens when the user wants to choose a provider.
#[derive(Debug, PartialEq, Eq)]
pub enum ProviderPopup {
    /// A message instead of a choice.
    Message(String),
    /// The providers to choose from.
    Choice(Vec<ProviderItem>),
}

/// The model of what opens.
pub ghost enum ProviderPopupModel {
    Message(Seq<char>),
    Choice(Seq<ProviderItemModel>),
}

impl DeepView for ProviderPopup {
    type V = ProviderPopupModel;

    open spec fn deep_view(&self) -> Self::V {
        match *self {
            ProviderPopup::Message(text) => ProviderPopupModel::Message(text@),
            ProviderPopup::Choice(items) => ProviderPopupModel::Choice(items.deep_view()),
        }
    }
}

/// The provider with an id.
pub open spec fn provider_of(providers: Seq<ProviderModel>, id: Seq<char>) -> Option<ProviderModel>
    decreases providers.len(),
{
    if providers.len() == 0 {
        None
    } else if providers[0].id == id {
        Some(providers[0])
    } else {
        provider_of(providers.subrange(1, providers.len() as int), id)
    }
}

/// How a provider is described: by its name, and by its address where it has one.
pub open spec fn described(provider: ProviderModel) -> Seq<char> {
    match provider.base_url {
        Some(url) => if url.len() > 0 {
            provider.name + " - "@ + url
        } else {
            provider.name
        },
        None => provider.name,
    }
}

/// The known ones of the providers with the given ids.
pub open spec fn items_of(
    ids: Seq<Seq<char>>,
    providers: Seq<ProviderModel>,
    current: Seq<char>,
) -> Seq<ProviderItemModel>
    decreases ids.len(),
{
    if ids.len() == 0 {
        Seq::empty()
    } else {
        let front = items_of(ids.drop_last(), providers, current);
        match provider_of(providers, ids.last()) {
            Some(provider) => front.push(
                ProviderItemModel {
                    name: ids.last(),
                    description: described(provider),
                    is_current: ids.last() == current,
                },
            ),
            None => front,
        }
    }
}

/// What opens when the user wants to choose a provider: the known ones of those that the user
/// configured, by their ids.
pub open spec fn popup_of(
    session_configured: bool,
    user_ids: Seq<Seq<char>>,
    providers: Seq<ProviderModel>,
    current: Seq<char>,
) -> ProviderPopupModel {
    if !session_configured {
        ProviderPopupModel::Message(PROVIDER_SELECTION_DISABLED@)
    } else {
        let items = items_of(order::sorted(user_ids), providers, current);
        if items.len() == 0 {
            ProviderPopupModel::Message(NO_PROVIDERS_CONFIGURED@)
        } else {
            ProviderPopupModel::Choice(items)
        }
    }
}

fn find_provider(providers: &Vec<ModelProvider>, id: &str) -> (r: Option<usize>)
    ensures
        match r {
            Some(i) => i < providers@.len() && provider_of(providers.deep_view(), id@) == Some(
                providers@[i as int].deep_view(),
            ),
            None => provider_of(providers.deep_view(), id@) is None,
        },
{
    let ghost all = providers.deep_view();
    let mut i: usize = 0;
    assert(all.subrange(0, all.len() as int) =~= all);
    while i < providers.len()
        invariant
            i <= providers@.len(),
            all == providers.deep_view(),
            provider_of(all, id@) == provider_of(all.subrange(i as int, all.len() as int), id@),
        decreases providers@.len() - i,
    {
        let ghost rest = all.subrange(i as int, all.len() as int);
        assert(rest[0] == providers@[i as int].deep_view());
        if same_text(providers[i].id.as_str(), id) {
            return Some(i);
        }
        assert(rest.subrange(1, rest.len() as int) =~= all.subrange(i + 1, all.len() as int));
        i += 1;
    }
    None
}

fn describe(provider: &ModelProvider) -> (r: String)
    ensures
        r@ == described(provider.deep_view()),
{
    match &provider.base_url {
        Some(url) => if !same_text(url.as_str(), "") {
            proof {
                reveal_strlit("");
                if url@.len() == 0 {
                    assert(url@ =~= ""@);
                }
            }
            concat3(provider.name.as_str(), " - ", url.as_str())
        } else {
            proof {
                reveal_strlit("");
            }
            provider.name.clone()
        },
        None => provider.name.clone(),
    }
}

/// What opens when the user wants to choose a provider. `user_ids` are the ids of the providers
/// that the user configured.
pub fn provider_popup(
    session_configured: bool,
    user_ids: &Vec<String>,
    providers: &Vec<ModelProvider>,
    current: &str,
) -> (r: ProviderPopup)
    ensures
        r.deep_view() == popup_of(
            session_configured,
            user_ids.deep_view(),
            providers.deep_view(),
            current@,
        ),
{
    if !session_configured {
        return ProviderPopup::Message(PROVIDER_SELECTION_DISABLED.to_owned());
    }
    let ids = sort_texts(user_ids);
    let ghost all = ids.deep_view();
    let mut items: Vec<ProviderItem> = Vec::new();
    let mut i: usize = 0;
    assert(all.take(0) =~= Seq::empty());
    assert(items.deep_view() =~= Seq::empty());
    while i < ids.len()
        invariant
            i <= ids@.len(),
            all == ids.deep_view(),
            items.deep_view() == items_of(all.take(i as int), providers.deep_view(), current@),
        decreases ids@.len() - i,
    {
        let ghost before = items.deep_view();
        assert(all.take(i + 1).drop_last() =~= all.take(i as int));
        assert(all.take(i + 1).last() == ids@[i as int]@);
        if let Some(at) = find_provider(providers, ids[i].as_str()) {
            let item = ProviderItem {
                name: ids[i].clone(),
                description: describe(&providers[at]),
                is_current: same_text(ids[i].as_str(), current),
            };
            items.push(item);
            assert(items.deep_view() =~= before.push(item.deep_view()));
        }
        i += 1;
    }
    assert(all.take(i as int) =~= all);
    assert(items.deep_view().len() == items@.len());
    if items.len() == 0 {
        ProviderPopup::Message(NO_PROVIDERS_CONFIGURED.to_owned())
    } else {
        ProviderPopup::Choice(items)
    }
}

/// What opens when the user wants to choose a provider, by the user's configuration.
pub fn open_provider_popup(
    session_configured: bool,
    config: Option<&toml::Value>,
    providers: &Vec<ModelProvider>,
    current: &str,
) -> (r: ProviderPopup)
    ensures
        r.deep_view() == popup_of(
            session_configured,
            match config {
                Some(config) => model_repair::configured(*config).2,
                None => Seq::empty(),
            },
            providers.deep_view(),
            current@,
        ),
{
    let ids = match config {
        Some(config) => user_provider_ids(config),
        None => {
            let ids: Vec<String> = Vec::new();
            assert(ids.deep_view() =~= Seq::empty());
            ids
        },
    };
    provider_popup(session_configured, &ids, providers, current)
}

proof fn lemma_items_are_known(
    ids: Seq<Seq<char>>,
    providers: Seq<ProviderModel>,
    current: Seq<char>,
    i: int,
)
    requires
        0 <= i < items_of(ids, providers, current).len(),
    ensures
        ids.contains(items_of(ids, providers, current)[i].name),
        provider_of(providers, items_of(ids, providers, current)[i].name) is Some,
    decreases ids.len(),
{
    let front = items_of(ids.drop_last(), providers, current);
    let name = items_of(ids, providers, current)[i].name;
    if i < front.len() {
        lemma_items_are_known(ids.drop_last(), providers, current, i);
        let k = choose|k: int| 0 <= k < ids.drop_last().len() && ids.drop_last()[k] == name;
        assert(ids[k] == name);
    } else {
        assert(ids[ids.len() - 1] == name);
    }
}

/// Only known providers that the user configured can be chosen.
pub proof fn only_user_providers_are_offered(
    user_ids: Seq<Seq<char>>,
    providers: Seq<ProviderModel>,
    current: Seq<char>,
    i: int,
)
    requires
        0 <= i < items_of(order::sorted(user_ids), providers, current).len(),
    ensures
        user_ids.contains(items_of(order::sorted(user_ids), providers, current)[i].name),
        provider_of(
            providers,
            items_of(order::sorted(user_ids), providers, current)[i].name,
        ) is Some,
{
    broadcast use vstd::seq_lib::group_to_multiset_ensures;

    let ids = order::sorted(user_ids);
    lemma_items_are_known(ids, providers, current, i);
    order::sorting_orders(user_ids);
    let name = items_of(ids, providers, current)[i].name;
    assert(ids.to_multiset().count(name) > 0);
    assert(user_ids.to_multiset().count(name) > 0);
}

proof fn lemma_known_is_listed(
    ids: Seq<Seq<char>>,
    providers: Seq<ProviderModel>,
    current: Seq<char>,
    k: int,
) -> (i: int)
    requires
        0 <= k < ids.len(),
        provider_of(providers, ids[k]) is Some,
    ensures
        0 <= i < items_of(ids, providers, current).len(),
        items_of(ids, providers, current)[i] == (ProviderItemModel {
            name: ids[k],
            description: described(provider_of(providers, ids[k])->0),
            is_current: ids[k] == current,
        }),
    decreases ids.len(),
{
    let front = items_of(ids.drop_last(), providers, current);
    if k < ids.len() - 1 {
        let i = lemma_known_is_listed(ids.drop_last(), providers, current, k);
        assert(items_of(ids, providers, current)[i] == front[i]);
        i
    } else {
        front.len() as int
    }
}

proof fn lemma_provider_of(providers: Seq<ProviderModel>, id: Seq<char>, p: int)
    requires
        0 <= p < providers.len(),
        providers[p].id == id,
        forall|k: int| 0 <= k < p ==> (#[trigger] providers[k]).id != id,
    ensures
        provider_of(providers, id) == Some(providers[p]),
    decreases providers.len(),
{
    if p > 0 {
        let rest = providers.subrange(1, providers.len() as int);
        assert(providers[0].id != id);
        assert forall|k: int| 0 <= k < p - 1 implies (#[trigger] rest[k]).id != id by {
            assert(providers[k + 1].id != id);
        }
        lemma_provider_of(rest, id, p - 1);
    }
}

/// Every known provider that the user configured can be chosen, under its id, described by its
/// name and its address, and marked where it is the current one.
pub proof fn user_providers_can_be_chosen(
    user_ids: Seq<Seq<char>>,
    providers: Seq<ProviderModel>,
    current: Seq<char>,
    id: Seq<char>,
    p: int,
) -> (i: int)
    requires
        user_ids.contains(id),
        0 <= p < providers.len(),
        providers[p].id == id,
        forall|k: int| 0 <= k < p ==> (#[trigger] providers[k]).id != id,
    ensures
        ({
            let popup = popup_of(true, user_ids, providers, current);
            &&& popup is Choice
            &&& 0 <= i < popup->Choice_0.len()
            &&& popup->Choice_0[i].name == id
            &&& popup->Choice_0[i].is_current <==> id == current
            &&& providers[p].base_url is None ==> popup->Choice_0[i].description
                == providers[p].name
            &&& providers[p].base_url matches Some(url) ==> popup->Choice_0[i].description == (
            if url.len() == 0 {
                providers[p].name
            } else {
                providers[p].name + " - "@ + url
            })
        }),
        popup_of(false, user_ids, providers, current) is Message,
{
    broadcast use vstd::seq_lib::group_to_multiset_ensures;

    let ids = order::sorted(user_ids);
    order::sorting_orders(user_ids);
    assert(user_ids.to_multiset().count(id) > 0);
    assert(ids.to_multiset().count(id) > 0);
    assert(ids.contains(id));
    let k = choose|k: int| 0 <= k < ids.len() && ids[k] == id;
    lemma_provider_of(providers, id, p);
    lemma_known_is_listed(ids, providers, current, k)
}

/// The providers stand in the order of their ids, and a choice is never empty.
pub proof fn providers_stand_in_order(
    user_ids: Seq<Seq<char>>,
    providers: Seq<ProviderModel>,
    current: Seq<char>,
    i: int,
    j: int,
)
    requires
        popup_of(true, user_ids, providers, current) is Choice,
    ensures
        popup_of(true, user_ids, providers, current)->Choice_0.len() > 0,
        0 <= i < j < popup_of(true, user_ids, providers, current)->Choice_0.len()
            ==> !order::text_before(
            popup_of(true, user_ids, providers, current)->Choice_0[j].name,
            popup_of(true, user_ids, providers, current)->Choice_0[i].name,
        ),
{
    let ids = order::sorted(user_ids);
    order::sorting_orders(user_ids);
    let items = items_of(ids, providers, current);
    if 0 <= i < j < items.len() {
        let (a, b) = lemma_item_places(ids, providers, current, i, j);
        order::text_order_total(ids[a], ids[b]);
        if order::text_before(ids[b], ids[a]) {
            assert(ids[a] == ids[b] || order::text_before(ids[a], ids[b]));
            if ids[a] != ids[b] {
                order::text_order_transitive(ids[a], ids[b], ids[a]);
            }
            order::text_order_irreflexive(ids[a]);
        }
    }
}

proof fn lemma_item_place(
    ids: Seq<Seq<char>>,
    providers: Seq<ProviderModel>,
    current: Seq<char>,
    i: int,
) -> (a: int)
    requires
        0 <= i < items_of(ids, providers, current).len(),
    ensures
        0 <= a < ids.len(),
        ids[a] == items_of(ids, providers, current)[i].name,
    decreases ids.len(),
{
    let front = items_of(ids.drop_last(), providers, current);
    if i < front.len() {
        lemma_item_place(ids.drop_last(), providers, current, i)
    } else {
        ids.len() - 1
    }
}

proof fn lemma_item_places(
    ids: Seq<Seq<char>>,
    providers: Seq<ProviderModel>,
    current: Seq<char>,
    i: int,
    j: int,
) -> (r: (int, int))
    requires
        0 <= i < j < items_of(ids, providers, current).len(),
    ensures
        0 <= r.0 < r.1 < ids.len(),
        ids[r.0] == items_of(ids, providers, current)[i].name,
        ids[r.1] == items_of(ids, providers, current)[j].name,
    decreases ids.len(),
{
    let front = items_of(ids.drop_last(), providers, current);
    if j < front.len() {
        lemma_item_places(ids.drop_last(), providers, current, i, j)
    } else {
        (lemma_item_place(ids.drop_last(), providers, current, i), ids.len() - 1)
    }
}

} // verus!
