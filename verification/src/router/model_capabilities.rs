//! Capability source for routing. Per-model capabilities resolve with the
//! precedence `user config > catalog > conservative default`.

use crate::assoc::{find_named, named, put_named};
use vstd::prelude::*;

verus! {

pub const DEFAULT_MODELS_DEV_URL: &'static str = "https://models.dev/api.json";

/// What a model can do, as far as it is known.
#[derive(Debug, Clone, Copy, PartialEq, Eq, Structural)]
pub struct ModelCapabilities {
    pub context_window: Option<u32>,
    pub supports_vision: Option<bool>,
}

/// A model nothing is known of.
pub open spec fn unknown_capabilities() -> ModelCapabilities {
    ModelCapabilities { context_window: None, supports_vision: None }
}

impl Default for ModelCapabilities {
    fn default() -> (r: Self)
        ensures
            r == unknown_capabilities(),
    {
        ModelCapabilities { context_window: None, supports_vision: None }
    }
}

impl ModelCapabilities {
    /// These capabilities, with what is not known of them taken from `other`.
    pub open spec fn filled(self, other: ModelCapabilities) -> ModelCapabilities {
        ModelCapabilities {
            context_window: if self.context_window is Some {
                self.context_window
            } else {
                other.context_window
            },
            supports_vision: if self.supports_vision is Some {
                self.supports_vision
            } else {
                other.supports_vision
            },
        }
    }

    /// These capabilities, with what is not known of them taken from `other`.
    pub fn fill_from(&self, other: &ModelCapabilities) -> (r: ModelCapabilities)
        ensures
            r == self.filled(*other),
    {
        ModelCapabilities {
            context_window: if self.context_window.is_some() {
                self.context_window
            } else {
                other.context_window
            },
            supports_vision: if self.supports_vision.is_some() {
                self.supports_vision
            } else {
                other.supports_vision
            },
        }
    }

    /// The size of the context in tokens, where it is known.
    pub fn window(&self) -> (r: Option<u32>)
        ensures
            r == self.context_window,
    {
        self.context_window
    }

    /// Whether the model is known to read images.
    pub fn vision(&self) -> (b: bool)
        ensures
            b == (self.supports_vision == Some(true)),
    {
        match self.supports_vision {
            Some(v) => v,
            None => false,
        }
    }
}

/// Overrides by canonical model id, and the catalog.
pub struct ModelCapabilitiesService {
    pub user_overrides: Vec<(String, ModelCapabilities)>,
    pub catalog: Vec<(String, ModelCapabilities)>,
}

/// What the user says of a model: under its canonical id, else under the
/// given one.
pub open spec fn override_for(
    overrides: Seq<(String, ModelCapabilities)>,
    model: Seq<char>,
    canonical: Option<Seq<char>>,
) -> Option<ModelCapabilities> {
    match canonical {
        Some(key) => match named(overrides, key) {
            Some(u) => Some(u),
            None => named(overrides, model),
        },
        None => named(overrides, model),
    }
}

/// What is known of a model: what the user says, what the catalog says where
/// the user does not, and nothing otherwise.
pub open spec fn resolved(
    overrides: Seq<(String, ModelCapabilities)>,
    catalog: Seq<(String, ModelCapabilities)>,
    model: Seq<char>,
    canonical: Option<Seq<char>>,
) -> ModelCapabilities {
    let known = match named(catalog, model) {
        Some(c) => c,
        None => unknown_capabilities(),
    };
    match override_for(overrides, model, canonical) {
        Some(u) => u.filled(known),
        None => known,
    }
}

impl ModelCapabilitiesService {
    /// A service for the configured models, with the catalog that was fetched
    /// at the start. Where the fetch failed the catalog is empty, and models
    /// resolve to what the user says or to the conservative default.
    pub fn new(
        models: &Vec<ConfiguredModel>,
        fetched: Option<Vec<(String, ModelCapabilities)>>,
    ) -> (r: Self)
        ensures
            forall|key: Seq<char>| #[trigger]
                named(r.user_overrides@, key) == said_of(models@, key),
            match fetched {
                Some(catalog) => r.catalog == catalog,
                None => r.catalog@.len() == 0,
            },
    {
        let catalog: Vec<(String, ModelCapabilities)> = match fetched {
            Some(fresh) => fresh,
            None => Vec::new(),
        };
        ModelCapabilitiesService { user_overrides: user_overrides(models), catalog }
    }

    /// The catalog was fetched anew. Where the fetch failed the previous one is kept.
    pub fn on_refresh(&mut self, fetched: Option<Vec<(String, ModelCapabilities)>>)
        ensures
            final(self).user_overrides == old(self).user_overrides,
            final(self).catalog == (match fetched {
                Some(fresh) => fresh,
                None => old(self).catalog,
            }),
    {
        if let Some(fresh) = fetched {
            self.catalog = fresh;
        }
    }

    /// A service with an explicit catalog.
    pub fn from_catalog(
        catalog: Vec<(String, ModelCapabilities)>,
        user_overrides: Vec<(String, ModelCapabilities)>,
    ) -> (r: Self)
        ensures
            r.catalog == catalog,
            r.user_overrides == user_overrides,
    {
        ModelCapabilitiesService { user_overrides, catalog }
    }

    /// Resolve capabilities for a model, applying
    /// `user override > catalog > conservative default`. `canonical` is the
    /// model's canonical id, where it has one.
    pub fn capabilities_for(&self, model: &str, canonical: Option<&str>) -> (r: ModelCapabilities)
        ensures
            r == resolved(
                self.user_overrides@,
                self.catalog@,
                model@,
                match canonical {
                    Some(k) => Some(k@),
                    None => None,
                },
            ),
    {
        let known: ModelCapabilities = match find_named(&self.catalog, model) {
            Some(c) => *c,
            None => ModelCapabilities::default(),
        };
        let mut user: Option<&ModelCapabilities> = match canonical {
            Some(key) => find_named(&self.user_overrides, key),
            None => None,
        };
        if user.is_none() {
            user = find_named(&self.user_overrides, model);
        }
        match user {
            Some(u) => u.fill_from(&known),
            None => known,
        }
    }
}

/// A configured model, its canonical id where it has one, and what the user
/// says of it.
#[derive(Debug)]
pub struct ConfiguredModel {
    pub name: String,
    pub model: Option<String>,
    pub canonical: Option<String>,
    pub capabilities: Option<ModelCapabilities>,
}

/// The id that a configured model is known by: the canonical one, else the
/// model's, else the provider's name.
pub open spec fn configured_key(m: ConfiguredModel) -> Seq<char> {
    match m.canonical {
        Some(c) => c@,
        None => match m.model {
            Some(n) => n@,
            None => m.name@,
        },
    }
}

/// What the user says under an id: the last word counts.
pub open spec fn said_of(models: Seq<ConfiguredModel>, key: Seq<char>) -> Option<ModelCapabilities>
    decreases models.len(),
{
    if models.len() == 0 {
        None
    } else {
        let m = models.last();
        if m.capabilities is Some && configured_key(m) == key {
            m.capabilities
        } else {
            said_of(models.drop_last(), key)
        }
    }
}

/// What the user says of models, by id.
pub fn user_overrides(models: &Vec<ConfiguredModel>) -> (r: Vec<(String, ModelCapabilities)>)
    ensures
        forall|key: Seq<char>| #[trigger] named(r@, key) == said_of(models@, key),
{
    let mut r: Vec<(String, ModelCapabilities)> = Vec::new();
    let mut i: usize = 0;
    assert(models@.take(0) =~= Seq::empty());
    while i < models.len()
        invariant
            i <= models@.len(),
            forall|key: Seq<char>| #[trigger]
                named(r@, key) == said_of(models@.take(i as int), key),
        decreases models.len() - i,
    {
        proof {
            let cut = models@.take(i + 1);
            assert(cut.last() == models@[i as int]);
            assert(cut.drop_last() =~= models@.take(i as int));
        }
        if let Some(caps) = models[i].capabilities {
            let key: String = match &models[i].canonical {
                Some(c) => c.clone(),
                None => match &models[i].model {
                    Some(n) => n.clone(),
                    None => models[i].name.clone(),
                },
            };
            put_named(&mut r, key, caps);
        }
        i += 1;
    }
    assert(models@.take(i as int) =~= models@);
    r
}

/// The url of the catalog.
pub fn catalog_url(configured: Option<&str>) -> (r: String)
    ensures
        r@ == (match configured {
            Some(u) => u@,
            None => DEFAULT_MODELS_DEV_URL@,
        }),
{
    match configured {
        Some(u) => u.to_owned(),
        None => DEFAULT_MODELS_DEV_URL.to_owned(),
    }
}

/// What the user says of a model is never changed by the catalog.
pub proof fn override_wins(user: ModelCapabilities, catalog: ModelCapabilities)
    ensures
        user.context_window is Some ==> user.filled(catalog).context_window
            == user.context_window,
        user.supports_vision is Some ==> user.filled(catalog).supports_vision
            == user.supports_vision,
        user.filled(unknown_capabilities()) == user,
{
}

/// A capability is the user's word where there is one, under the canonical id
/// before the given one; else the catalog's; else unknown.
pub proof fn capabilities_are_resolved_in_order(
    overrides: Seq<(String, ModelCapabilities)>,
    catalog: Seq<(String, ModelCapabilities)>,
    model: Seq<char>,
    canonical: Seq<char>,
)
    ensures
        ({
            let r = resolved(overrides, catalog, model, Some(canonical));
            let user = named(overrides, canonical);
            let plain = named(overrides, model);
            let listed = named(catalog, model);
            &&& user is Some && user->0.context_window is Some ==> r.context_window
                == user->0.context_window
            &&& user is Some && user->0.supports_vision is Some ==> r.supports_vision
                == user->0.supports_vision
            &&& user is None && plain is Some && plain->0.context_window is Some
                ==> r.context_window == plain->0.context_window
            &&& user is None && plain is Some && plain->0.supports_vision is Some
                ==> r.supports_vision == plain->0.supports_vision
            &&& user is None && plain is None && listed is Some ==> r == listed->0
            &&& user is None && plain is None && listed is None ==> r.context_window is None
                && r.supports_vision is None
            &&& user is Some && user->0.context_window is None && listed is Some
                ==> r.context_window == listed->0.context_window
            &&& user is Some && user->0.supports_vision is None && listed is Some
                ==> r.supports_vision == listed->0.supports_vision
        }),
        named(overrides, model) is None ==> resolved(overrides, catalog, model, None) == (match named(
            catalog,
            model,
        ) {
            Some(c) => c,
            None => unknown_capabilities(),
        }),
        named(overrides, model) is Some && named(overrides, model)->0.supports_vision is Some
            ==> resolved(overrides, catalog, model, None).supports_vision == named(
            overrides,
            model,
        )->0.supports_vision,
        unknown_capabilities().context_window is None,
        unknown_capabilities().supports_vision is None,
{
}

/// What is configured of a model is said under its canonical id, else under
/// its own, else under the provider's name; a later word replaces an earlier
/// one, and a model of which nothing is said changes nothing.
pub proof fn last_word_on_a_model_counts(
    models: Seq<ConfiguredModel>,
    m: ConfiguredModel,
    key: Seq<char>,
)
    ensures
        said_of(Seq::empty(), key) is None,
        m.capabilities is None ==> said_of(models.push(m), key) == said_of(models, key),
        m.capabilities is Some && m.canonical is Some ==> said_of(models.push(m), m.canonical->0@)
            == m.capabilities,
        m.capabilities is Some && m.canonical is None && m.model is Some ==> said_of(
            models.push(m),
            m.model->0@,
        ) == m.capabilities,
        m.capabilities is Some && m.canonical is None && m.model is None ==> said_of(
            models.push(m),
            m.name@,
        ) == m.capabilities,
        m.canonical is Some && key != m.canonical->0@ ==> said_of(models.push(m), key) == said_of(
            models,
            key,
        ),
{
    assert(models.push(m).drop_last() =~= models);
}

} // verus!
