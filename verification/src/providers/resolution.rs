//! Which endpoint, model and key a run of an agent uses.

use vstd::prelude::*;

use crate::db::agent_groups::AgentGroup;
use crate::db::endpoints::Endpoint;
use crate::protocol::ids::EndpointName;
use crate::text;

verus! {

broadcast use vstd::string::group_string_axioms;

/// All that it takes to call an inference endpoint.
#[derive(Debug, PartialEq, Eq)]
pub struct ResolvedInference {
    pub base_url: String,
    pub api_key: Option<String>,
    pub model: String,
}

/// The mathematical value of a [`ResolvedInference`].
#[verifier::ext_equal]
pub struct InferenceView {
    pub base_url: Seq<char>,
    pub api_key: Option<Seq<char>>,
    pub model: Seq<char>,
}

impl ResolvedInference {
    pub open spec fn view(&self) -> InferenceView {
        InferenceView {
            base_url: self.base_url@,
            api_key: text::opt_view(self.api_key),
            model: self.model@,
        }
    }
}

impl Clone for ResolvedInference {
    fn clone(&self) -> (r: Self)
        ensures
            r == *self,
    {
        ResolvedInference {
            base_url: self.base_url.clone(),
            api_key: text::clone_opt(&self.api_key),
            model: self.model.clone(),
        }
    }
}

/// Why a run has no endpoint to call.
#[derive(Debug, PartialEq, Eq)]
pub enum ResolutionError {
    NoEndpoint { group: String },
    UnknownEndpoint(EndpointName),
    NoModel { group: String },
    MissingKeyEnv { endpoint: EndpointName, var: String },
}

/// The mathematical value of a [`ResolutionError`].
#[verifier::ext_equal]
pub enum ResolutionErrorView {
    NoEndpoint { group: Seq<char> },
    UnknownEndpoint(Seq<char>),
    NoModel { group: Seq<char> },
    MissingKeyEnv { endpoint: Seq<char>, var: Seq<char> },
}

/// How an endpoint's name is shown in an error.
pub open spec fn named(name: Seq<char>) -> Seq<char> {
    "EndpointName("@ + text::quoted(name) + ")"@
}

impl ResolutionError {
    pub open spec fn view(&self) -> ResolutionErrorView {
        match self {
            ResolutionError::NoEndpoint { group } => ResolutionErrorView::NoEndpoint {
                group: group@,
            },
            ResolutionError::UnknownEndpoint(name) => ResolutionErrorView::UnknownEndpoint(name@),
            ResolutionError::NoModel { group } => ResolutionErrorView::NoModel { group: group@ },
            ResolutionError::MissingKeyEnv { endpoint, var } =>
                ResolutionErrorView::MissingKeyEnv { endpoint: endpoint@, var: var@ },
        }
    }

    /// The error as one line of text.
    pub fn message(&self) -> (r: String)
        ensures
            r@ == (match self@ {
                ResolutionErrorView::NoEndpoint { group } => "group "@ + text::quoted(group)
                    + " has no endpoint configured and no CLAW_DEFAULT_ENDPOINT is set"@,
                ResolutionErrorView::UnknownEndpoint(name) => "endpoint "@ + named(name)
                    + " does not exist"@,
                ResolutionErrorView::NoModel { group } => "group "@ + text::quoted(group)
                    + " has no model configured and no CLAW_DEFAULT_MODEL is set"@,
                ResolutionErrorView::MissingKeyEnv { endpoint, var } => "endpoint "@ + named(
                    endpoint,
                ) + " names api_key_env "@ + text::quoted(var) + " but the variable is not set"@,
            }),
    {
        match self {
            ResolutionError::NoEndpoint { group } => text::concat3(
                "group ",
                &text::quote(group),
                " has no endpoint configured and no CLAW_DEFAULT_ENDPOINT is set",
            ),
            ResolutionError::UnknownEndpoint(name) => text::concat3(
                "endpoint ",
                &show_name(name),
                " does not exist",
            ),
            ResolutionError::NoModel { group } => text::concat3(
                "group ",
                &text::quote(group),
                " has no model configured and no CLAW_DEFAULT_MODEL is set",
            ),
            ResolutionError::MissingKeyEnv { endpoint, var } => {
                let mut out = text::concat3("endpoint ", &show_name(endpoint), " names api_key_env ");
                out.append(&text::quote(var));
                out.append(" but the variable is not set");
                out
            },
        }
    }
}

fn show_name(name: &EndpointName) -> (r: String)
    ensures
        r@ == named(name@),
{
    text::concat3("EndpointName(", &text::quote(name.as_str()), ")")
}

/// The first of two that is there.
pub open spec fn first_of(own: Option<Seq<char>>, default: Option<Seq<char>>) -> Option<Seq<char>> {
    match own {
        Some(v) => Some(v),
        None => default,
    }
}

/// The name behind an optional endpoint.
pub open spec fn name_of(name: Option<EndpointName>) -> Option<Seq<char>> {
    match name {
        Some(v) => Some(v@),
        None => None,
    }
}

/// The endpoint of a group: its own, or the default of the instance.
#[must_use]
pub fn endpoint_name_for(group: &AgentGroup, default_endpoint: Option<&str>) -> (r: Option<
    EndpointName,
>)
    ensures
        name_of(r) == first_of(group@.endpoint, text::opt_str_view(default_endpoint)),
{
    match &group.endpoint {
        Some(name) => Some(name.clone()),
        None => match default_endpoint {
            Some(name) => Some(EndpointName::new(name)),
            None => None,
        },
    }
}

/// The model of a group: its own, or the default of the instance.
#[must_use]
pub fn model_for(group: &AgentGroup, default_model: Option<&str>) -> (r: Option<String>)
    ensures
        text::opt_view(r) == first_of(group@.model, text::opt_str_view(default_model)),
{
    match &group.model {
        Some(model) => Some(model.clone()),
        None => match default_model {
            Some(model) => Some(model.to_owned()),
            None => None,
        },
    }
}

/// Whether a key is what an endpoint's settings and the environment give: a stored
/// key wins, a variable that is named must be set, and no key at all is fine.
pub open spec fn key_follows(
    stored: Option<Seq<char>>,
    var: Option<Seq<char>>,
    found: Option<Seq<char>>,
    r: Result<Option<Seq<char>>, ()>,
) -> bool {
    match (stored, var) {
        (Some(key), _) => r == Ok::<Option<Seq<char>>, ()>(Some(key)),
        (None, None) => r == Ok::<Option<Seq<char>>, ()>(None),
        (None, Some(_)) => match found {
            Some(key) => r == Ok::<Option<Seq<char>>, ()>(Some(key)),
            None => r is Err,
        },
    }
}

/// The key, without what is wrong.
pub open spec fn key_of(r: Result<Option<String>, ResolutionError>) -> Result<
    Option<Seq<char>>,
    (),
> {
    match r {
        Ok(key) => Ok(text::opt_view(key)),
        Err(_) => Err(()),
    }
}

/// The key of an endpoint, given what the environment holds under the name that
/// the endpoint refers to.
pub fn key_from(endpoint: &Endpoint, found: Option<String>) -> (r: Result<
    Option<String>,
    ResolutionError,
>)
    ensures
        key_follows(
            endpoint@.api_key,
            endpoint@.api_key_env,
            text::opt_view(found),
            key_of(r),
        ),
        r matches Err(e) ==> (endpoint@.api_key_env matches Some(var) && e@
            == (ResolutionErrorView::MissingKeyEnv { endpoint: endpoint@.name, var })),
{
    match &endpoint.api_key {
        Some(key) => {
            return Ok(Some(key.clone()));
        },
        None => {},
    }
    match &endpoint.api_key_env {
        None => Ok(None),
        Some(var) => match found {
            Some(key) => Ok(Some(key)),
            None => Err(
                ResolutionError::MissingKeyEnv {
                    endpoint: endpoint.name.clone(),
                    var: var.clone(),
                },
            ),
        },
    }
}

/// The key of an endpoint. `env` tells the value of an environment variable.
pub fn api_key_for<F: Fn(&str) -> Option<String>>(endpoint: &Endpoint, env: F) -> (r: Result<
    Option<String>,
    ResolutionError,
>)
    requires
        forall|var: &str| call_requires(env, (var,)),
    ensures
        endpoint.api_key is Some || endpoint.api_key_env is None ==> key_follows(
            endpoint@.api_key,
            endpoint@.api_key_env,
            None,
            key_of(r),
        ),
        endpoint.api_key is None && endpoint.api_key_env is Some ==> exists|
            var: &str,
            found: Option<String>,
        |
            #[trigger] call_ensures(env, (var,), found) && Some(var@) == endpoint@.api_key_env
                && key_follows(None, Some(var@), text::opt_view(found), key_of(r)),
        r matches Err(e) ==> (endpoint@.api_key_env matches Some(var) && e@
            == (ResolutionErrorView::MissingKeyEnv { endpoint: endpoint@.name, var })),
{
    if endpoint.api_key.is_some() {
        return key_from(endpoint, None);
    }
    match &endpoint.api_key_env {
        None => key_from(endpoint, None),
        Some(var) => {
            let name: &str = var.as_str();
            let found = env(name);
            let ghost seen = found;
            let r = key_from(endpoint, found);
            assert(call_ensures(env, (name,), seen));
            r
        },
    }
}

/// What a run calls: the endpoint, the model and the key of its group, or the
/// first of them that is missing. `stored` is the endpoint of that name.
pub open spec fn inference_of(
    group: Seq<char>,
    endpoint: Option<Seq<char>>,
    stored: Option<(Seq<char>, Result<Option<Seq<char>>, ResolutionErrorView>)>,
    model: Option<Seq<char>>,
) -> Result<InferenceView, ResolutionErrorView> {
    match endpoint {
        None => Err(ResolutionErrorView::NoEndpoint { group }),
        Some(name) => match stored {
            None => Err(ResolutionErrorView::UnknownEndpoint(name)),
            Some((base_url, key)) => match model {
                None => Err(ResolutionErrorView::NoModel { group }),
                Some(model) => match key {
                    Err(e) => Err(e),
                    Ok(api_key) => Ok(InferenceView { base_url, api_key, model }),
                },
            },
        },
    }
}

/// The key or what is wrong.
pub open spec fn key_result(r: Result<Option<String>, ResolutionError>) -> Result<
    Option<Seq<char>>,
    ResolutionErrorView,
> {
    match r {
        Ok(key) => Ok(text::opt_view(key)),
        Err(e) => Err(e@),
    }
}

/// What a run of a group calls. `stored` is the row of the endpoint that
/// [`endpoint_name_for`] names, and the key that it has.
pub fn resolve_inference(
    group: &AgentGroup,
    default_endpoint: Option<&str>,
    default_model: Option<&str>,
    stored: Option<(&Endpoint, Result<Option<String>, ResolutionError>)>,
) -> (r: Result<ResolvedInference, ResolutionError>)
    ensures
        ({
            let wanted = inference_of(
                group@.name,
                first_of(group@.endpoint, text::opt_str_view(default_endpoint)),
                match stored {
                    Some((endpoint, key)) => Some((endpoint@.base_url, key_result(key))),
                    None => None,
                },
                first_of(group@.model, text::opt_str_view(default_model)),
            );
            match r {
                Ok(v) => wanted == Ok::<InferenceView, ResolutionErrorView>(v@),
                Err(e) => wanted == Err::<InferenceView, ResolutionErrorView>(e@),
            }
        }),
{
    let name = match endpoint_name_for(group, default_endpoint) {
        Some(name) => name,
        None => {
            return Err(ResolutionError::NoEndpoint { group: group.name.clone() });
        },
    };
    let (endpoint, key) = match stored {
        Some(found) => found,
        None => {
            return Err(ResolutionError::UnknownEndpoint(name));
        },
    };
    let model = match model_for(group, default_model) {
        Some(model) => model,
        None => {
            return Err(ResolutionError::NoModel { group: group.name.clone() });
        },
    };
    match key {
        Err(e) => Err(e),
        Ok(api_key) => Ok(
            ResolvedInference { base_url: endpoint.base_url.clone(), api_key, model },
        ),
    }
}

// ---------------------------------------------------------------------------
// Laws

/// The settings of a group win over the defaults of the instance, which fill in
/// what the group leaves open.
pub proof fn group_settings_win(own: Option<Seq<char>>, default: Option<Seq<char>>)
    ensures
        own is Some ==> first_of(own, default) == own,
        own is None ==> first_of(own, default) == default,
{
}

/// Every missing link has an error of its own, in the order of the chain.
pub proof fn missing_links_are_told_apart(
    group: Seq<char>,
    name: Seq<char>,
    base_url: Seq<char>,
    key: Result<Option<Seq<char>>, ResolutionErrorView>,
    model: Option<Seq<char>>,
)
    ensures
        inference_of(group, None, None, model) == Err::<InferenceView, ResolutionErrorView>(
            ResolutionErrorView::NoEndpoint { group },
        ),
        inference_of(group, Some(name), None, model) == Err::<InferenceView, ResolutionErrorView>(
            ResolutionErrorView::UnknownEndpoint(name),
        ),
        inference_of(group, Some(name), Some((base_url, key)), None) == Err::<
            InferenceView,
            ResolutionErrorView,
        >(ResolutionErrorView::NoModel { group }),
        model is Some && key is Ok ==> inference_of(
            group,
            Some(name),
            Some((base_url, key)),
            model,
        ) is Ok,
{
}

/// A run uses the address and the key of its endpoint, and the model that was chosen.
pub proof fn resolved_runs_use_their_endpoint(
    group: Seq<char>,
    name: Seq<char>,
    base_url: Seq<char>,
    key: Option<Seq<char>>,
    model: Seq<char>,
)
    ensures
        inference_of(group, Some(name), Some((base_url, Ok(key))), Some(model)) matches Ok(used)
            && used.base_url == base_url && used.api_key == key && used.model == model,
{
}

/// A stored key is used before that of the environment; without either there is none,
/// and a variable that is named must be set.
pub fn keys_are_found_in_order(endpoint: &Endpoint, found: Option<String>) -> (r: Result<
    Option<String>,
    ResolutionError,
>)
    ensures
        endpoint@.api_key matches Some(key) ==> (r matches Ok(used) && text::opt_view(used) == Some(
            key,
        )),
        endpoint@.api_key is None && endpoint@.api_key_env is None ==> (r matches Ok(used) && used
            is None),
        endpoint@.api_key is None && endpoint@.api_key_env is Some && found is Some ==> (
        r matches Ok(used) && text::opt_view(used) == text::opt_view(found)),
        endpoint@.api_key is None && endpoint@.api_key_env is Some && found is None ==> r is Err,
{
    key_from(endpoint, found)
}

} // verus!
