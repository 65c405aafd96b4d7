//! Inference endpoints.

use vstd::prelude::*;

use crate::protocol::ids::EndpointName;
use crate::text;

verus! {

broadcast use vstd::string::group_string_axioms;

/// An inference endpoint. The key is stored, or read from an environment variable.
#[derive(Debug, PartialEq, Eq)]
pub struct Endpoint {
    pub name: EndpointName,
    pub base_url: String,
    pub api_key: Option<String>,
    pub api_key_env: Option<String>,
    pub notes: Option<String>,
    pub created_at: String,
}

/// The mathematical value of an [`Endpoint`].
#[verifier::ext_equal]
pub struct EndpointView {
    pub name: Seq<char>,
    pub base_url: Seq<char>,
    pub api_key: Option<Seq<char>>,
    pub api_key_env: Option<Seq<char>>,
    pub notes: Option<Seq<char>>,
    pub created_at: Seq<char>,
}

impl Endpoint {
    pub open spec fn view(&self) -> EndpointView {
        EndpointView {
            name: self.name@,
            base_url: self.base_url@,
            api_key: text::opt_view(self.api_key),
            api_key_env: text::opt_view(self.api_key_env),
            notes: text::opt_view(self.notes),
            created_at: self.created_at@,
        }
    }
}

impl Clone for Endpoint {
    fn clone(&self) -> (r: Self)
        ensures
            r == *self,
    {
        Endpoint {
            name: self.name.clone(),
            base_url: self.base_url.clone(),
            api_key: text::clone_opt(&self.api_key),
            api_key_env: text::clone_opt(&self.api_key_env),
            notes: text::clone_opt(&self.notes),
            created_at: self.created_at.clone(),
        }
    }
}

} // verus!
