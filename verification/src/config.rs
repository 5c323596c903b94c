//! Model routing configuration: which backend, with which credentials,
//! serves each model name.
use vstd::prelude::*;

use crate::error::AppError;
use crate::text::{concat, text_eq};

verus! {

/// One routable model: its name, its backend credentials and its base URL.
#[derive(Debug)]
pub struct ModelConfig {
    pub name: String,
    pub app_key: String,
    pub app_sign: String,
    pub base_url: String,
}

/// The gateway configuration.
#[derive(Debug)]
pub struct AppConfig {
    pub models: Vec<ModelConfig>,
    pub port: u16,
}

/// The port used when the configuration names none.
pub fn default_port() -> (p: u16)
    ensures
        p == 3000,
{
    3000
}

/// The index of the first model in `models` whose name is `name`.
pub open spec fn first_named(models: Seq<ModelConfig>, name: Seq<char>) -> Option<int>
    decreases models.len(),
{
    if models.len() == 0 {
        None
    } else {
        match first_named(models.drop_last(), name) {
            Some(i) => Some(i),
            None => if models.last().name@ == name {
                Some(models.len() - 1)
            } else {
                None
            },
        }
    }
}

/// `first_named` finds the first model of that name, and only misses when
/// no model has it.
pub proof fn lemma_first_named(models: Seq<ModelConfig>, name: Seq<char>)
    ensures
        match first_named(models, name) {
            Some(i) => 0 <= i < models.len() && models[i].name@ == name && forall|j: int|
                0 <= j < i ==> models[j].name@ != name,
            None => forall|j: int| 0 <= j < models.len() ==> models[j].name@ != name,
        },
    decreases models.len(),
{
    if models.len() > 0 {
        let init = models.drop_last();
        lemma_first_named(init, name);
        assert forall|j: int| 0 <= j < init.len() implies init[j] == models[j] by {}
    }
}

/// The message of the error for an unknown model name.
pub open spec fn unknown_model_message(name: Seq<char>) -> Seq<char> {
    "Unknown model: "@ + name
}

impl AppConfig {
    /// The first configured model named exactly `name` (case-sensitive).
    pub fn find_model(&self, name: &str) -> (r: Option<&ModelConfig>)
        ensures
            r == (match first_named(self.models@, name@) {
                Some(i) => Some(&self.models@[i]),
                None => None,
            }),
    {
        let mut i: usize = 0;
        while i < self.models.len()
            invariant
                i <= self.models@.len(),
                first_named(self.models@.take(i as int), name@) is None,
            decreases self.models.len() - i,
        {
            assert(self.models@.take(i + 1).drop_last() =~= self.models@.take(i as int));
            if text_eq(self.models[i].name.as_str(), name) {
                proof {
                    lemma_prefix_first_named(self.models@, name@, i as int + 1);
                }
                return Some(&self.models[i]);
            }
            i = i + 1;
        }
        assert(self.models@.take(self.models@.len() as int) =~= self.models@);
        None
    }

    /// Like `find_model`, but an unknown name is an invalid request.
    pub fn require_model(&self, name: &str) -> (r: Result<&ModelConfig, AppError>)
        ensures
            match first_named(self.models@, name@) {
                Some(i) => r == Ok::<&ModelConfig, AppError>(&self.models@[i]),
                None => r matches Err(AppError::InvalidRequestError(m)) && m@
                    == unknown_model_message(name@),
            },
    {
        match self.find_model(name) {
            Some(m) => Ok(m),
            None => Err(AppError::InvalidRequestError(concat("Unknown model: ", name))),
        }
    }
}

/// When a prefix of `models` already holds the name, the whole sequence
/// finds it at the same place.
proof fn lemma_prefix_first_named(models: Seq<ModelConfig>, name: Seq<char>, k: int)
    requires
        0 <= k <= models.len(),
        first_named(models.take(k), name) is Some,
    ensures
        first_named(models, name) == first_named(models.take(k), name),
    decreases models.len() - k,
{
    if k < models.len() {
        assert(models.take(k + 1).drop_last() =~= models.take(k));
        lemma_prefix_first_named(models, name, k + 1);
    } else {
        assert(models.take(k) =~= models);
    }
}

} // verus!
