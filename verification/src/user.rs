//! Per-user configuration: the completion settings, spend accounting values,
//! and window overrides carried in a user's persisted record.

use vstd::prelude::*;
use vstd::string::{StrSliceExecFns, StringExecFns};

use crate::conversation::ConversationManager;
use crate::store::empty_log;
use crate::text::str_equal;
use crate::{DEFAULT_CACHE_DURATION, DEFAULT_CHAR_LIMIT};

verus! {

/// Per-user window overrides: how long a log lives and how many characters a
/// window may hold.
#[derive(Clone, Copy, Debug)]
pub struct Conversation {
    pub cache_duration: Option<i64>,
    pub char_limit: Option<usize>,
}

/// A user's completion configuration.
#[derive(Clone, Debug)]
pub struct OpenaiConfig {
    pub api_key: Option<String>,
    pub model: String,
    pub prompt: Option<String>,
    pub max_message_length: i32,
    pub max_total_tokens_spent: i64,
    pub max_tokens: u16,
    pub conversation: Option<Conversation>,
}

/// A user's completion state: configuration plus cumulative spend.
#[derive(Clone, Debug)]
pub struct Openai {
    pub config: OpenaiConfig,
    pub spent_tokens: i64,
}

/// One configured user.
#[derive(Debug)]
pub struct User {
    pub id: i64,
    pub business_id: String,
    pub openai: Openai,
}

/// A credential shown with all but its last five characters hidden.
pub open spec fn masked_key(k: Seq<char>) -> Seq<char> {
    seq!['.', '.', '.'] + k.subrange(k.len() - 5, k.len() as int)
}

/// The model names the provider adapter accepts.
pub open spec fn valid_model(m: Seq<char>) -> bool {
    m == ("gpt-3.5-turbo")@ || m == ("gpt-4-turbo")@ || m == ("gpt-4o")@
}

fn clone_opt_string(o: &Option<String>) -> (r: Option<String>)
    ensures
        r == *o,
{
    match o {
        Some(s) => Some(s.clone()),
        None => None,
    }
}

impl OpenaiConfig {
    /// The effective time-to-live: the user's override, or the default.
    pub open spec fn spec_cache_duration(&self) -> i64 {
        match self.conversation {
            Some(c) => match c.cache_duration {
                Some(v) => v,
                None => DEFAULT_CACHE_DURATION,
            },
            None => DEFAULT_CACHE_DURATION,
        }
    }

    /// The effective character budget: the user's override, or the default.
    pub open spec fn spec_char_limit(&self) -> usize {
        match self.conversation {
            Some(c) => match c.char_limit {
                Some(v) => v,
                None => DEFAULT_CHAR_LIMIT,
            },
            None => DEFAULT_CHAR_LIMIT,
        }
    }

    /// The override kept for the character budget, if any.
    pub open spec fn spec_char_limit_override(&self) -> Option<usize> {
        match self.conversation {
            Some(c) => c.char_limit,
            None => None,
        }
    }

    /// The override kept for the time-to-live, if any.
    pub open spec fn spec_cache_duration_override(&self) -> Option<i64> {
        match self.conversation {
            Some(c) => c.cache_duration,
            None => None,
        }
    }

    /// The configuration invariant: the effective time-to-live respects the
    /// hour bound.
    pub open spec fn well_formed(&self) -> bool {
        self.spec_cache_duration() <= 3600
    }

    /// An owned copy, field for field.
    pub fn duplicate(&self) -> (r: OpenaiConfig)
        ensures
            r == *self,
    {
        OpenaiConfig {
            api_key: clone_opt_string(&self.api_key),
            model: self.model.clone(),
            prompt: clone_opt_string(&self.prompt),
            max_message_length: self.max_message_length,
            max_total_tokens_spent: self.max_total_tokens_spent,
            max_tokens: self.max_tokens,
            conversation: self.conversation,
        }
    }

    /// The credential, masked down to its last five characters.
    pub fn get_api_key(&self) -> (r: Option<String>)
        ensures
            match self.api_key {
                Some(k) => r matches Some(s) && s@ == (if k@.len() > 5 {
                    masked_key(k@)
                } else {
                    k@
                }),
                None => r is None,
            },
    {
        match &self.api_key {
            Some(k) => {
                let n = k.as_str().unicode_len();
                if n > 5 {
                    let tail = k.as_str().substring_char(n - 5, n);
                    let mut out = String::from_str("...");
                    out.append(tail);
                    proof {
                        reveal_strlit("...");
                        assert(("...")@ =~= seq!['.', '.', '.']);
                        assert(out@ =~= masked_key(k@));
                    }
                    Some(out)
                } else {
                    Some(k.clone())
                }
            },
            None => None,
        }
    }

    /// The credential as configured.
    pub fn get_real_api_key(&self) -> (r: Option<String>)
        ensures
            r == self.api_key,
    {
        clone_opt_string(&self.api_key)
    }

    /// The configured model name.
    pub fn get_model(&self) -> (r: &str)
        ensures
            r@ == self.model@,
    {
        self.model.as_str()
    }

    /// The configured system instruction, if any.
    pub fn get_prompt(&self) -> (r: Option<&str>)
        ensures
            match self.prompt {
                Some(p) => r matches Some(q) && q@ == p@,
                None => r is None,
            },
    {
        match &self.prompt {
            Some(p) => Some(p.as_str()),
            None => None,
        }
    }

    /// The longest inbound message the budget gate lets through.
    pub fn get_max_message_length(&self) -> (r: i32)
        ensures
            r == self.max_message_length,
    {
        self.max_message_length
    }

    /// The spend ceiling after which replies stop silently.
    pub fn get_max_total_tokens_spent(&self) -> (r: i64)
        ensures
            r == self.max_total_tokens_spent,
    {
        self.max_total_tokens_spent
    }

    /// The per-completion token cap handed to the provider.
    pub fn get_max_tokens(&self) -> (r: u16)
        ensures
            r == self.max_tokens,
    {
        self.max_tokens
    }

    /// Stores the credential exactly when the caller's validity probe proved
    /// it; a disproved or unanswerable probe leaves the configuration as it
    /// was.
    pub fn set_api_key(&mut self, api_key: String, probe: Result<bool, String>) -> (r: Result<
        (),
        &'static str,
    >)
        ensures
            probe matches Ok(b) ==> (if b {
                r is Ok && *final(self) == (OpenaiConfig { api_key: Some(api_key), ..*old(self) })
            } else {
                r matches Err(e) && e@ == ("Invalid API key")@ && *final(self) == *old(self)
            }),
            probe is Err ==> (r matches Err(e) && e@ == ("Failed check API key")@ && *final(self)
                == *old(self)),
    {
        match probe {
            Ok(true) => {
                self.api_key = Some(api_key);
                Ok(())
            },
            Ok(false) => Err("Invalid API key"),
            Err(_) => Err("Failed check API key"),
        }
    }

    /// Accepts one of the recognized model names and rejects the rest.
    pub fn set_model(&mut self, model: String) -> (r: Result<(), &'static str>)
        ensures
            valid_model(model@) ==> (r is Ok && *final(self) == (OpenaiConfig {
                model,
                ..*old(self)
            })),
            !valid_model(model@) ==> (r matches Err(e) && e@ == (
            "Invalid model. Allowed values are: gpt-3.5-turbo, gpt-4-turbo, gpt-4o")@
                && *final(self) == *old(self)),
    {
        if str_equal(model.as_str(), "gpt-3.5-turbo") || str_equal(model.as_str(), "gpt-4-turbo")
            || str_equal(model.as_str(), "gpt-4o") {
            self.model = model;
            Ok(())
        } else {
            Err("Invalid model. Allowed values are: gpt-3.5-turbo, gpt-4-turbo, gpt-4o")
        }
    }

    /// Accepts a system instruction of at most 4000 characters.
    pub fn set_prompt(&mut self, prompt: String) -> (r: Result<(), &'static str>)
        ensures
            prompt@.len() <= 4000 ==> (r is Ok && *final(self) == (OpenaiConfig {
                prompt: Some(prompt),
                ..*old(self)
            })),
            prompt@.len() > 4000 ==> (r matches Err(e) && e@ == (
            "Prompt is too long. Maximum length is 4000 characters")@ && *final(self)
                == *old(self)),
    {
        if prompt.as_str().unicode_len() <= 4000 {
            self.prompt = Some(prompt);
            Ok(())
        } else {
            Err("Prompt is too long. Maximum length is 4000 characters")
        }
    }

    /// Accepts a message-length bound of at most 4000.
    pub fn set_max_message_length(&mut self, length: i32) -> (r: Result<(), &'static str>)
        ensures
            length <= 4000 ==> (r is Ok && *final(self) == (OpenaiConfig {
                max_message_length: length,
                ..*old(self)
            })),
            length > 4000 ==> (r matches Err(e) && e@ == (
            "Max message length is too long. Maximum is 4000")@ && *final(self) == *old(self)),
    {
        if length <= 4000 {
            self.max_message_length = length;
            Ok(())
        } else {
            Err("Max message length is too long. Maximum is 4000")
        }
    }

    /// Replaces the spend ceiling.
    pub fn set_max_total_tokens_spent(&mut self, tokens: i64)
        ensures
            *final(self) == (OpenaiConfig { max_total_tokens_spent: tokens, ..*old(self) }),
    {
        self.max_total_tokens_spent = tokens;
    }

    /// Replaces the per-completion token cap.
    pub fn set_max_tokens(&mut self, tokens: u16)
        ensures
            *final(self) == (OpenaiConfig { max_tokens: tokens, ..*old(self) }),
    {
        self.max_tokens = tokens;
    }

    /// Accepts a time-to-live of at most one hour, keeping any
    /// character-budget override already configured.
    pub fn set_cache_duration(&mut self, value: i64) -> (r: Result<(), &'static str>)
        ensures
            value > 3600 ==> (r matches Err(e) && e@ == ("Maximum duration is 3,600 seconds")@
                && *final(self) == *old(self)),
            value <= 3600 ==> (r is Ok && *final(self) == (OpenaiConfig {
                conversation: Some(
                    Conversation {
                        cache_duration: Some(value),
                        char_limit: old(self).spec_char_limit_override(),
                    },
                ),
                ..*old(self)
            })),
    {
        if value > 3600 {
            return Err("Maximum duration is 3,600 seconds");
        }
        let keep_limit = match &self.conversation {
            Some(c) => c.char_limit,
            None => None,
        };
        self.conversation = Some(Conversation { cache_duration: Some(value), char_limit: keep_limit });
        Ok(())
    }

    /// Accepts a character budget of at most ten thousand, keeping any
    /// time-to-live override already configured.
    pub fn set_char_limit(&mut self, value: usize) -> (r: Result<(), &'static str>)
        ensures
            value > 10_000 ==> (r matches Err(e) && e@ == ("Maximum limit is 10,000 symbols")@
                && *final(self) == *old(self)),
            value <= 10_000 ==> (r is Ok && *final(self) == (OpenaiConfig {
                conversation: Some(
                    Conversation {
                        cache_duration: old(self).spec_cache_duration_override(),
                        char_limit: Some(value),
                    },
                ),
                ..*old(self)
            })),
    {
        if value > 10_000 {
            return Err("Maximum limit is 10,000 symbols");
        }
        let keep_duration = match &self.conversation {
            Some(c) => c.cache_duration,
            None => None,
        };
        self.conversation = Some(
            Conversation { cache_duration: keep_duration, char_limit: Some(value) },
        );
        Ok(())
    }

    /// The effective time-to-live, in seconds.
    pub fn get_cache_duration(&self) -> (r: i64)
        ensures
            r == self.spec_cache_duration(),
    {
        match &self.conversation {
            Some(c) => match c.cache_duration {
                Some(v) => v,
                None => DEFAULT_CACHE_DURATION,
            },
            None => DEFAULT_CACHE_DURATION,
        }
    }

    /// The effective character budget.
    pub fn get_char_limit(&self) -> (r: usize)
        ensures
            r == self.spec_char_limit(),
    {
        match &self.conversation {
            Some(c) => match c.char_limit {
                Some(v) => v,
                None => DEFAULT_CHAR_LIMIT,
            },
            None => DEFAULT_CHAR_LIMIT,
        }
    }

    /// A fresh conversation engine configured with this user's overrides.
    pub fn get_manager(&self) -> (m: ConversationManager)
        requires
            self.well_formed(),
        ensures
            m.well_formed(),
            m.cache_duration == self.spec_cache_duration(),
            m.char_limit == self.spec_char_limit(),
            forall|key: i64| m.spec_log(key) == empty_log(),
    {
        let mut manager = ConversationManager::default();
        let ghost base = manager;
        match &self.conversation {
            Some(c) => {
                match c.cache_duration {
                    Some(cd) => {
                        manager = manager.with_cache_duration(cd);
                    },
                    None => {},
                }
                match c.char_limit {
                    Some(cl) => {
                        manager = manager.with_char_limit(cl);
                    },
                    None => {},
                }
            },
            None => {},
        }
        proof {
            assert forall|key: i64| manager.spec_log(key) == empty_log() by {
                assert(base.spec_log(key) == empty_log());
                assert(manager.store == base.store);
            }
        }
        manager
    }
}

impl Default for OpenaiConfig {
    /// The system defaults: no credential, the cheapest recognized model, no
    /// system instruction, and the stock budgets.
    fn default() -> (r: OpenaiConfig)
        ensures
            r.api_key is None,
            r.model@ == ("gpt-3.5-turbo")@,
            r.prompt is None,
            r.max_message_length == 4000,
            r.max_total_tokens_spent == 1_000_000,
            r.max_tokens == 300,
            r.conversation is None,
            r.well_formed(),
    {
        OpenaiConfig {
            api_key: None,
            model: String::from_str("gpt-3.5-turbo"),
            prompt: None,
            max_message_length: 4000,
            max_total_tokens_spent: 1_000_000,
            max_tokens: 300,
            conversation: None,
        }
    }
}

impl Openai {
    /// The same state with another configuration.
    pub fn with_config(self, config: OpenaiConfig) -> (r: Openai)
        ensures
            r.config == config,
            r.spent_tokens == self.spent_tokens,
    {
        Openai { config, ..self }
    }

    /// The same state with another cumulative spend.
    pub fn with_spent_tokens(self, spent_tokens: i64) -> (r: Openai)
        ensures
            r.config == self.config,
            r.spent_tokens == spent_tokens,
    {
        Openai { spent_tokens, ..self }
    }
}

impl Default for Openai {
    /// The default configuration with nothing spent yet.
    fn default() -> (r: Openai)
        ensures
            r.config.api_key is None,
            r.config.model@ == ("gpt-3.5-turbo")@,
            r.config.prompt is None,
            r.config.max_message_length == 4000,
            r.config.max_total_tokens_spent == 1_000_000,
            r.config.max_tokens == 300,
            r.config.conversation is None,
            r.spent_tokens == 0,
    {
        Openai { config: OpenaiConfig::default(), spent_tokens: 0 }
    }
}

impl User {
    /// A user assembled from its record fields.
    pub fn new(id: i64, business_id: String, openai: Openai) -> (u: User)
        ensures
            u.id == id,
            u.business_id == business_id,
            u.openai == openai,
    {
        User { id, business_id, openai }
    }

    /// An owned copy of the user's completion configuration.
    pub fn get_config(&self) -> (r: OpenaiConfig)
        ensures
            r == self.openai.config,
    {
        self.openai.config.duplicate()
    }

    /// The user's cumulative completion spend.
    pub fn get_openai_spent_tokens(&self) -> (r: i64)
        ensures
            r == self.openai.spent_tokens,
    {
        self.openai.spent_tokens
    }

    /// The user's record identifier.
    pub fn get_id(&self) -> (r: i64)
        ensures
            r == self.id,
    {
        self.id
    }
}

} // verus!
