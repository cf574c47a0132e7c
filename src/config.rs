//! The run's configuration: which model answers, how chatty the run is and
//! how many encyclopedia pages are read.
use vstd::prelude::*;
use vstd::string::StringSliceAdditionalSpecFns;
use crate::text::parse_u32;
use crate::text::unsigned_of;

verus! {

/// The backend that serves a model.
#[derive(Debug, Clone, Copy, PartialEq, Eq, Structural)]
pub enum LlmProvider {
    /// The hosted chat-completion service.
    OpenAI,
    /// A locally served model.
    Ollama,
}

/// The models that may be chosen.
#[derive(Debug, Clone, Copy, PartialEq, Eq, Structural)]
pub enum Model {
    Gpt4Turbo,
    Gpt35Turbo,
    Gpt4o,
    Llama3,
}

/// The model used when none, or an unknown one, is asked for.
pub open spec fn default_model() -> Model {
    Model::Gpt35Turbo
}

/// The name under which a model is requested.
pub open spec fn model_name(m: Model) -> Seq<char> {
    match m {
        Model::Gpt4Turbo => "gpt-4-turbo"@,
        Model::Gpt35Turbo => "gpt-3.5-turbo"@,
        Model::Gpt4o => "gpt-4o"@,
        Model::Llama3 => "llama3"@,
    }
}

/// The model with the given name, if it is one of the allowed ones.
pub open spec fn model_named(s: Seq<char>) -> Option<Model> {
    if s == "gpt-4-turbo"@ {
        Some(Model::Gpt4Turbo)
    } else if s == "gpt-3.5-turbo"@ {
        Some(Model::Gpt35Turbo)
    } else if s == "gpt-4o"@ {
        Some(Model::Gpt4o)
    } else if s == "llama3"@ {
        Some(Model::Llama3)
    } else {
        None
    }
}

/// The backend that serves a model.
pub open spec fn provider_of(m: Model) -> LlmProvider {
    match m {
        Model::Llama3 => LlmProvider::Ollama,
        _ => LlmProvider::OpenAI,
    }
}

impl Model {
    /// The model named `name`, or `None` where the name is not allowed.
    pub fn from_name(name: &str) -> (r: Option<Model>)
        ensures
            r == model_named(name@),
    {
        let s = name.to_owned();
        if s == "gpt-4-turbo".to_owned() {
            Some(Model::Gpt4Turbo)
        } else if s == "gpt-3.5-turbo".to_owned() {
            Some(Model::Gpt35Turbo)
        } else if s == "gpt-4o".to_owned() {
            Some(Model::Gpt4o)
        } else if s == "llama3".to_owned() {
            Some(Model::Llama3)
        } else {
            None
        }
    }

    /// The name under which the model is requested.
    pub fn name(&self) -> (r: String)
        ensures
            r@ == model_name(*self),
    {
        match self {
            Model::Gpt4Turbo => "gpt-4-turbo".to_owned(),
            Model::Gpt35Turbo => "gpt-3.5-turbo".to_owned(),
            Model::Gpt4o => "gpt-4o".to_owned(),
            Model::Llama3 => "llama3".to_owned(),
        }
    }

    /// The backend that serves the model.
    pub fn provider(&self) -> (r: LlmProvider)
        ensures
            r == provider_of(*self),
    {
        match self {
            Model::Llama3 => LlmProvider::Ollama,
            _ => LlmProvider::OpenAI,
        }
    }
}

/// The settings of one run, fixed at start.
#[derive(Debug, Clone, Copy, PartialEq, Eq)]
pub struct Config {
    pub model: Model,
    /// Whether raw responses are logged.
    pub verbose: bool,
    /// How many of the top search results are fetched; at least one.
    pub wiki_pages: u32,
}

impl Config {
    /// At least one page is fetched.
    pub open spec fn wf(&self) -> bool {
        self.wiki_pages >= 1
    }

    /// The settings used where nothing is asked for.
    pub fn new() -> (c: Config)
        ensures
            c.model == default_model(),
            !c.verbose,
            c.wiki_pages == 1,
            c.wf(),
    {
        Config { model: Model::Gpt35Turbo, verbose: false, wiki_pages: 1 }
    }

    /// The backend that serves the configured model.
    pub fn llm_server(&self) -> (r: LlmProvider)
        ensures
            r == provider_of(self.model),
    {
        self.model.provider()
    }
}

/// The model chosen by a setting: the named one where it is allowed, else the
/// default.
pub open spec fn chosen_model(setting: Option<Seq<char>>) -> Model {
    match setting {
        Some(s) => match model_named(s) {
            Some(m) => m,
            None => default_model(),
        },
        None => default_model(),
    }
}

/// Whether a setting names a model that is not allowed.
pub open spec fn unknown_model(setting: Option<Seq<char>>) -> bool {
    match setting {
        Some(s) => model_named(s) is None,
        None => false,
    }
}

/// The verbosity chosen by a setting: any non-empty value turns it on.
pub open spec fn chosen_verbose(setting: Option<Seq<char>>) -> bool {
    match setting {
        Some(s) => s.len() > 0,
        None => false,
    }
}

/// The page count chosen by a setting: a decimal number, where zero counts as
/// one; one where the setting is absent or not a number.
pub open spec fn chosen_pages(setting: Option<Seq<u8>>) -> u32 {
    match setting {
        Some(bs) => match unsigned_of(bs) {
            Some(n) => if n == 0 { 1 } else { n },
            None => 1,
        },
        None => 1,
    }
}

/// The page count asked for by a setting, never zero.
pub fn wiki_pages_from(setting: Option<&str>) -> (r: u32)
    ensures
        r == chosen_pages(
            match setting {
                Some(s) => Some(s.spec_bytes()),
                None => None,
            },
        ),
        r >= 1,
{
    match setting {
        Some(s) => match parse_u32(s) {
            Some(n) => if n == 0 { 1 } else { n },
            None => 1,
        },
        None => 1,
    }
}

/// Whether a verbosity setting turns raw-response logging on.
pub fn verbose_from(setting: Option<&str>) -> (r: bool)
    ensures
        r == chosen_verbose(
            match setting {
                Some(s) => Some(s@),
                None => None,
            },
        ),
{
    match setting {
        Some(s) => {
            let v = s.to_owned();
            let e = String::new();
            proof {
                if s@.len() == 0 {
                    assert(v@ =~= e@);
                }
            }
            !(v == e)
        },
        None => false,
    }
}

/// The model asked for by a setting, and whether the setting named a model
/// that is not allowed (the default is then used).
pub fn model_from(setting: Option<&str>) -> (r: (Model, bool))
    ensures
        r.0 == chosen_model(
            match setting {
                Some(s) => Some(s@),
                None => None,
            },
        ),
        r.1 == unknown_model(
            match setting {
                Some(s) => Some(s@),
                None => None,
            },
        ),
{
    match setting {
        Some(s) => match Model::from_name(s) {
            Some(m) => (m, false),
            None => (Model::Gpt35Turbo, true),
        },
        None => (Model::Gpt35Turbo, false),
    }
}

/// The configuration given by the three settings (model name, verbosity,
/// page count), each possibly absent, and whether the model name was refused.
pub fn config_from_settings(model: Option<&str>, verbose: Option<&str>, pages: Option<&str>) -> (r: (
    Config,
    bool,
))
    ensures
        r.0.wf(),
        r.0.model == chosen_model(
            match model {
                Some(s) => Some(s@),
                None => None,
            },
        ),
        r.1 == unknown_model(
            match model {
                Some(s) => Some(s@),
                None => None,
            },
        ),
        r.0.verbose == chosen_verbose(
            match verbose {
                Some(s) => Some(s@),
                None => None,
            },
        ),
        r.0.wiki_pages == chosen_pages(
            match pages {
                Some(s) => Some(s.spec_bytes()),
                None => None,
            },
        ),
{
    let (m, unknown) = model_from(model);
    (Config { model: m, verbose: verbose_from(verbose), wiki_pages: wiki_pages_from(pages) }, unknown)
}

/// A page count of zero is read as one, and no setting ever gives zero.
pub proof fn lemma_page_count_never_zero(setting: Option<Seq<u8>>)
    ensures
        chosen_pages(setting) >= 1,
        (setting matches Some(bs) && unsigned_of(bs) == Some(0u32)) ==> chosen_pages(setting) == 1,
{
}

/// A model name that is not allowed is reported, and the default model is
/// used in its place.
pub proof fn lemma_unknown_model_falls_back(name: Seq<char>)
    requires
        model_named(name) is None,
    ensures
        unknown_model(Some(name)),
        chosen_model(Some(name)) == default_model(),
        provider_of(chosen_model(Some(name))) == LlmProvider::OpenAI,
{
}

} // verus!
