use crate::errors::OpaiError;
use vstd::prelude::*;
use vstd::string::*;

verus! {

/// The credential and the endpoint that a conversation talks to.
#[derive(Clone, Debug, Default, PartialEq, Eq)]
pub struct ServiceConfig {
    pub api_key: String,
    pub chat_url: String,
}

/// A `ServiceConfig` as plain text.
pub struct ServiceConfigView {
    pub api_key: Seq<char>,
    pub chat_url: Seq<char>,
}

impl View for ServiceConfig {
    type V = ServiceConfigView;

    open spec fn view(&self) -> ServiceConfigView {
        ServiceConfigView { api_key: self.api_key@, chat_url: self.chat_url@ }
    }
}

/// The section that is read where no service is named.
pub open spec fn default_service() -> Seq<char> {
    "openai"@
}

/// The endpoint that goes with a key taken from the environment.
pub open spec fn default_chat_url() -> Seq<char> {
    "https://api.openai.com/v1/chat/completions"@
}

/// The section to read for a service that may not be named.
pub open spec fn section_of(service: Option<Seq<char>>) -> Seq<char> {
    match service {
        Some(name) => name,
        None => default_service(),
    }
}

/// The configuration made of two entries, each of which may be absent: an
/// absent entry is left empty.
pub open spec fn config_of_entries(
    api_key: Option<Seq<char>>,
    chat_url: Option<Seq<char>>,
) -> ServiceConfigView {
    ServiceConfigView {
        api_key: match api_key {
            Some(key) => key,
            None => Seq::empty(),
        },
        chat_url: match chat_url {
            Some(url) => url,
            None => Seq::empty(),
        },
    }
}

/// The entry that a document holds under a section and a key, if any.
pub open spec fn entry_of(
    values: Map<(Seq<char>, Seq<char>), Seq<char>>,
    section: Seq<char>,
    key: Seq<char>,
) -> Option<Seq<char>> {
    if values.contains_key((section, key)) {
        Some(values[(section, key)])
    } else {
        None
    }
}

/// What a configuration text holds for a section, or `None` where the text
/// is no document.
pub open spec fn loaded_config(text: Seq<char>, section: Seq<char>) -> Option<ServiceConfigView> {
    match ini_document(text) {
        Some(values) => Some(
            config_of_entries(
                entry_of(values, section, "api_key"@),
                entry_of(values, section, "chat_url"@),
            ),
        ),
        None => None,
    }
}

impl ServiceConfig {
    /// Whether an endpoint was resolved: a call is made only where it was.
    pub fn has_endpoint(&self) -> (yes: bool)
        ensures
            yes == (self.chat_url@.len() > 0),
    {
        !self.chat_url.as_str().is_empty()
    }

    /// Whether a key was resolved.
    pub fn has_key(&self) -> (yes: bool)
        ensures
            yes == (self.api_key@.len() > 0),
    {
        !self.api_key.as_str().is_empty()
    }

    /// Builds a configuration from the two entries of a section.
    pub fn from_entries(api_key: Option<String>, chat_url: Option<String>) -> (config: ServiceConfig)
        ensures
            config@ == config_of_entries(
                match api_key {
                    Some(key) => Some(key@),
                    None => None,
                },
                match chat_url {
                    Some(url) => Some(url@),
                    None => None,
                },
            ),
    {
        let api_key = match api_key {
            Some(key) => key,
            None => String::new(),
        };
        let chat_url = match chat_url {
            Some(url) => url,
            None => String::new(),
        };
        ServiceConfig { api_key, chat_url }
    }
}

/// The name of the section to read: the service that was asked for, or the
/// default one.
pub fn service_name(service: Option<String>) -> (name: String)
    ensures
        name@ == section_of(
            match service {
                Some(s) => Some(s@),
                None => None,
            },
        ),
{
    match service {
        Some(name) => name,
        None => "openai".to_owned(),
    }
}

/// Reads the entries of one service out of a configuration text.
pub fn load_service_config(text: &str, section: &str) -> (loaded: Result<ServiceConfig, OpaiError>)
    ensures
        match loaded {
            Ok(config) => loaded_config(text@, section@) == Some(config@),
            Err(e) => loaded_config(text@, section@) is None && e is Config,
        },
{
    match parse_ini(text) {
        Ok(doc) => {
            let api_key = ini_value(&doc, section, "api_key");
            let chat_url = ini_value(&doc, section, "chat_url");
            Ok(ServiceConfig::from_entries(api_key, chat_url))
        },
        Err(e) => Err(OpaiError::Config(parse_error_text(&e))),
    }
}

/// A place where a configuration file is looked for.
#[derive(Clone, Debug, PartialEq, Eq)]
pub enum Candidate {
    /// The path that the user gave, taken as it stands.
    Given(String),
    /// The per-user file: in the configuration directory below this home
    /// directory.
    PerUser(String),
    /// The file of the same name in this working directory.
    Local(String),
}

/// A `Candidate` as plain text.
pub enum CandidateView {
    Given(Seq<char>),
    PerUser(Seq<char>),
    Local(Seq<char>),
}

impl View for Candidate {
    type V = CandidateView;

    open spec fn view(&self) -> CandidateView {
        match self {
            Candidate::Given(path) => CandidateView::Given(path@),
            Candidate::PerUser(home) => CandidateView::PerUser(home@),
            Candidate::Local(dir) => CandidateView::Local(dir@),
        }
    }
}

/// The places to look in, in their order of priority: the path that the user
/// gave, then the per-user file where a home directory is known and not
/// empty, then the working directory where it is known.
pub open spec fn candidates_of(
    user_config: Option<Seq<char>>,
    home: Option<Seq<char>>,
    cwd: Option<Seq<char>>,
) -> Seq<CandidateView> {
    let given = match user_config {
        Some(path) => seq![CandidateView::Given(path)],
        None => Seq::empty(),
    };
    let per_user = match home {
        Some(dir) => if dir.len() > 0 {
            seq![CandidateView::PerUser(dir)]
        } else {
            Seq::empty()
        },
        None => Seq::empty(),
    };
    let local = match cwd {
        Some(dir) => seq![CandidateView::Local(dir)],
        None => Seq::empty(),
    };
    given + per_user + local
}

/// The views of a list of candidates.
pub open spec fn candidate_views(candidates: Seq<Candidate>) -> Seq<CandidateView> {
    Seq::new(candidates.len(), |i: int| candidates[i]@)
}

/// The name of the configuration file, in the per-user directory and in the
/// working directory.
pub fn config_file_name() -> (name: &'static str)
    ensures
        name@ == "openai.ini"@,
{
    "openai.ini"
}

/// The name of the per-user configuration directory, below the home
/// directory.
pub fn config_dir_name() -> (name: &'static str)
    ensures
        name@ == ".config"@,
{
    ".config"
}

/// The name of the environment variable that may hold a key.
pub fn api_key_variable() -> (name: &'static str)
    ensures
        name@ == "OPENAI_API_KEY"@,
{
    "OPENAI_API_KEY"
}

/// Lists the places where a configuration file is looked for, in their order
/// of priority.
pub fn candidate_files(user_config: Option<String>, home: Option<String>, cwd: Option<String>) -> (found:
    Vec<Candidate>)
    ensures
        candidate_views(found@) == candidates_of(key_view(user_config), key_view(home), key_view(cwd)),
{
    let mut found: Vec<Candidate> = Vec::new();
    if let Some(path) = user_config {
        found.push(Candidate::Given(path));
    }
    if let Some(dir) = home {
        if !dir.as_str().is_empty() {
            found.push(Candidate::PerUser(dir));
        }
    }
    if let Some(dir) = cwd {
        found.push(Candidate::Local(dir));
    }
    assert(candidate_views(found@) =~= candidates_of(
        key_view(user_config),
        key_view(home),
        key_view(cwd),
    ));
    found
}

/// Whether a source supplies a key: it was loaded, and its key is not empty.
pub open spec fn holds_key(entry: Option<ServiceConfigView>) -> bool {
    entry matches Some(config) && config.api_key.len() > 0
}

/// What is resolved where no source supplies a key: the key from the
/// environment with the default endpoint, or nothing.
pub open spec fn fallback(env_key: Option<Seq<char>>) -> Option<ServiceConfigView> {
    match env_key {
        Some(key) => Some(ServiceConfigView { api_key: key, chat_url: default_chat_url() }),
        None => None,
    }
}

/// The resolution over sources in their order of priority, each of which was
/// loaded or not: the first that supplies a key, else the fallback.
pub open spec fn resolved(
    loaded: Seq<Option<ServiceConfigView>>,
    env_key: Option<Seq<char>>,
) -> Option<ServiceConfigView>
    decreases loaded.len(),
{
    if loaded.len() == 0 {
        fallback(env_key)
    } else if holds_key(loaded[0]) {
        loaded[0]
    } else {
        resolved(loaded.drop_first(), env_key)
    }
}

/// The views of a list of sources.
pub open spec fn loaded_views(loaded: Seq<Option<ServiceConfig>>) -> Seq<Option<ServiceConfigView>> {
    Seq::new(
        loaded.len(),
        |i: int|
            match loaded[i] {
                Some(config) => Some(config@),
                None => None,
            },
    )
}

/// What each text of a list of sources holds for a section; a source that
/// could not be read holds nothing.
pub open spec fn loaded_texts(texts: Seq<Option<String>>, section: Seq<char>) -> Seq<
    Option<ServiceConfigView>,
> {
    Seq::new(
        texts.len(),
        |i: int|
            match texts[i] {
                Some(text) => loaded_config(text@, section),
                None => None,
            },
    )
}

/// The view of a key that may be absent.
pub open spec fn key_view(key: Option<String>) -> Option<Seq<char>> {
    match key {
        Some(k) => Some(k@),
        None => None,
    }
}

/// Picks the configuration among sources that were already loaded, in their
/// order of priority, with the key from the environment as the last resort.
pub fn select_service_config(loaded: &Vec<Option<ServiceConfig>>, env_key: Option<String>) -> (found:
    Option<ServiceConfig>)
    ensures
        match found {
            Some(config) => resolved(loaded_views(loaded@), key_view(env_key)) == Some(config@),
            None => resolved(loaded_views(loaded@), key_view(env_key)) is None,
        },
{
    let ghost views = loaded_views(loaded@);
    let ghost env = key_view(env_key);
    let mut i: usize = 0;
    assert(views.skip(0) =~= views);
    while i < loaded.len()
        invariant
            i <= loaded.len(),
            views == loaded_views(loaded@),
            env == key_view(env_key),
            resolved(views, env) == resolved(views.skip(i as int), env),
        decreases loaded.len() - i,
    {
        let ghost rest = views.skip(i as int);
        assert(rest.len() > 0 && rest[0] == views[i as int]);
        assert(rest.drop_first() =~= views.skip(i + 1));
        assert(views[i as int] == match loaded@[i as int] {
            Some(config) => Some(config@),
            None => None,
        });
        match &loaded[i] {
            Some(config) => {
                if config.has_key() {
                    return Some(
                        ServiceConfig {
                            api_key: config.api_key.clone(),
                            chat_url: config.chat_url.clone(),
                        },
                    );
                }
            },
            None => {},
        }
        i += 1;
    }
    assert(views.skip(i as int).len() == 0);
    match env_key {
        Some(api_key) => Some(
            ServiceConfig {
                api_key,
                chat_url: "https://api.openai.com/v1/chat/completions".to_owned(),
            },
        ),
        None => None,
    }
}

/// Resolves the credential and the endpoint. `sources` holds, in their order
/// of priority, the text of each candidate file, or `None` for one that could
/// not be read; `env_key` is the key that the environment offers.
pub fn find_service_config(
    sources: &Vec<Option<String>>,
    service: Option<String>,
    env_key: Option<String>,
) -> (found: Option<ServiceConfig>)
    ensures
        match found {
            Some(config) => resolved(
                loaded_texts(sources@, section_of(key_view(service))),
                key_view(env_key),
            ) == Some(config@),
            None => resolved(
                loaded_texts(sources@, section_of(key_view(service))),
                key_view(env_key),
            ) is None,
        },
{
    let ghost wanted = section_of(key_view(service));
    let section = service_name(service);
    let mut loaded: Vec<Option<ServiceConfig>> = Vec::new();
    let mut i: usize = 0;
    while i < sources.len()
        invariant
            i <= sources.len(),
            section@ == wanted,
            loaded.len() == i,
            loaded_views(loaded@) == loaded_texts(sources@, wanted).take(i as int),
        decreases sources.len() - i,
    {
        let entry = match &sources[i] {
            Some(text) => match load_service_config(text.as_str(), section.as_str()) {
                Ok(config) => Some(config),
                Err(_) => None,
            },
            None => None,
        };
        loaded.push(entry);
        i += 1;
        assert(loaded_views(loaded@) =~= loaded_texts(sources@, wanted).take(i as int));
    }
    assert(loaded_texts(sources@, wanted).take(i as int) =~= loaded_texts(sources@, wanted));
    select_service_config(&loaded, env_key)
}

/// The first source that supplies a key is the one resolved, whatever the
/// later sources and the environment hold. The sources before it, which were
/// not loaded or hold no key, are passed over.
pub proof fn lemma_first_key_wins(
    loaded: Seq<Option<ServiceConfigView>>,
    env_key: Option<Seq<char>>,
    i: int,
)
    requires
        0 <= i < loaded.len(),
        holds_key(loaded[i]),
        forall|j: int| 0 <= j < i ==> !holds_key(#[trigger] loaded[j]),
    ensures
        resolved(loaded, env_key) == loaded[i],
    decreases i,
{
    if i > 0 {
        let rest = loaded.drop_first();
        assert(!holds_key(loaded[0]));
        assert(rest[i - 1] == loaded[i]);
        assert forall|j: int| 0 <= j < i - 1 implies !holds_key(#[trigger] rest[j]) by {
            assert(rest[j] == loaded[j + 1]);
        }
        lemma_first_key_wins(rest, env_key, i - 1);
    }
}

/// The key from the environment, with the default endpoint, is resolved only
/// where no source supplies a key, and there it is what is resolved.
pub proof fn lemma_fallback_only_without_key(
    loaded: Seq<Option<ServiceConfigView>>,
    env_key: Option<Seq<char>>,
)
    ensures
        (forall|j: int| 0 <= j < loaded.len() ==> !holds_key(#[trigger] loaded[j])) ==> resolved(
            loaded,
            env_key,
        ) == fallback(env_key),
        (exists|j: int| 0 <= j < loaded.len() && holds_key(#[trigger] loaded[j])) ==> exists|i: int|
            0 <= i < loaded.len() && holds_key(#[trigger] loaded[i]) && resolved(loaded, env_key)
                == loaded[i],
    decreases loaded.len(),
{
    if loaded.len() > 0 {
        let rest = loaded.drop_first();
        lemma_fallback_only_without_key(rest, env_key);
        assert forall|j: int| 0 <= j < rest.len() implies rest[j] == loaded[j + 1] by {}
        if holds_key(loaded[0]) {
        } else {
            if forall|j: int| 0 <= j < loaded.len() ==> !holds_key(#[trigger] loaded[j]) {
                assert forall|j: int| 0 <= j < rest.len() implies !holds_key(#[trigger] rest[j]) by {
                    assert(rest[j] == loaded[j + 1]);
                }
            }
            if exists|j: int| 0 <= j < loaded.len() && holds_key(#[trigger] loaded[j]) {
                let j = choose|j: int| 0 <= j < loaded.len() && holds_key(#[trigger] loaded[j]);
                assert(j > 0);
                assert(holds_key(rest[j - 1]));
                let i = choose|i: int|
                    0 <= i < rest.len() && holds_key(#[trigger] rest[i]) && resolved(rest, env_key)
                        == rest[i];
                assert(holds_key(loaded[i + 1]) && resolved(loaded, env_key) == loaded[i + 1]);
            }
        }
    }
}

/// `ini::Ini`: a parsed document, of which only lookups are made.
#[verifier::external_type_specification]
#[verifier::external_body]
pub struct ExIni(ini::Ini);

/// `ini::ParseError`: why a text is no document.
#[verifier::external_type_specification]
#[verifier::external_body]
pub struct ExParseError(ini::ParseError);

/// What a lookup in a parsed document finds: for a section and a key, the
/// first value of that key in the first section of that name.
pub uninterp spec fn ini_values(doc: ini::Ini) -> Map<(Seq<char>, Seq<char>), Seq<char>>;

/// The lookups of the document that a text parses to, or `None` where the
/// text is no document.
pub uninterp spec fn ini_document(text: Seq<char>) -> Option<Map<(Seq<char>, Seq<char>), Seq<char>>>;

/// `ini::Ini::load_from_str`: parses a text with the crate's default options.
/// The outcome depends on the text alone.
#[verifier::external_body]
fn parse_ini(text: &str) -> (doc: Result<ini::Ini, ini::ParseError>)
    ensures
        match doc {
            Ok(d) => ini_document(text@) == Some(ini_values(d)),
            Err(_) => ini_document(text@) is None,
        },
{
    ini::Ini::load_from_str(text)
}

/// `ini::Ini::get_from`: the value found under a named section and a key.
#[verifier::external_body]
fn ini_value(doc: &ini::Ini, section: &str, key: &str) -> (value: Option<String>)
    ensures
        match value {
            Some(v) => ini_values(*doc).contains_key((section@, key@)) && ini_values(*doc)[(
                section@,
                key@,
            )] == v@,
            None => !ini_values(*doc).contains_key((section@, key@)),
        },
{
    doc.get_from(Some(section), key).map(String::from)
}

/// `ini::ParseError`'s `Display`: where the parser stopped, and why.
#[verifier::external_body]
fn parse_error_text(error: &ini::ParseError) -> (text: String) {
    error.to_string()
}

} // verus!
