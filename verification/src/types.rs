use vstd::prelude::*;

verus! {

/// Who speaks in a message of the conversation.
#[derive(Clone, Copy, Debug, PartialEq, Eq, Structural)]
pub enum Role {
    System,
    User,
    Assistant,
}

impl Role {
    /// The name under which the role travels to and from the endpoint.
    pub open spec fn name(self) -> Seq<char> {
        match self {
            Role::System => "system"@,
            Role::User => "user"@,
            Role::Assistant => "assistant"@,
        }
    }

    /// The role that a name stands for, if it stands for one.
    pub open spec fn named(name: Seq<char>) -> Option<Role> {
        if name == "system"@ {
            Some(Role::System)
        } else if name == "user"@ {
            Some(Role::User)
        } else if name == "assistant"@ {
            Some(Role::Assistant)
        } else {
            None
        }
    }

    /// The name under which the role travels.
    pub fn as_str(&self) -> (text: &'static str)
        ensures
            text@ == self.name(),
    {
        match self {
            Role::System => "system",
            Role::User => "user",
            Role::Assistant => "assistant",
        }
    }

    /// Reads a role from its name. No other text is a role: letter case
    /// counts, and nothing may stand around the name.
    pub fn from_str(input: &str) -> (role: Result<Role, ()>)
        ensures
            role == match Role::named(input@) {
                Some(r) => Ok::<Role, ()>(r),
                None => Err::<Role, ()>(()),
            },
    {
        let given = input.to_owned();
        if given == "system".to_owned() {
            Ok(Role::System)
        } else if given == "user".to_owned() {
            Ok(Role::User)
        } else if given == "assistant".to_owned() {
            Ok(Role::Assistant)
        } else {
            Err(())
        }
    }
}

/// One message of the conversation.
#[derive(Clone, Debug, PartialEq, Eq)]
pub struct Message {
    pub role: Role,
    pub content: String,
}

/// A `Message` as plain text.
pub struct MessageView {
    pub role: Role,
    pub content: Seq<char>,
}

impl View for Message {
    type V = MessageView;

    open spec fn view(&self) -> MessageView {
        MessageView { role: self.role, content: self.content@ }
    }
}

/// The views of a list of messages, in the same order.
pub open spec fn message_views(messages: Seq<Message>) -> Seq<MessageView> {
    Seq::new(messages.len(), |i: int| messages[i]@)
}

/// One of the answers that the endpoint returns to a request.
#[derive(Clone, Debug, PartialEq, Eq)]
pub struct ResponseChoice {
    pub message: Message,
}

/// The messages that a list of choices carries, in the same order.
pub open spec fn choice_views(choices: Seq<ResponseChoice>) -> Seq<MessageView> {
    Seq::new(choices.len(), |i: int| choices[i].message@)
}

/// The token counts of one answer, or of a whole conversation.
#[derive(Clone, Copy, Debug, PartialEq, Eq, Structural)]
pub struct Usage {
    pub completion_tokens: u64,
    pub prompt_tokens: u64,
    pub total_tokens: u64,
}

/// Token counts without a bound.
pub struct UsageView {
    pub completion_tokens: nat,
    pub prompt_tokens: nat,
    pub total_tokens: nat,
}

impl UsageView {
    /// No tokens at all.
    pub open spec fn zero() -> UsageView {
        UsageView { completion_tokens: 0, prompt_tokens: 0, total_tokens: 0 }
    }

    /// The sum, count by count.
    pub open spec fn plus(self, other: UsageView) -> UsageView {
        UsageView {
            completion_tokens: self.completion_tokens + other.completion_tokens,
            prompt_tokens: self.prompt_tokens + other.prompt_tokens,
            total_tokens: self.total_tokens + other.total_tokens,
        }
    }

    /// Whether each count is at most the matching count of `other`.
    pub open spec fn at_most(self, other: UsageView) -> bool {
        &&& self.completion_tokens <= other.completion_tokens
        &&& self.prompt_tokens <= other.prompt_tokens
        &&& self.total_tokens <= other.total_tokens
    }

    /// Whether each count can be held in 64 bits.
    pub open spec fn fits(self) -> bool {
        &&& self.completion_tokens <= u64::MAX
        &&& self.prompt_tokens <= u64::MAX
        &&& self.total_tokens <= u64::MAX
    }
}

impl View for Usage {
    type V = UsageView;

    open spec fn view(&self) -> UsageView {
        UsageView {
            completion_tokens: self.completion_tokens as nat,
            prompt_tokens: self.prompt_tokens as nat,
            total_tokens: self.total_tokens as nat,
        }
    }
}

impl Default for Usage {
    fn default() -> (usage: Usage)
        ensures
            usage@ == UsageView::zero(),
    {
        Usage { completion_tokens: 0, prompt_tokens: 0, total_tokens: 0 }
    }
}

impl Usage {
    /// Whether these counts can be added to without leaving 64 bits.
    pub fn can_accumulate(&self, other: &Usage) -> (yes: bool)
        ensures
            yes == self@.plus(other@).fits(),
    {
        self.completion_tokens <= u64::MAX - other.completion_tokens && self.prompt_tokens
            <= u64::MAX - other.prompt_tokens && self.total_tokens <= u64::MAX - other.total_tokens
    }

    /// Adds the counts of one answer to these.
    pub fn accumulate(&mut self, other: &Usage)
        requires
            old(self)@.plus(other@).fits(),
        ensures
            final(self)@ == old(self)@.plus(other@),
    {
        self.completion_tokens = self.completion_tokens + other.completion_tokens;
        self.prompt_tokens = self.prompt_tokens + other.prompt_tokens;
        self.total_tokens = self.total_tokens + other.total_tokens;
    }
}

/// What the endpoint sends back where it accepts a request.
#[derive(Clone, Debug, PartialEq, Eq)]
pub struct ResponseBody {
    pub choices: Vec<ResponseChoice>,
    pub created: u64,
    pub model: String,
    pub usage: Usage,
}

/// A real-valued parameter, held as the 64 bits of its binary encoding. The
/// conversation only carries such a value: it never computes with it.
#[derive(Clone, Copy, Debug, PartialEq, Eq, Structural)]
pub struct Real {
    pub bits: u64,
}

/// One generation parameter that is set, with its value.
#[derive(Clone, Debug, PartialEq, Eq)]
pub enum Setting {
    FrequencyPenalty(Real),
    Logprobs(bool),
    TopLogprobs(u32),
    MaxTokens(u32),
    N(u32),
    PresencePenalty(Real),
    Seed(i32),
    Stop(String),
    Temperature(Real),
    TopP(Real),
    ParallelToolCalls(bool),
    User(String),
}

/// A `Setting` as plain values.
pub enum SettingView {
    FrequencyPenalty(Real),
    Logprobs(bool),
    TopLogprobs(u32),
    MaxTokens(u32),
    N(u32),
    PresencePenalty(Real),
    Seed(i32),
    Stop(Seq<char>),
    Temperature(Real),
    TopP(Real),
    ParallelToolCalls(bool),
    User(Seq<char>),
}

impl SettingView {
    /// The name of the field that carries the parameter in a request.
    pub open spec fn key(self) -> Seq<char> {
        match self {
            SettingView::FrequencyPenalty(_) => "frequency_penalty"@,
            SettingView::Logprobs(_) => "logprobs"@,
            SettingView::TopLogprobs(_) => "top_logprobs"@,
            SettingView::MaxTokens(_) => "max_tokens"@,
            SettingView::N(_) => "n"@,
            SettingView::PresencePenalty(_) => "presence_penalty"@,
            SettingView::Seed(_) => "seed"@,
            SettingView::Stop(_) => "stop"@,
            SettingView::Temperature(_) => "temperature"@,
            SettingView::TopP(_) => "top_p"@,
            SettingView::ParallelToolCalls(_) => "parallel_tool_calls"@,
            SettingView::User(_) => "user"@,
        }
    }
    /// The text that stands before the parameter's value in a description of
    /// a configuration, or `None` for a parameter that a description leaves
    /// out.
    pub open spec fn label(self) -> Option<Seq<char>> {
        match self {
            SettingView::FrequencyPenalty(_) => None,
            SettingView::Logprobs(_) => Some("logprobs:  "@),
            SettingView::TopLogprobs(_) => Some("top_logprobs:  "@),
            SettingView::MaxTokens(_) => Some("max_tokens:  "@),
            SettingView::N(_) => Some("n:  "@),
            SettingView::PresencePenalty(_) => Some("presence_penalty: "@),
            SettingView::Seed(_) => Some("seed:  "@),
            SettingView::Stop(_) => Some("stop: "@),
            SettingView::Temperature(_) => Some("temperature: "@),
            SettingView::TopP(_) => Some("top_p: "@),
            SettingView::ParallelToolCalls(_) => Some("parallel_tool_calls: "@),
            SettingView::User(_) => None,
        }
    }

    /// The place of the parameter in the order in which a request lists the
    /// parameters.
    pub open spec fn rank(self) -> int {
        match self {
            SettingView::FrequencyPenalty(_) => 0,
            SettingView::Logprobs(_) => 1,
            SettingView::TopLogprobs(_) => 2,
            SettingView::MaxTokens(_) => 3,
            SettingView::N(_) => 4,
            SettingView::PresencePenalty(_) => 5,
            SettingView::Seed(_) => 6,
            SettingView::Stop(_) => 7,
            SettingView::Temperature(_) => 8,
            SettingView::TopP(_) => 9,
            SettingView::ParallelToolCalls(_) => 10,
            SettingView::User(_) => 11,
        }
    }
}

impl View for Setting {
    type V = SettingView;

    open spec fn view(&self) -> SettingView {
        match self {
            Setting::FrequencyPenalty(x) => SettingView::FrequencyPenalty(*x),
            Setting::Logprobs(x) => SettingView::Logprobs(*x),
            Setting::TopLogprobs(x) => SettingView::TopLogprobs(*x),
            Setting::MaxTokens(x) => SettingView::MaxTokens(*x),
            Setting::N(x) => SettingView::N(*x),
            Setting::PresencePenalty(x) => SettingView::PresencePenalty(*x),
            Setting::Seed(x) => SettingView::Seed(*x),
            Setting::Stop(x) => SettingView::Stop(x@),
            Setting::Temperature(x) => SettingView::Temperature(*x),
            Setting::TopP(x) => SettingView::TopP(*x),
            Setting::ParallelToolCalls(x) => SettingView::ParallelToolCalls(*x),
            Setting::User(x) => SettingView::User(x@),
        }
    }
}

impl Setting {
    /// The name of the field that carries the parameter in a request.
    pub fn key(&self) -> (name: &'static str)
        ensures
            name@ == self@.key(),
    {
        match self {
            Setting::FrequencyPenalty(_) => "frequency_penalty",
            Setting::Logprobs(_) => "logprobs",
            Setting::TopLogprobs(_) => "top_logprobs",
            Setting::MaxTokens(_) => "max_tokens",
            Setting::N(_) => "n",
            Setting::PresencePenalty(_) => "presence_penalty",
            Setting::Seed(_) => "seed",
            Setting::Stop(_) => "stop",
            Setting::Temperature(_) => "temperature",
            Setting::TopP(_) => "top_p",
            Setting::ParallelToolCalls(_) => "parallel_tool_calls",
            Setting::User(_) => "user",
        }
    }

    /// The text that stands before the parameter's value in a description of
    /// a configuration, or `None` for a parameter that a description leaves
    /// out.
    pub fn label(&self) -> (label: Option<&'static str>)
        ensures
            match label {
                Some(text) => self@.label() == Some(text@),
                None => self@.label() is None,
            },
    {
        match self {
            Setting::FrequencyPenalty(_) => None,
            Setting::Logprobs(_) => Some("logprobs:  "),
            Setting::TopLogprobs(_) => Some("top_logprobs:  "),
            Setting::MaxTokens(_) => Some("max_tokens:  "),
            Setting::N(_) => Some("n:  "),
            Setting::PresencePenalty(_) => Some("presence_penalty: "),
            Setting::Seed(_) => Some("seed:  "),
            Setting::Stop(_) => Some("stop: "),
            Setting::Temperature(_) => Some("temperature: "),
            Setting::TopP(_) => Some("top_p: "),
            Setting::ParallelToolCalls(_) => Some("parallel_tool_calls: "),
            Setting::User(_) => None,
        }
    }
}

/// The views of a list of settings, in the same order.
pub open spec fn setting_views(settings: Seq<Setting>) -> Seq<SettingView> {
    Seq::new(settings.len(), |i: int| settings[i]@)
}

/// The generation parameters of a conversation. Only `model` is always
/// there; each of the others is set or not.
#[derive(Clone, Debug, PartialEq, Eq)]
pub struct ChatConfig {
    pub model: String,
    pub frequency_penalty: Option<Real>,
    pub logprobs: Option<bool>,
    pub top_logprobs: Option<u32>,
    pub max_tokens: Option<u32>,
    pub n: Option<u32>,
    pub presence_penalty: Option<Real>,
    pub seed: Option<i32>,
    pub stop: Option<String>,
    pub temperature: Option<Real>,
    pub top_p: Option<Real>,
    pub parallel_tool_calls: Option<bool>,
    pub user: Option<String>,
}

/// A `ChatConfig` as plain values.
pub struct ChatConfigView {
    pub model: Seq<char>,
    pub frequency_penalty: Option<Real>,
    pub logprobs: Option<bool>,
    pub top_logprobs: Option<u32>,
    pub max_tokens: Option<u32>,
    pub n: Option<u32>,
    pub presence_penalty: Option<Real>,
    pub seed: Option<i32>,
    pub stop: Option<Seq<char>>,
    pub temperature: Option<Real>,
    pub top_p: Option<Real>,
    pub parallel_tool_calls: Option<bool>,
    pub user: Option<Seq<char>>,
}

/// The view of a text that may be absent.
pub open spec fn text_view(text: Option<String>) -> Option<Seq<char>> {
    match text {
        Some(t) => Some(t@),
        None => None,
    }
}

impl View for ChatConfig {
    type V = ChatConfigView;

    open spec fn view(&self) -> ChatConfigView {
        ChatConfigView {
            model: self.model@,
            frequency_penalty: self.frequency_penalty,
            logprobs: self.logprobs,
            top_logprobs: self.top_logprobs,
            max_tokens: self.max_tokens,
            n: self.n,
            presence_penalty: self.presence_penalty,
            seed: self.seed,
            stop: text_view(self.stop),
            temperature: self.temperature,
            top_p: self.top_p,
            parallel_tool_calls: self.parallel_tool_calls,
            user: text_view(self.user),
        }
    }
}

/// The entries of a list of slots that are filled, in the same order.
pub open spec fn present(slots: Seq<Option<SettingView>>) -> Seq<SettingView>
    decreases slots.len(),
{
    if slots.len() == 0 {
        Seq::empty()
    } else {
        present(slots.drop_last()) + match slots.last() {
            Some(setting) => seq![setting],
            None => Seq::empty(),
        }
    }
}

/// The view of a slot.
pub open spec fn slot_view(slot: Option<Setting>) -> Option<SettingView> {
    match slot {
        Some(setting) => Some(setting@),
        None => None,
    }
}

/// The number of generation parameters, `model` aside.
pub open spec fn parameter_count() -> nat {
    12
}

impl ChatConfigView {
    /// The configuration with an empty model name and no parameter set.
    pub open spec fn empty() -> ChatConfigView {
        ChatConfigView {
            model: Seq::empty(),
            frequency_penalty: None,
            logprobs: None,
            top_logprobs: None,
            max_tokens: None,
            n: None,
            presence_penalty: None,
            seed: None,
            stop: None,
            temperature: None,
            top_p: None,
            parallel_tool_calls: None,
            user: None,
        }
    }

    /// The slot of the parameter that a request lists at `index`: filled
    /// with the parameter's value where it is set.
    pub open spec fn slot(self, index: int) -> Option<SettingView> {
        if index == 0 {
            match self.frequency_penalty {
                Some(x) => Some(SettingView::FrequencyPenalty(x)),
                None => None,
            }
        } else if index == 1 {
            match self.logprobs {
                Some(x) => Some(SettingView::Logprobs(x)),
                None => None,
            }
        } else if index == 2 {
            match self.top_logprobs {
                Some(x) => Some(SettingView::TopLogprobs(x)),
                None => None,
            }
        } else if index == 3 {
            match self.max_tokens {
                Some(x) => Some(SettingView::MaxTokens(x)),
                None => None,
            }
        } else if index == 4 {
            match self.n {
                Some(x) => Some(SettingView::N(x)),
                None => None,
            }
        } else if index == 5 {
            match self.presence_penalty {
                Some(x) => Some(SettingView::PresencePenalty(x)),
                None => None,
            }
        } else if index == 6 {
            match self.seed {
                Some(x) => Some(SettingView::Seed(x)),
                None => None,
            }
        } else if index == 7 {
            match self.stop {
                Some(x) => Some(SettingView::Stop(x)),
                None => None,
            }
        } else if index == 8 {
            match self.temperature {
                Some(x) => Some(SettingView::Temperature(x)),
                None => None,
            }
        } else if index == 9 {
            match self.top_p {
                Some(x) => Some(SettingView::TopP(x)),
                None => None,
            }
        } else if index == 10 {
            match self.parallel_tool_calls {
                Some(x) => Some(SettingView::ParallelToolCalls(x)),
                None => None,
            }
        } else if index == 11 {
            match self.user {
                Some(x) => Some(SettingView::User(x)),
                None => None,
            }
        } else {
            None
        }
    }

    /// One slot for each parameter, in the order in which a request lists
    /// them.
    pub open spec fn slots(self) -> Seq<Option<SettingView>> {
        Seq::new(parameter_count(), |index: int| self.slot(index))
    }

    /// The parameters that are set, in the order in which a request lists
    /// them. A parameter that is not set has no entry.
    pub open spec fn settings(self) -> Seq<SettingView> {
        present(self.slots())
    }

    /// Whether the configuration sets the parameter of `setting` to the value
    /// of `setting`.
    pub open spec fn sets(self, setting: SettingView) -> bool {
        match setting {
            SettingView::FrequencyPenalty(x) => self.frequency_penalty == Some(x),
            SettingView::Logprobs(x) => self.logprobs == Some(x),
            SettingView::TopLogprobs(x) => self.top_logprobs == Some(x),
            SettingView::MaxTokens(x) => self.max_tokens == Some(x),
            SettingView::N(x) => self.n == Some(x),
            SettingView::PresencePenalty(x) => self.presence_penalty == Some(x),
            SettingView::Seed(x) => self.seed == Some(x),
            SettingView::Stop(x) => self.stop == Some(x),
            SettingView::Temperature(x) => self.temperature == Some(x),
            SettingView::TopP(x) => self.top_p == Some(x),
            SettingView::ParallelToolCalls(x) => self.parallel_tool_calls == Some(x),
            SettingView::User(x) => self.user == Some(x),
        }
    }
}

/// Where no slot is filled, nothing is present.
pub proof fn lemma_present_of_empty_slots(slots: Seq<Option<SettingView>>)
    requires
        forall|i: int| 0 <= i < slots.len() ==> #[trigger] slots[i] is None,
    ensures
        present(slots) == Seq::<SettingView>::empty(),
    decreases slots.len(),
{
    if slots.len() > 0 {
        lemma_present_of_empty_slots(slots.drop_last());
        assert(slots.last() is None);
        assert(present(slots) =~= Seq::<SettingView>::empty());
    }
}

/// What is present is what fills a slot.
pub proof fn lemma_present_keeps_filled(slots: Seq<Option<SettingView>>, setting: SettingView)
    ensures
        present(slots).contains(setting) <==> slots.contains(Some(setting)),
    decreases slots.len(),
{
    if slots.len() > 0 {
        let front = slots.drop_last();
        let tail = match slots.last() {
            Some(s) => seq![s],
            None => Seq::<SettingView>::empty(),
        };
        lemma_present_keeps_filled(front, setting);
        if present(slots).contains(setting) {
            let i = choose|i: int| 0 <= i < present(slots).len() && present(slots)[i] == setting;
            if i < present(front).len() {
                assert(present(front)[i] == setting);
                let k = choose|k: int| 0 <= k < front.len() && front[k] == Some(setting);
                assert(slots[k] == Some(setting));
            } else {
                assert(tail[i - present(front).len()] == setting);
                assert(slots[slots.len() - 1] == Some(setting));
            }
        }
        if slots.contains(Some(setting)) {
            let k = choose|k: int| 0 <= k < slots.len() && slots[k] == Some(setting);
            if k < front.len() {
                assert(front[k] == Some(setting));
                let i = choose|i: int| 0 <= i < present(front).len() && present(front)[i] == setting;
                assert(present(slots)[i] == setting);
            } else {
                assert(tail[0] == setting);
                assert(present(slots)[present(front).len() as int] == setting);
            }
        }
    }
}

/// The entries that are present stand in the order of their slots.
pub proof fn lemma_present_keeps_order(slots: Seq<Option<SettingView>>)
    requires
        forall|k: int|
            0 <= k < slots.len() ==> (#[trigger] slots[k] matches Some(s) ==> s.rank() == k),
    ensures
        forall|i: int| 0 <= i < present(slots).len() ==> 0 <= (#[trigger] present(slots)[i]).rank() < slots.len(),
        forall|i: int, j: int|
            0 <= i < j < present(slots).len() ==> (#[trigger] present(slots)[i]).rank() < (
            #[trigger] present(slots)[j]).rank(),
    decreases slots.len(),
{
    if slots.len() > 0 {
        let front = slots.drop_last();
        assert forall|k: int| 0 <= k < front.len() implies (#[trigger] front[k] matches Some(s)
            ==> s.rank() == k) by {
            assert(front[k] == slots[k]);
        }
        lemma_present_keeps_order(front);
        let kept = present(front);
        let all = present(slots);
        assert(slots.last() == slots[slots.len() - 1]);
        assert forall|i: int| 0 <= i < all.len() implies 0 <= (#[trigger] all[i]).rank()
            < slots.len() && (i < kept.len() ==> all[i] == kept[i]) && (i >= kept.len()
            ==> all[i].rank() == slots.len() - 1) by {
            if i < kept.len() {
                assert(all[i] == kept[i]);
            } else {
                assert(slots.last() == Some(all[i]));
            }
        }
        assert forall|i: int, j: int| 0 <= i < j < all.len() implies (#[trigger] all[i]).rank() < (
        #[trigger] all[j]).rank() by {
            if j < kept.len() {
                assert(all[i] == kept[i] && all[j] == kept[j]);
            } else {
                assert(all[i] == kept[i]);
                assert(kept[i].rank() < front.len());
            }
        }
    }
}

/// No two parameters travel under the same name.
pub proof fn lemma_keys_tell_parameters_apart(a: SettingView, b: SettingView)
    requires
        a.key() == b.key(),
    ensures
        a.rank() == b.rank(),
{
    reveal_strlit("frequency_penalty");
    reveal_strlit("logprobs");
    reveal_strlit("top_logprobs");
    reveal_strlit("max_tokens");
    reveal_strlit("n");
    reveal_strlit("presence_penalty");
    reveal_strlit("seed");
    reveal_strlit("stop");
    reveal_strlit("temperature");
    reveal_strlit("top_p");
    reveal_strlit("parallel_tool_calls");
    reveal_strlit("user");
    let (x, y) = (a.key(), b.key());
    assert(x.len() == y.len());
    assert(x[0] == y[0]);
    if x.len() > 1 {
        assert(x[1] == y[1]);
    }
}

/// A request lists a parameter exactly where the configuration sets it, and
/// then with the value that was set. A parameter that is not set is not
/// listed at all, and the parameters stand in one fixed order, each at most
/// once.
pub proof fn lemma_settings_are_what_is_set(config: ChatConfigView)
    ensures
        forall|setting: SettingView| #[trigger]
            config.settings().contains(setting) <==> config.sets(setting),
        forall|i: int, j: int|
            0 <= i < j < config.settings().len() ==> (#[trigger] config.settings()[i]).rank() < (
            #[trigger] config.settings()[j]).rank(),
{
    let slots = config.slots();
    assert forall|setting: SettingView| #[trigger]
        config.settings().contains(setting) <==> config.sets(setting) by {
        lemma_present_keeps_filled(slots, setting);
        if slots.contains(Some(setting)) {
            let k = choose|k: int| 0 <= k < slots.len() && slots[k] == Some(setting);
            assert(config.slot(k) == Some(setting));
        }
        if config.sets(setting) {
            assert(slots[setting.rank()] == Some(setting));
        }
    }
    assert forall|k: int| 0 <= k < slots.len() implies (#[trigger] slots[k] matches Some(s)
        ==> s.rank() == k) by {
        assert(slots[k] == config.slot(k));
    }
    lemma_present_keeps_order(slots);
}

impl ChatConfig {
    /// A configuration with an empty model name and no parameter set.
    pub fn new() -> (config: ChatConfig)
        ensures
            config@ == ChatConfigView::empty(),
            config@.settings() == Seq::<SettingView>::empty(),
    {
        let config = ChatConfig {
            model: String::new(),
            frequency_penalty: None,
            logprobs: None,
            top_logprobs: None,
            max_tokens: None,
            n: None,
            presence_penalty: None,
            seed: None,
            stop: None,
            temperature: None,
            top_p: None,
            parallel_tool_calls: None,
            user: None,
        };
        proof {
            lemma_present_of_empty_slots(config@.slots());
        }
        config
    }

    /// The slot of the parameter that a request lists at `index`.
    fn slot(&self, index: usize) -> (slot: Option<Setting>)
        ensures
            slot_view(slot) == self@.slot(index as int),
    {
        if index == 0 {
            match self.frequency_penalty {
                Some(x) => Some(Setting::FrequencyPenalty(x)),
                None => None,
            }
        } else if index == 1 {
            match self.logprobs {
                Some(x) => Some(Setting::Logprobs(x)),
                None => None,
            }
        } else if index == 2 {
            match self.top_logprobs {
                Some(x) => Some(Setting::TopLogprobs(x)),
                None => None,
            }
        } else if index == 3 {
            match self.max_tokens {
                Some(x) => Some(Setting::MaxTokens(x)),
                None => None,
            }
        } else if index == 4 {
            match self.n {
                Some(x) => Some(Setting::N(x)),
                None => None,
            }
        } else if index == 5 {
            match self.presence_penalty {
                Some(x) => Some(Setting::PresencePenalty(x)),
                None => None,
            }
        } else if index == 6 {
            match self.seed {
                Some(x) => Some(Setting::Seed(x)),
                None => None,
            }
        } else if index == 7 {
            match &self.stop {
                Some(x) => Some(Setting::Stop(x.clone())),
                None => None,
            }
        } else if index == 8 {
            match self.temperature {
                Some(x) => Some(Setting::Temperature(x)),
                None => None,
            }
        } else if index == 9 {
            match self.top_p {
                Some(x) => Some(Setting::TopP(x)),
                None => None,
            }
        } else if index == 10 {
            match self.parallel_tool_calls {
                Some(x) => Some(Setting::ParallelToolCalls(x)),
                None => None,
            }
        } else if index == 11 {
            match &self.user {
                Some(x) => Some(Setting::User(x.clone())),
                None => None,
            }
        } else {
            None
        }
    }

    /// The parameters that are set, in the order in which a request lists
    /// them.
    pub fn settings(&self) -> (list: Vec<Setting>)
        ensures
            setting_views(list@) == self@.settings(),
    {
        let ghost all = self@.slots();
        let mut list: Vec<Setting> = Vec::new();
        let mut index: usize = 0;
        assert(all.take(0) =~= Seq::empty());
        assert(setting_views(list@) =~= present(all.take(0)));
        while index < 12
            invariant
                index <= 12,
                all == self@.slots(),
                setting_views(list@) == present(all.take(index as int)),
            decreases 12 - index,
        {
            let ghost before = setting_views(list@);
            assert(all.take(index + 1).drop_last() =~= all.take(index as int));
            assert(all.take(index + 1).last() == self@.slot(index as int));
            match self.slot(index) {
                Some(setting) => {
                    list.push(setting);
                    assert(setting_views(list@) =~= before + seq![setting@]);
                },
                None => {
                    assert(setting_views(list@) =~= before + Seq::<SettingView>::empty());
                },
            }
            index += 1;
        }
        assert(all.take(index as int) =~= all);
        list
    }
}

impl Default for ChatConfig {
    fn default() -> (config: ChatConfig)
        ensures
            config@ == ChatConfigView::empty(),
            config@.settings() == Seq::<SettingView>::empty(),
    {
        ChatConfig::new()
    }
}

/// Copies a list of messages.
fn clone_messages(messages: &Vec<Message>) -> (copy: Vec<Message>)
    ensures
        message_views(copy@) == message_views(messages@),
{
    let mut copy: Vec<Message> = Vec::new();
    let mut i: usize = 0;
    while i < messages.len()
        invariant
            i <= messages.len(),
            copy.len() == i,
            message_views(copy@) == message_views(messages@).take(i as int),
        decreases messages.len() - i,
    {
        let message = &messages[i];
        copy.push(Message { role: message.role, content: message.content.clone() });
        i += 1;
        assert(message_views(copy@) =~= message_views(messages@).take(i as int));
    }
    assert(message_views(messages@).take(i as int) =~= message_views(messages@));
    copy
}

/// The body of a request to the endpoint: the model, the whole transcript,
/// and the generation parameters that are set. A parameter that is not set
/// has no entry, so nothing can be sent for it.
#[derive(Clone, Debug, PartialEq, Eq)]
pub struct RequestBody {
    pub model: String,
    pub messages: Vec<Message>,
    pub settings: Vec<Setting>,
}

/// A `RequestBody` as plain values.
pub struct RequestBodyView {
    pub model: Seq<char>,
    pub messages: Seq<MessageView>,
    pub settings: Seq<SettingView>,
}

impl View for RequestBody {
    type V = RequestBodyView;

    open spec fn view(&self) -> RequestBodyView {
        RequestBodyView {
            model: self.model@,
            messages: message_views(self.messages@),
            settings: setting_views(self.settings@),
        }
    }
}

impl RequestBody {
    /// The request that carries a transcript under a configuration.
    pub fn new(config: &ChatConfig, message: &Vec<Message>) -> (body: RequestBody)
        ensures
            body@ == (RequestBodyView {
                model: config@.model,
                messages: message_views(message@),
                settings: config@.settings(),
            }),
    {
        RequestBody::carrying(config, clone_messages(message))
    }

    /// The request that carries a transcript, which it takes over, under a
    /// configuration.
    pub fn carrying(config: &ChatConfig, messages: Vec<Message>) -> (body: RequestBody)
        ensures
            body@ == (RequestBodyView {
                model: config@.model,
                messages: message_views(messages@),
                settings: config@.settings(),
            }),
    {
        RequestBody { model: config.model.clone(), messages, settings: config.settings() }
    }
}

/// A role's name stands for that role, and for no other.
pub proof fn lemma_role_name_round_trip(role: Role)
    ensures
        Role::named(role.name()) == Some(role),
{
    reveal_strlit("system");
    reveal_strlit("user");
    reveal_strlit("assistant");
    assert("system"@.len() == 6);
    assert("user"@.len() == 4);
    assert("assistant"@.len() == 9);
}

} // verus!
