use opai::chat::is_success;
use opai::{
    Chat, ChatConfig, Message, OpaiError, Outbound, Real, Reply, RequestBody, ResponseBody,
    ResponseChoice, Role, ServiceConfig, Setting, Usage,
};

fn number(x: f64) -> Real {
    Real { bits: x.to_bits() }
}

fn service() -> ServiceConfig {
    ServiceConfig { api_key: "sk-test".to_string(), chat_url: "http://stub/chat".to_string() }
}

fn message(role: Role, content: &str) -> Message {
    Message { role, content: content.to_string() }
}

fn usage(completion_tokens: u64, prompt_tokens: u64, total_tokens: u64) -> Usage {
    Usage { completion_tokens, prompt_tokens, total_tokens }
}

fn answer(choices: Vec<Message>, reported: Usage) -> ResponseBody {
    ResponseBody {
        choices: choices.into_iter().map(|message| ResponseChoice { message }).collect(),
        created: 1700000000,
        model: "stub".to_string(),
        usage: reported,
    }
}

fn helpful() -> Chat {
    Chat::new(service(), "You are helpful", ChatConfig::new())
}

#[test]
fn new_session_holds_only_the_system_prompt() {
    let chat = helpful();
    assert_eq!(chat.history(), vec![message(Role::System, "You are helpful")]);
    assert_eq!(chat.usage(), usage(0, 0, 0));
    assert_eq!(chat.config(), &ChatConfig::new());
    assert_eq!(chat.service_config(), &service());
}

#[test]
fn successful_turn_appends_reply_and_counts_usage() {
    let mut chat = helpful();
    chat.chat_with_gpt("hi");
    let reply = Reply::Answered(200, Ok(answer(vec![message(Role::Assistant, "hello")], usage(1, 1, 2))));
    assert!(chat.can_receive(&reply));
    let choices = chat.receive(reply).unwrap();
    assert_eq!(choices, vec![ResponseChoice { message: message(Role::Assistant, "hello") }]);
    assert_eq!(
        chat.history(),
        vec![
            message(Role::System, "You are helpful"),
            message(Role::User, "hi"),
            message(Role::Assistant, "hello"),
        ]
    );
    assert_eq!(chat.usage(), usage(1, 1, 2));
}

#[test]
fn rejected_turn_keeps_only_the_user_message() {
    let mut chat = helpful();
    chat.chat_with_gpt("hi");
    let outcome = chat.receive(Reply::Answered(401, Err(String::new())));
    assert_eq!(outcome, Err(OpaiError::Http(401)));
    assert_eq!(chat.history(), vec![message(Role::System, "You are helpful"), message(Role::User, "hi")]);
    assert_eq!(chat.usage(), usage(0, 0, 0));
}

#[test]
fn rejected_turn_ignores_a_body() {
    let mut chat = helpful();
    chat.chat_with_gpt("hi");
    let body = answer(vec![message(Role::Assistant, "ignored")], usage(5, 5, 10));
    let outcome = chat.receive(Reply::Answered(500, Ok(body)));
    assert_eq!(outcome, Err(OpaiError::Http(500)));
    assert_eq!(chat.history().len(), 2);
    assert_eq!(chat.usage(), usage(0, 0, 0));
}

#[test]
fn failed_exchange_is_a_network_error() {
    let mut chat = helpful();
    chat.chat_with_gpt("hi");
    let outcome = chat.receive(Reply::Failed("connection refused".to_string()));
    assert_eq!(outcome, Err(OpaiError::Network("connection refused".to_string())));
    assert_eq!(chat.history().len(), 2);
    assert_eq!(chat.usage(), usage(0, 0, 0));
}

#[test]
fn unreadable_body_is_a_network_error() {
    let mut chat = helpful();
    chat.chat_with_gpt("hi");
    let outcome = chat.receive(Reply::Answered(200, Err("expected value at line 1".to_string())));
    assert_eq!(outcome, Err(OpaiError::Network("expected value at line 1".to_string())));
    assert_eq!(chat.history().len(), 2);
    assert_eq!(chat.usage(), usage(0, 0, 0));
}

#[test]
fn empty_line_is_taken_verbatim() {
    let mut chat = helpful();
    let request = chat.chat_with_gpt("");
    assert_eq!(chat.history()[1], message(Role::User, ""));
    assert_eq!(request.body.messages.len(), 2);
}

#[test]
fn every_choice_is_appended_in_order_with_its_role() {
    let mut chat = helpful();
    chat.chat_with_gpt("hi");
    let body = answer(
        vec![message(Role::Assistant, "one"), message(Role::User, "two"), message(Role::System, "three")],
        usage(3, 4, 7),
    );
    let choices = chat.receive(Reply::Answered(201, Ok(body))).unwrap();
    assert_eq!(choices.len(), 3);
    assert_eq!(
        chat.history(),
        vec![
            message(Role::System, "You are helpful"),
            message(Role::User, "hi"),
            message(Role::Assistant, "one"),
            message(Role::User, "two"),
            message(Role::System, "three"),
        ]
    );
}

#[test]
fn answer_without_choices_adds_nothing_but_usage() {
    let mut chat = helpful();
    chat.chat_with_gpt("hi");
    let choices = chat.receive(Reply::Answered(200, Ok(answer(Vec::new(), usage(0, 9, 9))))).unwrap();
    assert!(choices.is_empty());
    assert_eq!(chat.history().len(), 2);
    assert_eq!(chat.usage(), usage(0, 9, 9));
}

#[test]
fn history_grows_by_two_for_each_single_choice_turn() {
    let mut chat = helpful();
    for n in 1..=5usize {
        chat.chat_with_gpt("again");
        chat.receive(Reply::Answered(200, Ok(answer(vec![message(Role::Assistant, "ok")], usage(1, 2, 3))))).unwrap();
        assert_eq!(chat.history().len(), 1 + 2 * n);
    }
}

#[test]
fn history_length_counts_user_lines_and_choices() {
    let mut chat = helpful();
    let counts = [0usize, 1, 3, 2];
    let mut expected = 1;
    for (turn, count) in counts.iter().enumerate() {
        chat.chat_with_gpt("line");
        if turn == 2 {
            assert!(chat.receive(Reply::Failed("timeout".to_string())).is_err());
            expected += 1;
        } else {
            let choices = (0..*count).map(|_| message(Role::Assistant, "c")).collect();
            chat.receive(Reply::Answered(200, Ok(answer(choices, usage(1, 1, 2))))).unwrap();
            expected += 1 + count;
        }
        assert_eq!(chat.history().len(), expected);
    }
    assert_eq!(chat.history()[0].role, Role::System);
}

#[test]
fn usage_is_the_sum_over_successful_turns() {
    let mut chat = helpful();
    let reports = [usage(1, 10, 11), usage(0, 0, 0), usage(7, 3, 10), usage(100, 200, 300)];
    let mut before = chat.usage();
    for report in reports {
        chat.chat_with_gpt("q");
        chat.receive(Reply::Answered(200, Ok(answer(vec![message(Role::Assistant, "a")], report)))).unwrap();
        let now = chat.usage();
        assert!(now.completion_tokens >= before.completion_tokens);
        assert!(now.prompt_tokens >= before.prompt_tokens);
        assert!(now.total_tokens >= before.total_tokens);
        before = now;
        chat.chat_with_gpt("q");
        assert!(chat.receive(Reply::Answered(429, Err(String::new()))).is_err());
        assert_eq!(chat.usage(), before);
    }
    assert_eq!(chat.usage(), usage(108, 213, 321));
}

#[test]
fn request_carries_the_whole_transcript() {
    let mut chat = helpful();
    chat.chat_with_gpt("first");
    chat.receive(Reply::Answered(200, Ok(answer(vec![message(Role::Assistant, "reply")], usage(1, 1, 2))))).unwrap();
    let request = chat.chat_with_gpt("second");
    assert_eq!(
        request.body.messages,
        vec![
            message(Role::System, "You are helpful"),
            message(Role::User, "first"),
            message(Role::Assistant, "reply"),
            message(Role::User, "second"),
        ]
    );
    assert_eq!(request.body.messages, chat.history());
}

#[test]
fn request_goes_to_the_resolved_endpoint_with_bearer_key() {
    let mut chat = helpful();
    let request: Outbound = chat.chat_with_gpt("hi");
    assert_eq!(request.url, "http://stub/chat");
    assert_eq!(request.authorization, "Bearer sk-test");
}

#[test]
fn request_holds_exactly_model_messages_and_temperature() {
    let mut config = ChatConfig::new();
    config.model = "m".to_string();
    config.temperature = Some(number(0.5));
    let mut chat = Chat::new(service(), "sys", config);
    let request = chat.chat_with_gpt("hi");
    assert_eq!(
        request.body,
        RequestBody {
            model: "m".to_string(),
            messages: vec![message(Role::System, "sys"), message(Role::User, "hi")],
            settings: vec![Setting::Temperature(number(0.5))],
        }
    );
    assert_eq!(f64::from_bits(match request.body.settings[0] {
        Setting::Temperature(t) => t.bits,
        _ => panic!("temperature expected"),
    }), 0.5);
    assert_eq!(request.body.settings[0].key(), "temperature");
}

#[test]
fn request_body_new_copies_what_it_is_given() {
    let mut config = ChatConfig::new();
    config.model = "gpt-4o-mini".to_string();
    config.seed = Some(-7);
    let transcript = vec![message(Role::System, "s"), message(Role::User, "u")];
    let body = RequestBody::new(&config, &transcript);
    assert_eq!(body.model, "gpt-4o-mini");
    assert_eq!(body.messages, transcript);
    assert_eq!(body.settings, vec![Setting::Seed(-7)]);
}

#[test]
fn unset_parameters_have_no_entry() {
    let config = ChatConfig::new();
    assert_eq!(config.model, "");
    assert!(config.settings().is_empty());
    assert_eq!(ChatConfig::default(), config);
}

#[test]
fn set_parameters_appear_with_their_values_in_order() {
    let config = ChatConfig {
        model: "m".to_string(),
        frequency_penalty: Some(number(-0.25)),
        logprobs: Some(true),
        top_logprobs: Some(3),
        max_tokens: Some(256),
        n: Some(2),
        presence_penalty: Some(number(1.5)),
        seed: Some(42),
        stop: Some("END".to_string()),
        temperature: Some(number(0.0)),
        top_p: Some(number(1.0)),
        parallel_tool_calls: Some(false),
        user: Some("u-1".to_string()),
    };
    let settings = config.settings();
    assert_eq!(
        settings,
        vec![
            Setting::FrequencyPenalty(number(-0.25)),
            Setting::Logprobs(true),
            Setting::TopLogprobs(3),
            Setting::MaxTokens(256),
            Setting::N(2),
            Setting::PresencePenalty(number(1.5)),
            Setting::Seed(42),
            Setting::Stop("END".to_string()),
            Setting::Temperature(number(0.0)),
            Setting::TopP(number(1.0)),
            Setting::ParallelToolCalls(false),
            Setting::User("u-1".to_string()),
        ]
    );
    let keys: Vec<&str> = settings.iter().map(|s| s.key()).collect();
    assert_eq!(
        keys,
        vec![
            "frequency_penalty",
            "logprobs",
            "top_logprobs",
            "max_tokens",
            "n",
            "presence_penalty",
            "seed",
            "stop",
            "temperature",
            "top_p",
            "parallel_tool_calls",
            "user",
        ]
    );
}

#[test]
fn some_parameters_set_some_not() {
    let mut config = ChatConfig::new();
    config.max_tokens = Some(16);
    config.user = Some("me".to_string());
    config.logprobs = Some(false);
    assert_eq!(
        config.settings(),
        vec![Setting::Logprobs(false), Setting::MaxTokens(16), Setting::User("me".to_string())]
    );
}

#[test]
fn success_is_two_hundred_to_two_hundred_ninety_nine() {
    assert!(!is_success(0));
    assert!(!is_success(99));
    assert!(!is_success(100));
    assert!(!is_success(199));
    assert!(is_success(200));
    assert!(is_success(204));
    assert!(is_success(299));
    assert!(!is_success(300));
    assert!(!is_success(401));
    assert!(!is_success(999));
    assert!(!is_success(1000));
    assert!(!is_success(u16::MAX));
}

#[test]
fn status_outside_the_valid_range_is_a_rejection() {
    let mut chat = helpful();
    chat.chat_with_gpt("hi");
    assert_eq!(chat.receive(Reply::Answered(1200, Err(String::new()))), Err(OpaiError::Http(1200)));
}

#[test]
fn role_names_round_trip() {
    for role in [Role::System, Role::User, Role::Assistant] {
        assert_eq!(Role::from_str(role.as_str()), Ok(role));
    }
    assert_eq!(Role::System.as_str(), "system");
    assert_eq!(Role::User.as_str(), "user");
    assert_eq!(Role::Assistant.as_str(), "assistant");
}

#[test]
fn unknown_role_names_are_refused() {
    assert_eq!(Role::from_str(""), Err(()));
    assert_eq!(Role::from_str("System"), Err(()));
    assert_eq!(Role::from_str("tool"), Err(()));
    assert_eq!(Role::from_str("user "), Err(()));
}

#[test]
fn usage_accumulates_count_by_count() {
    let mut total = Usage::default();
    assert_eq!(total, usage(0, 0, 0));
    total.accumulate(&usage(1, 2, 3));
    total.accumulate(&usage(10, 20, 30));
    assert_eq!(total, usage(11, 22, 33));
}

#[test]
fn usage_knows_when_it_would_overflow() {
    let total = usage(u64::MAX - 1, 0, 5);
    assert!(total.can_accumulate(&usage(1, u64::MAX, 0)));
    assert!(!total.can_accumulate(&usage(2, 0, 0)));
    assert!(!usage(0, 1, 0).can_accumulate(&usage(0, u64::MAX, 0)));
    assert!(!usage(0, 0, u64::MAX).can_accumulate(&usage(0, 0, 1)));
}

#[test]
fn session_knows_when_a_reply_would_overflow() {
    let mut chat = helpful();
    chat.chat_with_gpt("hi");
    chat.receive(Reply::Answered(200, Ok(answer(Vec::new(), usage(1, 1, 2))))).unwrap();
    let huge = Reply::Answered(200, Ok(answer(Vec::new(), usage(u64::MAX, 0, 0))));
    assert!(!chat.can_receive(&huge));
    let rejected = Reply::Answered(500, Ok(answer(Vec::new(), usage(u64::MAX, 0, 0))));
    assert!(chat.can_receive(&rejected));
    assert!(chat.can_receive(&Reply::Failed(String::new())));
    assert!(chat.can_receive(&Reply::Answered(200, Err(String::new()))));
    let fits = Reply::Answered(200, Ok(answer(Vec::new(), usage(u64::MAX - 1, 0, 0))));
    assert!(chat.can_receive(&fits));
}

#[test]
fn labels_of_described_parameters() {
    assert_eq!(Setting::FrequencyPenalty(number(1.0)).label(), None);
    assert_eq!(Setting::Logprobs(true).label(), Some("logprobs:  "));
    assert_eq!(Setting::TopLogprobs(1).label(), Some("top_logprobs:  "));
    assert_eq!(Setting::MaxTokens(1).label(), Some("max_tokens:  "));
    assert_eq!(Setting::N(1).label(), Some("n:  "));
    assert_eq!(Setting::PresencePenalty(number(1.0)).label(), Some("presence_penalty: "));
    assert_eq!(Setting::Seed(1).label(), Some("seed:  "));
    assert_eq!(Setting::Stop(String::new()).label(), Some("stop: "));
    assert_eq!(Setting::Temperature(number(1.0)).label(), Some("temperature: "));
    assert_eq!(Setting::TopP(number(1.0)).label(), Some("top_p: "));
    assert_eq!(Setting::ParallelToolCalls(true).label(), Some("parallel_tool_calls: "));
    assert_eq!(Setting::User(String::new()).label(), None);
}
