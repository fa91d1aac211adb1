use best_bot::channel_return::{unbounded, Poll, Received};
use best_bot::config::{SecretStore, Slack};
use best_bot::conversations::ChannelRecord;
use best_bot::events::{Event, EventKind, MessageStandard};
use best_bot::plugin_api_v1;
use best_bot::plugin_api_v2;
use best_bot::plugin_api_v2::{Reply, Request};
use best_bot::plugin_manager::{
    Generation, LoadOutcome, LoadPlan, Module, PluginManager, PluginVersion,
};
use best_bot::request_server::{Answer, RequestServer, Served};
use best_bot::slack_bot::MyHandler;
use std::sync::{Arc, Mutex};

/// What the mock plugins write down, in the order in which it happened.
type Journal = Arc<Mutex<Vec<String>>>;

struct MockV1 {
    name: String,
    interest: Vec<EventKind>,
    journal: Journal,
    handed: Option<(plugin_api_v1::Slack, String)>,
}

impl plugin_api_v1::Plugin for MockV1 {
    fn name(&self) -> String {
        self.name.clone()
    }

    fn event_subscript(&self) -> Vec<EventKind> {
        self.interest.clone()
    }

    fn on_plugin_load(&mut self, slack: plugin_api_v1::Slack, config_path: String) {
        self.journal.lock().unwrap().push(format!("{} loaded", self.name));
        self.handed = Some((slack, config_path));
    }

    fn event(&self, event: &Event) {
        if let Event::StandardMessage(message) = event {
            let text = message.text.clone().unwrap_or_default();
            self.journal.lock().unwrap().push(format!("{} got {}", self.name, text));
        }
    }
}

struct MockV2 {
    name: String,
    interest: Vec<EventKind>,
    journal: Journal,
    handed: Option<(String, u64)>,
}

impl plugin_api_v2::Plugin for MockV2 {
    type Logger = String;
    type Sender = u64;

    fn name(&self) -> String {
        self.name.clone()
    }

    fn event_subscript(&self) -> Vec<EventKind> {
        self.interest.clone()
    }

    fn on_plugin_load(&mut self, logger: String, sender: u64) {
        self.journal.lock().unwrap().push(format!("{} loaded", self.name));
        self.handed = Some((logger, sender));
    }

    fn event(&self, event: &Event) {
        if let Event::StandardMessage(message) = event {
            let text = message.text.clone().unwrap_or_default();
            self.journal.lock().unwrap().push(format!("{} got {}", self.name, text));
        }
    }
}

struct MockModule {
    name: String,
    version: Option<u32>,
    constructs: bool,
    interest: Vec<EventKind>,
    journal: Journal,
}

impl Module for MockModule {
    type V1 = MockV1;
    type V2 = MockV2;

    fn api_version(&self) -> Option<u32> {
        self.version
    }

    fn load_v1(&self) -> Option<MockV1> {
        if !self.constructs {
            return None;
        }
        Some(MockV1 {
            name: self.name.clone(),
            interest: self.interest.clone(),
            journal: self.journal.clone(),
            handed: None,
        })
    }

    fn load_v2(&self) -> Option<MockV2> {
        if !self.constructs {
            return None;
        }
        Some(MockV2 {
            name: self.name.clone(),
            interest: self.interest.clone(),
            journal: self.journal.clone(),
            handed: None,
        })
    }
}

impl Drop for MockModule {
    fn drop(&mut self) {
        self.journal.lock().unwrap().push(format!("{} unloaded", self.name));
    }
}

fn module(name: &str, version: Option<u32>, interest: &[EventKind], journal: &Journal) -> MockModule {
    MockModule {
        name: name.to_string(),
        version,
        constructs: true,
        interest: interest.to_vec(),
        journal: journal.clone(),
    }
}

fn secrets() -> SecretStore {
    SecretStore::new(
        Slack {
            api_token: "xoxb-bot".to_string(),
            admin_api_token: "xoxp-admin".to_string(),
            incoming_webhooks_token: Some("hook-in".to_string()),
            outgoing_webhooks_token: None,
        },
        "/home/bot/.config/BEST-Bot/plugins".to_string(),
    )
}

fn manager() -> PluginManager<MockModule> {
    PluginManager::new(secrets(), "log-sender".to_string(), 42)
}

fn message(text: &str) -> Event {
    Event::StandardMessage(MessageStandard {
        channel: Some("C1".to_string()),
        user: Some("U1".to_string()),
        text: Some(text.to_string()),
        ts: Some("1.0".to_string()),
        thread_ts: None,
    })
}

fn entries(journal: &Journal) -> Vec<String> {
    journal.lock().unwrap().clone()
}

const MESSAGES: [EventKind; 1] = [EventKind::StandardMessage];

#[test]
fn versions_one_and_two_are_supported() {
    assert_eq!(Generation::from_version(1), Some(Generation::V1));
    assert_eq!(Generation::from_version(2), Some(Generation::V2));
}

#[test]
fn other_versions_are_not_supported() {
    for version in [0u32, 3, 4, 255, u32::MAX] {
        assert_eq!(Generation::from_version(version), None);
    }
}

#[test]
fn the_plan_follows_the_reported_version() {
    assert_eq!(LoadPlan::of(Some(1)), LoadPlan::Construct(Generation::V1));
    assert_eq!(LoadPlan::of(Some(2)), LoadPlan::Construct(Generation::V2));
    assert_eq!(LoadPlan::of(Some(0)), LoadPlan::Reject(LoadOutcome::UnsupportedVersion(0)));
    assert_eq!(LoadPlan::of(Some(3)), LoadPlan::Reject(LoadOutcome::UnsupportedVersion(3)));
    assert_eq!(LoadPlan::of(None), LoadPlan::Reject(LoadOutcome::NotAPlugin));
}

#[test]
fn without_an_object_nothing_is_registered() {
    let journal = Journal::default();
    let mut manager = manager();
    let lib = module("one", Some(1), &MESSAGES, &journal);
    assert_eq!(manager.load_plugin_api_v1(None, lib), LoadOutcome::NoConstructor(Generation::V1));
    let lib = module("two", Some(2), &MESSAGES, &journal);
    assert_eq!(manager.load_plugin_api_v2(None, lib), LoadOutcome::NoConstructor(Generation::V2));
    assert!(manager.list_of_api_v1_plugins().is_empty());
    assert!(manager.list_of_api_v2_plugins().is_empty());
    assert_eq!(entries(&journal), vec!["one unloaded", "two unloaded"]);
}

#[test]
fn a_new_manager_has_an_empty_registry() {
    let manager = manager();
    assert!(manager.list_of_api_v1_plugins().is_empty());
    assert!(manager.list_of_api_v2_plugins().is_empty());
}

#[test]
fn a_version_one_module_is_registered_under_generation_one() {
    let journal = Journal::default();
    let mut manager = manager();
    let outcome = manager.load_plugin(module("one", Some(1), &MESSAGES, &journal));
    assert_eq!(outcome, LoadOutcome::Loaded(Generation::V1));
    assert_eq!(manager.list_of_api_v1_plugins().len(), 1);
    assert_eq!(manager.list_of_api_v2_plugins().len(), 0);
    assert_eq!(manager.list_of_api_v1_plugins()[0].plugin().name, "one");
}

#[test]
fn a_version_two_module_is_registered_under_generation_two() {
    let journal = Journal::default();
    let mut manager = manager();
    let outcome = manager.load_plugin(module("two", Some(2), &MESSAGES, &journal));
    assert_eq!(outcome, LoadOutcome::Loaded(Generation::V2));
    assert_eq!(manager.list_of_api_v1_plugins().len(), 0);
    assert_eq!(manager.list_of_api_v2_plugins().len(), 1);
    assert_eq!(manager.list_of_api_v2_plugins()[0].plugin().name, "two");
}

#[test]
fn the_registry_has_one_handle_per_loaded_module_in_load_order() {
    let journal = Journal::default();
    let mut manager = manager();
    for (name, version) in [("a", 1), ("b", 2), ("c", 1), ("d", 7), ("e", 2), ("f", 1)] {
        manager.load_plugin(module(name, Some(version), &MESSAGES, &journal));
    }
    let ones: Vec<&str> =
        manager.list_of_api_v1_plugins().iter().map(|p| p.plugin().name.as_str()).collect();
    let twos: Vec<&str> =
        manager.list_of_api_v2_plugins().iter().map(|p| p.plugin().name.as_str()).collect();
    assert_eq!(ones, vec!["a", "c", "f"]);
    assert_eq!(twos, vec!["b", "e"]);
}

#[test]
fn an_unsupported_version_adds_nothing() {
    let journal = Journal::default();
    let mut manager = manager();
    assert_eq!(
        manager.load_plugin(module("zero", Some(0), &MESSAGES, &journal)),
        LoadOutcome::UnsupportedVersion(0)
    );
    assert_eq!(
        manager.load_plugin(module("three", Some(3), &MESSAGES, &journal)),
        LoadOutcome::UnsupportedVersion(3)
    );
    assert!(manager.list_of_api_v1_plugins().is_empty());
    assert!(manager.list_of_api_v2_plugins().is_empty());
    // No object was constructed, and both modules are released again.
    assert_eq!(entries(&journal), vec!["zero unloaded", "three unloaded"]);
}

#[test]
fn a_module_without_a_version_is_no_plugin() {
    let journal = Journal::default();
    let mut manager = manager();
    assert_eq!(
        manager.load_plugin(module("plain", None, &MESSAGES, &journal)),
        LoadOutcome::NotAPlugin
    );
    assert!(manager.list_of_api_v1_plugins().is_empty());
    assert!(manager.list_of_api_v2_plugins().is_empty());
}

#[test]
fn a_module_without_a_constructor_is_skipped() {
    let journal = Journal::default();
    let mut manager = manager();
    let mut broken = module("broken", Some(1), &MESSAGES, &journal);
    broken.constructs = false;
    assert_eq!(manager.load_plugin(broken), LoadOutcome::NoConstructor(Generation::V1));
    let mut broken = module("broken2", Some(2), &MESSAGES, &journal);
    broken.constructs = false;
    assert_eq!(manager.load_plugin(broken), LoadOutcome::NoConstructor(Generation::V2));
    assert!(manager.list_of_api_v1_plugins().is_empty());
    assert!(manager.list_of_api_v2_plugins().is_empty());
    // The host goes on with the next module.
    assert_eq!(
        manager.load_plugin(module("fine", Some(1), &MESSAGES, &journal)),
        LoadOutcome::Loaded(Generation::V1)
    );
}

#[test]
fn generation_one_load_hook_gets_tokens_and_config_path() {
    let journal = Journal::default();
    let mut manager = manager();
    manager.load_plugin(module("one", Some(1), &MESSAGES, &journal));
    let plugin = manager.list_of_api_v1_plugins()[0].plugin();
    let (slack, config_path) = plugin.handed.as_ref().unwrap();
    assert_eq!(slack.api_token, "xoxb-bot");
    assert_eq!(slack.admin_api_token, "xoxp-admin");
    assert_eq!(config_path, "/home/bot/.config/BEST-Bot/plugins");
    assert_eq!(entries(&journal), vec!["one loaded"]);
    // A generation-2 peer that asks for the directory gets the same value.
    let server = RequestServer::new(secrets());
    assert_eq!(
        server.answer(&Request::ConfigPath),
        Answer::Reply(Reply::ConfigPath(config_path.clone()))
    );
}

#[test]
fn generation_one_capabilities_are_copies_of_the_secrets() {
    let manager = manager();
    let (slack, config_path) = manager.v1_capabilities();
    assert_eq!(
        slack,
        plugin_api_v1::Slack {
            api_token: "xoxb-bot".to_string(),
            admin_api_token: "xoxp-admin".to_string(),
        }
    );
    assert_eq!(config_path, "/home/bot/.config/BEST-Bot/plugins");
}

#[test]
fn generation_two_load_hook_gets_the_two_senders() {
    let journal = Journal::default();
    let mut manager = manager();
    manager.load_plugin(module("two", Some(2), &MESSAGES, &journal));
    manager.load_plugin(module("too", Some(2), &MESSAGES, &journal));
    for plugin in manager.list_of_api_v2_plugins() {
        assert_eq!(plugin.plugin().handed, Some(("log-sender".to_string(), 42)));
    }
}

#[test]
fn constructed_objects_can_be_registered_directly() {
    let journal = Journal::default();
    let mut manager = manager();
    let lib = module("one", Some(1), &MESSAGES, &journal);
    let obj = lib.load_v1();
    assert_eq!(manager.load_plugin_api_v1(obj, lib), LoadOutcome::Loaded(Generation::V1));
    let lib = module("two", Some(2), &MESSAGES, &journal);
    let obj = lib.load_v2();
    assert_eq!(manager.load_plugin_api_v2(obj, lib), LoadOutcome::Loaded(Generation::V2));
    assert_eq!(manager.list_of_api_v1_plugins().len(), 1);
    assert_eq!(manager.list_of_api_v2_plugins().len(), 1);
    assert!(manager.list_of_api_v1_plugins()[0].plugin().handed.is_some());
    assert!(manager.list_of_api_v2_plugins()[0].plugin().handed.is_some());
}

#[test]
fn a_module_lives_as_long_as_any_handle_to_its_plugin() {
    let journal = Journal::default();
    let mut handler: MyHandler<MockModule> = MyHandler::new();
    {
        let mut manager = manager();
        manager.load_plugin(module("one", Some(1), &MESSAGES, &journal));
        handler.plugin_api_v1(manager.list_of_api_v1_plugins());
        // The registry goes out of scope here; the subscriber list still
        // holds a handle.
    }
    assert_eq!(entries(&journal), vec!["one loaded"]);
    assert_eq!(handler.on_event(&message("hi")), 1);
    assert_eq!(entries(&journal), vec!["one loaded", "one got hi"]);
    drop(handler);
    assert_eq!(entries(&journal), vec!["one loaded", "one got hi", "one unloaded"]);
}

#[test]
fn a_message_goes_to_the_subscribers_in_load_order() {
    let journal = Journal::default();
    let mut manager = manager();
    manager.load_plugin(module("a", Some(1), &MESSAGES, &journal));
    manager.load_plugin(module("b", Some(1), &[], &journal));
    manager.load_plugin(module("c", Some(1), &MESSAGES, &journal));
    manager.load_plugin(module("d", Some(2), &MESSAGES, &journal));
    manager.load_plugin(module("e", Some(2), &[], &journal));
    let mut handler: MyHandler<MockModule> = MyHandler::new();
    handler.plugin_api_v1(manager.list_of_api_v1_plugins());
    handler.plugin_api_v2(manager.list_of_api_v2_plugins());
    journal.lock().unwrap().clear();
    assert_eq!(handler.on_event(&message("hello")), 3);
    assert_eq!(entries(&journal), vec!["a got hello", "c got hello", "d got hello"]);
}

#[test]
fn subscribers_keep_the_order_of_subscription_across_generations() {
    let journal = Journal::default();
    let mut manager = manager();
    manager.load_plugin(module("one", Some(1), &MESSAGES, &journal));
    manager.load_plugin(module("two", Some(2), &MESSAGES, &journal));
    let mut handler: MyHandler<MockModule> = MyHandler::new();
    handler.subscript_to_v2(&manager.list_of_api_v2_plugins()[0]);
    handler.subscript_to_v1(&manager.list_of_api_v1_plugins()[0]);
    let generations: Vec<Generation> = handler
        .subscribers_of(EventKind::StandardMessage)
        .iter()
        .map(|handle| handle.generation())
        .collect();
    assert_eq!(generations, vec![Generation::V2, Generation::V1]);
    journal.lock().unwrap().clear();
    handler.on_event(&message("x"));
    assert_eq!(entries(&journal), vec!["two got x", "one got x"]);
}

#[test]
fn a_plugin_without_interest_gets_nothing() {
    let journal = Journal::default();
    let mut manager = manager();
    manager.load_plugin(module("quiet", Some(1), &[], &journal));
    manager.load_plugin(module("silent", Some(2), &[], &journal));
    let mut handler: MyHandler<MockModule> = MyHandler::new();
    handler.plugin_api_v1(manager.list_of_api_v1_plugins());
    handler.plugin_api_v2(manager.list_of_api_v2_plugins());
    assert!(handler.subscribers_of(EventKind::StandardMessage).is_empty());
    journal.lock().unwrap().clear();
    assert_eq!(handler.on_event(&message("hello")), 0);
    assert!(entries(&journal).is_empty());
}

#[test]
fn a_category_declared_twice_subscribes_once() {
    let journal = Journal::default();
    let mut manager = manager();
    let twice = [EventKind::StandardMessage, EventKind::StandardMessage];
    manager.load_plugin(module("eager", Some(1), &twice, &journal));
    let mut handler: MyHandler<MockModule> = MyHandler::new();
    handler.plugin_api_v1(manager.list_of_api_v1_plugins());
    journal.lock().unwrap().clear();
    assert_eq!(handler.on_event(&message("once")), 1);
    assert_eq!(entries(&journal), vec!["eager got once"]);
}

#[test]
fn subscribe_follows_the_declared_interest() {
    let journal = Journal::default();
    let mut manager = manager();
    manager.load_plugin(module("p", Some(1), &[], &journal));
    let handle = PluginVersion::V1(manager.list_of_api_v1_plugins()[0].clone());
    let mut handler: MyHandler<MockModule> = MyHandler::new();
    handler.subscribe(handle.duplicate(), &vec![]);
    assert_eq!(handler.subscribers_of(EventKind::StandardMessage).len(), 0);
    handler.subscribe(handle.duplicate(), &vec![EventKind::StandardMessage]);
    assert_eq!(handler.subscribers_of(EventKind::StandardMessage).len(), 1);
    handler.subscribe(handle, &vec![EventKind::StandardMessage]);
    assert_eq!(handler.subscribers_of(EventKind::StandardMessage).len(), 2);
}

#[test]
fn a_shared_handle_points_to_the_same_plugin() {
    let journal = Journal::default();
    let mut manager = manager();
    manager.load_plugin(module("p", Some(1), &MESSAGES, &journal));
    let record = &manager.list_of_api_v1_plugins()[0];
    let handle = PluginVersion::V1(record.clone());
    let copy = handle.duplicate();
    assert_eq!(copy.generation(), Generation::V1);
    match copy {
        PluginVersion::V1(shared) => assert!(Arc::ptr_eq(&shared, record)),
        PluginVersion::V2(_) => panic!("wrong generation"),
    }
}

#[test]
fn unrouted_events_reach_no_plugin() {
    let journal = Journal::default();
    let mut manager = manager();
    manager.load_plugin(module("a", Some(1), &MESSAGES, &journal));
    let mut handler: MyHandler<MockModule> = MyHandler::new();
    handler.plugin_api_v1(manager.list_of_api_v1_plugins());
    journal.lock().unwrap().clear();
    assert_eq!(handler.on_event(&Event::Unrouted), 0);
    assert!(entries(&journal).is_empty());
    assert_eq!(Event::Unrouted.kind(), None);
    assert_eq!(message("m").kind(), Some(EventKind::StandardMessage));
}

#[test]
fn tokens_are_answered_from_the_secrets() {
    let server = RequestServer::new(secrets());
    assert_eq!(
        server.answer(&Request::ApiToken),
        Answer::Reply(Reply::ApiToken("xoxb-bot".to_string()))
    );
    assert_eq!(
        server.answer(&Request::AdminApiToken),
        Answer::Reply(Reply::AdminApiToken("xoxp-admin".to_string()))
    );
    assert_eq!(
        server.answer(&Request::WebHooksIncomingToken),
        Answer::Reply(Reply::WebHooksIncomingToken("hook-in".to_string()))
    );
    assert_eq!(
        server.answer(&Request::ConfigPath),
        Answer::Reply(Reply::ConfigPath("/home/bot/.config/BEST-Bot/plugins".to_string()))
    );
}

#[test]
fn a_token_that_was_never_set_is_not_configured() {
    let server = RequestServer::new(secrets());
    assert_eq!(server.answer(&Request::WebHooksOutgoingToken), Answer::Reply(Reply::NotConfigured));
    let bare = SecretStore::new(
        Slack {
            api_token: "a".to_string(),
            admin_api_token: "b".to_string(),
            incoming_webhooks_token: None,
            outgoing_webhooks_token: Some("out".to_string()),
        },
        "p".to_string(),
    );
    let server = RequestServer::new(bare);
    assert_eq!(server.answer(&Request::WebHooksIncomingToken), Answer::Reply(Reply::NotConfigured));
    assert_eq!(
        server.answer(&Request::WebHooksOutgoingToken),
        Answer::Reply(Reply::WebHooksOutgoingToken("out".to_string()))
    );
}

#[test]
fn channel_name_is_fetched_once_and_then_cached() {
    let mut server = RequestServer::new(secrets());
    let mut channel = unbounded();
    let mut fetches = 0;
    let mut names = Vec::new();
    for _ in 0..3 {
        let ticket = channel.send_request(Request::GetChannelName("C42".to_string())).unwrap();
        match server.request_handler(&mut channel) {
            Served::Answered => {}
            Served::Lookup(path, id) => {
                assert_eq!(id, "C42");
                fetches += 1;
                let fetched = ChannelRecord {
                    id: Some("C42".to_string()),
                    name: Some("general".to_string()),
                };
                assert!(server.lookup_done(&mut channel, path, id, Some(fetched)));
            }
            other => panic!("unexpected {:?}", other),
        }
        match channel.poll(&ticket) {
            Poll::Ready(Reply::ChannelName(name)) => names.push(name),
            other => panic!("unexpected {:?}", other),
        }
    }
    assert_eq!(fetches, 1);
    assert_eq!(names, vec!["general", "general", "general"]);
}

#[test]
fn a_conversation_without_a_name_has_the_empty_name() {
    let mut server = RequestServer::new(secrets());
    server.conversation_info("D1".to_string(), ChannelRecord { id: Some("D1".to_string()), name: None });
    assert_eq!(
        server.answer(&Request::GetChannelName("D1".to_string())),
        Answer::Reply(Reply::ChannelName(String::new()))
    );
}

#[test]
fn a_failed_lookup_is_reported_and_not_cached() {
    let mut server = RequestServer::new(secrets());
    let mut channel = unbounded();
    let ticket = channel.send_request(Request::GetChannelName("C404".to_string())).unwrap();
    let (path, id) = match server.request_handler(&mut channel) {
        Served::Lookup(path, id) => (path, id),
        other => panic!("unexpected {:?}", other),
    };
    assert!(server.lookup_done(&mut channel, path, id, None));
    assert_eq!(channel.poll(&ticket), Poll::Ready(Reply::LookupFailed));
    // The next request for the same name asks the chat service again.
    assert_eq!(
        server.answer(&Request::GetChannelName("C404".to_string())),
        Answer::Lookup("C404".to_string())
    );
}

#[test]
fn a_record_is_cached_under_the_identifier_asked_for() {
    let mut server = RequestServer::new(secrets());
    server.conversation_info(
        "C1".to_string(),
        ChannelRecord { id: Some("C-other".to_string()), name: Some("random".to_string()) },
    );
    assert_eq!(
        server.answer(&Request::GetChannelName("C1".to_string())),
        Answer::Reply(Reply::ChannelName("random".to_string()))
    );
    assert_eq!(
        server.answer(&Request::GetChannelName("C-other".to_string())),
        Answer::Lookup("C-other".to_string())
    );
}

#[test]
fn a_later_record_replaces_an_earlier_one() {
    let mut server = RequestServer::new(secrets());
    server.conversation_info(
        "C1".to_string(),
        ChannelRecord { id: Some("C1".to_string()), name: Some("old".to_string()) },
    );
    server.conversation_info(
        "C2".to_string(),
        ChannelRecord { id: Some("C2".to_string()), name: Some("two".to_string()) },
    );
    server.conversation_info(
        "C1".to_string(),
        ChannelRecord { id: Some("C1".to_string()), name: Some("new".to_string()) },
    );
    assert_eq!(
        server.answer(&Request::GetChannelName("C1".to_string())),
        Answer::Reply(Reply::ChannelName("new".to_string()))
    );
    assert_eq!(
        server.answer(&Request::GetChannelName("C2".to_string())),
        Answer::Reply(Reply::ChannelName("two".to_string()))
    );
}

#[test]
fn requests_are_answered_on_their_own_reply_paths() {
    let server = RequestServer::new(secrets());
    let mut channel = unbounded();
    let first = channel.send_request(Request::ConfigPath).unwrap();
    let second = channel.send_request(Request::ApiToken).unwrap();
    let third = channel.send_request(Request::WebHooksOutgoingToken).unwrap();
    assert_eq!(server.request_handler(&mut channel), Served::Answered);
    assert_eq!(server.request_handler(&mut channel), Served::Answered);
    assert_eq!(server.request_handler(&mut channel), Served::Answered);
    assert_eq!(server.request_handler(&mut channel), Served::Idle);
    assert_eq!(channel.poll(&third), Poll::Ready(Reply::NotConfigured));
    assert_eq!(channel.poll(&second), Poll::Ready(Reply::ApiToken("xoxb-bot".to_string())));
    assert_eq!(
        channel.poll(&first),
        Poll::Ready(Reply::ConfigPath("/home/bot/.config/BEST-Bot/plugins".to_string()))
    );
}

#[test]
fn serving_ends_when_the_callers_are_gone() {
    let server = RequestServer::new(secrets());
    let mut channel = unbounded();
    let ticket = channel.send_request(Request::ApiToken).unwrap();
    channel.close_senders();
    assert_eq!(server.request_handler(&mut channel), Served::Answered);
    assert_eq!(server.request_handler(&mut channel), Served::Closed);
    assert_eq!(channel.poll(&ticket), Poll::Ready(Reply::ApiToken("xoxb-bot".to_string())));
}

#[test]
fn a_lookup_leaves_the_queue_in_order() {
    let mut server = RequestServer::new(secrets());
    let mut channel = unbounded();
    let slow = channel.send_request(Request::GetChannelName("C9".to_string())).unwrap();
    let fast = channel.send_request(Request::ApiToken).unwrap();
    let (path, id) = match server.request_handler(&mut channel) {
        Served::Lookup(path, id) => (path, id),
        other => panic!("unexpected {:?}", other),
    };
    // While the chat service is asked, the next request is served.
    assert_eq!(server.request_handler(&mut channel), Served::Answered);
    assert_eq!(channel.poll(&fast), Poll::Ready(Reply::ApiToken("xoxb-bot".to_string())));
    assert_eq!(channel.poll(&slow), Poll::Waiting);
    let record = ChannelRecord { id: Some(id.clone()), name: Some("nine".to_string()) };
    assert!(server.lookup_done(&mut channel, path, id, Some(record)));
    assert_eq!(channel.poll(&slow), Poll::Ready(Reply::ChannelName("nine".to_string())));
    assert!(matches!(channel.recv(), Received::Empty));
}

#[test]
fn connecting_asks_for_channels_then_groups() {
    let channels = Some(vec![
        ChannelRecord { id: Some("C1".to_string()), name: Some("general".to_string()) },
        ChannelRecord { id: Some("C2".to_string()), name: None },
    ]);
    let groups = Some(vec![ChannelRecord { id: Some("G1".to_string()), name: None }]);
    assert_eq!(RequestServer::on_connect(&channels, &groups), vec!["C1", "C2", "G1"]);
    assert_eq!(RequestServer::on_connect(&None, &groups), vec!["G1"]);
    assert_eq!(RequestServer::on_connect(&channels, &None), vec!["C1", "C2"]);
    assert!(RequestServer::on_connect(&None, &None).is_empty());
}

#[test]
fn the_registry_lists_handles_in_load_order_across_generations() {
    let journal = Journal::default();
    let mut manager = manager();
    for (name, version) in [("a", 2), ("b", 1), ("c", 9), ("d", 1), ("e", 2)] {
        manager.load_plugin(module(name, Some(version), &MESSAGES, &journal));
    }
    let listed: Vec<(Generation, String)> = manager
        .list_of_plugins()
        .iter()
        .map(|handle| match handle {
            PluginVersion::V1(record) => (Generation::V1, record.plugin().name.clone()),
            PluginVersion::V2(record) => (Generation::V2, record.plugin().name.clone()),
        })
        .collect();
    assert_eq!(
        listed,
        vec![
            (Generation::V2, "a".to_string()),
            (Generation::V1, "b".to_string()),
            (Generation::V1, "d".to_string()),
            (Generation::V2, "e".to_string()),
        ]
    );
    // Each handle shares the record that the list of its generation holds.
    match &manager.list_of_plugins()[0] {
        PluginVersion::V2(record) => {
            assert!(Arc::ptr_eq(record, &manager.list_of_api_v2_plugins()[0]))
        }
        PluginVersion::V1(_) => panic!("wrong generation"),
    }
    match &manager.list_of_plugins()[2] {
        PluginVersion::V1(record) => {
            assert!(Arc::ptr_eq(record, &manager.list_of_api_v1_plugins()[1]))
        }
        PluginVersion::V2(_) => panic!("wrong generation"),
    }
}

#[test]
fn a_message_goes_to_the_subscribers_in_load_order_across_generations() {
    let journal = Journal::default();
    let mut manager = manager();
    manager.load_plugin(module("p0", Some(2), &MESSAGES, &journal));
    manager.load_plugin(module("p1", Some(1), &MESSAGES, &journal));
    manager.load_plugin(module("p2", Some(2), &[], &journal));
    manager.load_plugin(module("p3", Some(3), &MESSAGES, &journal));
    manager.load_plugin(module("p4", Some(1), &MESSAGES, &journal));
    let mut handler: MyHandler<MockModule> = MyHandler::new();
    handler.subscribe_all(manager.list_of_plugins());
    journal.lock().unwrap().clear();
    assert_eq!(handler.on_event(&message("hello")), 3);
    assert_eq!(entries(&journal), vec!["p0 got hello", "p1 got hello", "p4 got hello"]);
}

#[test]
fn a_handle_of_either_generation_can_be_subscribed() {
    let journal = Journal::default();
    let mut manager = manager();
    manager.load_plugin(module("one", Some(1), &MESSAGES, &journal));
    manager.load_plugin(module("two", Some(2), &[], &journal));
    let mut handler: MyHandler<MockModule> = MyHandler::new();
    handler.subscript_to(&manager.list_of_plugins()[1]);
    assert_eq!(handler.subscribers_of(EventKind::StandardMessage).len(), 0);
    handler.subscript_to(&manager.list_of_plugins()[0]);
    assert_eq!(handler.subscribers_of(EventKind::StandardMessage).len(), 1);
    journal.lock().unwrap().clear();
    handler.on_event(&message("x"));
    assert_eq!(entries(&journal), vec!["one got x"]);
}

#[test]
fn subscribing_nothing_changes_nothing() {
    let mut handler: MyHandler<MockModule> = MyHandler::new();
    handler.subscribe_all(&Vec::new());
    handler.plugin_api_v1(&Vec::new());
    handler.plugin_api_v2(&Vec::new());
    assert!(handler.subscribers_of(EventKind::StandardMessage).is_empty());
}
