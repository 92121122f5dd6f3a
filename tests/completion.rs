use helix_completion::debounce::{CompletionHandler, DebounceStep, Dispatch, RequestId, DEBOUNCE_FLOOR_MS};
use helix_completion::diagnostic::{Diagnostic, DiagnosticTag, LanguageServerId, NumberOrString, Range, Severity};
use helix_completion::hooks::{
    completion_post_command_hook, on_insert_char, on_mode_switch, same_text, InsertCharAction, ModeSwitchAction,
    PostCommandAction,
};
use helix_completion::popup::{request_incomplete_completion_list, CompletionUi, FilterOutcome, Version};
use helix_completion::request::{
    completion_context, fan_out, is_useful, request_completions, response_from_reply, sort_items, Collection,
    CompletionItem, CompletionResponse, CompletionTriggerKind, IncompleteLists, LspCompletionItem, ProviderReply,
};
use helix_completion::text::{char_is_word, compare_text, ends_with, last_chars_are_word};
use helix_completion::trigger::{
    trigger_auto_completion, CompletionConfig, CompletionEvent, DocumentId, Provider, Trigger, TriggerKind, ViewId,
};

const DOC: DocumentId = DocumentId(7);
const VIEW: ViewId = ViewId(3);

fn config() -> CompletionConfig {
    CompletionConfig { auto_completion: true, completion_timeout_ms: 250, completion_trigger_len: 2 }
}

fn chars(s: &str) -> Vec<char> {
    s.chars().collect()
}

fn item(label: &str) -> LspCompletionItem {
    LspCompletionItem { label: label.to_string(), sort_text: None, filter_text: None }
}

fn sorted_item(label: &str, sort: &str) -> LspCompletionItem {
    LspCompletionItem { label: label.to_string(), sort_text: Some(sort.to_string()), filter_text: None }
}

fn provider(id: u32, triggers: &[&str]) -> Provider {
    Provider { id: LanguageServerId::new(id), trigger_characters: triggers.iter().map(|t| t.to_string()).collect() }
}

fn labels(items: &[CompletionItem]) -> Vec<String> {
    items.iter().map(|i| i.item.label.clone()).collect()
}

fn auto(cursor: usize) -> CompletionEvent {
    CompletionEvent::AutoTrigger { cursor, doc: DOC, view: VIEW }
}

#[test]
fn auto_trigger_after_two_word_chars_installs_popup() {
    let cfg = config();
    let providers = vec![provider(1, &[])];
    let mut handler = CompletionHandler::new();
    let ev = trigger_auto_completion(&cfg, DOC, VIEW, &chars("a"), &providers, false).unwrap();
    handler.handle_event(ev, false, &cfg);
    let ev = trigger_auto_completion(&cfg, DOC, VIEW, &chars("ab"), &providers, false);
    assert_eq!(ev, Some(CompletionEvent::AutoTrigger { cursor: 2, doc: DOC, view: VIEW }));
    let step = handler.handle_event(ev.unwrap(), false, &cfg);
    assert_eq!(step, DebounceStep::Wait { timeout_ms: 250 });
    let dispatch = handler.finish_debounce();
    assert_eq!(dispatch.trigger.kind, TriggerKind::Auto);
    assert_eq!(handler.request(), Some(dispatch.request));
    let plan = request_completions(dispatch.trigger, false, true, VIEW, DOC, &chars("ab"), &providers).unwrap();
    assert_eq!(plan.trigger.pos, 2);
    assert_eq!(plan.requests.len(), 1);
    let reply = ProviderReply::Array(vec![item("abc"), item("abd")]);
    let response = response_from_reply(reply, plan.requests[0].provider, plan.requests[0].priority);
    assert!(is_useful(&response));
    let collection = Collection::new(response);
    let mut ui = CompletionUi::new();
    let version =
        ui.show_completion(true, VIEW, DOC, collection.items, collection.incomplete, plan.trigger, chars("ab"));
    assert_eq!(version, Some(Version { identity: 0, value: 0 }));
    let popup = ui.completion.as_ref().unwrap();
    assert_eq!(labels(&popup.items), vec!["abc", "abd"]);
    assert_eq!(popup.trigger_pos, 2);
}

#[test]
fn trigger_char_requests_with_trigger_character_context() {
    let cfg = config();
    let providers = vec![provider(1, &["."])];
    let text = chars("foo.");
    let ev = trigger_auto_completion(&cfg, DOC, VIEW, &text, &providers, false);
    assert_eq!(ev, Some(CompletionEvent::TriggerChar { cursor: 4, doc: DOC, view: VIEW }));
    let mut handler = CompletionHandler::new();
    let step = handler.handle_event(ev.unwrap(), false, &cfg);
    assert_eq!(step, DebounceStep::Wait { timeout_ms: DEBOUNCE_FLOOR_MS });
    assert!(DEBOUNCE_FLOOR_MS <= 5);
    let dispatch = handler.finish_debounce();
    let plan = request_completions(dispatch.trigger, false, true, VIEW, DOC, &text, &providers).unwrap();
    let ctx = &plan.requests[0].context;
    assert_eq!(ctx.trigger_kind, CompletionTriggerKind::TriggerCharacter);
    assert_eq!(ctx.trigger_character.as_deref(), Some("."));
}

#[test]
fn first_responder_installs_then_straggler_replaces_its_slice() {
    let providers = vec![provider(1, &[]), provider(2, &[])];
    let trigger = Trigger { pos: 3, view: VIEW, doc: DOC, kind: TriggerKind::Auto };
    let plan = request_completions(trigger, false, true, VIEW, DOC, &chars("foo"), &providers).unwrap();
    assert_eq!(plan.requests[0].priority, 0);
    assert_eq!(plan.requests[1].priority, -1);
    let p1 = response_from_reply(
        ProviderReply::List { is_incomplete: true, items: vec![item("a"), item("b")] },
        plan.requests[0].provider,
        plan.requests[0].priority,
    );
    let collection = Collection::new(p1);
    assert_eq!(collection.incomplete.len(), 1);
    assert_eq!(collection.incomplete.get(LanguageServerId::new(1)), Some(0));
    let mut ui = CompletionUi::new();
    let version = ui
        .show_completion(true, VIEW, DOC, collection.items, collection.incomplete, plan.trigger, chars("foo"))
        .unwrap();
    assert_eq!(labels(&ui.completion.as_ref().unwrap().items), vec!["a", "b"]);
    let p2 = response_from_reply(
        ProviderReply::List { is_incomplete: false, items: vec![item("c")] },
        plan.requests[1].provider,
        plan.requests[1].priority,
    );
    assert!(ui.replace_completions(version, p2));
    let popup = ui.completion.as_ref().unwrap();
    assert_eq!(labels(&popup.items), vec!["a", "b", "c"]);
    assert_eq!(popup.items[2].provider_priority, -1);
    assert_eq!(popup.items[2].provider, LanguageServerId::new(2));
}

#[test]
fn typing_refreshes_incomplete_providers() {
    let mut ui = CompletionUi::new();
    let mut lists = IncompleteLists::new();
    lists.insert(LanguageServerId::new(1), 0);
    let trigger = Trigger { pos: 3, view: VIEW, doc: DOC, kind: TriggerKind::Auto };
    let items = vec![CompletionItem { item: item("foobar"), provider: LanguageServerId::new(1), resolved: false, provider_priority: 0 }];
    let v0 = ui.show_completion(true, VIEW, DOC, items, lists, trigger, chars("foo")).unwrap();
    let out = ui.update_completion_filter(Some('b'), false, &[LanguageServerId::new(1)]);
    let popup = ui.completion.as_ref().unwrap();
    assert_eq!(popup.filter, chars("foob"));
    match out {
        FilterOutcome::Refresh { version, requests } => {
            assert_eq!(version, Version { identity: v0.identity, value: 1 });
            assert_eq!(requests.len(), 1);
            assert_eq!(requests[0].provider, LanguageServerId::new(1));
            assert_eq!(requests[0].priority, 0);
            assert_eq!(requests[0].context.trigger_kind, CompletionTriggerKind::TriggerForIncompleteCompletions);
            assert_eq!(requests[0].context.trigger_character, None);
        }
        _ => panic!("expected a refresh"),
    }
    // a reply captured before the keystroke is dropped
    let late = response_from_reply(ProviderReply::Array(vec![item("x")]), LanguageServerId::new(1), 0);
    assert!(!ui.replace_completions(v0, late));
    assert_eq!(labels(&ui.completion.as_ref().unwrap().items), vec!["foobar"]);
}

#[test]
fn escape_cancels_in_flight_request() {
    let cfg = config();
    let mut handler = CompletionHandler::new();
    handler.handle_event(auto(3), false, &cfg);
    let dispatch = handler.finish_debounce();
    assert!(handler.is_live(dispatch.request));
    assert_eq!(on_mode_switch(true, false), ModeSwitchAction::CancelAndClear);
    let step = handler.handle_event(CompletionEvent::Cancel, false, &cfg);
    assert_eq!(step, DebounceStep::Idle);
    assert_eq!(handler.trigger(), None);
    assert_eq!(handler.request(), None);
    assert!(!handler.is_live(dispatch.request));
    let mut ui = CompletionUi::new();
    let shown = ui.show_completion(false, VIEW, DOC, vec![], IncompleteLists::new(), dispatch.trigger, vec![]);
    assert_eq!(shown, None);
    assert!(ui.completion.is_none());
}

#[test]
fn backspace_past_trigger_clears_debouncer_but_not_popup() {
    let cfg = config();
    let mut handler = CompletionHandler::new();
    handler.handle_event(auto(5), false, &cfg);
    let mut ui = CompletionUi::new();
    let trigger = Trigger { pos: 5, view: VIEW, doc: DOC, kind: TriggerKind::Auto };
    let items = vec![CompletionItem { item: item("x"), provider: LanguageServerId::new(1), resolved: false, provider_priority: 0 }];
    ui.show_completion(true, VIEW, DOC, items, IncompleteLists::new(), trigger, chars("ab")).unwrap();
    let step = handler.handle_event(CompletionEvent::DeleteText { cursor: 4 }, false, &cfg);
    assert_eq!(step, DebounceStep::Idle);
    assert_eq!(handler.trigger(), None);
    assert_eq!(handler.request(), None);
    assert!(ui.completion.is_some());
    match ui.update_completion_filter(None, false, &[]) {
        FilterOutcome::Refresh { requests, .. } => assert!(requests.is_empty()),
        _ => panic!("expected the popup to stay"),
    }
    assert_eq!(ui.completion.as_ref().unwrap().filter, chars("a"));
    match ui.update_completion_filter(None, true, &[]) {
        FilterOutcome::Cleared { retrigger } => assert!(!retrigger),
        _ => panic!("expected the popup to close"),
    }
    assert!(ui.completion.is_none());
}

#[test]
fn at_most_one_request_in_flight() {
    let cfg = config();
    let mut handler = CompletionHandler::new();
    handler.handle_event(auto(1), false, &cfg);
    let first = handler.finish_debounce();
    // a new trigger while the first request is open restarts quickly and drops it
    let step = handler.handle_event(auto(2), false, &cfg);
    assert_eq!(step, DebounceStep::Wait { timeout_ms: DEBOUNCE_FLOOR_MS });
    assert_eq!(handler.request(), None);
    let second = handler.finish_debounce();
    assert_ne!(first.request, second.request);
    assert!(handler.is_live(second.request));
    assert!(!handler.is_live(first.request));
}

#[test]
fn closed_request_keeps_configured_timeout() {
    let cfg = config();
    let mut handler = CompletionHandler::new();
    handler.handle_event(auto(1), false, &cfg);
    handler.finish_debounce();
    let step = handler.handle_event(auto(2), true, &cfg);
    assert_eq!(step, DebounceStep::Wait { timeout_ms: 250 });
}

#[test]
fn auto_trigger_keeps_first_position_in_same_view() {
    let cfg = config();
    let mut handler = CompletionHandler::new();
    handler.handle_event(auto(1), false, &cfg);
    handler.handle_event(auto(2), false, &cfg);
    assert_eq!(handler.trigger().unwrap().pos, 1);
    handler.handle_event(CompletionEvent::AutoTrigger { cursor: 9, doc: DocumentId(8), view: VIEW }, false, &cfg);
    assert_eq!(handler.trigger().unwrap().pos, 9);
}

#[test]
fn manual_trigger_fires_without_timer() {
    let cfg = config();
    let mut handler = CompletionHandler::new();
    let step = handler.handle_event(CompletionEvent::ManualTrigger { cursor: 4, doc: DOC, view: VIEW }, false, &cfg);
    assert_eq!(
        step,
        DebounceStep::Fire(Dispatch {
            trigger: Trigger { pos: 4, view: VIEW, doc: DOC, kind: TriggerKind::Manual },
            request: RequestId(0),
        })
    );
    assert_eq!(handler.trigger(), None);
    assert_eq!(handler.request(), Some(RequestId(0)));
}

#[test]
fn delete_after_trigger_keeps_it() {
    let cfg = config();
    let mut handler = CompletionHandler::new();
    handler.handle_event(auto(3), false, &cfg);
    let step = handler.handle_event(CompletionEvent::DeleteText { cursor: 3 }, false, &cfg);
    assert_eq!(step, DebounceStep::Wait { timeout_ms: 250 });
    assert_eq!(handler.trigger().unwrap().pos, 3);
    let mut idle = CompletionHandler::new();
    assert_eq!(idle.handle_event(CompletionEvent::DeleteText { cursor: 0 }, false, &cfg), DebounceStep::Idle);
}

#[test]
fn trigger_char_dominates_auto_trigger() {
    let cfg = CompletionConfig { auto_completion: true, completion_timeout_ms: 250, completion_trigger_len: 1 };
    let providers = vec![provider(1, &["o"])];
    let ev = trigger_auto_completion(&cfg, DOC, VIEW, &chars("foo"), &providers, false);
    assert_eq!(ev, Some(CompletionEvent::TriggerChar { cursor: 3, doc: DOC, view: VIEW }));
}

#[test]
fn classifier_respects_switches() {
    let providers = vec![provider(1, &["::"])];
    let off = CompletionConfig { auto_completion: false, completion_timeout_ms: 250, completion_trigger_len: 2 };
    assert_eq!(trigger_auto_completion(&off, DOC, VIEW, &chars("a::"), &providers, false), None);
    assert_eq!(
        trigger_auto_completion(&config(), DOC, VIEW, &chars("a::"), &providers, true),
        Some(CompletionEvent::TriggerChar { cursor: 3, doc: DOC, view: VIEW })
    );
    assert_eq!(trigger_auto_completion(&config(), DOC, VIEW, &chars("ab"), &providers, true), None);
    assert_eq!(trigger_auto_completion(&config(), DOC, VIEW, &chars("a b"), &providers, false), None);
    assert_eq!(
        trigger_auto_completion(&config(), DOC, VIEW, &chars("x é_"), &providers, false),
        Some(CompletionEvent::AutoTrigger { cursor: 4, doc: DOC, view: VIEW })
    );
}

#[test]
fn word_chars_and_suffixes() {
    assert!(char_is_word('a'));
    assert!(char_is_word('_'));
    assert!(char_is_word('9'));
    assert!(char_is_word('é'));
    assert!(!char_is_word(' '));
    assert!(!char_is_word('.'));
    assert!(ends_with(&chars("foo::"), "::"));
    assert!(!ends_with(&chars(":"), "::"));
    assert!(ends_with(&chars("x"), ""));
    assert!(last_chars_are_word(&chars(" ab"), 2));
    assert!(!last_chars_are_word(&chars(" ab"), 3));
    assert!(last_chars_are_word(&chars(""), 3));
}

#[test]
fn text_order_and_equality() {
    assert_eq!(compare_text("a", "b"), -1);
    assert_eq!(compare_text("b", "a"), 1);
    assert_eq!(compare_text("ab", "ab"), 0);
    assert_eq!(compare_text("ab", "abc"), -1);
    assert_eq!(compare_text("", ""), 0);
    assert!(same_text("completion", "completion"));
    assert!(!same_text("completion", "completions"));
}

#[test]
fn items_sorted_by_sort_text_and_stable() {
    let items = vec![
        sorted_item("z", "2"),
        item("b"),
        sorted_item("y", "1"),
        item("a"),
        sorted_item("first", "1"),
    ];
    let out = sort_items(items);
    let got: Vec<&str> = out.iter().map(|i| i.label.as_str()).collect();
    assert_eq!(got, vec!["y", "first", "z", "a", "b"]);
    assert!(sort_items(vec![]).is_empty());
}

#[test]
fn replies_normalised() {
    let id = LanguageServerId::new(4);
    let r = response_from_reply(ProviderReply::Null, id, -2);
    assert!(r.items.is_empty());
    assert!(!r.incomplete);
    assert!(!is_useful(&r));
    let r = response_from_reply(ProviderReply::List { is_incomplete: true, items: vec![] }, id, -2);
    assert!(is_useful(&r));
    let r = response_from_reply(ProviderReply::Array(vec![item("b"), item("a")]), id, -2);
    let items = r.into_items();
    assert_eq!(labels(&items), vec!["a", "b"]);
    assert!(items.iter().all(|i| i.provider == id && i.provider_priority == -2 && !i.resolved));
}

#[test]
fn fan_out_skips_repeated_providers() {
    let providers = vec![provider(5, &["."]), provider(6, &[]), provider(5, &[]), provider(7, &["->", "."])];
    let reqs = fan_out(&providers, TriggerKind::Auto, &chars("a."));
    let ids: Vec<u32> = reqs.iter().map(|r| r.provider.id()).collect();
    assert_eq!(ids, vec![5, 6, 7]);
    let prios: Vec<i8> = reqs.iter().map(|r| r.priority).collect();
    assert_eq!(prios, vec![0, -1, -2]);
    assert_eq!(reqs[0].context.trigger_kind, CompletionTriggerKind::TriggerCharacter);
    assert_eq!(reqs[1].context.trigger_kind, CompletionTriggerKind::Invoked);
    assert_eq!(reqs[2].context.trigger_character.as_deref(), Some("."));
    let manual = completion_context(TriggerKind::Manual, &providers[0], &chars("a."));
    assert_eq!(manual.trigger_kind, CompletionTriggerKind::Invoked);
    assert_eq!(manual.trigger_character, None);
}

#[test]
fn request_guard_rejects_stale_triggers() {
    let providers = vec![provider(1, &[])];
    let t = Trigger { pos: 3, view: VIEW, doc: DOC, kind: TriggerKind::Auto };
    let text = chars("abc");
    assert!(request_completions(t, true, true, VIEW, DOC, &text, &providers).is_none());
    assert!(request_completions(t, false, false, VIEW, DOC, &text, &providers).is_none());
    assert!(request_completions(t, false, true, ViewId(9), DOC, &text, &providers).is_none());
    assert!(request_completions(t, false, true, VIEW, DocumentId(9), &text, &providers).is_none());
    assert!(request_completions(t, false, true, VIEW, DOC, &chars("ab"), &providers).is_none());
    let plan = request_completions(t, false, true, VIEW, DOC, &chars("abcd"), &providers).unwrap();
    assert_eq!(plan.trigger.pos, 4);
}

#[test]
fn incomplete_lists_keep_one_entry_per_provider() {
    let mut lists = IncompleteLists::new();
    assert!(lists.is_empty());
    lists.insert(LanguageServerId::new(1), 0);
    lists.insert(LanguageServerId::new(2), -1);
    lists.insert(LanguageServerId::new(1), -3);
    assert_eq!(lists.len(), 2);
    assert_eq!(lists.get(LanguageServerId::new(1)), Some(-3));
    assert_eq!(lists.get(LanguageServerId::new(9)), None);
    let reqs = request_incomplete_completion_list(&mut lists, &[LanguageServerId::new(2)]);
    assert_eq!(lists.len(), 1);
    assert_eq!(lists.entry(0), (LanguageServerId::new(2), -1));
    assert_eq!(reqs.len(), 1);
    assert_eq!(reqs[0].priority, -1);
}

#[test]
fn collection_appends_later_responses() {
    let a = CompletionResponse { items: vec![item("a")], incomplete: false, provider: LanguageServerId::new(1), priority: 0 };
    let b = CompletionResponse { items: vec![item("b")], incomplete: true, provider: LanguageServerId::new(2), priority: -1 };
    let mut c = Collection::new(a);
    assert!(c.incomplete.is_empty());
    c.add(b);
    assert_eq!(labels(&c.items), vec!["a", "b"]);
    assert_eq!(c.incomplete.get(LanguageServerId::new(2)), Some(-1));
}

#[test]
fn popup_not_installed_twice_or_elsewhere() {
    let mut ui = CompletionUi::new();
    let t = Trigger { pos: 0, view: VIEW, doc: DOC, kind: TriggerKind::Manual };
    assert_eq!(ui.show_completion(true, ViewId(1), DOC, vec![], IncompleteLists::new(), t, vec![]), None);
    assert!(ui.show_completion(true, VIEW, DOC, vec![], IncompleteLists::new(), t, vec![]).is_some());
    assert_eq!(ui.show_completion(true, VIEW, DOC, vec![], IncompleteLists::new(), t, vec![]), None);
    ui.clear_completions();
    let v = ui.show_completion(true, VIEW, DOC, vec![], IncompleteLists::new(), t, vec![]).unwrap();
    assert_eq!(v.identity, 1);
    // a task holding the first popup's counter cannot touch the second one
    let r = CompletionResponse { items: vec![item("q")], incomplete: false, provider: LanguageServerId::new(1), priority: 0 };
    assert!(!ui.replace_completions(Version { identity: 0, value: 0 }, r));
}

#[test]
fn emptied_popup_closes_and_retriggers_on_typing() {
    let mut ui = CompletionUi::new();
    let t = Trigger { pos: 0, view: VIEW, doc: DOC, kind: TriggerKind::Auto };
    ui.show_completion(true, VIEW, DOC, vec![], IncompleteLists::new(), t, vec![]).unwrap();
    match ui.update_completion_filter(Some('.'), true, &[]) {
        FilterOutcome::Cleared { retrigger } => assert!(retrigger),
        _ => panic!("expected the popup to close"),
    }
    assert!(matches!(ui.update_completion_filter(Some('x'), false, &[]), FilterOutcome::NoPopup));
}

#[test]
fn post_command_hook_decisions() {
    assert_eq!(completion_post_command_hook(false, false, "move_char_left", 1), PostCommandAction::Nothing);
    assert_eq!(completion_post_command_hook(true, true, "completion", 1), PostCommandAction::Nothing);
    assert_eq!(completion_post_command_hook(true, true, "delete_word_forward", 1), PostCommandAction::Nothing);
    assert_eq!(completion_post_command_hook(true, true, "delete_char_backward", 1), PostCommandAction::UpdateFilter);
    assert_eq!(completion_post_command_hook(true, true, "move_char_left", 1), PostCommandAction::ClearCompletions);
    assert_eq!(
        completion_post_command_hook(true, false, "delete_char_backward", 4),
        PostCommandAction::Send(CompletionEvent::DeleteText { cursor: 4 })
    );
    assert_eq!(
        completion_post_command_hook(true, false, "delete_char_forward", 2),
        PostCommandAction::Send(CompletionEvent::DeleteText { cursor: 2 })
    );
    assert_eq!(completion_post_command_hook(true, false, "insert_mode", 2), PostCommandAction::Nothing);
    assert_eq!(completion_post_command_hook(true, false, "append_mode", 2), PostCommandAction::Nothing);
    assert_eq!(
        completion_post_command_hook(true, false, "undo", 2),
        PostCommandAction::Send(CompletionEvent::Cancel)
    );
}

#[test]
fn mode_and_insert_hooks() {
    assert_eq!(on_mode_switch(false, true), ModeSwitchAction::Classify);
    assert_eq!(on_mode_switch(false, false), ModeSwitchAction::Nothing);
    assert_eq!(on_insert_char(true, 'x'), InsertCharAction::UpdateFilter('x'));
    assert_eq!(on_insert_char(false, 'x'), InsertCharAction::Classify);
}

#[test]
fn diagnostic_values() {
    assert_eq!(Severity::default(), Severity::Hint);
    assert!(Severity::Hint < Severity::Error);
    assert_eq!(LanguageServerId::new(42).id(), 42);
    let r = Range { start: 1, end: 3 };
    assert!(r < Range { start: 2, end: 0 });
}

#[test]
fn filter_text_falls_back_to_label() {
    let mut it = CompletionItem { item: item("label"), provider: LanguageServerId::new(1), resolved: false, provider_priority: 0 };
    assert_eq!(it.filter_text(), "label");
    it.item.filter_text = Some("filter".to_string());
    assert_eq!(it.filter_text(), "filter");
    assert_eq!(sorted_item("l", "s").sort_text(), "s");
    assert_eq!(item("l").sort_text(), "l");
}

#[test]
fn diagnostic_carries_server_data() {
    let d = Diagnostic {
        range: Range { start: 0, end: 4 },
        ends_at_word: true,
        starts_at_word: true,
        zero_width: false,
        line: 0,
        message: "unused".to_string(),
        severity: Some(Severity::Warning),
        code: Some(NumberOrString::Number(7)),
        provider: LanguageServerId::new(2),
        tags: vec![DiagnosticTag::Unnecessary],
        source: None,
        data: Some(serde_json::Value::Bool(true)),
    };
    assert_eq!(d.provider.id(), 2);
    assert_eq!(d.data, Some(serde_json::Value::Bool(true)));
    assert_eq!(d.code, Some(NumberOrString::Number(7)));
}
