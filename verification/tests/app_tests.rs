use rnk::element::IdCounter;
use rnk::message::{Message, MessageRole, ThinkingBlock, ToolCall};
use rnk::options::{restore_title_escape, set_title_escape, AppOptions};
use rnk::registry::{prints_messages, switch_to_perform, AppId, AppRegistry, ModeSwitch, RuntimeState};
use rnk::tasks::HttpRequest;
use rnk::color::Color;

#[test]
fn test_http_request_builder() {
    let req = HttpRequest::get("https://example.com")
        .header("Content-Type", "application/json")
        .header("Authorization", "Bearer token");

    assert_eq!(req.url, "https://example.com");
    assert_eq!(req.method, "GET");
    assert_eq!(req.headers.len(), 2);
    assert_eq!(req.headers[0].0, "Content-Type");
    assert_eq!(req.headers[0].1, "application/json");
}

#[test]
fn test_http_post_with_body() {
    let req = HttpRequest::post("https://api.example.com/data")
        .header("Content-Type", "application/json")
        .body(r#"{"key": "value"}"#);

    assert_eq!(req.method, "POST");
    assert!(req.body.is_some());
    assert_eq!(req.body.unwrap(), r#"{"key": "value"}"#);
}

#[test]
fn test_message_roles() {
    let _user = Message::user("test");
    let _assistant = Message::assistant("test");
    let _system = Message::system("test");
    let _tool = Message::tool("test");
    let _error = Message::error("test");
}

#[test]
fn message_prefixes_and_colors() {
    let user = Message::user("hi");
    assert_eq!(user.role(), MessageRole::User);
    assert_eq!(user.content(), "hi");
    assert_eq!(user.shown_prefix(), "> ");
    assert_eq!(user.color(), Color::Yellow);
    let result = Message::tool_result("ok");
    assert_eq!(result.default_prefix(), "  ⎿ ");
    assert_eq!(result.prefix_color(), Color::Ansi256(245));
    let custom = Message::assistant("x").prefix("* ");
    assert_eq!(custom.shown_prefix(), "* ");
    assert_eq!(custom.default_prefix(), "● ");
    assert_eq!(Message::error("e").color(), Color::Red);
}

#[test]
fn test_tool_call() {
    let tool = ToolCall::new("read_file", "path=/tmp/test.txt");
    assert_eq!(tool.name(), "read_file");
    assert_eq!(tool.args_text(), "(path=/tmp/test.txt)");
}

#[test]
fn test_thinking_block() {
    let thinking = ThinkingBlock::new("Line 1\nLine 2\nLine 3");
    let (lines, more) = thinking.shown_lines();
    assert_eq!(lines, vec!["Line 1".to_string(), "Line 2".to_string(), "Line 3".to_string()]);
    assert!(!more);
    let (short, more) = ThinkingBlock::new("a\nb\nc").max_lines(2).shown_lines();
    assert_eq!(short, vec!["a".to_string(), "b".to_string()]);
    assert!(more);
}

#[test]
fn test_title_escape_sequence() {
    let escape = set_title_escape("Test Title");
    assert_eq!(escape, "\x1b]0;Test Title\x07");
}

#[test]
fn test_empty_title() {
    let escape = set_title_escape("");
    assert_eq!(escape, "\x1b]0;\x07");
    assert_eq!(restore_title_escape(), escape);
}

#[test]
fn test_title_with_special_chars() {
    let escape = set_title_escape("My App - [1/10]");
    assert_eq!(escape, "\x1b]0;My App - [1/10]\x07");
}

#[test]
fn test_app_options_default() {
    let options = AppOptions::default();
    assert_eq!(options.fps, 60);
    assert!(options.exit_on_ctrl_c);
    assert!(!options.alternate_screen);
}

#[test]
fn test_app_id_counter() {
    let mut counter = IdCounter::new();
    let id1 = AppId::new(&mut counter);
    let id2 = AppId::new(&mut counter);
    assert_ne!(id1, id2);
    assert!(id2.raw() > id1.raw());
}

#[test]
fn test_app_id_from_raw() {
    assert_eq!(AppId::from_raw(0), None);
    let id = AppId::from_raw(42).unwrap();
    assert_eq!(id.raw(), 42);
}

#[test]
fn test_cross_thread_apis() {
    let registry: AppRegistry<RuntimeState<String>> = AppRegistry::new();
    assert!(registry.current_sink().is_none());
    assert_eq!(registry.current_sink().map(|sink| sink.is_alt_screen()), None);
}

#[test]
fn test_app_runtime_creation() {
    let runtime: RuntimeState<String> = RuntimeState::new(false);
    assert!(!runtime.is_alt_screen());
    assert!(runtime.render_requested());
}

#[test]
fn test_app_runtime_alt_screen() {
    let mut runtime: RuntimeState<String> = RuntimeState::new(true);
    assert!(runtime.is_alt_screen());
    runtime.set_alt_screen_state(false);
    assert!(!runtime.is_alt_screen());
}

#[test]
fn test_app_runtime_render_flag() {
    let mut runtime: RuntimeState<String> = RuntimeState::new(false);
    assert!(runtime.render_requested());

    runtime.clear_render_request();
    assert!(!runtime.render_requested());
    runtime.request_render();
    assert!(runtime.render_requested());
}

#[test]
fn test_app_runtime_println() {
    let mut runtime: RuntimeState<String> = RuntimeState::new(false);
    runtime.println("test".to_string());

    let messages = runtime.take_println_messages();
    assert_eq!(messages.len(), 1);
    assert_eq!(messages[0], "test");

    let messages2 = runtime.take_println_messages();
    assert_eq!(messages2.len(), 0);
}

#[test]
fn println_queue_keeps_order_and_requests_render() {
    let mut runtime: RuntimeState<String> = RuntimeState::new(false);
    runtime.clear_render_request();
    runtime.println("first".to_string());
    runtime.println("second".to_string());
    assert!(runtime.render_requested());
    assert_eq!(runtime.take_println_messages(), vec!["first".to_string(), "second".to_string()]);
    assert!(runtime.take_println_messages().is_empty());
}

#[test]
fn test_app_runtime_mode_switch() {
    let mut runtime: RuntimeState<String> = RuntimeState::new(false);
    runtime.enter_alt_screen();

    let switch = runtime.take_mode_switch_request();
    assert_eq!(switch, Some(ModeSwitch::EnterAltScreen));

    let switch2 = runtime.take_mode_switch_request();
    assert_eq!(switch2, None);
}

#[test]
fn later_mode_switch_request_wins() {
    let mut runtime: RuntimeState<String> = RuntimeState::new(false);
    runtime.enter_alt_screen();
    runtime.exit_alt_screen();
    assert_eq!(runtime.take_mode_switch_request(), Some(ModeSwitch::ExitAltScreen));
}

#[test]
fn registry_tracks_current_app() {
    let mut counter = IdCounter::new();
    let first = AppId::new(&mut counter);
    let second = AppId::new(&mut counter);
    let mut registry: AppRegistry<&str> = AppRegistry::new();
    registry.register(first, "one");
    assert_eq!(registry.current_sink(), Some(&"one"));
    registry.register(second, "two");
    assert_eq!(registry.current_sink(), Some(&"two"));
    registry.unregister(first);
    assert_eq!(registry.current_sink(), Some(&"two"));
    registry.unregister(second);
    assert_eq!(registry.current_sink(), None);
}

#[test]
fn mode_switch_happens_only_when_the_mode_changes() {
    assert_eq!(switch_to_perform(ModeSwitch::EnterAltScreen, false), Some(ModeSwitch::EnterAltScreen));
    assert_eq!(switch_to_perform(ModeSwitch::EnterAltScreen, true), None);
    assert_eq!(switch_to_perform(ModeSwitch::ExitAltScreen, true), Some(ModeSwitch::ExitAltScreen));
    assert_eq!(switch_to_perform(ModeSwitch::ExitAltScreen, false), None);
}

#[test]
fn persistent_messages_print_only_inline() {
    assert!(prints_messages(false));
    assert!(!prints_messages(true));
}

#[test]
fn test_registry_operations() {
    let mut counter = IdCounter::new();
    let id = AppId::new(&mut counter);
    let mut runtime: RuntimeState<String> = RuntimeState::new(false);
    runtime.clear_render_request();
    let mut registry: AppRegistry<u64> = AppRegistry::new();
    registry.register(id, id.raw());
    let sink = registry.current_sink();
    assert!(sink.is_some());
    // The current sink designates the runtime, which takes the request.
    assert_eq!(sink, Some(&id.raw()));
    runtime.request_render();
    assert!(runtime.render_requested());
    registry.unregister(id);
    assert!(registry.current_sink().is_none());
}

#[test]
fn test_event_loop_mode_switch() {
    let mut runtime: RuntimeState<String> = RuntimeState::new(false);
    runtime.enter_alt_screen();
    assert_eq!(runtime.take_mode_switch_request(), Some(ModeSwitch::EnterAltScreen));
}

#[test]
fn test_event_loop_println_messages() {
    let mut runtime: RuntimeState<String> = RuntimeState::new(false);
    runtime.println("test".to_string());
    let messages = runtime.take_println_messages();
    assert_eq!(messages.len(), 1);
}

#[test]
fn title_controls_are_stripped() {
    assert_eq!(set_title_escape("ok\x07\x1b]2;pwn"), "\x1b]0;ok]2;pwn\x07");
    assert_eq!(set_title_escape("a\u{9b}b\nc"), "\x1b]0;abc\x07");
}
