use rnk::color::Color;
use rnk::detect::{
    detect_hyperlink_support, detect_screen_reader, parse_u32, ScreenReaderCache, ScreenReaderEnv,
    TerminalEnv,
};
use rnk::effect::{effect_should_run, Deps};
use rnk::hyperlink::{
    sanitize_osc8_payload, set_hyperlinks_supported, supports_hyperlinks, Hyperlink,
    HyperlinkBuilder, HyperlinkSupport,
};

#[test]
fn test_hyperlink_creation() {
    let link = Hyperlink::new("https://example.com", "Example");
    assert_eq!(link.get_url(), "https://example.com");
    assert_eq!(link.get_text(), "Example");
}

#[test]
fn test_hyperlink_url() {
    let link = Hyperlink::url("https://example.com");
    assert_eq!(link.get_url(), "https://example.com");
    assert_eq!(link.get_text(), "https://example.com");
}

#[test]
fn test_hyperlink_with_id() {
    let link = Hyperlink::new("https://example.com", "Example").with_id("link1");
    assert_eq!(link.get_id().map(|s| s.to_string()), Some("link1".to_string()));
}

#[test]
fn test_hyperlink_render_osc8() {
    let link = Hyperlink::new("https://example.com", "Example");
    let rendered = link.render_osc8();

    assert!(rendered.contains("\x1b]8;"));
    assert!(rendered.contains("https://example.com"));
    assert!(rendered.contains("Example"));
    assert!(rendered.contains("\x1b]8;;\x1b\\"));
}

#[test]
fn test_hyperlink_render_osc8_with_id() {
    let link = Hyperlink::new("https://example.com", "Example").with_id("mylink");
    let rendered = link.render_osc8();

    assert!(rendered.contains("id=mylink"));
}

#[test]
fn test_hyperlink_render_fallback() {
    let link = Hyperlink::new("https://example.com", "Example");
    let fallback = link.render_fallback();

    assert_eq!(fallback, "Example (https://example.com)");
}

#[test]
fn test_hyperlink_render_fallback_same_text() {
    let link = Hyperlink::url("https://example.com");
    let fallback = link.render_fallback();

    assert_eq!(fallback, "https://example.com");
}

#[test]
fn test_hyperlink_builder() {
    let builder = HyperlinkBuilder::new("https://example.com", "Example")
        .color(Color::Cyan)
        .underline(true)
        .bold(true);

    let rendered = builder.render(true);
    assert!(rendered.contains("\x1b[1m"));
    assert!(rendered.contains("\x1b[4m"));
    assert!(rendered.contains("\x1b[0m"));
}

#[test]
fn test_hyperlink_builder_no_style() {
    let builder = HyperlinkBuilder::new("https://example.com", "Example")
        .no_color()
        .underline(false)
        .bold(false);

    let rendered = builder.render(true);
    assert!(rendered.ends_with("\x1b[0m"));
}

#[test]
fn hyperlink_builder_exact_output() {
    let builder = HyperlinkBuilder::new("u", "t").id("i");
    assert_eq!(builder.render(false), "\x1b[4m\x1b[34mt\x1b[0m");
    assert_eq!(builder.render(true), "\x1b[4m\x1b[34m\x1b]8;id=i;u\x1b\\t\x1b]8;;\x1b\\\x1b[0m");
}

#[test]
fn test_set_hyperlinks_supported() {
    let mut state = HyperlinkSupport::new();
    set_hyperlinks_supported(&mut state, true);
    assert!(supports_hyperlinks(&mut state, || false));

    set_hyperlinks_supported(&mut state, false);
    assert!(!supports_hyperlinks(&mut state, || true));
}

#[test]
fn hyperlink_support_detected_once() {
    let mut state = HyperlinkSupport::new();
    assert!(!supports_hyperlinks(&mut state, || false));
    assert!(!supports_hyperlinks(&mut state, || true));
}

#[test]
fn test_render_with_fallback() {
    let link = Hyperlink::new("https://example.com", "Example");
    let result = link.render_with_fallback(false, |text, url| format!("[{}]({})", text, url));

    assert_eq!(result, "[Example](https://example.com)");
    let linked = link.render_with_fallback(true, |_, _| String::new());
    assert_eq!(linked, link.render_osc8());
    assert_eq!(link.render(false), "Example");
    assert_eq!(link.render_fallback(), "Example (https://example.com)");
}

#[test]
fn test_sanitize_osc8_payload_strips_c0_and_c1_controls() {
    let controls: String = (0..=0x1f).chain(0x7f..=0x9f).filter_map(char::from_u32).collect();
    assert_eq!(sanitize_osc8_payload(&format!("before{controls}after")), "beforeafter");
}

#[test]
fn test_render_osc8_strips_esc_bel_st_and_nested_osc() {
    let malicious_url = "https://evil.example/\x1b]0;owned\x07\x1b\\trail\u{009c}";
    let malicious_text = "click\x07me\x1b]8;;https://nested\x1b\\";
    let malicious_id = "id\x1b]2;hijack\x07\u{009c}";

    let link = Hyperlink::new(malicious_url, malicious_text).with_id(malicious_id);
    let rendered = link.render_osc8();

    assert_eq!(link.get_url(), malicious_url);
    assert_eq!(link.get_text(), malicious_text);
    assert_eq!(link.get_id(), Some(malicious_id));

    assert_eq!(
        rendered.matches("\x1b]8;").count(),
        2,
        "nested OSC must not create extra wrappers: {rendered:?}"
    );
    assert!(!rendered.contains('\x07'), "BEL must not appear: {rendered:?}");
    assert!(!rendered.contains('\u{009c}'), "C1 ST must be stripped: {rendered:?}");

    let open_end = rendered.find("\x1b\\").expect("open ST missing");
    let close_start = rendered.rfind("\x1b]8;;\x1b\\").expect("close wrapper missing");
    let header = &rendered[..open_end];
    let text_payload = &rendered[open_end + 2..close_start];

    assert!(
        header.chars().all(|ch| !ch.is_control() || ch == '\x1b'),
        "header params/url must not embed control breakouts: {header:?}"
    );
    let header_body = header.strip_prefix("\x1b]8;").expect("OSC 8 open prefix");
    assert!(
        header_body.chars().all(|ch| !ch.is_control()),
        "OSC 8 params/url payload must be control-free: {header_body:?}"
    );
    assert!(
        text_payload.chars().all(|ch| !ch.is_control()),
        "display text payload must be control-free: {text_payload:?}"
    );

    assert!(header_body.contains("https://evil.example/]0;owned\\trail"));
    assert!(header_body.contains("id=id]2;hijack"));
    assert_eq!(text_payload, "clickme]8;;https://nested\\");
}

#[test]
fn test_render_osc8_safe_inputs_unchanged() {
    let link = Hyperlink::new("https://example.com/path?q=1", "Example Link").with_id("link-1");
    assert_eq!(
        link.render_osc8(),
        "\x1b]8;id=link-1;https://example.com/path?q=1\x1b\\Example Link\x1b]8;;\x1b\\"
    );
}

#[test]
fn sanitize_twice_is_sanitize_once() {
    let once = sanitize_osc8_payload("a\x1bb\u{85}c\td");
    assert_eq!(once, "abcd");
    assert_eq!(sanitize_osc8_payload(&once), once);
}

fn no_terminal() -> TerminalEnv {
    TerminalEnv {
        term_program: None,
        wt_session: false,
        vte_version: None,
        colorterm: None,
        konsole_version: false,
    }
}

#[test]
fn hyperlink_support_from_environment() {
    assert!(!detect_hyperlink_support(&no_terminal()));
    let mut env = no_terminal();
    env.term_program = Some("iTerm.app".to_string());
    assert!(detect_hyperlink_support(&env));
    env.term_program = Some("Apple_Terminal".to_string());
    assert!(!detect_hyperlink_support(&env));
    let mut vte = no_terminal();
    vte.vte_version = Some("5000".to_string());
    assert!(detect_hyperlink_support(&vte));
    vte.vte_version = Some("4999".to_string());
    assert!(!detect_hyperlink_support(&vte));
    vte.vte_version = Some("50a0".to_string());
    assert!(!detect_hyperlink_support(&vte));
    let mut color = no_terminal();
    color.colorterm = Some("24bit".to_string());
    assert!(detect_hyperlink_support(&color));
    color.colorterm = Some("TRUECOLOR".to_string());
    assert!(!detect_hyperlink_support(&color));
    let mut wt = no_terminal();
    wt.wt_session = true;
    assert!(detect_hyperlink_support(&wt));
}

#[test]
fn parse_u32_as_std_does() {
    assert_eq!(parse_u32("0"), Some(0));
    assert_eq!(parse_u32("+42"), Some(42));
    assert_eq!(parse_u32("4294967295"), Some(u32::MAX));
    assert_eq!(parse_u32("4294967296"), None);
    assert_eq!(parse_u32(""), None);
    assert_eq!(parse_u32("+"), None);
    assert_eq!(parse_u32("-1"), None);
    for s in ["7", "+7", "99999999999", "12x"] {
        assert_eq!(parse_u32(s), s.parse::<u32>().ok());
    }
}

fn no_reader() -> ScreenReaderEnv {
    ScreenReaderEnv {
        screen_reader: None,
        accessibility_enabled: None,
        orca_enabled: None,
        nvda_running: None,
        jaws_running: None,
        voiceover_running: None,
        term_program: None,
        voiceover_setting: false,
    }
}

#[test]
fn test_screen_reader_detection() {
    let mut cache = ScreenReaderCache::new();
    let result = cache.is_enabled(|| detect_screen_reader(&no_reader()));
    let _ = result;
}

#[test]
fn screen_reader_indicators() {
    assert!(!detect_screen_reader(&no_reader()));
    let mut env = no_reader();
    env.orca_enabled = Some("1".to_string());
    assert!(detect_screen_reader(&env));
    env.orca_enabled = Some("FALSE".to_string());
    assert!(!detect_screen_reader(&env));
    env.orca_enabled = Some("0".to_string());
    assert!(!detect_screen_reader(&env));
    env.orca_enabled = Some(String::new());
    assert!(!detect_screen_reader(&env));
    env.term_program = Some("My-Accessibility-Term".to_string());
    assert!(detect_screen_reader(&env));
    let mut vo = no_reader();
    vo.voiceover_setting = true;
    assert!(detect_screen_reader(&vo));
}

#[test]
fn test_manual_override() {
    let mut cache = ScreenReaderCache::new();
    cache.set(true);
    assert!(cache.is_enabled(|| false));

    cache.set(false);
    assert!(!cache.is_enabled(|| true));

    cache.clear();
    assert_eq!(cache.cached, None);
}

#[test]
fn test_caching() {
    let mut cache = ScreenReaderCache::new();
    cache.clear();

    let first = cache.is_enabled(|| detect_screen_reader(&no_reader()));
    let second = cache.is_enabled(|| !first);

    assert_eq!(first, second);
}

#[test]
fn test_deps_hash() {
    let deps1 = (1i32, 2i32);
    let deps2 = (1i32, 2i32);
    let deps3 = (1i32, 3i32);

    assert_eq!(deps1.to_hash(), deps2.to_hash());
    assert_ne!(deps1.to_hash(), deps3.to_hash());
}

#[test]
fn deps_of_other_shapes() {
    assert_eq!(().to_hash(), 0);
    assert_eq!((5u8,).to_hash(), (5u8,).to_hash());
    assert_eq!(vec![1, 2, 3].to_hash(), vec![1, 2, 3].to_hash());
    assert_ne!(vec![1, 2, 3].to_hash(), vec![3, 2, 1].to_hash());
    assert_eq!((1, 2, 3).to_hash(), (1, 2, 3).to_hash());
    assert_eq!((1, 2, 3, 4).to_hash(), (1, 2, 3, 4).to_hash());
}

#[test]
fn effects_run_when_deps_change() {
    assert!(effect_should_run(None, 0));
    assert!(!effect_should_run(Some(7), 7));
    assert!(effect_should_run(Some(7), 8));
}
