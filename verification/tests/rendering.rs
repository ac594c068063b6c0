use opaque::render::rewrite_ansi_to_html;
use opaque::sgr::{GraphicsModeState, SgrColor};
use opaque::tags::u8_to_dec;

#[test]
fn serialize_default_state_is_empty() {
    let (opening, closing) = GraphicsModeState::default().build_tags();
    assert_eq!(opening, "");
    assert_eq!(closing, "");
}

#[test]
fn serialize_single_attributes() {
    let bold = GraphicsModeState {
        bold: true,
        ..Default::default()
    };
    assert_eq!(bold.build_tags(), ("<strong>".to_string(), "</strong>".to_string()));

    let strike = GraphicsModeState {
        strikethrough: true,
        ..Default::default()
    };
    assert_eq!(strike.build_tags(), ("<s>".to_string(), "</s>".to_string()));
}

#[test]
fn serialize_console_color_uses_palette_name() {
    let state = GraphicsModeState {
        color: SgrColor::Console(3),
        ..Default::default()
    };
    let (opening, closing) = state.build_tags();
    assert_eq!(opening, "<span style=\"color: var(--color-yellow)\">");
    assert_eq!(closing, "</span>");
}

#[test]
fn serialize_background_color_is_independent() {
    let state = GraphicsModeState {
        color: SgrColor::Console(1),
        background_color: SgrColor::True(1, 22, 255),
        ..Default::default()
    };
    let (opening, closing) = state.build_tags();
    assert_eq!(
        opening,
        "<span style=\"color: var(--color-red)\">\
         <span style=\"background-color: rgb(1, 22, 255)\">"
    );
    assert_eq!(closing, "</span></span>");
}

#[test]
fn serialize_nesting_order_and_reversed_closers() {
    // Opening tags in the fixed order bold, italic, color; closing tags in
    // exactly the reverse order.
    let state = GraphicsModeState {
        bold: true,
        italic: true,
        color: SgrColor::ExpandedConsole(200),
        ..Default::default()
    };
    let (opening, closing) = state.build_tags();
    assert_eq!(
        opening,
        "<strong><em><span style=\"color: var(--terminal-color-200)\">"
    );
    assert_eq!(closing, "</span></em></strong>");
}

#[test]
fn serialize_out_of_palette_console_color_adds_no_tag() {
    let state = GraphicsModeState {
        color: SgrColor::Console(8),
        ..Default::default()
    };
    let (opening, closing) = state.build_tags();
    assert_eq!(opening, "");
    assert_eq!(closing, "");
}

#[test]
fn decimal_rendering_is_exact() {
    assert_eq!(u8_to_dec(0), "0");
    assert_eq!(u8_to_dec(7), "7");
    assert_eq!(u8_to_dec(10), "10");
    assert_eq!(u8_to_dec(42), "42");
    assert_eq!(u8_to_dec(100), "100");
    assert_eq!(u8_to_dec(200), "200");
    assert_eq!(u8_to_dec(255), "255");
}

#[test]
fn rendering_bold_then_reset() {
    let html = rewrite_ansi_to_html("\u{1b}[1mhello\u{1b}[0m world");
    assert_eq!(
        html,
        "<pre class=\"ansi_output\"><code><strong>hello</strong> world</code></pre>"
    );
}

#[test]
fn rendering_expanded_color_span() {
    let html = rewrite_ansi_to_html("\u{1b}[38;5;200mhot");
    assert_eq!(
        html,
        "<pre class=\"ansi_output\"><code>\
         <span style=\"color: var(--terminal-color-200)\">hot</span>\
         </code></pre>"
    );
}

#[test]
fn rendering_escapes_html_special_characters() {
    let html = rewrite_ansi_to_html("a < b && c > d");
    assert_eq!(
        html,
        "<pre class=\"ansi_output\"><code>a &lt; b &amp;&amp; c &gt; d</code></pre>"
    );
}

#[test]
fn rendering_escapes_double_quotes() {
    let html = rewrite_ansi_to_html("say \"hi\"");
    assert_eq!(
        html,
        "<pre class=\"ansi_output\"><code>say &quot;hi&quot;</code></pre>"
    );
}

#[test]
fn rendering_plain_text_is_only_wrapped() {
    let html = rewrite_ansi_to_html("plain output");
    assert_eq!(html, "<pre class=\"ansi_output\"><code>plain output</code></pre>");
}

#[test]
fn rendering_state_persists_across_escapes() {
    // The second escape only adds italic: bold persists until the reset.
    let html = rewrite_ansi_to_html("\u{1b}[1mone\u{1b}[3mtwo\u{1b}[0mthree");
    assert_eq!(
        html,
        "<pre class=\"ansi_output\"><code>\
         <strong>one</strong>\
         <strong><em>two</em></strong>\
         three</code></pre>"
    );
}

#[test]
fn rendering_discards_non_sgr_escapes() {
    // Cursor movement carries no styling and contributes nothing visible.
    let html = rewrite_ansi_to_html("up\u{1b}[2Adown");
    assert_eq!(html, "<pre class=\"ansi_output\"><code>updown</code></pre>");
}
