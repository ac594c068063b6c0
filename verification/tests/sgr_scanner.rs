use ansi_parser::{AnsiParser, AnsiSequence, Output};
use console::Style;

use opaque::sgr::{GraphicsModeState, SgrColor};

#[test]
fn parsing_basic_colors() {
    // names are slightly different but it's :ok_hand:
    let colors = [
        Style::new().black(),
        Style::new().red(),
        Style::new().green(),
        Style::new().yellow(),
        Style::new().blue(),
        Style::new().magenta(),
        Style::new().cyan(),
        Style::new().white(),
    ];
    let mut state = GraphicsModeState::default();
    for (i, color) in colors.iter().enumerate() {
        let color_text = color.apply_to(" ").force_styling(true).to_string();
        let color_code = color_text.ansi_parse().next().unwrap();
        let Output::Escape(AnsiSequence::SetGraphicsMode(color_code)) = color_code else {
            unreachable!();
        };
        state = state.clone_from_scan(&color_code);
        assert!(
            matches!(state.color, SgrColor::Console(n) if (n as usize) == i),
            "{:?} doesn't equal {}",
            state.color,
            i,
        );
    }
}

#[test]
fn parsing_expanded_colors() {
    let colors = (0..=255).map(|c| Style::new().color256(c));
    let mut state = GraphicsModeState::default();
    for (i, color) in colors.enumerate() {
        let color_text = color.apply_to(" ").force_styling(true).to_string();
        let color_code = color_text.ansi_parse().next().unwrap();
        let Output::Escape(AnsiSequence::SetGraphicsMode(color_code)) = color_code else {
            unreachable!();
        };
        state = state.clone_from_scan(&color_code);
        assert!(
            matches!(state.color, SgrColor::ExpandedConsole(n) if (n as usize) == i),
            "{:?} doesn't equal {}",
            state.color,
            i,
        );
    }
}

#[test]
fn parsing_styling() {
    // console-rs doesn't implement strikethrough :(
    let styled_text = Style::new()
        .bold()
        .italic()
        .underlined()
        .apply_to(" ")
        .force_styling(true)
        .to_string();
    let mut style_codes: Vec<_> = styled_text.ansi_parse().collect();
    let reset = style_codes.pop().expect("no reset code"); // remove the reset code
    let expected_state = GraphicsModeState {
        bold: true,
        italic: true,
        underline: true,
        ..Default::default()
    };
    let mut state = GraphicsModeState::default();
    for code in style_codes {
        state = match code {
            Output::Escape(AnsiSequence::SetGraphicsMode(code)) => state.clone_from_scan(&code),
            _ => state,
        }
    }
    assert_eq!(state, expected_state);
    if let Output::Escape(AnsiSequence::SetGraphicsMode(code)) = reset {
        state = state.clone_from_scan(&code);
        assert_eq!(state, GraphicsModeState::default());
    }
}

#[test]
fn scanning_console_color_range() {
    for code in 30u8..=37 {
        let state = GraphicsModeState::default().clone_from_scan(&[code]);
        assert_eq!(state.color, SgrColor::Console(code - 30));
        assert_eq!(state.background_color, SgrColor::Reset);
    }
    for code in 40u8..=47 {
        let state = GraphicsModeState::default().clone_from_scan(&[code]);
        assert_eq!(state.background_color, SgrColor::Console(code - 40));
        assert_eq!(state.color, SgrColor::Reset);
    }
}

#[test]
fn scanning_expanded_color_range() {
    for n in 0u8..=255 {
        let fg = GraphicsModeState::default().clone_from_scan(&[38, 5, n]);
        assert_eq!(fg.color, SgrColor::ExpandedConsole(n));
        let bg = GraphicsModeState::default().clone_from_scan(&[48, 5, n]);
        assert_eq!(bg.background_color, SgrColor::ExpandedConsole(n));
        assert_eq!(bg.color, SgrColor::Reset);
    }
}

#[test]
fn scanning_true_colors() {
    let fg = GraphicsModeState::default().clone_from_scan(&[38, 2, 12, 34, 56]);
    assert_eq!(fg.color, SgrColor::True(12, 34, 56));
    let bg = GraphicsModeState::default().clone_from_scan(&[48, 2, 255, 0, 128]);
    assert_eq!(bg.background_color, SgrColor::True(255, 0, 128));
    assert_eq!(bg.color, SgrColor::Reset);
}

#[test]
fn scanning_reset_wipes_prior_state() {
    let styled = GraphicsModeState::default().clone_from_scan(&[1, 3, 4, 9, 31, 42]);
    assert!(styled.bold && styled.italic && styled.underline && styled.strikethrough);
    let reset = styled.clone_from_scan(&[0]);
    assert_eq!(reset, GraphicsModeState::default());
    let reset_twice = styled.clone_from_scan(&[0, 0]);
    assert_eq!(reset_twice, reset);
}

#[test]
fn scanning_reset_mid_sequence_applies_rest_on_default() {
    let styled = GraphicsModeState::default().clone_from_scan(&[4, 9, 44]);
    let state = styled.clone_from_scan(&[0, 1]);
    let expected = GraphicsModeState {
        bold: true,
        ..Default::default()
    };
    assert_eq!(state, expected);
}

#[test]
fn scanning_color_resets_are_independent() {
    let styled = GraphicsModeState::default().clone_from_scan(&[31, 42]);
    let fg_reset = styled.clone_from_scan(&[39]);
    assert_eq!(fg_reset.color, SgrColor::Reset);
    assert_eq!(fg_reset.background_color, SgrColor::Console(2));
    let bg_reset = styled.clone_from_scan(&[49]);
    assert_eq!(bg_reset.background_color, SgrColor::Reset);
    assert_eq!(bg_reset.color, SgrColor::Console(1));
}

#[test]
fn scanning_truncated_forms_decay_into_single_elements() {
    // A trailing `38,5` cannot complete an expanded color: both elements are
    // skipped one by one.
    let state = GraphicsModeState::default().clone_from_scan(&[38, 5]);
    assert_eq!(state, GraphicsModeState::default());
    // A truncated truecolor form decays too: 38 and 2 are skipped, 1 then
    // sets bold and 3 sets italic.
    let decayed = GraphicsModeState::default().clone_from_scan(&[38, 2, 1, 3]);
    let expected = GraphicsModeState {
        bold: true,
        italic: true,
        ..Default::default()
    };
    assert_eq!(decayed, expected);
}

#[test]
fn scanning_unknown_parameters_are_ignored() {
    let state = GraphicsModeState::default().clone_from_scan(&[2, 5, 7, 28, 99]);
    assert_eq!(state, GraphicsModeState::default());
}
