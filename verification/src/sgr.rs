//! The SGR (Select Graphic Rendition) state machine: scanning the numeric
//! parameters of one escape sequence folds them into the style that applies
//! to the next block of terminal text.

use vstd::prelude::*;

verus! {

/// The three color options for SGR color codes and a default option.
#[derive(Debug, Clone, Copy, PartialEq, Eq, Structural)]
pub enum SgrColor {
    Reset,
    /// A value of 0..=7 to represent one of 8 standard terminal colors.
    Console(u8),
    /// A value of 0..=255 to represent one of 256 standard terminal colors.
    ExpandedConsole(u8),
    /// Three values of 0..=255 to represent a "true" RGB color value.
    True(u8, u8, u8),
}

/// The continuous state of the next block of text. A new set of SGR
/// parameters does not imply that the state should be reset unless the 0
/// (reset) parameter has been explicitly used.
#[derive(Debug, Clone, Copy, PartialEq, Eq, Structural)]
pub struct GraphicsModeState {
    pub bold: bool,
    pub italic: bool,
    pub underline: bool,
    pub strikethrough: bool,

    pub color: SgrColor,
    pub background_color: SgrColor,
}

/// The state with every attribute off and both colors at their default.
pub open spec fn default_state() -> GraphicsModeState {
    GraphicsModeState {
        bold: false,
        italic: false,
        underline: false,
        strikethrough: false,
        color: SgrColor::Reset,
        background_color: SgrColor::Reset,
    }
}

/// The result of folding one run of SGR parameters over a starting state.
///
/// Multi-element color forms (`38,5,n`, `48,5,n`, `38,2,r,g,b`, `48,2,r,g,b`)
/// are matched greedily against the head of the remaining input; an element
/// that completes no form is skipped, so a truncated trailing form decays
/// into single elements.
pub open spec fn scan_spec(s: GraphicsModeState, input: Seq<u8>) -> GraphicsModeState
    decreases input.len(),
{
    if input.len() == 0 {
        s
    } else {
        let p = input[0];
        if p == 0 {
            scan_spec(default_state(), input.skip(1))
        } else if p == 1 {
            scan_spec(GraphicsModeState { bold: true, ..s }, input.skip(1))
        } else if p == 3 {
            scan_spec(GraphicsModeState { italic: true, ..s }, input.skip(1))
        } else if p == 4 {
            scan_spec(GraphicsModeState { underline: true, ..s }, input.skip(1))
        } else if p == 9 {
            scan_spec(GraphicsModeState { strikethrough: true, ..s }, input.skip(1))
        } else if 30 <= p <= 37 {
            scan_spec(
                GraphicsModeState { color: SgrColor::Console((p - 30) as u8), ..s },
                input.skip(1),
            )
        } else if 40 <= p <= 47 {
            scan_spec(
                GraphicsModeState { background_color: SgrColor::Console((p - 40) as u8), ..s },
                input.skip(1),
            )
        } else if p == 38 && input.len() >= 3 && input[1] == 5 {
            scan_spec(
                GraphicsModeState { color: SgrColor::ExpandedConsole(input[2]), ..s },
                input.skip(3),
            )
        } else if p == 48 && input.len() >= 3 && input[1] == 5 {
            scan_spec(
                GraphicsModeState { background_color: SgrColor::ExpandedConsole(input[2]), ..s },
                input.skip(3),
            )
        } else if p == 38 && input.len() >= 5 && input[1] == 2 {
            scan_spec(
                GraphicsModeState {
                    color: SgrColor::True(input[2], input[3], input[4]),
                    ..s
                },
                input.skip(5),
            )
        } else if p == 48 && input.len() >= 5 && input[1] == 2 {
            scan_spec(
                GraphicsModeState {
                    background_color: SgrColor::True(input[2], input[3], input[4]),
                    ..s
                },
                input.skip(5),
            )
        } else if p == 39 {
            scan_spec(GraphicsModeState { color: SgrColor::Reset, ..s }, input.skip(1))
        } else if p == 49 {
            scan_spec(
                GraphicsModeState { background_color: SgrColor::Reset, ..s },
                input.skip(1),
            )
        } else {
            scan_spec(s, input.skip(1))
        }
    }
}

/// A well-formed color: a console color names one of the 8 palette entries.
pub open spec fn wf_color(c: SgrColor) -> bool {
    match c {
        SgrColor::Console(n) => n < 8,
        _ => true,
    }
}

/// A well-formed state: both colors are well-formed.
pub open spec fn wf_state(s: GraphicsModeState) -> bool {
    wf_color(s.color) && wf_color(s.background_color)
}

/// Law: scanning preserves well-formedness; a console color selected by a
/// parameter in 30..=37 or 40..=47 always lies in the 8-name palette.
pub proof fn lemma_scan_preserves_wf(s: GraphicsModeState, input: Seq<u8>)
    requires
        wf_state(s),
    ensures
        wf_state(scan_spec(s, input)),
    decreases input.len(),
{
    if input.len() > 0 {
        let p = input[0];
        if p == 0 {
            lemma_scan_preserves_wf(default_state(), input.skip(1));
        } else if p == 1 {
            lemma_scan_preserves_wf(GraphicsModeState { bold: true, ..s }, input.skip(1));
        } else if p == 3 {
            lemma_scan_preserves_wf(GraphicsModeState { italic: true, ..s }, input.skip(1));
        } else if p == 4 {
            lemma_scan_preserves_wf(GraphicsModeState { underline: true, ..s }, input.skip(1));
        } else if p == 9 {
            lemma_scan_preserves_wf(
                GraphicsModeState { strikethrough: true, ..s },
                input.skip(1),
            );
        } else if 30 <= p <= 37 {
            lemma_scan_preserves_wf(
                GraphicsModeState { color: SgrColor::Console((p - 30) as u8), ..s },
                input.skip(1),
            );
        } else if 40 <= p <= 47 {
            lemma_scan_preserves_wf(
                GraphicsModeState { background_color: SgrColor::Console((p - 40) as u8), ..s },
                input.skip(1),
            );
        } else if p == 38 && input.len() >= 3 && input[1] == 5 {
            lemma_scan_preserves_wf(
                GraphicsModeState { color: SgrColor::ExpandedConsole(input[2]), ..s },
                input.skip(3),
            );
        } else if p == 48 && input.len() >= 3 && input[1] == 5 {
            lemma_scan_preserves_wf(
                GraphicsModeState { background_color: SgrColor::ExpandedConsole(input[2]), ..s },
                input.skip(3),
            );
        } else if p == 38 && input.len() >= 5 && input[1] == 2 {
            lemma_scan_preserves_wf(
                GraphicsModeState { color: SgrColor::True(input[2], input[3], input[4]), ..s },
                input.skip(5),
            );
        } else if p == 48 && input.len() >= 5 && input[1] == 2 {
            lemma_scan_preserves_wf(
                GraphicsModeState {
                    background_color: SgrColor::True(input[2], input[3], input[4]),
                    ..s
                },
                input.skip(5),
            );
        } else if p == 39 {
            lemma_scan_preserves_wf(
                GraphicsModeState { color: SgrColor::Reset, ..s },
                input.skip(1),
            );
        } else if p == 49 {
            lemma_scan_preserves_wf(
                GraphicsModeState { background_color: SgrColor::Reset, ..s },
                input.skip(1),
            );
        } else {
            lemma_scan_preserves_wf(s, input.skip(1));
        }
    }
}

/// Law: a lone parameter in 30..=37 selects the matching console foreground
/// color, and one in 40..=47 the matching console background color, leaving
/// every other field of the state alone.
pub proof fn lemma_console_colors(s: GraphicsModeState, p: u8)
    requires
        30 <= p <= 37 || 40 <= p <= 47,
    ensures
        30 <= p <= 37 ==> scan_spec(s, seq![p]) == (GraphicsModeState {
            color: SgrColor::Console((p - 30) as u8),
            ..s
        }),
        40 <= p <= 47 ==> scan_spec(s, seq![p]) == (GraphicsModeState {
            background_color: SgrColor::Console((p - 40) as u8),
            ..s
        }),
{
    reveal_with_fuel(scan_spec, 2);
    assert(seq![p].skip(1) =~= Seq::<u8>::empty());
}

/// Law: the three-element form `38,5,n` selects the expanded console
/// foreground color `n`, and `48,5,n` the matching background color, for
/// every `n`, leaving every other field of the state alone.
pub proof fn lemma_expanded_colors(s: GraphicsModeState, n: u8)
    ensures
        scan_spec(s, seq![38u8, 5u8, n]) == (GraphicsModeState {
            color: SgrColor::ExpandedConsole(n),
            ..s
        }),
        scan_spec(s, seq![48u8, 5u8, n]) == (GraphicsModeState {
            background_color: SgrColor::ExpandedConsole(n),
            ..s
        }),
{
    reveal_with_fuel(scan_spec, 2);
    assert(seq![38u8, 5u8, n].skip(3) =~= Seq::<u8>::empty());
    assert(seq![48u8, 5u8, n].skip(3) =~= Seq::<u8>::empty());
}

/// Law: the five-element form `38,2,r,g,b` selects the true-color foreground
/// `(r, g, b)`, and `48,2,r,g,b` the matching background, for all `r`, `g`
/// and `b`, leaving every other field of the state alone.
pub proof fn lemma_true_colors(s: GraphicsModeState, r: u8, g: u8, b: u8)
    ensures
        scan_spec(s, seq![38u8, 2u8, r, g, b]) == (GraphicsModeState {
            color: SgrColor::True(r, g, b),
            ..s
        }),
        scan_spec(s, seq![48u8, 2u8, r, g, b]) == (GraphicsModeState {
            background_color: SgrColor::True(r, g, b),
            ..s
        }),
{
    reveal_with_fuel(scan_spec, 2);
    assert(seq![38u8, 2u8, r, g, b].skip(5) =~= Seq::<u8>::empty());
    assert(seq![48u8, 2u8, r, g, b].skip(5) =~= Seq::<u8>::empty());
}

/// Law: a reset parameter wipes the whole state back to the default no matter
/// what came before it, and the parameters after it apply on top of that
/// fresh default. In particular a second reset directly after a first one
/// changes nothing more.
pub proof fn lemma_reset(s: GraphicsModeState, rest: Seq<u8>)
    ensures
        scan_spec(s, seq![0u8] + rest) == scan_spec(default_state(), rest),
        scan_spec(s, seq![0u8]) == default_state(),
        scan_spec(s, seq![0u8, 0u8]) == scan_spec(s, seq![0u8]),
{
    reveal_with_fuel(scan_spec, 4);
    assert((seq![0u8] + rest)[0] == 0u8);
    assert((seq![0u8] + rest).skip(1) =~= rest);
    assert(seq![0u8].skip(1) =~= Seq::<u8>::empty());
    assert(seq![0u8, 0u8].skip(1) =~= seq![0u8]);
}

impl Default for GraphicsModeState {
    fn default() -> (r: Self)
        ensures
            r == default_state(),
    {
        GraphicsModeState {
            bold: false,
            italic: false,
            underline: false,
            strikethrough: false,
            color: SgrColor::Reset,
            background_color: SgrColor::Reset,
        }
    }
}

impl GraphicsModeState {
    /// Returns a copy of Self, setting values based off SGR parameters from
    /// the input.
    pub fn clone_from_scan(&self, input: &[u8]) -> (r: Self)
        ensures
            r == scan_spec(*self, input@),
    {
        let mut state = *self;
        let mut i: usize = 0;
        assert(input@.skip(0) =~= input@);

        while i < input.len()
            invariant
                i <= input@.len(),
                scan_spec(*self, input@) == scan_spec(state, input@.skip(i as int)),
            decreases input@.len() - i,
        {
            let ghost rest = input@.skip(i as int);
            let ghost prev_i = i as int;
            let p = input[i];
            assert(rest[0] == p);
            if p == 0 {
                state = GraphicsModeState::default();
                i = i + 1;
            } else if p == 1 {
                state.bold = true;
                i = i + 1;
            } else if p == 3 {
                state.italic = true;
                i = i + 1;
            } else if p == 4 {
                state.underline = true;
                i = i + 1;
            } else if p == 9 {
                state.strikethrough = true;
                i = i + 1;
            } else if 30 <= p && p <= 37 {
                state.color = SgrColor::Console(p - 30);
                i = i + 1;
            } else if 40 <= p && p <= 47 {
                state.background_color = SgrColor::Console(p - 40);
                i = i + 1;
            } else if p == 38 && input.len() - i >= 3 && input[i + 1] == 5 {
                assert(rest.len() >= 3 && rest[1] == input@[i + 1] && rest[2] == input@[i + 2]);
                state.color = SgrColor::ExpandedConsole(input[i + 2]);
                i = i + 3;
            } else if p == 48 && input.len() - i >= 3 && input[i + 1] == 5 {
                assert(rest.len() >= 3 && rest[1] == input@[i + 1] && rest[2] == input@[i + 2]);
                state.background_color = SgrColor::ExpandedConsole(input[i + 2]);
                i = i + 3;
            } else if p == 38 && input.len() - i >= 5 && input[i + 1] == 2 {
                assert(rest.len() >= 5 && rest[1] == input@[i + 1] && rest[2] == input@[i + 2]
                    && rest[3] == input@[i + 3] && rest[4] == input@[i + 4]);
                state.color = SgrColor::True(input[i + 2], input[i + 3], input[i + 4]);
                i = i + 5;
            } else if p == 48 && input.len() - i >= 5 && input[i + 1] == 2 {
                assert(rest.len() >= 5 && rest[1] == input@[i + 1] && rest[2] == input@[i + 2]
                    && rest[3] == input@[i + 3] && rest[4] == input@[i + 4]);
                state.background_color = SgrColor::True(
                    input[i + 2],
                    input[i + 3],
                    input[i + 4],
                );
                i = i + 5;
            } else if p == 39 {
                state.color = SgrColor::Reset;
                i = i + 1;
            } else if p == 49 {
                state.background_color = SgrColor::Reset;
                i = i + 1;
            } else {
                i = i + 1;
            }
            proof {
                assert(rest.skip(i - prev_i) =~= input@.skip(i as int));
            }
        }
        assert(input@.skip(input@.len() as int) =~= Seq::<u8>::empty());
        state
    }
}

} // verus!
