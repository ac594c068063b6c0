//! Serializing a graphics-mode state into a matched pair of opening and
//! closing HTML tag strings, ordered deterministically and nested correctly.

use vstd::prelude::*;
use vstd::string::StringExecFns;

use crate::sgr::{default_state, GraphicsModeState, SgrColor};

verus! {

/// One decimal digit as a character.
pub open spec fn dec_digit(d: u8) -> char {
    if d == 0 {
        '0'
    } else if d == 1 {
        '1'
    } else if d == 2 {
        '2'
    } else if d == 3 {
        '3'
    } else if d == 4 {
        '4'
    } else if d == 5 {
        '5'
    } else if d == 6 {
        '6'
    } else if d == 7 {
        '7'
    } else if d == 8 {
        '8'
    } else {
        '9'
    }
}

/// The decimal rendering of a byte, most significant digit first, without
/// leading zeros.
pub open spec fn dec_str(n: u8) -> Seq<char>
    decreases n,
{
    if n < 10 {
        seq![dec_digit(n)]
    } else {
        dec_str(n / 10) + seq![dec_digit(n % 10)]
    }
}

/// The fixed palette name of one of the 8 standard console colors.
pub open spec fn color_name_spec(n: u8) -> Seq<char> {
    if n == 0 {
        "black"@
    } else if n == 1 {
        "red"@
    } else if n == 2 {
        "green"@
    } else if n == 3 {
        "yellow"@
    } else if n == 4 {
        "blue"@
    } else if n == 5 {
        "purple"@
    } else if n == 6 {
        "cyan"@
    } else {
        "gray"@
    }
}

/// The CSS color value a non-default color is rendered as.
pub open spec fn css_color_spec(c: SgrColor) -> Seq<char> {
    match c {
        SgrColor::Reset => Seq::<char>::empty(),
        SgrColor::Console(n) => "var(--color-"@ + color_name_spec(n) + ")"@,
        SgrColor::ExpandedConsole(n) => "var(--terminal-color-"@ + dec_str(n) + ")"@,
        SgrColor::True(r, g, b) => "rgb("@ + dec_str(r) + ", "@ + dec_str(g) + ", "@ + dec_str(
            b,
        ) + ")"@,
    }
}

/// An opening span tag carrying one inline style property.
pub open spec fn span_open_spec(property: Seq<char>, value: Seq<char>) -> Seq<char> {
    "<span style=\""@ + property + ": "@ + value + "\">"@
}

/// The tag pair a color contributes under the given CSS property: none for
/// the default color, none for a console color outside the 8-name palette,
/// and one styled span otherwise.
pub open spec fn color_tag_pairs(c: SgrColor, property: Seq<char>) -> Seq<
    (Seq<char>, Seq<char>),
> {
    match c {
        SgrColor::Reset => Seq::<(Seq<char>, Seq<char>)>::empty(),
        SgrColor::Console(n) => if n < 8 {
            seq![(span_open_spec(property, css_color_spec(c)), "</span>"@)]
        } else {
            Seq::<(Seq<char>, Seq<char>)>::empty()
        },
        SgrColor::ExpandedConsole(n) => seq![
            (span_open_spec(property, css_color_spec(c)), "</span>"@),
        ],
        SgrColor::True(r, g, b) => seq![
            (span_open_spec(property, css_color_spec(c)), "</span>"@),
        ],
    }
}

/// The ordered opening/closing tag pairs of a state: bold, italic,
/// underline, strikethrough, foreground color, background color.
pub open spec fn tag_pairs_spec(s: GraphicsModeState) -> Seq<(Seq<char>, Seq<char>)> {
    (if s.bold {
        seq![("<strong>"@, "</strong>"@)]
    } else {
        Seq::<(Seq<char>, Seq<char>)>::empty()
    }) + (if s.italic {
        seq![("<em>"@, "</em>"@)]
    } else {
        Seq::<(Seq<char>, Seq<char>)>::empty()
    }) + (if s.underline {
        seq![("<u>"@, "</u>"@)]
    } else {
        Seq::<(Seq<char>, Seq<char>)>::empty()
    }) + (if s.strikethrough {
        seq![("<s>"@, "</s>"@)]
    } else {
        Seq::<(Seq<char>, Seq<char>)>::empty()
    }) + color_tag_pairs(s.color, "color"@) + color_tag_pairs(
        s.background_color,
        "background-color"@,
    )
}

/// The opening tags of a sequence of pairs, concatenated in order.
pub open spec fn concat_opens(ps: Seq<(Seq<char>, Seq<char>)>) -> Seq<char>
    decreases ps.len(),
{
    if ps.len() == 0 {
        Seq::<char>::empty()
    } else {
        ps[0].0 + concat_opens(ps.drop_first())
    }
}

/// The closing tags of a sequence of pairs, concatenated in reverse order.
pub open spec fn concat_closes_rev(ps: Seq<(Seq<char>, Seq<char>)>) -> Seq<char>
    decreases ps.len(),
{
    if ps.len() == 0 {
        Seq::<char>::empty()
    } else {
        concat_closes_rev(ps.drop_first()) + ps[0].1
    }
}

/// What the first component of the serialized pair is for a state.
pub open spec fn opening_tags_spec(s: GraphicsModeState) -> Seq<char> {
    concat_opens(tag_pairs_spec(s))
}

/// What the second component of the serialized pair is for a state.
pub open spec fn closing_tags_spec(s: GraphicsModeState) -> Seq<char> {
    concat_closes_rev(tag_pairs_spec(s))
}

/// The markup that wraps `text` as the sole leaf of the nested tag pairs:
/// the first pair is outermost.
pub open spec fn nested_markup(ps: Seq<(Seq<char>, Seq<char>)>, text: Seq<char>) -> Seq<char>
    decreases ps.len(),
{
    if ps.len() == 0 {
        text
    } else {
        ps[0].0 + nested_markup(ps.drop_first(), text) + ps[0].1
    }
}

/// Law: wrapping any text in a state's opening and closing tags yields the
/// well-nested markup of the state's tag pairs with the text as its sole
/// leaf; in particular every opening tag is closed by its own closer, in
/// reverse order of opening.
pub proof fn lemma_tag_nesting(s: GraphicsModeState, text: Seq<char>)
    ensures
        opening_tags_spec(s) + text + closing_tags_spec(s) == nested_markup(
            tag_pairs_spec(s),
            text,
        ),
{
    lemma_nested_wrap(tag_pairs_spec(s), text);
}

proof fn lemma_nested_wrap(ps: Seq<(Seq<char>, Seq<char>)>, text: Seq<char>)
    ensures
        concat_opens(ps) + text + concat_closes_rev(ps) == nested_markup(ps, text),
    decreases ps.len(),
{
    if ps.len() == 0 {
        assert(concat_opens(ps) + text + concat_closes_rev(ps) =~= text);
    } else {
        lemma_nested_wrap(ps.drop_first(), text);
        assert(concat_opens(ps) + text + concat_closes_rev(ps) =~= ps[0].0 + (concat_opens(
            ps.drop_first(),
        ) + text + concat_closes_rev(ps.drop_first())) + ps[0].1);
    }
}

/// Law: with bold, italic and a foreground color that contributes a tag all
/// set, and nothing else, the opening tags come in the fixed order bold,
/// italic, color, and the closing tags in exactly the reverse order.
pub proof fn lemma_nesting_order(s: GraphicsModeState)
    requires
        s.bold,
        s.italic,
        !s.underline,
        !s.strikethrough,
        s.background_color == SgrColor::Reset,
        color_tag_pairs(s.color, "color"@).len() == 1,
    ensures
        opening_tags_spec(s) == "<strong>"@ + "<em>"@ + color_tag_pairs(s.color, "color"@)[0].0,
        closing_tags_spec(s) == color_tag_pairs(s.color, "color"@)[0].1 + "</em>"@
            + "</strong>"@,
{
    let ps = tag_pairs_spec(s);
    let color_pair = color_tag_pairs(s.color, "color"@)[0];
    assert(ps =~= seq![("<strong>"@, "</strong>"@), ("<em>"@, "</em>"@), color_pair]);
    reveal_with_fuel(concat_opens, 4);
    reveal_with_fuel(concat_closes_rev, 4);
    assert(ps.drop_first() =~= seq![("<em>"@, "</em>"@), color_pair]);
    assert(ps.drop_first().drop_first() =~= seq![color_pair]);
    assert(ps.drop_first().drop_first().drop_first() =~= Seq::<(Seq<char>, Seq<char>)>::empty());
    assert(opening_tags_spec(s) =~= "<strong>"@ + "<em>"@ + color_pair.0);
    assert(closing_tags_spec(s) =~= color_pair.1 + "</em>"@ + "</strong>"@);
}

/// Law: the default state serializes to a pair of empty strings.
pub proof fn lemma_serialize_default()
    ensures
        opening_tags_spec(default_state()) == Seq::<char>::empty(),
        closing_tags_spec(default_state()) == Seq::<char>::empty(),
{
    assert(tag_pairs_spec(default_state()) =~= Seq::<(Seq<char>, Seq<char>)>::empty());
}

/// The view of an opening/closing pair list held in executable form.
pub open spec fn pairs_view(v: Vec<(String, String)>) -> Seq<(Seq<char>, Seq<char>)> {
    v@.map_values(|p: (String, String)| (p.0@, p.1@))
}

fn digit_str(d: u8) -> (r: &'static str)
    requires
        d < 10,
    ensures
        r@ == seq![dec_digit(d)],
{
    let r: &'static str = if d == 0 {
        "0"
    } else if d == 1 {
        "1"
    } else if d == 2 {
        "2"
    } else if d == 3 {
        "3"
    } else if d == 4 {
        "4"
    } else if d == 5 {
        "5"
    } else if d == 6 {
        "6"
    } else if d == 7 {
        "7"
    } else if d == 8 {
        "8"
    } else {
        "9"
    };
    proof {
        reveal_strlit("0");
        reveal_strlit("1");
        reveal_strlit("2");
        reveal_strlit("3");
        reveal_strlit("4");
        reveal_strlit("5");
        reveal_strlit("6");
        reveal_strlit("7");
        reveal_strlit("8");
        reveal_strlit("9");
        assert(r@ =~= seq![dec_digit(d)]);
    }
    r
}

/// The decimal rendering of a byte as a string.
pub fn u8_to_dec(n: u8) -> (r: String)
    ensures
        r@ == dec_str(n),
{
    if n < 10 {
        String::from_str(digit_str(n))
    } else if n < 100 {
        let mut s = String::from_str(digit_str(n / 10));
        s.append(digit_str(n % 10));
        proof {
            reveal_with_fuel(dec_str, 2);
            assert(s@ =~= dec_str(n));
        }
        s
    } else {
        let mut s = String::from_str(digit_str(n / 100));
        s.append(digit_str((n / 10) % 10));
        s.append(digit_str(n % 10));
        proof {
            reveal_with_fuel(dec_str, 3);
            assert(n / 10 / 10 == n / 100) by (nonlinear_arith);
            assert(n / 10 >= 10);
            assert(s@ =~= dec_str(n));
        }
        s
    }
}

fn color_name(n: u8) -> (r: &'static str)
    requires
        n < 8,
    ensures
        r@ == color_name_spec(n),
{
    if n == 0 {
        "black"
    } else if n == 1 {
        "red"
    } else if n == 2 {
        "green"
    } else if n == 3 {
        "yellow"
    } else if n == 4 {
        "blue"
    } else if n == 5 {
        "purple"
    } else if n == 6 {
        "cyan"
    } else {
        "gray"
    }
}

/// Builds the CSS color value string of a non-default color.
fn css_color_value(c: &SgrColor) -> (r: String)
    ensures
        r@ == css_color_spec(*c),
{
    match c {
        SgrColor::Reset => String::new(),
        SgrColor::Console(n) => {
            let mut s = String::from_str("var(--color-");
            if *n < 8 {
                s.append(color_name(*n));
            } else {
                s.append(color_name(7));
                proof {
                    assert(color_name_spec(*n) == "gray"@);
                }
            }
            s.append(")");
            proof {
                assert(s@ =~= css_color_spec(*c));
            }
            s
        },
        SgrColor::ExpandedConsole(n) => {
            let mut s = String::from_str("var(--terminal-color-");
            s.append(u8_to_dec(*n).as_str());
            s.append(")");
            proof {
                assert(s@ =~= css_color_spec(*c));
            }
            s
        },
        SgrColor::True(r, g, b) => {
            let mut s = String::from_str("rgb(");
            s.append(u8_to_dec(*r).as_str());
            s.append(", ");
            s.append(u8_to_dec(*g).as_str());
            s.append(", ");
            s.append(u8_to_dec(*b).as_str());
            s.append(")");
            proof {
                assert(s@ =~= css_color_spec(*c));
            }
            s
        },
    }
}

/// Pushes the span pair a color contributes under the given property, if any.
fn push_color_pair(pairs: &mut Vec<(String, String)>, c: &SgrColor, property: &str)
    ensures
        pairs_view(*final(pairs)) == pairs_view(*old(pairs)) + color_tag_pairs(*c, property@),
{
    let contributes: bool = match c {
        SgrColor::Reset => false,
        SgrColor::Console(n) => *n < 8,
        SgrColor::ExpandedConsole(_) => true,
        SgrColor::True(_, _, _) => true,
    };
    if contributes {
        let mut open = String::from_str("<span style=\"");
        open.append(property);
        open.append(": ");
        open.append(css_color_value(c).as_str());
        open.append("\">");
        proof {
            assert(open@ =~= span_open_spec(property@, css_color_spec(*c)));
        }
        pairs.push((open, String::from_str("</span>")));
        proof {
            assert(pairs_view(*pairs) =~= pairs_view(*old(pairs)) + color_tag_pairs(
                *c,
                property@,
            ));
        }
    } else {
        proof {
            assert(pairs_view(*pairs) =~= pairs_view(*old(pairs)) + color_tag_pairs(
                *c,
                property@,
            ));
        }
    }
}

impl GraphicsModeState {
    /// Returns opening and closing HTML tags representing the formatting of
    /// the text. All non-truecolor colors require a stylesheet to be
    /// provided: console colors are referenced through a `--color-{name}`
    /// CSS variable from a fixed 8-name palette, expanded console colors
    /// through a `--terminal-color-{n}` CSS variable. Truecolor values are
    /// rendered literally as `rgb({r}, {g}, {b})`. When the state matches
    /// the default state, empty strings are returned.
    pub fn build_tags(&self) -> (r: (String, String))
        ensures
            r.0@ == opening_tags_spec(*self),
            r.1@ == closing_tags_spec(*self),
            *self == default_state() ==> r.0@ == Seq::<char>::empty() && r.1@
                == Seq::<char>::empty(),
    {
        if *self == GraphicsModeState::default() {
            proof {
                lemma_serialize_default();
            }
            return (String::new(), String::new());
        }

        let mut pairs: Vec<(String, String)> = Vec::new();

        if self.bold {
            pairs.push((String::from_str("<strong>"), String::from_str("</strong>")));
        }
        if self.italic {
            pairs.push((String::from_str("<em>"), String::from_str("</em>")));
        }
        if self.underline {
            pairs.push((String::from_str("<u>"), String::from_str("</u>")));
        }
        if self.strikethrough {
            pairs.push((String::from_str("<s>"), String::from_str("</s>")));
        }
        push_color_pair(&mut pairs, &self.color, "color");
        push_color_pair(&mut pairs, &self.background_color, "background-color");

        proof {
            assert(pairs_view(pairs) =~= tag_pairs_spec(*self));
        }

        let ghost pv = pairs_view(pairs);

        let mut opening = String::new();
        let mut i: usize = 0;
        proof {
            assert(pv.skip(0) =~= pv);
        }
        while i < pairs.len()
            invariant
                i <= pairs@.len(),
                pairs_view(pairs) == pv,
                concat_opens(pv) == opening@ + concat_opens(pv.skip(i as int)),
            decreases pairs@.len() - i,
        {
            proof {
                assert(pv.skip(i as int)[0] == pv[i as int]);
                assert(pv.skip(i as int).drop_first() =~= pv.skip(i as int + 1));
            }
            let ghost before = opening@;
            opening.append(pairs[i].0.as_str());
            proof {
                assert(opening@ + concat_opens(pv.skip(i as int + 1)) =~= before + concat_opens(
                    pv.skip(i as int),
                ));
            }
            i = i + 1;
        }
        proof {
            assert(pv.skip(pv.len() as int) =~= Seq::<(Seq<char>, Seq<char>)>::empty());
            assert(opening@ + Seq::<char>::empty() =~= opening@);
        }

        let mut closing = String::new();
        let mut j: usize = pairs.len();
        proof {
            assert(pv.skip(pv.len() as int) =~= Seq::<(Seq<char>, Seq<char>)>::empty());
        }
        while j > 0
            invariant
                j <= pairs@.len(),
                pairs_view(pairs) == pv,
                closing@ == concat_closes_rev(pv.skip(j as int)),
            decreases j,
        {
            j = j - 1;
            proof {
                assert(pv.skip(j as int)[0] == pv[j as int]);
                assert(pv.skip(j as int).drop_first() =~= pv.skip(j as int + 1));
            }
            closing.append(pairs[j].1.as_str());
        }
        proof {
            assert(pv.skip(0) =~= pv);
        }

        (opening, closing)
    }
}

} // verus!
