//! Rendering ANSI terminal output to HTML: the input is lexed into escape
//! and text blocks, SGR escapes fold into the running style state, and each
//! text block is emitted escaped and wrapped in the tags of the style in
//! force when it appears.

use vstd::prelude::*;
use vstd::string::StringExecFns;

use ansi_parser::{AnsiParser, AnsiSequence, Output};

use crate::sgr::{default_state, scan_spec, GraphicsModeState};
use crate::tags::{closing_tags_spec, opening_tags_spec};

verus! {

/// The mathematical model of one lexed block of terminal output.
pub enum BlockModel {
    /// A run of literal text between escape sequences.
    Text(Seq<char>),
    /// The parameters of one SGR (set-graphics-mode) escape sequence.
    Graphics(Seq<u8>),
    /// Any other recognized escape sequence; it carries no styling.
    Other,
}

/// One lexed block of terminal output.
pub enum AnsiBlock {
    /// A run of literal text between escape sequences.
    Text(String),
    /// The parameters of one SGR (set-graphics-mode) escape sequence.
    Graphics(Vec<u8>),
    /// Any other recognized escape sequence; it carries no styling.
    Other,
}

impl View for AnsiBlock {
    type V = BlockModel;

    open spec fn view(&self) -> BlockModel {
        match self {
            AnsiBlock::Text(t) => BlockModel::Text(t@),
            AnsiBlock::Graphics(v) => BlockModel::Graphics(v@),
            AnsiBlock::Other => BlockModel::Other,
        }
    }
}

/// The models of a sequence of lexed blocks.
pub open spec fn blocks_view(v: Seq<AnsiBlock>) -> Seq<BlockModel> {
    v.map_values(|b: AnsiBlock| b@)
}

/// The blocks that the ANSI lexer splits a text into.
pub uninterp spec fn ansi_blocks(s: Seq<char>) -> Seq<BlockModel>;

/// Relies on ansi_parser's `AnsiParser::ansi_parse`: it splits a text into
/// alternating literal text blocks and recognized ANSI escape sequences, of
/// which only `SetGraphicsMode` carries SGR parameters; the split depends on
/// the input text alone.
#[verifier::external_body]
fn lex_ansi(input: &str) -> (r: Vec<AnsiBlock>)
    ensures
        blocks_view(r@) == ansi_blocks(input@),
{
    input.ansi_parse().map(
        |block| match block {
            Output::TextBlock(text) => AnsiBlock::Text(text.to_string()),
            Output::Escape(AnsiSequence::SetGraphicsMode(params)) => AnsiBlock::Graphics(
                params.to_vec(),
            ),
            Output::Escape(_) => AnsiBlock::Other,
        },
    ).collect()
}

/// What one character of text contributes to HTML-escaped output.
pub open spec fn escape_char(c: char) -> Seq<char> {
    if c == '&' {
        "&amp;"@
    } else if c == '<' {
        "&lt;"@
    } else if c == '>' {
        "&gt;"@
    } else if c == '"' {
        "&quot;"@
    } else {
        seq![c]
    }
}

/// A text with its HTML-special characters replaced by entities.
pub open spec fn escape_text_spec(s: Seq<char>) -> Seq<char>
    decreases s.len(),
{
    if s.len() == 0 {
        Seq::<char>::empty()
    } else {
        escape_char(s[0]) + escape_text_spec(s.drop_first())
    }
}

/// Relies on html_escape::encode_double_quoted_attribute: it replaces
/// exactly `&`, `<`, `>` and `"` with `&amp;`, `&lt;`, `&gt;` and `&quot;`
/// and leaves every other character alone.
#[verifier::external_body]
fn escape_text(s: &str) -> (r: String)
    ensures
        r@ == escape_text_spec(s@),
{
    html_escape::encode_double_quoted_attribute(s).into_owned()
}

/// The container every rendered output is wrapped in, opening half.
pub open spec fn container_open() -> Seq<char> {
    "<pre class=\"ansi_output\"><code>"@
}

/// The container every rendered output is wrapped in, closing half.
pub open spec fn container_close() -> Seq<char> {
    "</code></pre>"@
}

/// The style state in force after a block: an SGR escape folds its
/// parameters into the state, every other block leaves it alone.
pub open spec fn step_state(s: GraphicsModeState, b: BlockModel) -> GraphicsModeState {
    match b {
        BlockModel::Graphics(params) => scan_spec(s, params),
        BlockModel::Text(t) => s,
        BlockModel::Other => s,
    }
}

/// The style state in force after a sequence of blocks.
pub open spec fn state_after(blocks: Seq<BlockModel>, s: GraphicsModeState) -> GraphicsModeState
    decreases blocks.len(),
{
    if blocks.len() == 0 {
        s
    } else {
        state_after(blocks.drop_first(), step_state(s, blocks[0]))
    }
}

/// What one block contributes to the output under a given style state: text
/// appears escaped and wrapped in the state's tags, escapes contribute
/// nothing visible.
pub open spec fn block_contrib(b: BlockModel, s: GraphicsModeState) -> Seq<char> {
    match b {
        BlockModel::Text(t) => opening_tags_spec(s) + escape_text_spec(t) + closing_tags_spec(s),
        BlockModel::Graphics(params) => Seq::<char>::empty(),
        BlockModel::Other => Seq::<char>::empty(),
    }
}

/// The body of the rendered output: every block's contribution in order,
/// under the style state left by the blocks before it.
pub open spec fn render_blocks_spec(blocks: Seq<BlockModel>, s: GraphicsModeState) -> Seq<char>
    decreases blocks.len(),
{
    if blocks.len() == 0 {
        Seq::<char>::empty()
    } else {
        block_contrib(blocks[0], s) + render_blocks_spec(
            blocks.drop_first(),
            step_state(s, blocks[0]),
        )
    }
}

/// The complete rendering of a sequence of blocks: the body, starting from
/// the default style state, inside the fixed container.
pub open spec fn render_spec(blocks: Seq<BlockModel>) -> Seq<char> {
    container_open() + render_blocks_spec(blocks, default_state()) + container_close()
}

proof fn lemma_render_snoc(blocks: Seq<BlockModel>, b: BlockModel, s: GraphicsModeState)
    ensures
        render_blocks_spec(blocks.push(b), s) == render_blocks_spec(blocks, s) + block_contrib(
            b,
            state_after(blocks, s),
        ),
        state_after(blocks.push(b), s) == step_state(state_after(blocks, s), b),
    decreases blocks.len(),
{
    if blocks.len() == 0 {
        reveal_with_fuel(render_blocks_spec, 2);
        reveal_with_fuel(state_after, 2);
        assert(blocks.push(b)[0] == b);
        assert(blocks.push(b).drop_first() =~= blocks);
        assert(render_blocks_spec(blocks.push(b), s) =~= render_blocks_spec(blocks, s)
            + block_contrib(b, state_after(blocks, s)));
    } else {
        assert(blocks.push(b)[0] == blocks[0]);
        assert(blocks.push(b).drop_first() =~= blocks.drop_first().push(b));
        lemma_render_snoc(blocks.drop_first(), b, step_state(s, blocks[0]));
        assert(render_blocks_spec(blocks.push(b), s) =~= render_blocks_spec(blocks, s)
            + block_contrib(b, state_after(blocks, s)));
    }
}

/// Renders a sequence of lexed blocks to HTML, starting from the default
/// style state and wrapping the result in the fixed container.
pub fn render_blocks(blocks: &Vec<AnsiBlock>) -> (r: String)
    ensures
        r@ == render_spec(blocks_view(blocks@)),
{
    let ghost bv = blocks_view(blocks@);
    let mut state = GraphicsModeState::default();
    let mut out = String::from_str("<pre class=\"ansi_output\"><code>");
    let mut i: usize = 0;

    proof {
        assert(bv.take(0) =~= Seq::<BlockModel>::empty());
        assert(out@ =~= container_open() + render_blocks_spec(bv.take(0), default_state()));
    }

    while i < blocks.len()
        invariant
            i <= blocks@.len(),
            bv == blocks_view(blocks@),
            state == state_after(bv.take(i as int), default_state()),
            out@ == container_open() + render_blocks_spec(bv.take(i as int), default_state()),
        decreases blocks@.len() - i,
    {
        proof {
            assert(bv.take(i as int).push(bv[i as int]) =~= bv.take(i as int + 1));
            lemma_render_snoc(bv.take(i as int), bv[i as int], default_state());
        }
        let ghost before = out@;
        let block = &blocks[i];
        match block {
            AnsiBlock::Graphics(params) => {
                state = state.clone_from_scan(params.as_slice());
            },
            AnsiBlock::Text(text) => {
                let tags = state.build_tags();
                out.append(tags.0.as_str());
                out.append(escape_text(text.as_str()).as_str());
                out.append(tags.1.as_str());
            },
            AnsiBlock::Other => {},
        }
        i = i + 1;
        proof {
            assert(out@ =~= before + block_contrib(bv[i - 1], state_after(
                bv.take(i - 1),
                default_state(),
            )));
            assert(out@ =~= container_open() + render_blocks_spec(
                bv.take(i as int),
                default_state(),
            ));
        }
    }

    proof {
        assert(bv.take(bv.len() as int) =~= bv);
    }
    out.append("</code></pre>");
    proof {
        assert(out@ =~= render_spec(bv));
    }
    out
}

/// Render an ANSI terminal output to HTML, using SGR parameters to generate
/// formatting. Malformed escape content is inert rather than fatal: an
/// unrecognized parameter degrades the styling, never the rendering.
pub fn rewrite_ansi_to_html(input: &str) -> (r: String)
    ensures
        r@ == render_spec(ansi_blocks(input@)),
{
    let blocks = lex_ansi(input);
    render_blocks(&blocks)
}

} // verus!
