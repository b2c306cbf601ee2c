use vstd::prelude::*;

mod cmd;
mod content;
mod imagetext;
mod markup;
mod session;
mod strutil;
mod types;

pub use cmd::{is_space, parse_cmd_spec, parse_command, skip_spaces, token_end, Command, CommandView};
pub use session::{
    back_step, forward_step, lemma_back_forward_round_trip, lemma_nav_nav_back,
    lemma_navigate_clears_future, nav_step, with_scheme, App, NavView,
};
pub use markup::{
    bold_of, conv_lines, conv_links, convert_markup, lemma_links_match_tagged_runs, link_of,
    resolve_or_literal, resolve_spec, resolved_ref, rich_runs_of, Annot, AnnotView, RunInput,
    RunView,
};
pub use imagetext::{
    glyph_of, grid_quantizes, image_meta, image_to_text, luma_grid, meta_rejected, meta_rows,
    preview_height, quant, ramp_char, ramp_len,
};
pub use strutil::{dec_str, has_prefix, has_prefix_spec, usize_to_dec};

pub use content::{
    count_line, count_pre, count_tagged, is_tagged, lemma_selected_run_unique, render_highlight,
    tagged_before,
};
pub use types::{
    highlight_of, label_style, lines_view, link_style, links_view, plain_style, Color, EngineError,
    LinkData, LinkType, LinkView, Mode, Span, SpanView, StyledLine, TextStyle,
};

verus! {

} // verus!
