//! The render service: the full compile pipeline in one call.
//!
//! A render call preprocesses, tokenizes, parses and renders, entirely as a
//! mathematical function of the text, the page context, the settings and
//! the handle's facts. Persisting the rendered body in the host's
//! content-addressed store happens outside this crate; the hash it returns
//! completes the output record through [`RenderService::finish`].

use vstd::prelude::*;
use vstd::string::StringExecFns;
use crate::data::{PageInfo, PageInfoView};
use crate::handle::{Handle, HandleView};
use crate::parser::{lemma_parse_result_wf, parse, parse_result_spec};
use crate::preprocess::{preprocess, preprocess_spec};
use crate::render::{render_elems_html, render_elems_text, render_html, render_text, HtmlOutput};
use crate::settings::{ModuleRenderMode, WikitextSettings};
use crate::tokenizer::{tokenize, tokenize_spec};
use crate::tree::Warning;

verus! {

/// The version tag recorded as the generator of compiled output.
pub const GENERATOR_VERSION: &'static str = "ftml 0.1.0";

/// Everything a render call yields: the rendered body with its metadata,
/// the ordered warnings, the content address of the stored body, and the
/// version tag of the generator.
pub struct RenderOutput {
    pub html_output: HtmlOutput,
    pub warnings: Vec<Warning>,
    pub compiled_hash: String,
    pub compiled_generator: String,
}

/// What the compile pipeline produces on given inputs: the rendered body
/// and the ordered warnings.
pub open spec fn compile_spec(
    text: Seq<char>,
    info: PageInfoView,
    settings: WikitextSettings,
    h: HandleView,
) -> (Seq<char>, Seq<Warning>) {
    let normalized = preprocess_spec(text);
    let ts = tokenize_spec(normalized);
    let (tree, warnings) = parse_result_spec(ts);
    let body = match settings.mode {
        ModuleRenderMode::Html => render_elems_html(tree, 0, info, settings, h),
        ModuleRenderMode::Text => render_elems_text(tree, 0, info, settings, h),
    };
    (body, warnings)
}

/// The compilation service.
pub struct RenderService;

impl RenderService {
    /// Runs the pipeline: preprocess, tokenize, parse, render.
    pub fn render(
        wikitext: String,
        page_info: &PageInfo,
        settings: &WikitextSettings,
        handle: &Handle,
    ) -> (r: (HtmlOutput, Vec<Warning>))
        ensures
            r.0.body@ == compile_spec(wikitext@, page_info@, *settings, handle@).0,
            r.1@ == compile_spec(wikitext@, page_info@, *settings, handle@).1,
    {
        let mut wikitext = wikitext;
        preprocess(&mut wikitext);
        let tokens = tokenize(wikitext.as_str());
        let (tree, warnings) = parse(&tokens, page_info, settings);
        proof {
            lemma_parse_result_wf(crate::tokenizer::tokens_view(tokens@));
        }
        let html_output = match settings.mode {
            ModuleRenderMode::Html => render_html(&tree, page_info, settings, handle),
            ModuleRenderMode::Text => HtmlOutput {
                body: render_text(&tree, page_info, settings, handle),
                styles: Vec::new(),
            },
        };
        (html_output, warnings)
    }

    /// Completes a render once the host has stored the body and obtained
    /// its content hash.
    pub fn finish(html_output: HtmlOutput, warnings: Vec<Warning>, compiled_hash: String) -> (r:
        RenderOutput)
        ensures
            r.html_output == html_output,
            r.warnings == warnings,
            r.compiled_hash == compiled_hash,
            r.compiled_generator@ == GENERATOR_VERSION@,
    {
        RenderOutput {
            html_output,
            warnings,
            compiled_hash,
            compiled_generator: String::from_str(GENERATOR_VERSION),
        }
    }
}

/// Determinism: rendering identical text, page context, settings and handle
/// facts yields byte-identical output and identical warning lists.
pub proof fn lemma_render_deterministic(
    text: Seq<char>,
    info: PageInfoView,
    settings: WikitextSettings,
    h: HandleView,
    first: (Seq<char>, Seq<Warning>),
    second: (Seq<char>, Seq<Warning>),
)
    requires
        first == compile_spec(text, info, settings, h),
        second == compile_spec(text, info, settings, h),
    ensures
        first == second,
{
}

} // verus!
