//! Markdown to Typst markup: a parser that folds a Markdown event stream into
//! a document model, and a layout-aware emitter that turns the model into
//! markup for the Typst compiler.

pub mod block;
pub mod compiler;
pub mod config;
pub mod events;
pub mod layout;
pub mod markup;
pub mod parser;
pub mod text;
pub mod typst;

pub use block::{Block, List, ListItem, Span};
pub use config::{Config, FontConfig, LayoutConfig, LinksConfig, PageConfig};

use block::{blocks_model, document_well_formed, BlockModel};
use compiler::{
    document_to_pdf, is_failure_report, markup_to_document, COMPILATION_FAILED,
};
use config::ConfigModel;
use events::markdown_events;
use parser::{document_of, free_of_page_break_requests, without_front_matter};
use text::has_prefix;
use typst::emit_document;
use typst_library::layout::PagedDocument;
use vstd::prelude::*;

verus! {

/// The document that a Markdown text describes: its front matter is set
/// aside, and the events of the rest are folded into blocks.
pub open spec fn document_of_markdown(markdown: Seq<char>) -> Seq<BlockModel> {
    document_of(markdown_events(without_front_matter(markdown)))
}

/// The markup that a Markdown text is converted to under a configuration.
pub open spec fn markup_of_markdown(markdown: Seq<char>, config: ConfigModel) -> Seq<char> {
    emit_document(document_of_markdown(markdown), config)
}

/// Parses Markdown text into the blocks of a document.
pub fn parse(markdown: &str) -> (blocks: Vec<Block>)
    ensures
        blocks_model(blocks@) == document_of_markdown(markdown@),
        document_well_formed(blocks_model(blocks@)),
        free_of_page_break_requests(blocks_model(blocks@)),
{
    parser::parse(markdown)
}

/// Converts Markdown to Typst markup with the standard configuration.
pub fn markdown_to_typst(markdown: &str) -> (markup: String)
    ensures
        markup@ == markup_of_markdown(markdown@, ConfigModel::standard()),
{
    markdown_to_typst_with_config(markdown, &Config::default())
}

/// Converts Markdown to Typst markup with the given configuration.
pub fn markdown_to_typst_with_config(markdown: &str, config: &Config) -> (markup: String)
    ensures
        markup@ == markup_of_markdown(markdown@, config@),
{
    let blocks = parse(markdown);
    typst::blocks_to_typst(&blocks, config)
}

/// Compiles Markdown to a paginated document with the given configuration.
///
/// The markup handed to the compiler is the one that
/// [`markdown_to_typst_with_config`] gives; `fonts` holds the font files
/// that the document may use besides the ones that the compiler brings
/// along. A failure of the compiler ends the conversion and is reported in
/// the compiler's own words.
pub fn compile_document(markdown: &str, config: &Config, fonts: &Vec<Vec<u8>>) -> (document:
    Result<PagedDocument, String>)
    ensures
        document matches Err(message) ==> has_prefix(message@, COMPILATION_FAILED@),
{
    let typst_content = markdown_to_typst_with_config(markdown, config);
    markup_to_document(typst_content, fonts)
}

/// Converts Markdown to the bytes of a PDF file with the standard
/// configuration.
pub fn markdown_to_pdf(markdown: &str, fonts: &Vec<Vec<u8>>) -> (pdf: Result<Vec<u8>, String>)
    ensures
        pdf matches Err(message) ==> is_failure_report(message@),
{
    markdown_to_pdf_with_config(markdown, &Config::default(), fonts)
}

/// Converts Markdown to the bytes of a PDF file with the given
/// configuration. A failure is reported once, with the stage that failed.
pub fn markdown_to_pdf_with_config(markdown: &str, config: &Config, fonts: &Vec<Vec<u8>>) -> (pdf:
    Result<Vec<u8>, String>)
    ensures
        pdf matches Err(message) ==> is_failure_report(message@),
{
    match compile_document(markdown, config, fonts) {
        Ok(document) => document_to_pdf(&document),
        Err(message) => Err(message),
    }
}

} // verus!
