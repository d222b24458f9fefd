//! The boundary to the Typst compiler.
//!
//! Compiling markup and rendering a PDF are the work of the `typst` crates.
//! What they return depends on more than the markup (fonts, the clock), so
//! nothing is claimed about it here: the library hands the markup over and
//! reports what came back.

use crate::text::has_prefix;
use typst_as_lib::typst_kit_options::TypstKitFontOptions;
use typst_as_lib::TypstEngine;
use typst_library::layout::PagedDocument;
use typst_pdf::PdfOptions;
use vstd::prelude::*;
use vstd::string::*;

verus! {

/// Opens the report of markup that the compiler rejected.
pub const COMPILATION_FAILED: &'static str = "Typst compilation failed: ";

/// Opens the report of a document that could not be rendered as PDF.
pub const PDF_GENERATION_FAILED: &'static str = "PDF generation failed: ";

/// `typst_library::layout::PagedDocument`, carried through without a look
/// inside.
#[verifier::external_type_specification]
#[verifier::external_body]
pub struct ExPagedDocument(PagedDocument);

/// Compiles markup with `TypstEngine::compile` of `typst-as-lib`. The engine
/// gets the markup as its main file, the given fonts, and the fonts that
/// `typst-kit` embeds; system fonts are not searched. An error comes back as
/// its debug text. Nothing is claimed about the outcome.
#[verifier::external_body]
pub(crate) fn compile_markup(markup: String, fonts: &Vec<Vec<u8>>) -> Result<
    PagedDocument,
    String,
> {
    let options = TypstKitFontOptions::new().include_embedded_fonts(true).include_system_fonts(
        false,
    );
    let engine = TypstEngine::builder()
        .main_file(markup)
        .fonts(fonts.iter().map(|font| font.as_slice()))
        .search_fonts_with(options)
        .build();
    engine.compile().output.map_err(|error| format!("{:?}", error))
}

/// Renders a compiled document with `typst_pdf::pdf` and its default
/// options. An error comes back as its debug text. Nothing is claimed about
/// the outcome.
#[verifier::external_body]
pub(crate) fn render_pdf(document: &PagedDocument) -> Result<Vec<u8>, String> {
    typst_pdf::pdf(document, &PdfOptions::default()).map_err(|error| format!("{:?}", error))
}

/// Reports the outcome of one stage: a success is passed on, the detail of a
/// failure is put behind the words that name the stage.
pub fn stage_outcome<T>(outcome: Result<T, String>, stage: &str) -> (reported: Result<T, String>)
    ensures
        match outcome {
            Ok(value) => reported == Ok::<T, String>(value),
            Err(detail) => reported matches Err(message) && message@ == stage@ + detail@,
        },
{
    match outcome {
        Ok(value) => Ok(value),
        Err(detail) => {
            let mut message = String::from_str(stage);
            message.append(detail.as_str());
            Err(message)
        },
    }
}

/// Whether a message reports a failure of one of the two stages.
pub open spec fn is_failure_report(message: Seq<char>) -> bool {
    has_prefix(message, COMPILATION_FAILED@) || has_prefix(message, PDF_GENERATION_FAILED@)
}

/// Compiles markup to a paginated document. Markup that the compiler
/// rejects is reported with the compiler's own words.
pub fn markup_to_document(markup: String, fonts: &Vec<Vec<u8>>) -> (document: Result<
    PagedDocument,
    String,
>)
    ensures
        document matches Err(message) ==> has_prefix(message@, COMPILATION_FAILED@),
{
    match stage_outcome(compile_markup(markup, fonts), COMPILATION_FAILED) {
        Ok(document) => Ok(document),
        Err(message) => {
            assert(message@.take(COMPILATION_FAILED@.len() as int) == COMPILATION_FAILED@);
            Err(message)
        },
    }
}

/// Renders a paginated document as the bytes of a PDF file. A document that
/// cannot be rendered is reported with the renderer's own words.
pub fn document_to_pdf(document: &PagedDocument) -> (pdf: Result<Vec<u8>, String>)
    ensures
        pdf matches Err(message) ==> has_prefix(message@, PDF_GENERATION_FAILED@),
{
    match stage_outcome(render_pdf(document), PDF_GENERATION_FAILED) {
        Ok(bytes) => Ok(bytes),
        Err(message) => {
            assert(message@.take(PDF_GENERATION_FAILED@.len() as int) == PDF_GENERATION_FAILED@);
            Err(message)
        },
    }
}

} // verus!
