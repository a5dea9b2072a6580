//! The picture of a pipeline in the terminal, drawn by `graphs_tui` from
//! the pipeline's Mermaid text.

use vstd::prelude::*;

verus! {

/// The picture `graphs_tui::render_mermaid_to_tui` draws of the Mermaid
/// text with the default options; `None` when it refuses the text.
pub uninterp spec fn mermaid_picture(text: Seq<char>) -> Option<Seq<char>>;

/// Calls `graphs_tui::render_mermaid_to_tui` with
/// `graphs_tui::RenderOptions::default()` (fixed options) and keeps the
/// `output` of the result. Claimed: it gives `mermaid_picture` of the text,
/// an error exactly when that is `None`. The crate parses, lays out and
/// draws from the text alone (it sorts wherever it walks a hash map), so the
/// picture is a function of the text; its error is not described.
#[verifier::external_body]
fn render_mermaid(text: &str) -> (r: Result<String, String>)
    ensures
        match r {
            Ok(s) => mermaid_picture(text@) == Some(s@),
            Err(_) => mermaid_picture(text@) is None,
        },
{
    match graphs_tui::render_mermaid_to_tui(text, graphs_tui::RenderOptions::default()) {
        Ok(res) => Ok(res.output),
        Err(e) => Err(e.to_string()),
    }
}

/// The terminal picture of a pipeline from its Mermaid text (see
/// `mermaid_picture`); an error when the text cannot be drawn.
pub fn view_pipeline(mermaid: &str) -> (r: Result<String, String>)
    ensures
        r is Ok <==> mermaid_picture(mermaid@) is Some,
        r matches Ok(s) ==> mermaid_picture(mermaid@) == Some(s@),
{
    render_mermaid(mermaid)
}

} // verus!
