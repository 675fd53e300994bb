//! Syntax highlighting of fenced code.
//!
//! A language tag picks a syntax definition by token match, falling back to
//! plain text for unknown tags; the code is rendered to HTML under a fixed
//! color theme. The bundled syntax and theme definitions are compiled into
//! the highlighter, so the result is a function of the code and the tag
//! alone — highlighting the same code under the same tag twice yields
//! identical output. An internal rendering failure is swallowed: the call
//! then returns the original code text unchanged.

use vstd::prelude::*;
use syntect::highlighting::ThemeSet;
use syntect::parsing::SyntaxSet;

verus! {

/// The highlighted HTML for a code string under a language tag: the tag's
/// syntax definition (plain text for an unknown tag) rendered under the
/// fixed theme, or the code itself when the highlighter fails internally.
pub uninterp spec fn highlight_of(code: Seq<char>, lang: Seq<char>) -> Seq<char>;

/// Relies on `syntect::html::highlighted_html_for_string` over the bundled
/// default syntaxes and the fixed `base16-ocean.dark` theme, with
/// `find_syntax_by_token` choosing the syntax and the plain-text syntax as
/// the fallback; all of these are compiled-in constants, so the result
/// depends on `code` and `lang` alone. On an internal error the code text
/// is returned unchanged.
#[verifier::external_body]
fn syntect_highlight(code: &str, lang: &str) -> (r: String)
    ensures
        r@ == highlight_of(code@, lang@),
{
    let syntaxes = SyntaxSet::load_defaults_newlines();
    let themes = ThemeSet::load_defaults();
    let theme = &themes.themes["base16-ocean.dark"];
    let syntax = syntaxes
        .find_syntax_by_token(lang)
        .unwrap_or_else(|| syntaxes.find_syntax_plain_text());
    syntect::html::highlighted_html_for_string(code, &syntaxes, syntax, theme)
        .unwrap_or_else(|_| code.to_string())
}

/// Highlights a code string under a language tag. Always succeeds; the
/// result is a function of the two arguments alone.
pub fn highlight(code: &str, lang: &str) -> (r: String)
    ensures
        r@ == highlight_of(code@, lang@),
{
    syntect_highlight(code, lang)
}

} // verus!
