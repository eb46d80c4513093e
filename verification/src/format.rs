//! Laying out the text of a script as Rune's formatter does.
use vstd::prelude::*;

verus! {

/// The text that Rune's formatter, with its default options, makes of the
/// script `source`; none where it refuses the script.
pub uninterp spec fn rune_formatted(source: Seq<char>) -> Option<Seq<char>>;

/// Calls `rune::fmt::prepare(..).with_options(&Options::default()).format()`
/// on the one script `source`, held in memory, and returns the text the
/// formatter laid out, or `None` where it reported an error. The layout is
/// the formatter's own, named `rune_formatted`: with the default options it
/// depends on the text alone. Running out of memory, which Rune reports as
/// an error too, is not considered, as for every allocation of the library.
#[verifier::external_body]
fn format_with_rune(source: &str) -> (r: Option<String>)
    ensures
        match r {
            Some(s) => rune_formatted(source@) == Some(s@),
            None => rune_formatted(source@) is None,
        },
{
    let mut sources = rune::Sources::new();
    sources.insert(rune::Source::memory(source).ok()?).ok()?;
    let options = rune::Options::default();
    let mut files = rune::fmt::prepare(&sources).with_options(&options).format().ok()?;
    files.pop().map(|(_, text)| text.as_str().to_owned())
}

/// The script `source` laid out as Rune's formatter does; `None` where the
/// formatter refuses it.
pub fn format_rune_source(source: &str) -> (r: Option<String>)
    ensures
        match r {
            Some(s) => rune_formatted(source@) == Some(s@),
            None => rune_formatted(source@) is None,
        },
{
    format_with_rune(source)
}

} // verus!
