use vstd::prelude::*;

verus! {

/// The (inner HTML, attribute value) of each element matching `option`
/// among the descendants, in tree order, of the first element matching
/// `container` in the order the parser created the nodes of an HTML
/// document; an absent attribute gives an empty value. `None` where a
/// selector does not parse or no element matches `container`. Attributes
/// keep their source order, so the result depends on the arguments alone.
pub uninterp spec fn document_options(
    html: Seq<char>,
    container: Seq<char>,
    option: Seq<char>,
    attribute: Seq<char>,
) -> Option<Seq<(Seq<char>, Seq<char>)>>;

/// The (inner HTML, attribute value) of each element matching `option` in
/// an HTML fragment, in the order the parser created its nodes; an absent
/// attribute gives an empty value. `None` where the selector does not parse.
/// Attributes keep their source order, so the result depends on the
/// arguments alone.
pub uninterp spec fn fragment_options(html: Seq<char>, option: Seq<char>, attribute: Seq<char>) -> Option<
    Seq<(Seq<char>, Seq<char>)>,
>;

/// The characters of each pair of texts.
pub open spec fn pairs_text(v: Seq<(String, String)>) -> Seq<(Seq<char>, Seq<char>)> {
    v.map_values(|p: (String, String)| (p.0@, p.1@))
}

/// The characters of an optional list of pairs of texts.
pub open spec fn opt_pairs_text(o: Option<Vec<(String, String)>>) -> Option<Seq<(Seq<char>, Seq<char>)>> {
    match o {
        Some(v) => Some(pairs_text(v@)),
        None => None,
    }
}

/// Relies on scraper's `Html::parse_document`, `Selector::parse`,
/// `Html::select`, `ElementRef::select`, `ElementRef::inner_html` and
/// `ElementRef::attr`, with scraper's `deterministic` feature, which keeps
/// attributes in source order: the options inside the first matching
/// container of a parsed document.
#[verifier::external_body]
pub(crate) fn select_document_options(html: &str, container: &str, option: &str, attribute: &str) -> (r:
    Option<Vec<(String, String)>>)
    ensures
        opt_pairs_text(r) == document_options(html@, container@, option@, attribute@),
{
    let page = scraper::Html::parse_document(html);
    let outer = scraper::Selector::parse(container).ok()?;
    let inner = scraper::Selector::parse(option).ok()?;
    let first = page.select(&outer).next()?;
    Some(first.select(&inner).map(|o| (o.inner_html(), o.attr(attribute).unwrap_or("").to_string())).collect())
}

/// Relies on scraper's `Html::parse_fragment`, `Selector::parse`,
/// `Html::select`, `ElementRef::inner_html` and `ElementRef::attr`, with
/// scraper's `deterministic` feature, which keeps attributes in source
/// order: the matching elements of a parsed fragment.
#[verifier::external_body]
pub(crate) fn select_fragment_options(html: &str, option: &str, attribute: &str) -> (r: Option<
    Vec<(String, String)>,
>)
    ensures
        opt_pairs_text(r) == fragment_options(html@, option@, attribute@),
{
    let fragment = scraper::Html::parse_fragment(html);
    let selector = scraper::Selector::parse(option).ok()?;
    Some(fragment.select(&selector).map(|o| (o.inner_html(), o.attr(attribute).unwrap_or("").to_string())).collect())
}

} // verus!
