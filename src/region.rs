use crate::markup::{
    document_options, fragment_options, opt_pairs_text, pairs_text, select_document_options,
    select_fragment_options,
};
use crate::text::{joined, no_ascii_lowercase, upper_of, uppercase};
use vstd::prelude::*;

verus! {

/// One region: a regency (kabupaten) of a province (provinsi), with the
/// remote source's opaque token for each.
#[derive(Debug)]
pub struct Daerah {
    pub provinsi: String,
    pub provinsi_token: String,
    pub kabupaten: String,
    pub kabupaten_token: String,
}

/// `d` is the regency named and tokened by `option` of the given province.
pub open spec fn is_regency_of(
    d: Daerah,
    provinsi: Seq<char>,
    provinsi_token: Seq<char>,
    option: (Seq<char>, Seq<char>),
) -> bool {
    &&& d.provinsi@ == provinsi
    &&& d.provinsi_token@ == provinsi_token
    &&& d.kabupaten@ == option.0
    &&& d.kabupaten_token@ == option.1
}

/// `regions` are the regencies `options` of the province, one for one.
pub open spec fn regencies_match(
    regions: Seq<Daerah>,
    provinsi: Seq<char>,
    provinsi_token: Seq<char>,
    options: Seq<(Seq<char>, Seq<char>)>,
) -> bool {
    &&& regions.len() == options.len()
    &&& forall|i: int|
        0 <= i < regions.len() ==> is_regency_of(
            #[trigger] regions[i],
            provinsi,
            provinsi_token,
            options[i],
        )
}

/// The region's province and regency names are exactly `provinsi` and
/// `kabupaten`.
pub open spec fn names_match(d: Daerah, provinsi: Seq<char>, kabupaten: Seq<char>) -> bool {
    d.provinsi@ == provinsi && d.kabupaten@ == kabupaten
}

/// `r` is the position of the first region named `provinsi` / `kabupaten`,
/// or `None` where no region is.
pub open spec fn is_first_match(
    r: Option<usize>,
    catalog: Seq<Daerah>,
    provinsi: Seq<char>,
    kabupaten: Seq<char>,
) -> bool {
    match r {
        Some(i) => {
            &&& i < catalog.len()
            &&& names_match(catalog[i as int], provinsi, kabupaten)
            &&& forall|j: int| 0 <= j < i ==> !names_match(#[trigger] catalog[j], provinsi, kabupaten)
        },
        None => forall|j: int|
            0 <= j < catalog.len() ==> !names_match(#[trigger] catalog[j], provinsi, kabupaten),
    }
}

/// The regencies of one province, one for each (name, token) option, in
/// the options' order.
pub fn regencies_of(provinsi_name: &str, provinsi_token: &str, options: &Vec<(String, String)>) -> (r:
    Vec<Daerah>)
    ensures
        regencies_match(r@, provinsi_name@, provinsi_token@, pairs_text(options@)),
{
    let mut regions: Vec<Daerah> = Vec::new();
    let mut i: usize = 0;
    while i < options.len()
        invariant
            i <= options.len(),
            regencies_match(regions@, provinsi_name@, provinsi_token@, pairs_text(options@.take(i as int))),
        decreases options.len() - i,
    {
        let ghost before = regions@;
        regions.push(
            Daerah {
                provinsi: String::from_str(provinsi_name),
                provinsi_token: String::from_str(provinsi_token),
                kabupaten: options[i].0.clone(),
                kabupaten_token: options[i].1.clone(),
            },
        );
        proof {
            let opts = pairs_text(options@.take(i + 1));
            assert forall|j: int| 0 <= j < regions@.len() implies is_regency_of(
                #[trigger] regions@[j],
                provinsi_name@,
                provinsi_token@,
                opts[j],
            ) by {
                if j < i {
                    assert(regions@[j] == before[j]);
                    assert(opts[j] == pairs_text(options@.take(i as int))[j]);
                }
            }
        }
        i = i + 1;
    }
    proof {
        assert(options@.take(options.len() as int) =~= options@);
    }
    regions
}

/// The regencies of one province read from the remote source's answer, an
/// HTML fragment of `<option value="token">name</option>` elements; `None`
/// where the fragment cannot be searched.
pub fn build_daerah(provinsi_name: &str, provinsi_token: &str, fragment: &str) -> (r: Option<Vec<Daerah>>)
    ensures
        match fragment_options(fragment@, "option"@, "value"@) {
            None => r is None,
            Some(options) => r matches Some(v) && regencies_match(
                v@,
                provinsi_name@,
                provinsi_token@,
                options,
            ),
        },
{
    match select_fragment_options(fragment, "option", "value") {
        None => None,
        Some(options) => Some(regencies_of(provinsi_name, provinsi_token, &options)),
    }
}

/// The provinces, as (name, token), listed by the options of the
/// `search_prov` selector of the remote source's schedule page; `None` where
/// the page has no such selector.
pub fn province_options(page: &str) -> (r: Option<Vec<(String, String)>>)
    ensures
        opt_pairs_text(r) == document_options(page@, "select[id=\"search_prov\"]"@, "option"@, "value"@),
{
    select_document_options(page, "select[id=\"search_prov\"]", "option", "value")
}

/// The position of the first region whose province and regency names are
/// exactly `provinsi` and `kabupaten`: no case folding, no trimming.
pub fn find_daerah(catalog: &Vec<Daerah>, provinsi: &str, kabupaten: &str) -> (r: Option<usize>)
    ensures
        is_first_match(r, catalog@, provinsi@, kabupaten@),
{
    let p = String::from_str(provinsi);
    let k = String::from_str(kabupaten);
    let mut i: usize = 0;
    while i < catalog.len()
        invariant
            i <= catalog.len(),
            p@ == provinsi@,
            k@ == kabupaten@,
            forall|j: int| 0 <= j < i ==> !names_match(#[trigger] catalog@[j], provinsi@, kabupaten@),
        decreases catalog.len() - i,
    {
        if catalog[i].provinsi == p && catalog[i].kabupaten == k {
            return Some(i);
        }
        i = i + 1;
    }
    None
}

/// Looks a region up by names given in any case: both are upper-cased, as
/// the catalog stores them, and then matched exactly. A region whose stored
/// names are not in upper case (one holds an ASCII lower-case letter) is
/// never found.
pub fn lookup_daerah(catalog: &Vec<Daerah>, provinsi: &str, kabupaten: &str) -> (r: Option<usize>)
    ensures
        is_first_match(r, catalog@, upper_of(provinsi@), upper_of(kabupaten@)),
        r matches Some(i) ==> no_ascii_lowercase(catalog@[i as int].provinsi@) && no_ascii_lowercase(
            catalog@[i as int].kabupaten@,
        ),
{
    let p = uppercase(provinsi);
    let k = uppercase(kabupaten);
    find_daerah(catalog, p.as_str(), k.as_str())
}

/// Lookup ignores the case of the names given: two pairs of names that
/// upper-case alike find the same region, or both find none.
pub proof fn lemma_lookup_ignores_case(
    catalog: Seq<Daerah>,
    provinsi_a: Seq<char>,
    kabupaten_a: Seq<char>,
    provinsi_b: Seq<char>,
    kabupaten_b: Seq<char>,
    found_a: Option<usize>,
    found_b: Option<usize>,
)
    requires
        upper_of(provinsi_a) == upper_of(provinsi_b),
        upper_of(kabupaten_a) == upper_of(kabupaten_b),
        is_first_match(found_a, catalog, upper_of(provinsi_a), upper_of(kabupaten_a)),
        is_first_match(found_b, catalog, upper_of(provinsi_b), upper_of(kabupaten_b)),
    ensures
        found_a == found_b,
{
    let p = upper_of(provinsi_a);
    let k = upper_of(kabupaten_a);
    match found_a {
        Some(i) => match found_b {
            Some(j) => {
                if i < j {
                    assert(!names_match(catalog[i as int], p, k));
                } else if j < i {
                    assert(!names_match(catalog[j as int], p, k));
                }
            },
            None => {
                assert(!names_match(catalog[i as int], p, k));
            },
        },
        None => match found_b {
            Some(j) => {
                assert(!names_match(catalog[j as int], p, k));
            },
            None => {},
        },
    }
}

/// The line that lists a region: `Kabupaten: <regency>, Provinsi: <province>`.
pub fn region_line(d: &Daerah) -> (r: String)
    ensures
        r@ == "Kabupaten: "@ + d.kabupaten@ + ", Provinsi: "@ + d.provinsi@,
{
    let a = joined("Kabupaten: ", d.kabupaten.as_str());
    let b = joined(a.as_str(), ", Provinsi: ");
    joined(b.as_str(), d.provinsi.as_str())
}

} // verus!
