use vstd::prelude::*;

use crate::aggregate::{pair_views, AggregatedResult};

verus! {

/// What serializing a string-to-string map to JSON yields. The text is a
/// function of the key-value map alone: keys are emitted in sorted order.
pub uninterp spec fn json_of(m: Map<Seq<char>, Seq<char>>) -> Seq<char>;

/// What percent-encoding a string yields: a function of its characters
/// alone.
pub uninterp spec fn uri_encoded(s: Seq<char>) -> Seq<char>;

/// The key-value map of a pair list; a repeated key keeps its last value.
pub open spec fn pairs_map(s: Seq<(Seq<char>, Seq<char>)>) -> Map<Seq<char>, Seq<char>>
    decreases s.len(),
{
    if s.len() == 0 {
        Map::empty()
    } else {
        pairs_map(s.drop_last()).insert(s.last().0, s.last().1)
    }
}

/// Relies on serde_json::to_string over an ordered map of strings: the JSON
/// text depends on the key-value map alone (a later pair overrides an
/// earlier one with the same key, as the map insert does), and a map with
/// string keys and string values serializes without error.
#[verifier::external_body]
fn to_json(entries: &Vec<(String, String)>) -> (r: String)
    ensures
        r@ == json_of(pairs_map(pair_views(entries@))),
{
    let mut map = std::collections::BTreeMap::new();
    for (k, v) in entries.iter() {
        map.insert(k.clone(), v.clone());
    }
    serde_json::to_string(&map).unwrap()
}

/// Relies on urlencoding::encode: percent-encodes every byte except the
/// alphanumerics and `-`, `_`, `.`, `~`; depends on the input alone, and
/// an empty input stays empty.
#[verifier::external_body]
fn url_encode(s: &str) -> (r: String)
    ensures
        r@ == uri_encoded(s@),
        s@.len() == 0 ==> r@.len() == 0,
{
    urlencoding::encode(s).into_owned()
}

/// The request URL that reports an aggregated result to the spreadsheet
/// endpoint: the endpoint's own URL followed by the percent-encoded JSON of
/// the result's entries with the version and source tags folded in.
pub fn gas_request_url(gas_url: &str, result: &AggregatedResult) -> (r: String)
    ensures
        r@ == gas_url@ + uri_encoded(
            json_of(
                pairs_map(
                    pair_views(result.entries@) + seq![
                        ("version"@, result.version@),
                        ("source"@, result.source@),
                    ],
                ),
            ),
        ),
{
    let entries = result.to_entries();
    let json = to_json(&entries);
    let encoded = url_encode(json.as_str());
    let mut out = String::from_str(gas_url);
    out.append(encoded.as_str());
    out
}

} // verus!
