//! The amenity types that Taginfo knows, offered as completions of the
//! type field.
use vstd::prelude::*;
use crate::order::{rank_le, sort_ranked, stable_sorted, Rank, Ranked};
use crate::text::{replace_char, replaced, same_text, text_at_most, text_le};

verus! {

/// The answer of Taginfo: values of the `amenity` key.
#[derive(Clone, Debug, PartialEq, Eq)]
pub struct Taginfo {
    pub data: Vec<Data>,
}

/// One value of the `amenity` key.
#[derive(Clone, Debug, PartialEq, Eq)]
pub struct Data {
    pub value: String,
}

/// The icon class of an amenity type: a few have an icon of another name,
/// the others `oc-` and the type with `-` for `_`.
pub open spec fn amenity_icon(amenity: Seq<char>) -> Seq<char> {
    if amenity == "bicycle_parking"@ {
        "oc-parking-bicycle"@
    } else if amenity == "bicycle_rental"@ {
        "oc-rental-bicycle"@
    } else if amenity == "doctors"@ {
        "oc-doctor"@
    } else if amenity == "parking"@ {
        "oc-parking-car"@
    } else if amenity == "townhall"@ {
        "oc-town-hall"@
    } else {
        "oc-"@ + replaced(amenity, '_', "-"@)
    }
}

/// The Taginfo request for the values of `amenity` that match `query`, the
/// most used first, in French.
pub open spec fn taginfo_url_text(query: Seq<char>) -> Seq<char> {
    "https://taginfo.openstreetmap.org/api/4/key/values?key=amenity&filter=all&lang=fr&sortname=count&sortorder=desc&rp=50&page=1&query="@
        + query
}

/// The URL that asks Taginfo for the amenity types matching `query`.
pub fn taginfo_url(query: &str) -> (res: String)
    ensures
        res@ == taginfo_url_text(query@),
{
    let mut url = String::from_str(
        "https://taginfo.openstreetmap.org/api/4/key/values?key=amenity&filter=all&lang=fr&sortname=count&sortorder=desc&rp=50&page=1&query=",
    );
    url.append(query);
    url
}

impl Data {
    /// The icon class of this amenity type; there always is one.
    pub fn icon(&self) -> (res: Option<String>)
        ensures
            res matches Some(icon) && icon@ == amenity_icon(self.value@),
    {
        let amenity = self.value.as_str();
        let icon = if same_text(amenity, "bicycle_parking") {
            String::from_str("oc-parking-bicycle")
        } else if same_text(amenity, "bicycle_rental") {
            String::from_str("oc-rental-bicycle")
        } else if same_text(amenity, "doctors") {
            String::from_str("oc-doctor")
        } else if same_text(amenity, "parking") {
            String::from_str("oc-parking-car")
        } else if same_text(amenity, "townhall") {
            String::from_str("oc-town-hall")
        } else {
            let mut icon = String::from_str("oc-");
            let rest = replace_char(amenity, '_', "-");
            icon.append(rest.as_str());
            icon
        };
        Some(icon)
    }
}

impl Ranked for Data {
    /// Values in lexicographic order.
    open spec fn rank(&self) -> Rank {
        (false, self.value@)
    }

    fn at_most(&self, other: &Self) -> (res: bool) {
        text_at_most(self.value.as_str(), other.value.as_str())
    }
}

impl Taginfo {
    /// The same answer with its values in lexicographic order, equal values
    /// in their order.
    pub fn sort_by_value(self) -> (res: Taginfo)
        ensures
            stable_sorted(self.data@, res.data@),
            res.data@.to_multiset() == self.data@.to_multiset(),
    {
        Taginfo { data: sort_ranked(self.data) }
    }
}

} // verus!

verus! {

/// Two values are ordered by the whole value, in lexicographic order.
pub proof fn lemma_value_order(a: Data, b: Data)
    ensures
        rank_le(a.rank(), b.rank()) == text_le(a.value@, b.value@),
{
}

/// The sorted values are in lexicographic order of the whole value: for
/// `i < j`, the `i`-th value is at most the `j`-th.
pub proof fn lemma_values_in_order(unsorted: Seq<Data>, res: Seq<Data>)
    requires
        stable_sorted(unsorted, res),
    ensures
        forall|i: int, j: int|
            0 <= i < j < res.len() ==> text_le(#[trigger] res[i].value@, #[trigger] res[j].value@),
{
    assert forall|i: int, j: int| 0 <= i < j < res.len() implies text_le(
        #[trigger] res[i].value@,
        #[trigger] res[j].value@,
    ) by {
        assert(rank_le(res[i].rank(), res[j].rank()));
    }
}

} // verus!
