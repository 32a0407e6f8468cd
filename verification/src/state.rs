//! The earlier form of the search parameters, without the `open` option and
//! without trimming the type and name.
use vstd::prelude::*;
use leptos_router::params::ParamsMap;
use crate::param::{list_if, push_when, text_if};
use crate::route::{has_value, params_values, value_or_default, value_or_empty};
use crate::text::{joined, same_text, texts};

pub use crate::search::State;

verus! {

/// The parameters of a search, in their earlier form: the place
/// (`where_`), the amenity type (`type_`), the name and the options.
#[derive(Clone, Debug, PartialEq, Eq)]
pub struct Param {
    pub where_: String,
    pub type_: String,
    pub what: String,
    pub wo_hour: bool,
    pub wifi: bool,
    pub vegetarian: bool,
    pub vegan: bool,
}

impl Param {
    /// The tag filter: one clause per option, type and name as given, then
    /// the bounding box as south, west, north, east.
    pub open spec fn filter_text(&self, bbox: Seq<String>) -> Seq<char> {
        text_if(!self.wo_hour, "[\"opening_hours\"]"@)
        + text_if(self.wifi, "[\"internet_access\"=\"wlan\"]"@)
        + text_if(self.vegetarian, "[\"diet:vegetarian\"=\"yes\"]"@)
        + text_if(self.vegan, "[\"diet:vegan\"=\"yes\"]"@)
        + text_if(self.type_@ != "all"@, "[\"amenity\"=\""@ + self.type_@ + "\"]"@)
        + text_if(self.what@.len() > 0, "[\"name\"~\".*"@ + self.what@ + ".*\", i]"@)
        + "("@ + bbox[0]@ + ","@ + bbox[2]@ + ","@ + bbox[1]@ + ","@ + bbox[3]@ + ");"@
    }

    /// The names of the options that are on, in URL order.
    pub open spec fn flag_names(&self) -> Seq<Seq<char>> {
        list_if(self.wo_hour, "wo_hour"@)
        + list_if(self.wifi, "wifi"@)
        + list_if(self.vegetarian, "vegetarian"@)
        + list_if(self.vegan, "vegan"@)
    }

    /// The page URL: `/where/type/what?flags`, with `all` for an empty type.
    pub open spec fn url_text(&self) -> Seq<char> {
        "/"@
        + text_if(self.where_@.len() > 0, self.where_@ + "/"@)
        + (if self.type_@.len() > 0 { self.type_@ + "/"@ } else { "all/"@ })
        + self.what@
        + "?"@
        + joined(self.flag_names(), "&"@)
    }

    /// The parameters that the route and the query give.
    pub fn from(params: &ParamsMap, query: &ParamsMap) -> (res: Self)
        ensures
            res.where_@ == value_or_empty(*params, "where"@),
            res.type_@ == value_or_empty(*params, "type"@),
            res.what@ == value_or_empty(*params, "what"@),
            res.wo_hour == params_values(*query).dom().contains("wo_hour"@),
            res.wifi == params_values(*query).dom().contains("wifi"@),
            res.vegetarian == params_values(*query).dom().contains("vegetarian"@),
            res.vegan == params_values(*query).dom().contains("vegan"@),
    {
        Param {
            where_: value_or_default(params, "where"),
            type_: value_or_default(params, "type"),
            what: value_or_default(params, "what"),
            wo_hour: has_value(query, "wo_hour"),
            wifi: has_value(query, "wifi"),
            vegetarian: has_value(query, "vegetarian"),
            vegan: has_value(query, "vegan"),
        }
    }

    /// The Overpass tag filter for these parameters within `bbox` (south,
    /// north, west, east).
    pub fn as_filter(&self, bbox: &[String]) -> (res: String)
        requires
            bbox@.len() >= 4,
        ensures
            res@ == self.filter_text(bbox@),
    {
        let mut filter = String::new();
        push_when(&mut filter, !self.wo_hour, "[\"opening_hours\"]");
        push_when(&mut filter, self.wifi, "[\"internet_access\"=\"wlan\"]");
        push_when(&mut filter, self.vegetarian, "[\"diet:vegetarian\"=\"yes\"]");
        push_when(&mut filter, self.vegan, "[\"diet:vegan\"=\"yes\"]");
        let mut amenity = String::from_str("[\"amenity\"=\"");
        amenity.append(self.type_.as_str());
        amenity.append("\"]");
        push_when(&mut filter, !same_text(self.type_.as_str(), "all"), amenity.as_str());
        let mut name = String::from_str("[\"name\"~\".*");
        name.append(self.what.as_str());
        name.append(".*\", i]");
        push_when(&mut filter, self.what.unicode_len() > 0, name.as_str());
        filter.append("(");
        filter.append(bbox[0].as_str());
        filter.append(",");
        filter.append(bbox[2].as_str());
        filter.append(",");
        filter.append(bbox[1].as_str());
        filter.append(",");
        filter.append(bbox[3].as_str());
        filter.append(");");
        filter
    }

    /// The URL of the page that shows the results of these parameters.
    pub fn as_url(&self) -> (res: String)
        ensures
            res@ == self.url_text(),
    {
        let mut url = String::from_str("/");
        let mut place = self.where_.clone();
        place.append("/");
        push_when(&mut url, self.where_.unicode_len() > 0, place.as_str());
        if self.type_.unicode_len() > 0 {
            url.append(self.type_.as_str());
            url.append("/");
        } else {
            url.append("all/");
        }
        let ghost before_what = url@;
        if self.what.unicode_len() > 0 {
            url.append(self.what.as_str());
        } else {
            assert(before_what + self.what@ =~= before_what);
        }
        let mut params: Vec<&str> = Vec::new();
        if self.wo_hour {
            params.push("wo_hour");
        }
        if self.wifi {
            params.push("wifi");
        }
        if self.vegetarian {
            params.push("vegetarian");
        }
        if self.vegan {
            params.push("vegan");
        }
        assert(texts(params@) =~= self.flag_names());
        url.append("?");
        let flags = crate::text::join(&params, "&");
        url.append(flags.as_str());
        url
    }
}

impl Default for Param {
    /// No place, every type (`all`), no name, every option off.
    fn default() -> (res: Self)
        ensures
            res.where_@.len() == 0,
            res.type_@ == "all"@,
            res.what@.len() == 0,
            !res.wo_hour,
            !res.wifi,
            !res.vegetarian,
            !res.vegan,
    {
        Param {
            where_: String::new(),
            type_: String::from_str("all"),
            what: String::new(),
            wo_hour: false,
            wifi: false,
            vegetarian: false,
            vegan: false,
        }
    }
}

} // verus!
