//! Search parameters: what the user looks for, where, and with which
//! options; the Overpass filter and the page URL they give.
use vstd::prelude::*;
use leptos_router::params::ParamsMap;
use crate::route::{has_value, params_values, value_or_default, value_or_empty};
use crate::text::{joined, same_text, texts, trim, trimmed};

verus! {

/// The parameters of a search: the place (`where_`), the amenity type
/// (`type_`), the name, and the options.
#[derive(Clone, Debug, PartialEq, Eq)]
pub struct Param {
    pub open: bool,
    pub type_: String,
    pub where_: String,
    pub vegan: bool,
    pub vegetarian: bool,
    pub what: String,
    pub wifi: bool,
    pub wo_hour: bool,
}

/// `text` when `cond` holds, else nothing.
pub open spec fn text_if(cond: bool, text: Seq<char>) -> Seq<char> {
    if cond {
        text
    } else {
        Seq::empty()
    }
}

/// `[text]` when `cond` holds, else the empty list.
pub open spec fn list_if(cond: bool, text: Seq<char>) -> Seq<Seq<char>> {
    if cond {
        seq![text]
    } else {
        Seq::empty()
    }
}

/// Appends `text` to `s` when `cond` holds.
pub(crate) fn push_when(s: &mut String, cond: bool, text: &str)
    ensures
        final(s)@ == old(s)@ + text_if(cond, text@),
{
    if cond {
        s.append(text);
    } else {
        assert(old(s)@ + text_if(cond, text@) =~= old(s)@);
    }
}

impl Param {
    /// The tag filter: one clause per option, then the bounding box in the
    /// order south, west, north, east (`bbox[0], bbox[2], bbox[1], bbox[3]`).
    pub open spec fn filter_text(&self, bbox: Seq<String>) -> Seq<char> {
        text_if(!self.wo_hour, "[\"opening_hours\"]"@)
        + text_if(self.wifi, "[\"internet_access\"=\"wlan\"]"@)
        + text_if(self.vegetarian, "[\"diet:vegetarian\"=\"yes\"]"@)
        + text_if(self.vegan, "[\"diet:vegan\"=\"yes\"]"@)
        + text_if(self.type_@ != "all"@, "[\"amenity\"=\""@ + trimmed(self.type_@) + "\"]"@)
        + text_if(self.what@.len() > 0, "[\"name\"~\".*"@ + trimmed(self.what@) + ".*\", i]"@)
        + "("@ + bbox[0]@ + ","@ + bbox[2]@ + ","@ + bbox[1]@ + ","@ + bbox[3]@ + ");"@
    }

    /// The names of the options that are on, in URL order.
    pub open spec fn flag_names(&self) -> Seq<Seq<char>> {
        list_if(self.open, "open"@)
        + list_if(self.wo_hour, "wo_hour"@)
        + list_if(self.wifi, "wifi"@)
        + list_if(self.vegetarian, "vegetarian"@)
        + list_if(self.vegan, "vegan"@)
    }

    /// The page URL: `/where/type/what?flags`, with `all` for an empty type.
    pub open spec fn url_text(&self) -> Seq<char> {
        "/"@
        + text_if(self.where_@.len() > 0, self.where_@ + "/"@)
        + (if self.type_@.len() > 0 { self.type_@ + "/"@ } else { "all/"@ })
        + self.what@
        + "?"@
        + joined(self.flag_names(), "&"@)
    }

    /// The parameters that the route (`where`, `type`, `what`) and the query
    /// (the options present) give.
    pub fn from(params: &ParamsMap, query: &ParamsMap) -> (res: Self)
        ensures
            res.open == params_values(*query).dom().contains("open"@),
            res.type_@ == value_or_empty(*params, "type"@),
            res.where_@ == value_or_empty(*params, "where"@),
            res.vegan == params_values(*query).dom().contains("vegan"@),
            res.vegetarian == params_values(*query).dom().contains("vegetarian"@),
            res.what@ == value_or_empty(*params, "what"@),
            res.wifi == params_values(*query).dom().contains("wifi"@),
            res.wo_hour == params_values(*query).dom().contains("wo_hour"@),
    {
        Param {
            open: has_value(query, "open"),
            type_: value_or_default(params, "type"),
            where_: value_or_default(params, "where"),
            vegan: has_value(query, "vegan"),
            vegetarian: has_value(query, "vegetarian"),
            what: value_or_default(params, "what"),
            wifi: has_value(query, "wifi"),
            wo_hour: has_value(query, "wo_hour"),
        }
    }

    /// The Overpass tag filter for these parameters within the bounding box
    /// `bbox` (south, north, west, east, as Nominatim lists them).
    pub fn as_filter(&self, bbox: &[String]) -> (res: String)
        requires
            bbox@.len() >= 4,
        ensures
            res@ == self.filter_text(bbox@),
    {
        let mut filter = String::new();
        push_when(&mut filter, !self.wo_hour, "[\"opening_hours\"]");
        push_when(&mut filter, self.wifi, "[\"internet_access\"=\"wlan\"]");
        push_when(&mut filter, self.vegetarian, "[\"diet:vegetarian\"=\"yes\"]");
        push_when(&mut filter, self.vegan, "[\"diet:vegan\"=\"yes\"]");
        let mut amenity = String::from_str("[\"amenity\"=\"");
        amenity.append(trim(self.type_.as_str()));
        amenity.append("\"]");
        push_when(&mut filter, !same_text(self.type_.as_str(), "all"), amenity.as_str());
        let mut name = String::from_str("[\"name\"~\".*");
        name.append(trim(self.what.as_str()));
        name.append(".*\", i]");
        push_when(&mut filter, self.what.unicode_len() > 0, name.as_str());
        filter.append("(");
        filter.append(bbox[0].as_str());
        filter.append(",");
        filter.append(bbox[2].as_str());
        filter.append(",");
        filter.append(bbox[1].as_str());
        filter.append(",");
        filter.append(bbox[3].as_str());
        filter.append(");");
        filter
    }

    /// The URL of the page that shows the results of these parameters.
    pub fn as_url(&self) -> (res: String)
        ensures
            res@ == self.url_text(),
    {
        let mut url = String::from_str("/");
        let mut place = self.where_.clone();
        place.append("/");
        push_when(&mut url, self.where_.unicode_len() > 0, place.as_str());
        if self.type_.unicode_len() > 0 {
            url.append(self.type_.as_str());
            url.append("/");
        } else {
            url.append("all/");
        }
        let ghost before_what = url@;
        if self.what.unicode_len() > 0 {
            url.append(self.what.as_str());
        } else {
            assert(before_what + self.what@ =~= before_what);
        }
        let mut params: Vec<&str> = Vec::new();
        if self.open {
            params.push("open");
        }
        if self.wo_hour {
            params.push("wo_hour");
        }
        if self.wifi {
            params.push("wifi");
        }
        if self.vegetarian {
            params.push("vegetarian");
        }
        if self.vegan {
            params.push("vegan");
        }
        assert(texts(params@) =~= self.flag_names());
        url.append("?");
        let flags = crate::text::join(&params, "&");
        url.append(flags.as_str());
        url
    }
}

impl Default for Param {
    /// No place, every type (`all`), no name, every option off.
    fn default() -> (res: Self)
        ensures
            !res.open,
            res.type_@ == "all"@,
            res.where_@.len() == 0,
            !res.vegan,
            !res.vegetarian,
            res.what@.len() == 0,
            !res.wifi,
            !res.wo_hour,
    {
        Param {
            open: false,
            type_: String::from_str("all"),
            where_: String::new(),
            vegan: false,
            vegetarian: false,
            what: String::new(),
            wifi: false,
            wo_hour: false,
        }
    }
}

} // verus!

verus! {

/// Whether `part` occurs in `s`.
pub open spec fn has_part(s: Seq<char>, part: Seq<char>) -> bool {
    exists|i: int| 0 <= i && i + part.len() <= s.len() && #[trigger] s.subrange(i, i + part.len()) == part
}

/// The bounding-box clause that ends a filter: south, west, north, east.
pub open spec fn bbox_clause(bbox: Seq<String>) -> Seq<char> {
    "("@ + bbox[0]@ + ","@ + bbox[2]@ + ","@ + bbox[1]@ + ","@ + bbox[3]@ + ");"@
}

/// The clause that keeps the places whose name holds `name`, in any case.
pub open spec fn name_clause(name: Seq<char>) -> Seq<char> {
    "[\"name\"~\".*"@ + name + ".*\", i]"@
}

/// A word of a URL query: not empty, without `?` or `&`.
pub open spec fn query_word(w: Seq<char>) -> bool {
    w.len() > 0 && forall|k: int| 0 <= k < w.len() ==> w[k] != '?' && w[k] != '&'
}

/// `url` is `path`, then `?`, then `words` separated by `&`, each a query
/// word (so this `?` is the last one of `url`, and the words are the query).
pub open spec fn url_query(url: Seq<char>, path: Seq<char>, words: Seq<Seq<char>>) -> bool {
    &&& url == path + "?"@ + joined(words, "&"@)
    &&& forall|k: int| 0 <= k < words.len() ==> query_word(#[trigger] words[k])
}

proof fn lemma_part_at(s: Seq<char>, before: Seq<char>, part: Seq<char>, after: Seq<char>)
    requires
        s == before + part + after,
    ensures
        has_part(s, part),
{
    let i = before.len() as int;
    assert(s.subrange(i, i + part.len()) =~= part);
}

proof fn lemma_contains_add(a: Seq<Seq<char>>, b: Seq<Seq<char>>, x: Seq<char>)
    ensures
        (a + b).contains(x) <==> a.contains(x) || b.contains(x),
{
    if (a + b).contains(x) {
        let i = choose|i: int| 0 <= i < (a + b).len() && (a + b)[i] == x;
        if i < a.len() {
            assert(a[i] == x);
        } else {
            assert(b[i - a.len()] == x);
        }
    }
    if a.contains(x) {
        let i = choose|i: int| 0 <= i < a.len() && a[i] == x;
        assert((a + b)[i] == x);
    }
    if b.contains(x) {
        let i = choose|i: int| 0 <= i < b.len() && b[i] == x;
        assert((a + b)[i + a.len()] == x);
    }
}

proof fn lemma_contains_list_if(cond: bool, w: Seq<char>, x: Seq<char>)
    ensures
        list_if(cond, w).contains(x) <==> cond && w == x,
{
    if cond {
        assert(list_if(cond, w)[0] == w);
    }
}

proof fn lemma_words_add(a: Seq<Seq<char>>, b: Seq<Seq<char>>)
    requires
        forall|k: int| 0 <= k < a.len() ==> query_word(#[trigger] a[k]),
        forall|k: int| 0 <= k < b.len() ==> query_word(#[trigger] b[k]),
    ensures
        forall|k: int| 0 <= k < (a + b).len() ==> query_word(#[trigger] (a + b)[k]),
{
    assert forall|k: int| 0 <= k < (a + b).len() implies query_word(#[trigger] (a + b)[k]) by {
        if k < a.len() {
            assert((a + b)[k] == a[k]);
        } else {
            assert((a + b)[k] == b[k - a.len()]);
        }
    }
}

proof fn lemma_word_list_if(cond: bool, w: Seq<char>)
    requires
        query_word(w),
    ensures
        forall|k: int| 0 <= k < list_if(cond, w).len() ==> query_word(#[trigger] list_if(cond, w)[k]),
{
}

/// The page URL names exactly the options that are on: its query (after
/// the last `?`) is a list of `&`-separated words, and each option's name
/// is among them if and only if the option is on.
pub proof fn lemma_url_names_options(p: Param)
    ensures
        exists|path: Seq<char>, words: Seq<Seq<char>>|
            {
                &&& #[trigger] url_query(p.url_text(), path, words)
                &&& words.contains("open"@) == p.open
                &&& words.contains("wo_hour"@) == p.wo_hour
                &&& words.contains("wifi"@) == p.wifi
                &&& words.contains("vegetarian"@) == p.vegetarian
                &&& words.contains("vegan"@) == p.vegan
            },
{
    reveal_strlit("open");
    reveal_strlit("wo_hour");
    reveal_strlit("wifi");
    reveal_strlit("vegetarian");
    reveal_strlit("vegan");
    let path = "/"@ + text_if(p.where_@.len() > 0, p.where_@ + "/"@) + (if p.type_@.len() > 0 {
        p.type_@ + "/"@
    } else {
        "all/"@
    }) + p.what@;
    let a = list_if(p.open, "open"@);
    let b = list_if(p.wo_hour, "wo_hour"@);
    let c = list_if(p.wifi, "wifi"@);
    let d = list_if(p.vegetarian, "vegetarian"@);
    let e = list_if(p.vegan, "vegan"@);
    let words = p.flag_names();
    assert(words == a + b + c + d + e);
    assert(query_word("open"@));
    assert(query_word("wo_hour"@));
    assert(query_word("wifi"@));
    assert(query_word("vegetarian"@));
    assert(query_word("vegan"@));
    lemma_word_list_if(p.open, "open"@);
    lemma_word_list_if(p.wo_hour, "wo_hour"@);
    lemma_word_list_if(p.wifi, "wifi"@);
    lemma_word_list_if(p.vegetarian, "vegetarian"@);
    lemma_word_list_if(p.vegan, "vegan"@);
    lemma_words_add(a, b);
    lemma_words_add(a + b, c);
    lemma_words_add(a + b + c, d);
    lemma_words_add(a + b + c + d, e);
    assert(p.url_text() == path + "?"@ + joined(words, "&"@));
    assert(url_query(p.url_text(), path, words));
    assert("open"@.len() == 4 && "wifi"@.len() == 4 && "open"@[0] == 'o' && "wifi"@[0] == 'w');
    assert("wo_hour"@.len() == 7 && "vegetarian"@.len() == 10 && "vegan"@.len() == 5);
    let names = seq!["open"@, "wo_hour"@, "wifi"@, "vegetarian"@, "vegan"@];
    let flags = seq![p.open, p.wo_hour, p.wifi, p.vegetarian, p.vegan];
    assert forall|n: int| 0 <= n < 5 implies words.contains(#[trigger] names[n]) == flags[n] by {
        let x = names[n];
        lemma_contains_add(a + b + c + d, e, x);
        lemma_contains_add(a + b + c, d, x);
        lemma_contains_add(a + b, c, x);
        lemma_contains_add(a, b, x);
        lemma_contains_list_if(p.open, "open"@, x);
        lemma_contains_list_if(p.wo_hour, "wo_hour"@, x);
        lemma_contains_list_if(p.wifi, "wifi"@, x);
        lemma_contains_list_if(p.vegetarian, "vegetarian"@, x);
        lemma_contains_list_if(p.vegan, "vegan"@, x);
        assert(names[0] != names[2]);
    }
    assert(words.contains(names[0]) == flags[0]);
    assert(words.contains(names[1]) == flags[1]);
    assert(words.contains(names[2]) == flags[2]);
    assert(words.contains(names[3]) == flags[3]);
    assert(words.contains(names[4]) == flags[4]);
}

/// A name in the search always reaches the filter, whatever the type (`all`
/// included): the filter holds the clause for the trimmed name, just before
/// the bounding box, and the name clause depends on the name alone.
pub proof fn lemma_filter_keeps_name(p: Param, bbox: Seq<String>)
    requires
        bbox.len() >= 4,
        p.what@.len() > 0,
    ensures
        exists|before: Seq<char>| #[trigger] (before + name_clause(trimmed(p.what@))) + bbox_clause(bbox) == p.filter_text(bbox),
        has_part(p.filter_text(bbox), name_clause(trimmed(p.what@))),
{
    let before = text_if(!p.wo_hour, "[\"opening_hours\"]"@)
        + text_if(p.wifi, "[\"internet_access\"=\"wlan\"]"@)
        + text_if(p.vegetarian, "[\"diet:vegetarian\"=\"yes\"]"@)
        + text_if(p.vegan, "[\"diet:vegan\"=\"yes\"]"@)
        + text_if(p.type_@ != "all"@, "[\"amenity\"=\""@ + trimmed(p.type_@) + "\"]"@);
    assert((before + name_clause(trimmed(p.what@))) + bbox_clause(bbox) =~= p.filter_text(bbox));
    lemma_part_at(p.filter_text(bbox), before, name_clause(trimmed(p.what@)), bbox_clause(bbox));
}

/// Every option that is on reaches the filter with its clause, the type
/// with its clause unless it is `all`, and the filter ends with the bounding
/// box (south, west, north, east).
pub proof fn lemma_filter_keeps_options(p: Param, bbox: Seq<String>)
    requires
        bbox.len() >= 4,
    ensures
        !p.wo_hour ==> p.filter_text(bbox).take(17) == "[\"opening_hours\"]"@,
        p.wifi ==> has_part(p.filter_text(bbox), "[\"internet_access\"=\"wlan\"]"@),
        p.vegetarian ==> has_part(p.filter_text(bbox), "[\"diet:vegetarian\"=\"yes\"]"@),
        p.vegan ==> has_part(p.filter_text(bbox), "[\"diet:vegan\"=\"yes\"]"@),
        p.type_@ != "all"@ ==> has_part(p.filter_text(bbox), "[\"amenity\"=\""@ + trimmed(p.type_@) + "\"]"@),
        p.filter_text(bbox).skip(p.filter_text(bbox).len() - bbox_clause(bbox).len()) == bbox_clause(bbox),
{
    let o = text_if(!p.wo_hour, "[\"opening_hours\"]"@);
    let w = text_if(p.wifi, "[\"internet_access\"=\"wlan\"]"@);
    let g = text_if(p.vegetarian, "[\"diet:vegetarian\"=\"yes\"]"@);
    let v = text_if(p.vegan, "[\"diet:vegan\"=\"yes\"]"@);
    let t = text_if(p.type_@ != "all"@, "[\"amenity\"=\""@ + trimmed(p.type_@) + "\"]"@);
    let n = text_if(p.what@.len() > 0, name_clause(trimmed(p.what@)));
    let b = bbox_clause(bbox);
    let f = p.filter_text(bbox);
    assert(f =~= o + w + g + v + t + n + b);
    lemma_parts_of(o, w, g, v, t, n, b);
    if !p.wo_hour {
        reveal_strlit("[\"opening_hours\"]");
    }
}

/// Where each of seven consecutive pieces of a text lies.
proof fn lemma_parts_of(
    o: Seq<char>,
    w: Seq<char>,
    g: Seq<char>,
    v: Seq<char>,
    t: Seq<char>,
    n: Seq<char>,
    b: Seq<char>,
)
    ensures
        ({
            let f = o + w + g + v + t + n + b;
            &&& f.take(o.len() as int) == o
            &&& has_part(f, w)
            &&& has_part(f, g)
            &&& has_part(f, v)
            &&& has_part(f, t)
            &&& f.skip(f.len() - b.len()) == b
        }),
{
    let f = o + w + g + v + t + n + b;
    assert(f.take(o.len() as int) =~= o);
    assert(f =~= o + w + (g + v + t + n + b));
    lemma_part_at(f, o, w, g + v + t + n + b);
    assert(f =~= (o + w) + g + (v + t + n + b));
    lemma_part_at(f, o + w, g, v + t + n + b);
    assert(f =~= (o + w + g) + v + (t + n + b));
    lemma_part_at(f, o + w + g, v, t + n + b);
    assert(f =~= (o + w + g + v) + t + (n + b));
    lemma_part_at(f, o + w + g + v, t, n + b);
    assert(f.skip(f.len() - b.len()) =~= b);
}

} // verus!
