//! The search page: its state while results load, the requests it sends, and
//! how results are labelled.
use vstd::prelude::*;
use vstd::string::StringSliceAdditionalSpecFns;
use vstd::utf8::{encode_utf8, is_char_boundary};
use crate::location::Location;
use crate::node::{transform_nodes, ways_resolve, Node};
use crate::overpass::Overpass;
use crate::param::Param;

verus! {

/// Results shown per page.
pub const PAGE_SIZE: usize = 20;

/// Progress gained at each step of a search, in percent.
pub const STEP: u32 = 25;

/// The state of the search page.
#[derive(Clone, Debug, Default, PartialEq, Eq)]
pub struct State {
    pub errors: Vec<String>,
    pub index: usize,
    pub nodes: Vec<Node>,
    pub progress: u32,
    pub searching: bool,
    pub location: Location,
}

impl State {
    /// One more step of the search done: the page shows a search in
    /// progress, `STEP` percent further.
    pub fn push(&mut self)
        requires
            old(self).progress + STEP <= u32::MAX,
        ensures
            *final(self) == (State {
                searching: true,
                progress: (old(self).progress + STEP) as u32,
                ..*old(self)
            }),
    {
        self.searching = true;
        self.progress = self.progress + STEP;
    }

    /// The search is over: the place found and its results are shown, from
    /// the first page.
    pub fn finish(&mut self, location: Location, nodes: Vec<Node>)
        ensures
            *final(self) == (State {
                location: location,
                searching: false,
                nodes: nodes,
                index: 1,
                ..*old(self)
            }),
    {
        self.location = location;
        self.searching = false;
        self.nodes = nodes;
        self.index = 1;
    }

    /// Show one more page of results.
    pub fn next_page(&mut self)
        requires
            old(self).index < usize::MAX,
        ensures
            *final(self) == (State { index: (old(self).index + 1) as usize, ..*old(self) }),
    {
        self.index = self.index + 1;
    }

    /// How many results are shown: the pages seen so far, at most all of them.
    pub fn limit(&self) -> (res: usize)
        requires
            self.index * PAGE_SIZE <= usize::MAX,
        ensures
            res == if self.nodes@.len() < self.index * PAGE_SIZE {
                self.nodes@.len()
            } else {
                (self.index * PAGE_SIZE) as nat
            },
    {
        let pages = self.index * PAGE_SIZE;
        if self.nodes.len() < pages {
            self.nodes.len()
        } else {
            pages
        }
    }

    /// Whether results remain beyond the pages shown.
    pub fn have_more(&self) -> (res: bool)
        requires
            self.index * PAGE_SIZE <= usize::MAX,
        ensures
            res == (self.index * PAGE_SIZE < self.nodes@.len()),
    {
        self.index * PAGE_SIZE < self.nodes.len()
    }

    /// Whether a finished search for a place found nothing, without error.
    pub fn have_no_result(&self, param: &Param) -> (res: bool)
        ensures
            res == (!self.searching && param.where_@.len() > 0 && self.errors@.len() == 0
                && self.nodes@.len() == 0),
    {
        !self.searching && param.where_.unicode_len() > 0 && self.errors.len() == 0
            && self.nodes.len() == 0
    }
}

/// The Nominatim request that looks `place` up.
pub open spec fn location_url_text(place: Seq<char>) -> Seq<char> {
    "https://nominatim.openstreetmap.org/search.php?q="@ + place + "&format=jsonv2"@
}

/// The URL that asks Nominatim where `place` is.
pub fn location_url(place: &str) -> (res: String)
    ensures
        res@ == location_url_text(place@),
{
    let mut url = String::from_str("https://nominatim.openstreetmap.org/search.php?q=");
    url.append(place);
    url.append("&format=jsonv2");
    url
}

/// The Overpass query for the ways and nodes that `filter` selects, with the
/// nodes of the ways.
pub open spec fn overpass_url_text(filter: Seq<char>) -> Seq<char> {
    "https://overpass-api.de/api/interpreter?data="@ + "[out:json][timeout:25]; (way"@ + filter
        + " >; node"@ + filter + "); out+body;"@
}

/// The URL that asks Overpass for the places matching `param` within the
/// bounding box `bbox`.
pub fn overpass_url(param: &Param, bbox: &[String]) -> (res: String)
    requires
        bbox@.len() >= 4,
    ensures
        res@ == overpass_url_text(param.filter_text(bbox@)),
{
    let filter = param.as_filter(bbox);
    let mut url = String::from_str("https://overpass-api.de/api/interpreter?data=");
    url.append("[out:json][timeout:25]; (way");
    url.append(filter.as_str());
    url.append(" >; node");
    url.append(filter.as_str());
    url.append("); out+body;");
    url
}

/// What the page asks for next while it searches.
#[derive(Clone, Debug, PartialEq, Eq)]
pub enum Request {
    /// Nothing: there is no place to search.
    Nothing,
    /// Where the place is, from Nominatim, at this URL.
    Location(String),
    /// The places around it, from Overpass, at this URL.
    Places(String),
}

/// Starts the search for `param`: nothing without a place; else one step
/// done and the place's location asked for.
pub fn search_start(state: &mut State, param: &Param) -> (res: Request)
    requires
        param.where_@.len() > 0 ==> old(state).progress + STEP <= u32::MAX,
    ensures
        param.where_@.len() == 0 ==> res == Request::Nothing && *final(state) == *old(state),
        param.where_@.len() > 0 ==> {
            &&& res matches Request::Location(url) && url@ == location_url_text(param.where_@)
            &&& *final(state) == (State {
                searching: true,
                progress: (old(state).progress + STEP) as u32,
                ..*old(state)
            })
        },
{
    if param.where_.unicode_len() == 0 {
        return Request::Nothing;
    }
    state.push();
    Request::Location(location_url(param.where_.as_str()))
}

/// The location is known: one step done and the places within its bounding
/// box asked for.
pub fn search_located(state: &mut State, param: &Param, location: &Location) -> (res: Request)
    requires
        old(state).progress + STEP <= u32::MAX,
        location.boundingbox@.len() >= 4,
    ensures
        res matches Request::Places(url) && url@ == overpass_url_text(
            param.filter_text(location.boundingbox@),
        ),
        *final(state) == (State {
            searching: true,
            progress: (old(state).progress + STEP) as u32,
            ..*old(state)
        }),
{
    state.push();
    Request::Places(overpass_url(param, location.boundingbox.as_slice()))
}

/// The places are known: two more steps (the answer read, the results
/// sorted), then the location and the sorted results shown from the first
/// page.
pub fn search_answered(state: &mut State, location: Location, overpass: &Overpass, favorites: &[u64])
    requires
        old(state).progress + 2 * STEP <= u32::MAX,
        ways_resolve(overpass.elements@),
        crate::overpass::answer_keys_unique(overpass.elements@),
    ensures
        final(state).progress == old(state).progress + 2 * STEP,
        !final(state).searching,
        final(state).index == 1,
        final(state).location == location,
        final(state).errors == old(state).errors,
        exists|unsorted: Seq<Node>|
            {
                &&& crate::node::results_of(unsorted, overpass.elements@, favorites@)
                &&& crate::order::stable_sorted(unsorted, final(state).nodes@)
            },
{
    state.push();
    let nodes = transform_nodes(overpass, favorites);
    let ghost unsorted = choose|u: Seq<Node>|
        {
            &&& crate::node::results_of(u, overpass.elements@, favorites@)
            &&& crate::order::stable_sorted(u, nodes@)
            &&& nodes@.to_multiset() == u.to_multiset()
        };
    state.push();
    state.finish(location, nodes);
    assert(crate::order::stable_sorted(unsorted, state.nodes@));
}

/// The longest website shown whole, in bytes.
pub const WEBSITE_WIDTH: usize = 20;

/// `label` is `head` and an ellipsis, where `head` holds the first
/// `WEBSITE_WIDTH` bytes of `website`.
pub open spec fn cut_label(label: Seq<char>, head: Seq<char>, website: Seq<char>) -> bool {
    &&& label == head + "…"@
    &&& encode_utf8(head) == encode_utf8(website).subrange(0, WEBSITE_WIDTH as int)
}

/// The label of a website link: the address itself, or its first
/// `WEBSITE_WIDTH` bytes and an ellipsis when it is longer. A cut inside a
/// character is not possible (`String::truncate` panics there), so such
/// addresses are left out.
pub fn website_label(website: &str) -> (res: String)
    requires
        encode_utf8(website@).len() <= usize::MAX,
        encode_utf8(website@).len() > WEBSITE_WIDTH ==> is_char_boundary(
            encode_utf8(website@),
            WEBSITE_WIDTH as int,
        ),
    ensures
        encode_utf8(website@).len() <= WEBSITE_WIDTH ==> res@ == website@,
        encode_utf8(website@).len() > WEBSITE_WIDTH ==> exists|head: Seq<char>|
            #[trigger] cut_label(res@, head, website@),
{
    if website.len() > WEBSITE_WIDTH {
        let (head, _) = website.split_at(WEBSITE_WIDTH);
        let mut label = String::from_str(head);
        label.append("…");
        assert(head.spec_bytes() == encode_utf8(head@));
        assert(cut_label(label@, head@, website@));
        label
    } else {
        String::from_str(website)
    }
}

} // verus!
