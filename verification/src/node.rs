//! The places shown to the user, built from Overpass elements, with their
//! favorite mark and the order in which they are listed.
use vstd::prelude::*;
use std::cmp::Ordering;
use crate::hours::{opening_hours_valid, parse_opening_hours, Hours, RuleKind, LAST_STATE_SECOND};
use crate::order::{order_of, rank_le, sort_ranked, stable_sorted, Rank, Ranked};
use crate::overpass::{
    answer_keys_unique, clone_tags, element_icon, find_tag, keys_unique, opt_text, or_else,
    state_at_time, state_fits, tag, Element, Overpass,
    Position,
};
use crate::text::{same_text, text_at_most, text_le};

verus! {

/// A place in the results. Coordinates are `f32` bit patterns, as in
/// [`Position`]; `nodes` is the outline of a way, empty for a single node.
#[derive(Clone, Debug, PartialEq, Eq)]
pub struct Node {
    pub amenity: Option<String>,
    pub favorite: bool,
    pub icon: Option<String>,
    pub id: u64,
    pub lat: u32,
    pub lon: u32,
    pub name: String,
    pub nodes: Vec<Position>,
    pub phone: Option<String>,
    pub website: Option<String>,
    pub state: RuleKind,
    pub tags: Vec<(String, String)>,
    pub vegan: bool,
    pub vegetarian: bool,
    pub wifi: bool,
}

/// Whether the tag `key` is present with the value `value`.
pub open spec fn tag_is(tags: Seq<(String, String)>, key: Seq<char>, value: Seq<char>) -> bool {
    tag(tags, key) == Some(value)
}

/// Whether `n` carries what `e` says of the place, the favorites given:
/// every field but the state, the outline and the coordinates.
pub open spec fn described_by(n: Node, e: Element, favorites: Seq<u64>) -> bool {
    &&& n.id == e.id
    &&& n.name@ == e.name_text()
    &&& opt_text(n.amenity) == tag(e.tags@, "amenity"@)
    &&& opt_text(n.phone) == tag(e.tags@, "phone"@)
    &&& opt_text(n.icon) == match tag(e.tags@, "amenity"@) {
        Some(a) => Some(element_icon(a)),
        None => None,
    }
    &&& opt_text(n.website) == or_else(tag(e.tags@, "website"@), tag(e.tags@, "contact:website"@))
    &&& n.vegetarian == tag_is(e.tags@, "diet:vegetarian"@, "yes"@)
    &&& n.vegan == tag_is(e.tags@, "diet:vegan"@, "yes"@)
    &&& n.wifi == tag_is(e.tags@, "internet_access"@, "wlan"@)
    &&& n.favorite == favorites.contains(e.id)
    &&& n.tags@ == e.tags@
}

/// Whether the tag `key` of `tags` has the value `value`.
fn has_tag_value(tags: &Vec<(String, String)>, key: &str, value: &str) -> (res: bool)
    ensures
        res == tag_is(tags@, key@, value@),
{
    match find_tag(tags, key) {
        Some(v) => same_text(v.as_str(), value),
        None => false,
    }
}

/// The elements listed as results: those with a `name` and an `amenity` tag.
pub open spec fn listed(e: Element) -> bool {
    tag(e.tags@, "name"@) is Some && tag(e.tags@, "amenity"@) is Some
}

/// The listed elements of `s`, in their order.
pub open spec fn listed_elements(s: Seq<Element>) -> Seq<Element>
    decreases s.len(),
{
    if s.len() == 0 {
        seq![]
    } else {
        listed_elements(s.drop_last()) + (if listed(s.last()) {
            seq![s.last()]
        } else {
            seq![]
        })
    }
}

/// The first element of `elements` with identifier `id`.
pub open spec fn element_with_id(elements: Seq<Element>, id: u64) -> Option<Element>
    decreases elements.len(),
{
    if elements.len() == 0 {
        None
    } else if elements[0].id == id {
        Some(elements[0])
    } else {
        element_with_id(elements.drop_first(), id)
    }
}

/// The position of an element.
pub open spec fn position_of(e: Element) -> Position {
    Position { lat: e.lat, lng: e.lon }
}

/// The positions of the elements that `refs` names, in order.
pub open spec fn ref_positions(elements: Seq<Element>, refs: Seq<u64>) -> Seq<Position> {
    refs.map_values(|r: u64| position_of(element_with_id(elements, r).unwrap()))
}

/// Every identifier of `refs` names an element.
pub open spec fn refs_resolve(elements: Seq<Element>, refs: Seq<u64>) -> bool {
    forall|j: int| 0 <= j < refs.len() ==> (#[trigger] element_with_id(elements, refs[j])) is Some
}

/// Every listed way goes through at least one node, and every node it goes
/// through is among the elements; without that the outline cannot be drawn.
pub open spec fn ways_resolve(elements: Seq<Element>) -> bool {
    forall|i: int|
        0 <= i < elements.len() && listed(#[trigger] elements[i]) && elements[i].type_@ == "way"@
            ==> elements[i].nodes@.len() > 0 && refs_resolve(elements, elements[i].nodes@)
}

/// Whether `n` is the result that element `e` of `elements` gives: described
/// by `e`, with a state that fits its tags, and for a way the outline through
/// its nodes, located at the first of them.
pub open spec fn node_of(n: Node, e: Element, elements: Seq<Element>, favorites: Seq<u64>) -> bool {
    &&& described_by(n, e, favorites)
    &&& state_fits(e.tags@, n.state)
    &&& exists|time: i64| time <= LAST_STATE_SECOND && n.state == #[trigger] state_at_time(e.tags@, time)
    &&& if e.type_@ == "way"@ {
        &&& n.nodes@ == ref_positions(elements, e.nodes@)
        &&& n.lat == n.nodes@[0].lat
        &&& n.lon == n.nodes@[0].lng
    } else {
        &&& n.nodes@.len() == 0
        &&& n.lat == e.lat
        &&& n.lon == e.lon
    }
}

/// Whether `nodes` are the results of the Overpass answer `elements`, one per
/// listed element and in the same order.
pub open spec fn results_of(nodes: Seq<Node>, elements: Seq<Element>, favorites: Seq<u64>) -> bool {
    &&& nodes.len() == listed_elements(elements).len()
    &&& forall|i: int|
        0 <= i < nodes.len() ==> node_of(
            #[trigger] nodes[i],
            listed_elements(elements)[i],
            elements,
            favorites,
        )
}

/// Every listed element has a name and an amenity.
pub proof fn lemma_listed_elements(s: Seq<Element>)
    ensures
        forall|i: int| 0 <= i < listed_elements(s).len() ==> listed(#[trigger] listed_elements(s)[i]),
        listed_elements(s).len() <= s.len(),
    decreases s.len(),
{
    if s.len() > 0 {
        lemma_listed_elements(s.drop_last());
        let before = listed_elements(s.drop_last());
        assert forall|i: int| 0 <= i < listed_elements(s).len() implies listed(
            #[trigger] listed_elements(s)[i],
        ) by {
            if i < before.len() {
                assert(listed_elements(s)[i] == before[i]);
            }
        }
    }
}

/// Each result shows the name tag of its element and has its amenity: no
/// result falls back on the amenity or on `?` for its name.
pub proof fn lemma_results_named(nodes: Seq<Node>, elements: Seq<Element>, favorites: Seq<u64>)
    requires
        results_of(nodes, elements, favorites),
    ensures
        nodes.len() <= elements.len(),
        forall|i: int|
            0 <= i < nodes.len() ==> Some((#[trigger] nodes[i]).name@) == tag(
                listed_elements(elements)[i].tags@,
                "name"@,
            ) && nodes[i].amenity is Some,
{
    lemma_listed_elements(elements);
    assert forall|i: int| 0 <= i < nodes.len() implies Some((#[trigger] nodes[i]).name@) == tag(
        listed_elements(elements)[i].tags@,
        "name"@,
    ) && nodes[i].amenity is Some by {
        assert(listed(listed_elements(elements)[i]));
        assert(node_of(nodes[i], listed_elements(elements)[i], elements, favorites));
    }
}

/// The index of the first occurrence of `x` in `s` (`s.len()` when none).
pub open spec fn first_index(s: Seq<u64>, x: u64) -> int
    decreases s.len(),
{
    if s.len() == 0 {
        0
    } else if s[0] == x {
        0
    } else {
        1 + first_index(s.drop_first(), x)
    }
}

/// The favorites and the mark of `id` after toggling it: its first
/// occurrence removed and the mark off, or `id` appended and the mark on.
pub open spec fn toggled(favorites: Seq<u64>, id: u64) -> (Seq<u64>, bool) {
    if favorites.contains(id) {
        (favorites.remove(first_index(favorites, id)), false)
    } else {
        (favorites.push(id), true)
    }
}

/// `id` occurs at most once in `favorites`.
pub open spec fn at_most_once(favorites: Seq<u64>, id: u64) -> bool {
    forall|i: int, j: int|
        0 <= i < favorites.len() && 0 <= j < favorites.len() && #[trigger] favorites[i] == id
            && #[trigger] favorites[j] == id ==> i == j
}

proof fn lemma_first_index(s: Seq<u64>, x: u64)
    requires
        s.contains(x),
    ensures
        0 <= first_index(s, x) < s.len(),
        s[first_index(s, x)] == x,
        forall|k: int| 0 <= k < first_index(s, x) ==> s[k] != x,
    decreases s.len(),
{
    if s[0] != x {
        let k = choose|k: int| 0 <= k < s.len() && s[k] == x;
        assert(s.drop_first()[k - 1] == x);
        lemma_first_index(s.drop_first(), x);
        assert forall|k: int| 0 <= k < first_index(s, x) implies s[k] != x by {
            if k > 0 {
                assert(s[k] == s.drop_first()[k - 1]);
            }
        }
    }
}

/// Toggling an identifier that is not among the favorites twice gives back
/// the same favorites, and the mark off.
pub proof fn lemma_toggle_twice(favorites: Seq<u64>, id: u64)
    requires
        !favorites.contains(id),
    ensures
        toggled(toggled(favorites, id).0, id) == (favorites, false),
{
    let once = favorites.push(id);
    assert(once[favorites.len() as int] == id);
    lemma_first_index(once, id);
    let k = first_index(once, id);
    if k < favorites.len() {
        assert(favorites[k] == id);
    }
    assert(once.remove(k) =~= favorites);
}

/// When `id` occurs at most once among the favorites, the mark after a
/// toggle says whether the favorites hold `id`.
pub proof fn lemma_toggle_mark(favorites: Seq<u64>, id: u64)
    requires
        at_most_once(favorites, id),
    ensures
        toggled(favorites, id).1 == toggled(favorites, id).0.contains(id),
        at_most_once(toggled(favorites, id).0, id),
{
    if favorites.contains(id) {
        lemma_first_index(favorites, id);
        let k = first_index(favorites, id);
        let after = favorites.remove(k);
        assert forall|i: int| 0 <= i < after.len() implies after[i] != id by {
            if i < k {
                assert(after[i] == favorites[i]);
            } else {
                assert(after[i] == favorites[i + 1]);
            }
        }
    } else {
        let after = favorites.push(id);
        assert(after[favorites.len() as int] == id);
        assert forall|i: int, j: int|
            0 <= i < after.len() && 0 <= j < after.len() && #[trigger] after[i] == id
                && #[trigger] after[j] == id implies i == j by {
            if i < favorites.len() {
                assert(favorites[i] == id);
            }
            if j < favorites.len() {
                assert(favorites[j] == id);
            }
        }
    }
}

/// The first element of `elements` with identifier `id`.
fn find_element(elements: &Vec<Element>, id: u64) -> (res: Option<usize>)
    ensures
        match res {
            Some(k) => k < elements@.len() && element_with_id(elements@, id) == Some(
                elements@[k as int],
            ),
            None => element_with_id(elements@, id) is None,
        },
{
    let mut i: usize = 0;
    assert(elements@.skip(0) =~= elements@);
    while i < elements.len()
        invariant
            i <= elements@.len(),
            element_with_id(elements@, id) == element_with_id(elements@.skip(i as int), id),
        decreases elements.len() - i,
    {
        if elements[i].id == id {
            return Some(i);
        }
        assert(elements@.skip(i as int).drop_first() =~= elements@.skip(i + 1));
        i = i + 1;
    }
    None
}

/// The positions of the elements that `refs` names.
fn replace_ref_by_node(elements: &Vec<Element>, refs: &Vec<u64>) -> (res: Vec<Position>)
    requires
        refs_resolve(elements@, refs@),
    ensures
        res@ == ref_positions(elements@, refs@),
{
    let mut nodes: Vec<Position> = Vec::new();
    let mut j: usize = 0;
    while j < refs.len()
        invariant
            j <= refs@.len(),
            refs_resolve(elements@, refs@),
            nodes@ == ref_positions(elements@, refs@).take(j as int),
        decreases refs.len() - j,
    {
        let k = match find_element(elements, refs[j]) {
            Some(k) => k,
            None => {
                assert(element_with_id(elements@, refs@[j as int]) is Some);
                return nodes;
            },
        };
        nodes.push(elements[k].position());
        assert(ref_positions(elements@, refs@).take(j + 1) =~= nodes@);
        j = j + 1;
    }
    assert(ref_positions(elements@, refs@).take(refs@.len() as int) =~= ref_positions(
        elements@,
        refs@,
    ));
    nodes
}

impl Node {
    /// The marker color of the state: green when open, red when closed,
    /// black when unknown.
    pub fn color(&self) -> (res: &'static str)
        ensures
            res@ == match self.state {
                RuleKind::Open => "green"@,
                RuleKind::Closed => "red"@,
                RuleKind::Unknown => "black"@,
            },
    {
        match self.state {
            RuleKind::Open => "green",
            RuleKind::Closed => "red",
            RuleKind::Unknown => "black",
        }
    }

    /// The place's position.
    pub fn position(&self) -> (res: Position)
        ensures
            res.lat == self.lat,
            res.lng == self.lon,
    {
        Position { lat: self.lat, lng: self.lon }
    }

    /// The parsed `opening_hours` tag, when there is one and it parses.
    pub fn opening_hours(&self) -> (res: Option<Hours>)
        ensures
            res is Some <==> match tag(self.tags@, "opening_hours"@) {
                Some(text) => opening_hours_valid(text),
                None => false,
            },
            res matches Some(h) ==> tag(self.tags@, "opening_hours"@) == Some(h@),
    {
        match find_tag(&self.tags, "opening_hours") {
            Some(text) => parse_opening_hours(text.as_str()),
            None => None,
        }
    }

    /// Toggles the favorite mark. `favorites` are the identifiers kept in the
    /// browser's storage, which the caller reads before and writes back after:
    /// the first occurrence of the id is removed, or the id is appended.
    pub fn favorite(&mut self, favorites: &mut Vec<u64>)
        ensures
            (final(favorites)@, final(self).favorite) == toggled(old(favorites)@, old(self).id),
            *final(self) == (Node { favorite: final(self).favorite, ..*old(self) }),
    {
        let mut i: usize = 0;
        let ghost fav = favorites@;
        assert(fav.skip(0) =~= fav);
        while i < favorites.len() && favorites[i] != self.id
            invariant
                fav == favorites@,
                i <= fav.len(),
                forall|k: int| 0 <= k < i ==> fav[k] != self.id,
                first_index(fav, self.id) == i + first_index(fav.skip(i as int), self.id),
            decreases favorites.len() - i,
        {
            assert(fav.skip(i as int).drop_first() =~= fav.skip(i + 1));
            i = i + 1;
        }
        if i < favorites.len() {
            assert(fav.contains(self.id));
            assert(fav[i as int] == self.id);
            assert(fav.skip(i as int)[0] == self.id);
            self.favorite = false;
            favorites.remove(i);
        } else {
            assert forall|k: int| 0 <= k < fav.len() implies fav[k] != self.id by {}
            self.favorite = true;
            favorites.push(self.id);
        }
    }

    /// The order of the results: favorites first, then by name (by code
    /// point, as `String` compares).
    pub fn cmp(&self, other: &Self) -> (res: Ordering)
        ensures
            res == order_of(self.rank(), other.rank()),
    {
        if self.favorite && !other.favorite {
            Ordering::Less
        } else if !self.favorite && other.favorite {
            Ordering::Greater
        } else if same_text(self.name.as_str(), other.name.as_str()) {
            Ordering::Equal
        } else if text_at_most(self.name.as_str(), other.name.as_str()) {
            Ordering::Less
        } else {
            Ordering::Greater
        }
    }

    /// The result for element `e` with the state `state`.
    pub fn with_state(e: &Element, favorites: &[u64], state: RuleKind) -> (res: Node)
        requires
            keys_unique(e.tags@),
        ensures
            described_by(res, *e, favorites@),
            res.state == state,
            res.nodes@.len() == 0,
            res.lat == e.lat,
            res.lon == e.lon,
    {
        Node {
            id: e.id,
            nodes: Vec::new(),
            lat: e.lat,
            lon: e.lon,
            name: e.name(),
            amenity: find_tag(&e.tags, "amenity"),
            phone: find_tag(&e.tags, "phone"),
            state,
            icon: e.icon(),
            website: e.website(),
            vegetarian: has_tag_value(&e.tags, "diet:vegetarian", "yes"),
            vegan: has_tag_value(&e.tags, "diet:vegan", "yes"),
            wifi: has_tag_value(&e.tags, "internet_access", "wlan"),
            favorite: e.is_favorite(favorites),
            tags: clone_tags(&e.tags),
        }
    }

    /// The result for element `e`, with its state now.
    pub fn from(e: &Element, favorites: &[u64]) -> (res: Node)
        requires
            keys_unique(e.tags@),
        ensures
            described_by(res, *e, favorites@),
            state_fits(e.tags@, res.state),
            exists|time: i64| time <= LAST_STATE_SECOND && res.state == #[trigger] state_at_time(e.tags@, time),
            res.nodes@.len() == 0,
            res.lat == e.lat,
            res.lon == e.lon,
    {
        Node::with_state(e, favorites, e.state())
    }
}

impl Ranked for Node {
    /// Favorites come first, then names in lexicographic order.
    open spec fn rank(&self) -> Rank {
        (self.favorite, self.name@)
    }

    fn at_most(&self, other: &Self) -> (res: bool) {
        (self.favorite && !other.favorite) || (self.favorite == other.favorite && text_at_most(
            self.name.as_str(),
            other.name.as_str(),
        ))
    }
}

/// Whether every identifier of `refs` names an element.
fn refs_found(elements: &Vec<Element>, refs: &Vec<u64>) -> (res: bool)
    ensures
        res == refs_resolve(elements@, refs@),
{
    let mut j: usize = 0;
    while j < refs.len()
        invariant
            j <= refs@.len(),
            forall|k: int| 0 <= k < j ==> (#[trigger] element_with_id(elements@, refs@[k])) is Some,
        decreases refs.len() - j,
    {
        if find_element(elements, refs[j]).is_none() {
            assert(element_with_id(elements@, refs@[j as int]) is None);
            return false;
        }
        j = j + 1;
    }
    true
}

/// Whether the answer can be turned into results: every listed way goes
/// through at least one node, and all its nodes are in the answer.
pub fn ways_resolvable(overpass: &Overpass) -> (res: bool)
    ensures
        res == ways_resolve(overpass.elements@),
{
    let elements = &overpass.elements;
    let mut i: usize = 0;
    while i < elements.len()
        invariant
            elements@ == overpass.elements@,
            i <= elements@.len(),
            forall|k: int|
                0 <= k < i && listed(#[trigger] elements@[k]) && elements@[k].type_@ == "way"@
                    ==> elements@[k].nodes@.len() > 0 && refs_resolve(elements@, elements@[k].nodes@),
        decreases elements.len() - i,
    {
        let e = &elements[i];
        let is_listed = find_tag(&e.tags, "name").is_some() && find_tag(&e.tags, "amenity").is_some();
        if is_listed && same_text(e.type_.as_str(), "way") {
            if e.nodes.len() == 0 || !refs_found(elements, &e.nodes) {
                assert(listed(elements@[i as int]));
                assert(!(elements@[i as int].nodes@.len() > 0 && refs_resolve(
                    elements@,
                    elements@[i as int].nodes@,
                )));
                return false;
            }
        }
        i = i + 1;
    }
    true
}

/// The results of an Overpass answer, in the answer's order: one per element
/// with a name and an amenity; a way is drawn through its nodes and placed at
/// the first of them.
pub fn nodes_from(overpass: &Overpass, favorites: &[u64]) -> (res: Vec<Node>)
    requires
        ways_resolve(overpass.elements@),
        answer_keys_unique(overpass.elements@),
    ensures
        results_of(res@, overpass.elements@, favorites@),
{
    let elements = &overpass.elements;
    let mut out: Vec<Node> = Vec::new();
    let mut j: usize = 0;
    while j < elements.len()
        invariant
            j <= elements@.len(),
            ways_resolve(elements@),
            answer_keys_unique(elements@),
            out@.len() == listed_elements(elements@.take(j as int)).len(),
            forall|i: int|
                0 <= i < out@.len() ==> node_of(
                    #[trigger] out@[i],
                    listed_elements(elements@.take(j as int))[i],
                    elements@,
                    favorites@,
                ),
        decreases elements.len() - j,
    {
        let e = &elements[j];
        let ghost before = listed_elements(elements@.take(j as int));
        assert(elements@.take(j + 1).drop_last() =~= elements@.take(j as int));
        let has_name = find_tag(&e.tags, "name").is_some();
        let has_amenity = find_tag(&e.tags, "amenity").is_some();
        if has_name && has_amenity {
            let mut node = Node::from(e, favorites);
            if same_text(e.type_.as_str(), "way") {
                assert(listed(elements@[j as int]));
                node.nodes = replace_ref_by_node(elements, &e.nodes);
                node.lat = node.nodes[0].lat;
                node.lon = node.nodes[0].lng;
            }
            out.push(node);
            assert(listed_elements(elements@.take(j + 1)) =~= before.push(*e));
        } else {
            assert(listed_elements(elements@.take(j + 1)) =~= before);
        }
        j = j + 1;
    }
    assert(elements@.take(elements@.len() as int) =~= elements@);
    out
}

/// The results of an Overpass answer sorted for display: favorites first,
/// then by name, results that tie keeping the answer's order.
pub fn transform_nodes(overpass: &Overpass, favorites: &[u64]) -> (res: Vec<Node>)
    requires
        ways_resolve(overpass.elements@),
        answer_keys_unique(overpass.elements@),
    ensures
        exists|unsorted: Seq<Node>|
            {
                &&& results_of(unsorted, overpass.elements@, favorites@)
                &&& stable_sorted(unsorted, res@)
                &&& res@.to_multiset() == unsorted.to_multiset()
            },
{
    let nodes = nodes_from(overpass, favorites);
    let ghost unsorted = nodes@;
    let res = sort_ranked(nodes);
    assert(results_of(unsorted, overpass.elements@, favorites@));
    res
}

} // verus!

verus! {

/// How `cmp` orders two places: a favorite comes before a place that is not
/// one; with the same mark, the whole names decide in lexicographic order,
/// `Equal` only for equal names and `Less` exactly when the first name comes
/// before the second (so "Bar" comes before "Bistrot").
pub proof fn lemma_cmp_by_name(a: Node, b: Node)
    ensures
        a.favorite && !b.favorite ==> order_of(a.rank(), b.rank()) == Ordering::Less,
        !a.favorite && b.favorite ==> order_of(a.rank(), b.rank()) == Ordering::Greater,
        a.favorite == b.favorite ==> (order_of(a.rank(), b.rank()) == Ordering::Equal <==> a.name@
            == b.name@),
        a.favorite == b.favorite ==> (order_of(a.rank(), b.rank()) == Ordering::Less <==> (a.name@
            != b.name@ && text_le(a.name@, b.name@))),
{
}

/// Sorted results list the favorites first, and within each group the
/// names in lexicographic order.
pub proof fn lemma_results_in_name_order(unsorted: Seq<Node>, res: Seq<Node>)
    requires
        stable_sorted(unsorted, res),
    ensures
        forall|i: int, j: int|
            0 <= i < j < res.len() ==> (#[trigger] res[i].favorite || !(#[trigger] res[j]).favorite),
        forall|i: int, j: int|
            0 <= i < j < res.len() && (#[trigger] res[i]).favorite == (#[trigger] res[j]).favorite
                ==> text_le(res[i].name@, res[j].name@),
{
    assert forall|i: int, j: int| 0 <= i < j < res.len() implies (#[trigger] res[i].favorite || !(
    #[trigger] res[j]).favorite) by {
        assert(rank_le(res[i].rank(), res[j].rank()));
    }
    assert forall|i: int, j: int|
        0 <= i < j < res.len() && (#[trigger] res[i]).favorite == (
        #[trigger] res[j]).favorite implies text_le(res[i].name@, res[j].name@) by {
        assert(rank_le(res[i].rank(), res[j].rank()));
    }
}

} // verus!
