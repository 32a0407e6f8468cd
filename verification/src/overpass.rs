//! The answer of the Overpass API: elements (nodes and ways) with their
//! coordinates, the nodes a way goes through, and their tags.
use vstd::prelude::*;
use crate::hours::{
    local_now, opening_hours_valid, opening_state, parse_opening_hours, state_at, Moment, RuleKind,
    LAST_STATE_SECOND,
};
use crate::text::{replace_char, replaced, same_text};

verus! {

/// A position on the map. Each coordinate is the bit pattern of the `f32`
/// that the Overpass answer holds (`f32::to_bits`); the library only carries
/// coordinates, it never computes with them.
#[derive(Clone, Copy, Debug, PartialEq, Eq, Structural)]
pub struct Position {
    pub lat: u32,
    pub lng: u32,
}

/// An OpenStreetMap element. Coordinates are `f32` bit patterns, as in
/// [`Position`]; `type_` is the element type (`node`, `way`, ...); `tags`
/// lists each key once.
#[derive(Clone, Debug, PartialEq, Eq)]
pub struct Element {
    pub id: u64,
    pub type_: String,
    pub lat: u32,
    pub lon: u32,
    pub nodes: Vec<u64>,
    pub tags: Vec<(String, String)>,
}

/// The elements of an Overpass answer.
#[derive(Clone, Debug, Default, PartialEq, Eq)]
pub struct Overpass {
    pub elements: Vec<Element>,
}

impl Overpass {
    /// Whether every element lists each of its tag keys once.
    pub fn keys_unique(&self) -> (res: bool)
        ensures
            res == answer_keys_unique(self.elements@),
    {
        let mut i: usize = 0;
        while i < self.elements.len()
            invariant
                i <= self.elements@.len(),
                forall|k: int| 0 <= k < i ==> keys_unique(#[trigger] self.elements@[k].tags@),
            decreases self.elements.len() - i,
        {
            if !tags_unique(&self.elements[i].tags) {
                return false;
            }
            i = i + 1;
        }
        true
    }
}

/// The value of the first tag named `key`.
pub open spec fn tag(tags: Seq<(String, String)>, key: Seq<char>) -> Option<Seq<char>>
    decreases tags.len(),
{
    if tags.len() == 0 {
        None
    } else if tags[0].0@ == key {
        Some(tags[0].1@)
    } else {
        tag(tags.drop_first(), key)
    }
}

/// Each key occurs at most once among `tags`, as in a map.
pub open spec fn keys_unique(tags: Seq<(String, String)>) -> bool {
    forall|i: int, j: int| 0 <= i < j < tags.len() ==> #[trigger] tags[i].0@ != #[trigger] tags[j].0@
}

/// Each element of an answer lists each of its tag keys once.
pub open spec fn answer_keys_unique(elements: Seq<Element>) -> bool {
    forall|i: int| 0 <= i < elements.len() ==> keys_unique(#[trigger] elements[i].tags@)
}

/// With each key once, `tag` is a map's lookup: a key's value is the value
/// of the pair with that key, wherever that pair stands.
pub proof fn lemma_tag_of_unique(tags: Seq<(String, String)>, i: int)
    requires
        keys_unique(tags),
        0 <= i < tags.len(),
    ensures
        tag(tags, tags[i].0@) == Some(tags[i].1@),
    decreases tags.len(),
{
    if i > 0 {
        assert(tags[0].0@ != tags[i].0@);
        let rest = tags.drop_first();
        assert(rest[i - 1] == tags[i]);
        assert forall|a: int, b: int| 0 <= a < b < rest.len() implies #[trigger] rest[a].0@
            != #[trigger] rest[b].0@ by {
            assert(rest[a] == tags[a + 1] && rest[b] == tags[b + 1]);
        }
        lemma_tag_of_unique(rest, i - 1);
    }
}

/// A key that no pair has has no value.
pub proof fn lemma_tag_absent(tags: Seq<(String, String)>, key: Seq<char>)
    requires
        forall|i: int| 0 <= i < tags.len() ==> #[trigger] tags[i].0@ != key,
    ensures
        tag(tags, key) is None,
    decreases tags.len(),
{
    if tags.len() > 0 {
        let rest = tags.drop_first();
        assert forall|i: int| 0 <= i < rest.len() implies #[trigger] rest[i].0@ != key by {
            assert(rest[i] == tags[i + 1]);
        }
        lemma_tag_absent(rest, key);
    }
}

/// Whether each key occurs at most once among `tags`.
pub fn tags_unique(tags: &Vec<(String, String)>) -> (res: bool)
    ensures
        res == keys_unique(tags@),
{
    let mut j: usize = 0;
    while j < tags.len()
        invariant
            j <= tags@.len(),
            forall|a: int, b: int| 0 <= a < b < j ==> #[trigger] tags@[a].0@ != #[trigger] tags@[b].0@,
        decreases tags.len() - j,
    {
        let mut i: usize = 0;
        while i < j
            invariant
                i <= j < tags@.len(),
                forall|a: int| 0 <= a < i ==> #[trigger] tags@[a].0@ != tags@[j as int].0@,
            decreases j - i,
        {
            if same_text(tags[i].0.as_str(), tags[j].0.as_str()) {
                assert(tags@[i as int].0@ == tags@[j as int].0@);
                return false;
            }
            i = i + 1;
        }
        j = j + 1;
    }
    true
}

/// The characters of an optional text.
pub open spec fn opt_text(o: Option<String>) -> Option<Seq<char>> {
    match o {
        Some(s) => Some(s@),
        None => None,
    }
}

/// The first option that holds a value.
pub open spec fn or_else(a: Option<Seq<char>>, b: Option<Seq<char>>) -> Option<Seq<char>> {
    if a is Some {
        a
    } else {
        b
    }
}

/// The value of the first tag named `key`, cloned.
pub fn find_tag(tags: &Vec<(String, String)>, key: &str) -> (res: Option<String>)
    ensures
        opt_text(res) == tag(tags@, key@),
{
    let mut i: usize = 0;
    assert(tags@.skip(0) =~= tags@);
    while i < tags.len()
        invariant
            i <= tags@.len(),
            tag(tags@, key@) == tag(tags@.skip(i as int), key@),
        decreases tags.len() - i,
    {
        if same_text(tags[i].0.as_str(), key) {
            return Some(tags[i].1.clone());
        }
        assert(tags@.skip(i as int).drop_first() =~= tags@.skip(i + 1));
        i = i + 1;
    }
    None
}

/// A copy of the tags.
pub fn clone_tags(tags: &Vec<(String, String)>) -> (res: Vec<(String, String)>)
    ensures
        res@ == tags@,
{
    let mut res: Vec<(String, String)> = Vec::new();
    let mut i: usize = 0;
    while i < tags.len()
        invariant
            i <= tags@.len(),
            res@ == tags@.take(i as int),
        decreases tags.len() - i,
    {
        let pair = (tags[i].0.clone(), tags[i].1.clone());
        res.push(pair);
        assert(tags@.take(i + 1) =~= tags@.take(i as int).push(tags@[i as int]));
        i = i + 1;
    }
    assert(tags@.take(tags@.len() as int) =~= tags@);
    res
}

/// The icon class of an amenity: `oc-` and the amenity with `-` for `_`,
/// except for bicycle parkings.
pub open spec fn element_icon(amenity: Seq<char>) -> Seq<char> {
    if amenity == "bicycle_parking"@ {
        "oc-parking-bicycle"@
    } else {
        "oc-"@ + replaced(amenity, '_', "-"@)
    }
}

/// What the state of an element can be: `Unknown` when it has no
/// `opening_hours` tag or when that tag does not parse.
pub open spec fn state_fits(tags: Seq<(String, String)>, state: RuleKind) -> bool {
    match tag(tags, "opening_hours"@) {
        None => state == RuleKind::Unknown,
        Some(text) => !opening_hours_valid(text) ==> state == RuleKind::Unknown,
    }
}

/// Whether the state at `time` can be asked for: always when the
/// `opening_hours` tag is missing or does not parse, else up to
/// `LAST_STATE_SECOND` (later, chrono panics).
pub open spec fn state_askable(tags: Seq<(String, String)>, time: i64) -> bool {
    match tag(tags, "opening_hours"@) {
        Some(text) => opening_hours_valid(text) ==> time <= LAST_STATE_SECOND,
        None => true,
    }
}

/// The second a clock reading `now` is asked about: `now` itself, or
/// `LAST_STATE_SECOND` when `now` is later.
pub open spec fn clock_second(now: i64) -> i64 {
    if now <= LAST_STATE_SECOND {
        now
    } else {
        LAST_STATE_SECOND
    }
}

/// The state that the `opening_hours` tag gives at `time`: `Unknown` without
/// such a tag or when it does not parse.
pub open spec fn state_at_time(tags: Seq<(String, String)>, time: i64) -> RuleKind {
    match tag(tags, "opening_hours"@) {
        None => RuleKind::Unknown,
        Some(text) => if opening_hours_valid(text) {
            opening_state(text, time)
        } else {
            RuleKind::Unknown
        },
    }
}

impl Element {
    /// The shown name: the `name` tag, else the `amenity` tag, else `?`.
    pub open spec fn name_text(&self) -> Seq<char> {
        match or_else(tag(self.tags@, "name"@), tag(self.tags@, "amenity"@)) {
            Some(n) => n,
            None => "?"@,
        }
    }

    /// The element's name, as shown in lists.
    pub fn name(&self) -> (res: String)
        ensures
            res@ == self.name_text(),
    {
        match find_tag(&self.tags, "name") {
            Some(n) => n,
            None => match find_tag(&self.tags, "amenity") {
                Some(a) => a,
                None => String::from_str("?"),
            },
        }
    }

    /// The state of the element at `time`, from its `opening_hours` tag:
    /// `Unknown` without such a tag or when it does not parse, else what the
    /// expression says of that time.
    pub fn state_at(&self, time: &Moment) -> (res: RuleKind)
        requires
            state_askable(self.tags@, time@),
        ensures
            res == state_at_time(self.tags@, time@),
    {
        let text = match find_tag(&self.tags, "opening_hours") {
            Some(t) => t,
            None => return RuleKind::Unknown,
        };
        match parse_opening_hours(text.as_str()) {
            Some(hours) => state_at(&hours, time),
            None => RuleKind::Unknown,
        }
    }

    /// The state of the element when the clock reads `now`: the state at
    /// `now`, or at `LAST_STATE_SECOND` when `now` is later (chrono cannot
    /// look a minute past its last date and time).
    pub fn state_when(&self, now: &Moment) -> (res: RuleKind)
        ensures
            res == state_at_time(self.tags@, clock_second(now@)),
            state_fits(self.tags@, res),
    {
        if now.seconds() <= LAST_STATE_SECOND {
            self.state_at(now)
        } else {
            match Moment::from_seconds(LAST_STATE_SECOND) {
                Some(last) => self.state_at(&last),
                None => RuleKind::Unknown,
            }
        }
    }

    /// The state of the element now: [`Element::state_when`] of the local
    /// time the clock gives.
    pub fn state(&self) -> (res: RuleKind)
        ensures
            state_fits(self.tags@, res),
            exists|time: i64| time <= LAST_STATE_SECOND && res == #[trigger] state_at_time(self.tags@, time),
    {
        let now = local_now();
        let res = self.state_when(&now);
        assert(res == state_at_time(self.tags@, clock_second(now@)));
        res
    }

    /// The icon class of the element's amenity, if it has one.
    pub fn icon(&self) -> (res: Option<String>)
        ensures
            opt_text(res) == match tag(self.tags@, "amenity"@) {
                Some(a) => Some(element_icon(a)),
                None => None,
            },
    {
        let amenity = match find_tag(&self.tags, "amenity") {
            Some(a) => a,
            None => return None,
        };
        if same_text(amenity.as_str(), "bicycle_parking") {
            Some(String::from_str("oc-parking-bicycle"))
        } else {
            let mut icon = String::from_str("oc-");
            let rest = replace_char(amenity.as_str(), '_', "-");
            icon.append(rest.as_str());
            Some(icon)
        }
    }

    /// The `website` tag, else the `contact:website` tag.
    pub fn website(&self) -> (res: Option<String>)
        ensures
            opt_text(res) == or_else(
                tag(self.tags@, "website"@),
                tag(self.tags@, "contact:website"@),
            ),
    {
        match find_tag(&self.tags, "website") {
            Some(w) => Some(w),
            None => find_tag(&self.tags, "contact:website"),
        }
    }

    /// Whether the element is among the favorites (the identifiers kept in
    /// the browser's storage, which the caller reads).
    pub fn is_favorite(&self, favorites: &[u64]) -> (res: bool)
        ensures
            res == favorites@.contains(self.id),
    {
        let mut i: usize = 0;
        while i < favorites.len()
            invariant
                i <= favorites@.len(),
                forall|k: int| 0 <= k < i ==> favorites@[k] != self.id,
            decreases favorites.len() - i,
        {
            if favorites[i] == self.id {
                return true;
            }
            i = i + 1;
        }
        false
    }

    /// The element's position.
    pub fn position(&self) -> (res: Position)
        ensures
            res.lat == self.lat,
            res.lng == self.lon,
    {
        Position { lat: self.lat, lng: self.lon }
    }
}

} // verus!
