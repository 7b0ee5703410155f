//! Datastream summaries from what HydroServer answers: the visualization
//! bootstrap document, a page of datastreams with their related records
//! expanded, or the plain collections looked up by id.
use vstd::prelude::*;

use crate::json::{
    array_items, field_of_item, first_present, get, get_either, item_field, item_id, item_id_exec,
    member, or_empty, string_at, string_value, string_value_either, JsonValue,
};
use crate::hydroserver::DATASTREAM_CACHE_TTL_SECONDS;
use crate::models::{owned, ServerConfig, UtcDateTime};
use crate::records::{distinct_keys, find_key, lemma_find_key, lemma_find_key_unique};
use crate::responses::{DatastreamSummary, DatastreamSummaryView};

verus! {

/// The name given to a datastream without one.
pub open spec fn unnamed() -> Seq<char> {
    "Unnamed datastream"@
}

/// The datastream's name, or [`unnamed`].
pub open spec fn name_of(item: JsonValue) -> Seq<char> {
    match string_at(item, seq!["name"@]) {
        Some(n) => n,
        None => unnamed(),
    }
}

/// The string `key` of an optional related record, or nothing.
pub open spec fn related_string(related: Option<JsonValue>, key: Seq<char>) -> Seq<char> {
    match related {
        Some(x) => or_empty(string_at(x, seq![key])),
        None => Seq::empty(),
    }
}

/// The summary of one item of a datastream page with related records
/// expanded in place.
pub open spec fn expanded_summary(item: JsonValue) -> DatastreamSummaryView {
    let thing = member(item, "thing"@);
    let observed_property = first_present(item, seq!["observed_property"@, "observedProperty"@]);
    let processing_level = first_present(item, seq!["processing_level"@, "processingLevel"@]);
    let unit = member(item, "unit"@);
    let sensor = member(item, "sensor"@);
    DatastreamSummaryView {
        id: or_empty(item_id(item)),
        name: name_of(item),
        thing_id: match string_at(item, seq!["thing_id"@, "thingId"@]) {
            Some(t) => t,
            None => match thing {
                Some(x) => or_empty(item_id(x)),
                None => Seq::empty(),
            },
        },
        thing_name: related_string(thing, "name"@),
        observed_property_name: related_string(observed_property, "name"@),
        processing_level_definition: related_string(processing_level, "definition"@),
        unit_name: related_string(unit, "name"@),
        unit_symbol: related_string(unit, "symbol"@),
        sampled_medium: or_empty(string_at(item, seq!["sampled_medium"@, "sampledMedium"@])),
        sensor_name: related_string(sensor, "name"@),
        result_type: or_empty(string_at(item, seq!["result_type"@, "resultType"@])),
    }
}

/// The summary of a datastream whose related records are looked up by id in
/// the collections fetched beside it.
pub open spec fn collected_summary(
    item: JsonValue,
    things: Seq<JsonValue>,
    observed_properties: Seq<JsonValue>,
    processing_levels: Seq<JsonValue>,
    units: Seq<JsonValue>,
    sensors: Seq<JsonValue>,
) -> DatastreamSummaryView {
    let thing_id = or_empty(string_at(item, seq!["thing_id"@, "thingId"@]));
    let observed_property_id = or_empty(string_at(item, seq!["observed_property_id"@, "observedPropertyId"@]));
    let processing_level_id = or_empty(string_at(item, seq!["processing_level_id"@, "processingLevelId"@]));
    let unit_id = or_empty(string_at(item, seq!["unit_id"@, "unitId"@]));
    let sensor_id = or_empty(string_at(item, seq!["sensor_id"@, "sensorId"@]));
    DatastreamSummaryView {
        id: or_empty(item_id(item)),
        name: name_of(item),
        thing_id,
        thing_name: field_of_item(things, Some(thing_id), "name"@),
        observed_property_name: field_of_item(observed_properties, Some(observed_property_id), "name"@),
        processing_level_definition: field_of_item(processing_levels, Some(processing_level_id), "definition"@),
        unit_name: field_of_item(units, Some(unit_id), "name"@),
        unit_symbol: field_of_item(units, Some(unit_id), "symbol"@),
        sampled_medium: or_empty(string_at(item, seq!["sampled_medium"@, "sampledMedium"@])),
        sensor_name: field_of_item(sensors, Some(sensor_id), "name"@),
        result_type: or_empty(string_at(item, seq!["result_type"@, "resultType"@])),
    }
}

/// The summary of a datastream of the bootstrap document: related names come
/// from its things, observed properties and processing levels and from the
/// units collection; medium, sensor and result type are left empty.
pub open spec fn bootstrap_summary(
    item: JsonValue,
    things: Seq<JsonValue>,
    observed_properties: Seq<JsonValue>,
    processing_levels: Seq<JsonValue>,
    units: Seq<JsonValue>,
) -> DatastreamSummaryView {
    let thing_id = string_at(item, seq!["thing_id"@, "thingId"@]);
    let unit_id = string_at(item, seq!["unit_id"@, "unitId"@]);
    DatastreamSummaryView {
        id: or_empty(item_id(item)),
        name: name_of(item),
        thing_id: or_empty(thing_id),
        thing_name: field_of_item(things, thing_id, "name"@),
        observed_property_name: field_of_item(
            observed_properties,
            string_at(item, seq!["observed_property_id"@, "observedPropertyId"@]),
            "name"@,
        ),
        processing_level_definition: field_of_item(
            processing_levels,
            string_at(item, seq!["processing_level_id"@, "processingLevelId"@]),
            "definition"@,
        ),
        unit_name: field_of_item(units, unit_id, "name"@),
        unit_symbol: field_of_item(units, unit_id, "symbol"@),
        sampled_medium: Seq::empty(),
        sensor_name: Seq::empty(),
        result_type: Seq::empty(),
    }
}

/// The four collections of a bootstrap document (datastreams, things,
/// observed properties, processing levels), when each is there as an array.
pub open spec fn bootstrap_collections(payload: JsonValue) -> Option<
    (Seq<JsonValue>, Seq<JsonValue>, Seq<JsonValue>, Seq<JsonValue>),
> {
    match (
        array_items(member(payload, "datastreams"@)),
        array_items(member(payload, "things"@)),
        array_items(first_present(payload, seq!["observed_properties"@, "observedProperties"@])),
        array_items(first_present(payload, seq!["processing_levels"@, "processingLevels"@])),
    ) {
        (Some(d), Some(t), Some(o), Some(p)) => Some((d, t, o, p)),
        _ => None,
    }
}

fn related_string_exec(related: Option<&JsonValue>, key: &str) -> (res: String)
    ensures
        res@ == related_string(match related {
            Some(x) => Some(*x),
            None => None,
        }, key@),
{
    match related {
        Some(x) => match string_value(x, key) {
            Some(s) => s,
            None => String::new(),
        },
        None => String::new(),
    }
}

fn text_or_empty(o: Option<String>) -> (res: String)
    ensures
        res@ == or_empty(crate::models::opt_view(o)),
{
    match o {
        Some(s) => s,
        None => String::new(),
    }
}

fn name_exec(item: &JsonValue) -> (res: String)
    ensures
        res@ == name_of(*item),
{
    match string_value(item, "name") {
        Some(n) => n,
        None => owned("Unnamed datastream"),
    }
}

/// The summary of one item of an expanded datastream page.
pub fn expanded_datastream_to_summary(item: &JsonValue) -> (res: DatastreamSummary)
    ensures
        res@ == expanded_summary(*item),
{
    let thing = get(item, "thing");
    let observed_property = get_either(item, "observed_property", "observedProperty");
    let processing_level = get_either(item, "processing_level", "processingLevel");
    let unit = get(item, "unit");
    let sensor = get(item, "sensor");
    let thing_id = match string_value_either(item, "thing_id", "thingId") {
        Some(t) => t,
        None => match thing {
            Some(x) => text_or_empty(item_id_exec(x)),
            None => String::new(),
        },
    };
    DatastreamSummary {
        id: text_or_empty(item_id_exec(item)),
        name: name_exec(item),
        thing_id,
        thing_name: related_string_exec(thing, "name"),
        observed_property_name: related_string_exec(observed_property, "name"),
        processing_level_definition: related_string_exec(processing_level, "definition"),
        unit_name: related_string_exec(unit, "name"),
        unit_symbol: related_string_exec(unit, "symbol"),
        sampled_medium: text_or_empty(string_value_either(item, "sampled_medium", "sampledMedium")),
        sensor_name: related_string_exec(sensor, "name"),
        result_type: text_or_empty(string_value_either(item, "result_type", "resultType")),
    }
}

/// The summary of a datastream with its related records looked up by id.
pub fn datastream_to_summary(
    item: &JsonValue,
    things: &Vec<JsonValue>,
    observed_properties: &Vec<JsonValue>,
    processing_levels: &Vec<JsonValue>,
    units: &Vec<JsonValue>,
    sensors: &Vec<JsonValue>,
) -> (res: DatastreamSummary)
    ensures
        res@ == collected_summary(*item, things@, observed_properties@, processing_levels@, units@, sensors@),
{
    let thing_id = text_or_empty(string_value_either(item, "thing_id", "thingId"));
    let observed_property_id = text_or_empty(string_value_either(item, "observed_property_id", "observedPropertyId"));
    let processing_level_id = text_or_empty(string_value_either(item, "processing_level_id", "processingLevelId"));
    let unit_id = text_or_empty(string_value_either(item, "unit_id", "unitId"));
    let sensor_id = text_or_empty(string_value_either(item, "sensor_id", "sensorId"));
    let thing_name = item_field(things, Some(thing_id.as_str()), "name");
    DatastreamSummary {
        id: text_or_empty(item_id_exec(item)),
        name: name_exec(item),
        thing_id,
        thing_name,
        observed_property_name: item_field(observed_properties, Some(observed_property_id.as_str()), "name"),
        processing_level_definition: item_field(processing_levels, Some(processing_level_id.as_str()), "definition"),
        unit_name: item_field(units, Some(unit_id.as_str()), "name"),
        unit_symbol: item_field(units, Some(unit_id.as_str()), "symbol"),
        sampled_medium: text_or_empty(string_value_either(item, "sampled_medium", "sampledMedium")),
        sensor_name: item_field(sensors, Some(sensor_id.as_str()), "name"),
        result_type: text_or_empty(string_value_either(item, "result_type", "resultType")),
    }
}

fn as_str_opt(o: &Option<String>) -> (res: Option<&str>)
    ensures
        match res {
            Some(s) => crate::models::opt_view(*o) == Some(s@),
            None => o is None,
        },
{
    match o {
        Some(s) => Some(s.as_str()),
        None => None,
    }
}

fn bootstrap_datastream_to_summary(
    item: &JsonValue,
    things: &Vec<JsonValue>,
    observed_properties: &Vec<JsonValue>,
    processing_levels: &Vec<JsonValue>,
    units: &Vec<JsonValue>,
) -> (res: DatastreamSummary)
    ensures
        res@ == bootstrap_summary(*item, things@, observed_properties@, processing_levels@, units@),
{
    let thing_id = string_value_either(item, "thing_id", "thingId");
    let observed_property_id = string_value_either(item, "observed_property_id", "observedPropertyId");
    let processing_level_id = string_value_either(item, "processing_level_id", "processingLevelId");
    let unit_id = string_value_either(item, "unit_id", "unitId");
    let thing_name = item_field(things, as_str_opt(&thing_id), "name");
    let observed_property_name = item_field(observed_properties, as_str_opt(&observed_property_id), "name");
    let processing_level_definition = item_field(processing_levels, as_str_opt(&processing_level_id), "definition");
    let unit_name = item_field(units, as_str_opt(&unit_id), "name");
    let unit_symbol = item_field(units, as_str_opt(&unit_id), "symbol");
    DatastreamSummary {
        id: text_or_empty(item_id_exec(item)),
        name: name_exec(item),
        thing_id: text_or_empty(thing_id),
        thing_name,
        observed_property_name,
        processing_level_definition,
        unit_name,
        unit_symbol,
        sampled_medium: String::new(),
        sensor_name: String::new(),
        result_type: String::new(),
    }
}

/// The values of a list of summaries.
pub open spec fn summaries_view(v: Seq<DatastreamSummary>) -> Seq<DatastreamSummaryView> {
    v.map_values(|s: DatastreamSummary| s@)
}

fn bootstrap_parts(payload: &JsonValue) -> (res: Option<(&Vec<JsonValue>, &Vec<JsonValue>, &Vec<JsonValue>, &Vec<JsonValue>)>)
    ensures
        match (res, bootstrap_collections(*payload)) {
            (Some((d, t, o, p)), Some((dv, tv, ov, pv))) => d@ == dv && t@ == tv && o@ == ov && p@ == pv,
            (None, None) => true,
            _ => false,
        },
{
    let datastreams = match get(payload, "datastreams") {
        Some(v) => crate::json::as_array(v),
        None => None,
    };
    let things = match get(payload, "things") {
        Some(v) => crate::json::as_array(v),
        None => None,
    };
    let observed_properties = match get_either(payload, "observed_properties", "observedProperties") {
        Some(v) => crate::json::as_array(v),
        None => None,
    };
    let processing_levels = match get_either(payload, "processing_levels", "processingLevels") {
        Some(v) => crate::json::as_array(v),
        None => None,
    };
    match (datastreams, things, observed_properties, processing_levels) {
        (Some(d), Some(t), Some(o), Some(p)) => Some((d, t, o, p)),
        _ => None,
    }
}

/// Whether the bootstrap document has all four collections it is read from;
/// only then are the units fetched to complete it.
pub fn bootstrap_is_complete(payload: &JsonValue) -> (res: bool)
    ensures
        res == bootstrap_collections(*payload) is Some,
{
    bootstrap_parts(payload).is_some()
}

/// The summaries of the bootstrap document's datastreams, in order, with the
/// units collection fetched beside it; `None` when the document lacks one of
/// its collections.
pub fn summaries_from_bootstrap(payload: &JsonValue, units: &Vec<JsonValue>) -> (res: Option<Vec<DatastreamSummary>>)
    ensures
        match bootstrap_collections(*payload) {
            None => res is None,
            Some((d, t, o, p)) => res matches Some(v) && summaries_view(v@) == d.map_values(
                |x: JsonValue| bootstrap_summary(x, t, o, p, units@),
            ),
        },
{
    let (datastreams, things, observed_properties, processing_levels) = match bootstrap_parts(payload) {
        Some(parts) => parts,
        None => return None,
    };
    let mut out: Vec<DatastreamSummary> = Vec::new();
    for i in 0..datastreams.len()
        invariant
            out@.len() == i,
            forall|k: int| 0 <= k < i ==> (#[trigger] out@[k])@ == bootstrap_summary(
                datastreams@[k],
                things@,
                observed_properties@,
                processing_levels@,
                units@,
            ),
    {
        out.push(bootstrap_datastream_to_summary(&datastreams[i], things, observed_properties, processing_levels, units));
    }
    assert(summaries_view(out@) =~= datastreams@.map_values(
        |x: JsonValue| bootstrap_summary(x, things@, observed_properties@, processing_levels@, units@),
    ));
    Some(out)
}

/// The summaries of one page of datastreams with related records expanded;
/// `None` when the page is not an array.
pub fn expanded_page_summaries(page: &JsonValue) -> (res: Option<Vec<DatastreamSummary>>)
    ensures
        match array_items(Some(*page)) {
            None => res is None,
            Some(items) => res matches Some(v) && summaries_view(v@) == items.map_values(
                |x: JsonValue| expanded_summary(x),
            ),
        },
{
    let items = match crate::json::as_array(page) {
        Some(items) => items,
        None => return None,
    };
    let mut out: Vec<DatastreamSummary> = Vec::new();
    for i in 0..items.len()
        invariant
            out@.len() == i,
            forall|k: int| 0 <= k < i ==> (#[trigger] out@[k])@ == expanded_summary(items@[k]),
    {
        out.push(expanded_datastream_to_summary(&items[i]));
    }
    assert(summaries_view(out@) =~= items@.map_values(|x: JsonValue| expanded_summary(x)));
    Some(out)
}

/// The summaries of the datastreams collection, each with its related records
/// looked up in the other collections.
pub fn collection_summaries(
    datastreams: &Vec<JsonValue>,
    things: &Vec<JsonValue>,
    observed_properties: &Vec<JsonValue>,
    processing_levels: &Vec<JsonValue>,
    units: &Vec<JsonValue>,
    sensors: &Vec<JsonValue>,
) -> (res: Vec<DatastreamSummary>)
    ensures
        summaries_view(res@) == datastreams@.map_values(
            |x: JsonValue| collected_summary(x, things@, observed_properties@, processing_levels@, units@, sensors@),
        ),
{
    let mut out: Vec<DatastreamSummary> = Vec::new();
    for i in 0..datastreams.len()
        invariant
            out@.len() == i,
            forall|k: int| 0 <= k < i ==> (#[trigger] out@[k])@ == collected_summary(
                datastreams@[k],
                things@,
                observed_properties@,
                processing_levels@,
                units@,
                sensors@,
            ),
    {
        out.push(datastream_to_summary(&datastreams[i], things, observed_properties, processing_levels, units, sensors));
    }
    assert(summaries_view(out@) =~= datastreams@.map_values(
        |x: JsonValue| collected_summary(x, things@, observed_properties@, processing_levels@, units@, sensors@),
    ));
    out
}

// ---------------------------------------------------------------------------
// The cache of listed datastreams
// ---------------------------------------------------------------------------
/// A listing cached at `cached_at` is stale at `now` once more than
/// [`DATASTREAM_CACHE_TTL_SECONDS`] whole seconds have passed.
pub open spec fn cache_expired(cached_at: UtcDateTime, now: UtcDateTime) -> bool {
    (now.secs - cached_at.secs) * 1_000_000_000 + (now.nanos - cached_at.nanos) >= (DATASTREAM_CACHE_TTL_SECONDS
        + 1) * 1_000_000_000
}

pub fn is_cache_expired(cached_at: UtcDateTime, now: UtcDateTime) -> (res: bool)
    ensures
        res == cache_expired(cached_at, now),
{
    let elapsed: i128 = (now.secs as i128 - cached_at.secs as i128) * 1_000_000_000 + (now.nanos as i128
        - cached_at.nanos as i128);
    elapsed >= (DATASTREAM_CACHE_TTL_SECONDS as i128 + 1) * 1_000_000_000
}

fn clone_summary(s: &DatastreamSummary) -> (res: DatastreamSummary)
    ensures
        res@ == s@,
{
    DatastreamSummary {
        id: s.id.clone(),
        name: s.name.clone(),
        thing_id: s.thing_id.clone(),
        thing_name: s.thing_name.clone(),
        observed_property_name: s.observed_property_name.clone(),
        processing_level_definition: s.processing_level_definition.clone(),
        unit_name: s.unit_name.clone(),
        unit_symbol: s.unit_symbol.clone(),
        sampled_medium: s.sampled_medium.clone(),
        sensor_name: s.sensor_name.clone(),
        result_type: s.result_type.clone(),
    }
}

/// A copy of a listing.
pub fn clone_summaries(v: &Vec<DatastreamSummary>) -> (res: Vec<DatastreamSummary>)
    ensures
        summaries_view(res@) == summaries_view(v@),
{
    let mut out: Vec<DatastreamSummary> = Vec::new();
    for i in 0..v.len()
        invariant
            out@.len() == i,
            forall|k: int| 0 <= k < i ==> (#[trigger] out@[k])@ == v@[k]@,
    {
        out.push(clone_summary(&v[i]));
    }
    assert(summaries_view(out@) =~= summaries_view(v@));
    out
}

/// A listing kept for a cache key.
pub struct CachedDatastreams {
    pub key: String,
    pub cached_at: UtcDateTime,
    pub datastreams: Vec<DatastreamSummary>,
}

pub open spec fn cache_keys(entries: Seq<CachedDatastreams>) -> Seq<Seq<char>> {
    entries.map_values(|e: CachedDatastreams| e.key@)
}


/// The datastream listings of each server, workspace and account, with when
/// each was fetched.
pub struct DatastreamCache {
    entries: Vec<CachedDatastreams>,
}

impl View for DatastreamCache {
    type V = Map<Seq<char>, (UtcDateTime, Seq<DatastreamSummaryView>)>;

    closed spec fn view(&self) -> Map<Seq<char>, (UtcDateTime, Seq<DatastreamSummaryView>)> {
        Map::new(
            |k: Seq<char>| find_key(cache_keys(self.entries@), k) < self.entries@.len(),
            |k: Seq<char>|
                {
                    let e = self.entries@[find_key(cache_keys(self.entries@), k)];
                    (e.cached_at, summaries_view(e.datastreams@))
                },
        )
    }
}

impl DatastreamCache {
    #[verifier::type_invariant]
    spec fn keys_are_distinct(self) -> bool {
        distinct_keys(cache_keys(self.entries@))
    }

    pub fn new() -> (res: DatastreamCache)
        ensures
            res@ == Map::<Seq<char>, (UtcDateTime, Seq<DatastreamSummaryView>)>::empty(),
    {
        let res = DatastreamCache { entries: Vec::new() };
        assert(res@ =~= Map::<Seq<char>, (UtcDateTime, Seq<DatastreamSummaryView>)>::empty());
        res
    }

    fn position(&self, key: &str) -> (res: usize)
        ensures
            res == find_key(cache_keys(self.entries@), key@),
            res <= self.entries@.len(),
    {
        let ghost keys = cache_keys(self.entries@);
        let mut i: usize = 0;
        while i < self.entries.len()
            invariant
                i <= self.entries@.len(),
                keys == cache_keys(self.entries@),
                forall|k: int| 0 <= k < i ==> keys[k] != key@,
            decreases self.entries@.len() - i,
        {
            assert(keys[i as int] == self.entries@[i as int].key@);
            if crate::text::str_eq(self.entries[i].key.as_str(), key) {
                proof {
                    lemma_find_key_unique(keys, key@, i as int);
                }
                return i;
            }
            i = i + 1;
        }
        proof {
            lemma_find_key_unique(keys, key@, i as int);
        }
        i
    }

    /// The listing kept for `key` while it is fresh at `now`; a stale one is
    /// dropped.
    pub fn get(&mut self, key: &str, now: UtcDateTime) -> (res: Option<Vec<DatastreamSummary>>)
        ensures
            match old(self)@.get(key@) {
                None => res is None && final(self)@ == old(self)@,
                Some((at, listing)) => if cache_expired(at, now) {
                    res is None && final(self)@ == old(self)@.remove(key@)
                } else {
                    res matches Some(v) && summaries_view(v@) == listing && final(self)@ == old(self)@
                },
            },
    {
        proof {
            use_type_invariant(&*self);
        }
        let ghost before = self@;
        let ghost old_entries = self.entries@;
        let i = self.position(key);
        proof {
            lemma_find_key(cache_keys(old_entries), key@);
        }
        if i >= self.entries.len() {
            return None;
        }
        if !is_cache_expired(self.entries[i].cached_at, now) {
            return Some(clone_summaries(&self.entries[i].datastreams));
        }
        let mut entries: Vec<CachedDatastreams> = Vec::new();
        std::mem::swap(&mut entries, &mut self.entries);
        let _stale = entries.remove(i);
        proof {
            let ok = cache_keys(old_entries);
            let nk = cache_keys(entries@);
            assert(nk =~= ok.remove(i as int));
            assert forall|k: Seq<char>| #![all_triggers] true implies (find_key(nk, k) < nk.len()) == before.remove(key@).contains_key(k) && (find_key(nk, k) < nk.len() ==> (entries@[find_key(nk, k)].cached_at, summaries_view(entries@[find_key(nk, k)].datastreams@)) == before.remove(key@)[k]) by {
                lemma_find_key(ok, k);
                if k == key@ {
                    lemma_find_key_unique(nk, k, nk.len() as int);
                } else if find_key(ok, k) < ok.len() {
                    let j = find_key(ok, k);
                    if j < i {
                        lemma_find_key_unique(nk, k, j);
                    } else {
                        lemma_find_key_unique(nk, k, j - 1);
                    }
                } else {
                    lemma_find_key_unique(nk, k, nk.len() as int);
                }
            }
        }
        self.entries = entries;
        proof {
            assert(self@ =~= before.remove(key@));
        }
        None
    }

    /// Keeps `datastreams` for `key` as fetched at `now`, replacing any
    /// earlier listing.
    pub fn store(&mut self, key: &str, now: UtcDateTime, datastreams: Vec<DatastreamSummary>)
        ensures
            final(self)@ == old(self)@.insert(key@, (now, summaries_view(datastreams@))),
    {
        proof {
            use_type_invariant(&*self);
        }
        let ghost before = self@;
        let ghost old_entries = self.entries@;
        let i = self.position(key);
        proof {
            lemma_find_key(cache_keys(old_entries), key@);
        }
        let mut entries: Vec<CachedDatastreams> = Vec::new();
        std::mem::swap(&mut entries, &mut self.entries);
        let entry = CachedDatastreams { key: owned(key), cached_at: now, datastreams };
        if i < entries.len() {
            let _old = entries.remove(i);
            entries.insert(i, entry);
        } else {
            entries.push(entry);
        }
        proof {
            let ok = cache_keys(old_entries);
            let nk = cache_keys(entries@);
            if i < ok.len() {
                assert(nk =~= ok.update(i as int, key@));
            } else {
                assert(nk =~= ok.push(key@));
            }
            assert forall|k: Seq<char>| #![all_triggers] true implies (find_key(nk, k) < nk.len()) == before.insert(key@, (now, summaries_view(datastreams@))).contains_key(k) && (find_key(nk, k) < nk.len() ==> (entries@[find_key(nk, k)].cached_at, summaries_view(entries@[find_key(nk, k)].datastreams@)) == before.insert(key@, (now, summaries_view(datastreams@)))[k]) by {
                lemma_find_key(ok, k);
                if k == key@ {
                    lemma_find_key_unique(nk, k, i as int);
                } else if find_key(ok, k) < ok.len() {
                    lemma_find_key_unique(nk, k, find_key(ok, k));
                } else {
                    lemma_find_key_unique(nk, k, nk.len() as int);
                }
            }
        }
        self.entries = entries;
        proof {
            assert(self@ =~= before.insert(key@, (now, summaries_view(datastreams@))));
        }
    }
}

/// A listing stored at `at` is what a later read returns while it is fresh,
/// the listings of other keys stay as they were, and a stale read drops only
/// its own key.
pub proof fn lemma_datastream_cache_read_back(
    cache: Map<Seq<char>, (UtcDateTime, Seq<DatastreamSummaryView>)>,
    key: Seq<char>,
    other: Seq<char>,
    at: UtcDateTime,
    listing: Seq<DatastreamSummaryView>,
)
    requires
        other != key,
    ensures
        cache.insert(key, (at, listing)).get(key) == Some((at, listing)),
        cache.insert(key, (at, listing)).get(other) == cache.get(other),
        cache.remove(key).get(key) is None,
        cache.remove(key).get(other) == cache.get(other),
{
}

/// A listing is served for the first 300 seconds after it was fetched and
/// is stale once 302 seconds have passed (between the two, the nanoseconds
/// decide), for instants outside a leap second.
pub proof fn lemma_cache_ttl(at: UtcDateTime, now: UtcDateTime)
    requires
        at.nanos < 1_000_000_000,
        now.nanos < 1_000_000_000,
    ensures
        now.secs - at.secs <= DATASTREAM_CACHE_TTL_SECONDS ==> !cache_expired(at, now),
        now.secs - at.secs >= DATASTREAM_CACHE_TTL_SECONDS + 2 ==> cache_expired(at, now),
{
    let ds: int = now.secs - at.secs;
    let dn: int = now.nanos - at.nanos;
    if ds <= 300 {
        assert(ds * 1_000_000_000 <= 300 * 1_000_000_000) by (nonlinear_arith)
            requires
                ds <= 300,
        ;
    }
    if ds >= 302 {
        assert(ds * 1_000_000_000 >= 302 * 1_000_000_000) by (nonlinear_arith)
            requires
                ds >= 302,
        ;
    }
}

// ---------------------------------------------------------------------------
// Listing the datastreams of a server
// ---------------------------------------------------------------------------
/// What listing the datastreams of a server does next.
pub enum ListingStep {
    /// The listing is known without a request.
    Answer(Vec<DatastreamSummary>),
    /// No workspace is saved: the workspace the credentials reach is to be
    /// looked up first.
    ResolveWorkspace,
    /// The listing of this workspace is to be fetched, and kept under this
    /// cache key.
    Fetch(String, String),
}

/// The workspace a listing is for: the saved one (trimmed), else the one
/// looked up, if any.
pub open spec fn listing_workspace(
    server: crate::models::ServerConfigView,
    resolved_workspace: Option<Seq<char>>,
) -> Option<Seq<char>> {
    let n = server.normalized();
    if n.workspace_id.len() > 0 {
        Some(n.workspace_id)
    } else {
        resolved_workspace
    }
}

/// The first step of listing the datastreams of `server` at `now`: nothing
/// to list without settings or without a workspace; a listing cached for the
/// same account and workspace is answered while fresh, with no request; a
/// stale one is dropped and the listing fetched. `resolved_workspace` is the
/// workspace looked up when none is saved (`None` before the lookup).
pub fn listing_step(
    server: &ServerConfig,
    resolved_workspace: Option<String>,
    cache: &mut DatastreamCache,
    now: UtcDateTime,
) -> (res: ListingStep)
    ensures
        !server@.is_configured() ==> (res matches ListingStep::Answer(v) && v@.len() == 0) && final(cache)@
            == old(cache)@,
        server@.is_configured() ==> match listing_workspace(server@, crate::models::opt_view(resolved_workspace)) {
            None => res is ResolveWorkspace && final(cache)@ == old(cache)@,
            Some(w) => if w.len() == 0 {
                (res matches ListingStep::Answer(v) && v@.len() == 0) && final(cache)@ == old(cache)@
            } else {
                let key = crate::hydroserver::spec_datastream_cache_key(server@.normalized(), w);
                match old(cache)@.get(key) {
                    Some((at, listing)) => if cache_expired(at, now) {
                        (res matches ListingStep::Fetch(id, k) && id@ == w && k@ == key) && final(cache)@ == old(
                            cache,
                        )@.remove(key)
                    } else {
                        (res matches ListingStep::Answer(v) && summaries_view(v@) == listing) && final(cache)@
                            == old(cache)@
                    },
                    None => (res matches ListingStep::Fetch(id, k) && id@ == w && k@ == key) && final(cache)@
                        == old(cache)@,
                }
            },
        },
{
    if !server.is_configured() {
        return ListingStep::Answer(Vec::new());
    }
    let normalized = server.clone().normalized();
    let workspace_id = if !normalized.workspace_id.as_str().is_empty() {
        normalized.workspace_id.clone()
    } else {
        match resolved_workspace {
            Some(w) => w,
            None => return ListingStep::ResolveWorkspace,
        }
    };
    if workspace_id.as_str().is_empty() {
        return ListingStep::Answer(Vec::new());
    }
    let key = crate::hydroserver::datastream_cache_key(&normalized, workspace_id.as_str());
    match cache.get(key.as_str(), now) {
        Some(listing) => ListingStep::Answer(listing),
        None => ListingStep::Fetch(workspace_id, key),
    }
}

} // verus!
