//! The tag registry: names of tags, the numbers assigned to them, and the
//! metadata kept for each number.
//!
//! Numbers are assigned from 1 upwards in the order in which names first
//! appear, and are never reused. A name keeps the number and the metadata it
//! was first registered with. Names and metadata are each kept in a hash
//! map.

use std::collections::HashMap;
use vstd::prelude::*;
use vstd::hash_map::StringHashMap;
use vstd::std_specs::hash::group_hash_axioms;
use vstd::string::{StrSliceExecFns, StringExecFns};
use crate::ieee::{double_le, le};
use crate::text::{str_equal, text_view};

verus! {

broadcast use group_hash_axioms;

/// Metadata of one tag. The engineering range is a pair of doubles, held as
/// bit patterns, whose low end is not above its high end.
#[derive(Debug)]
pub struct TagMeta {
    name: String,
    unit: String,
    mqtt_topic: String,
    historian_tag: String,
    alarm_group: String,
    eng_low: u64,
    eng_high: u64,
}

/// Mathematical view of a [`TagMeta`].
pub struct TagMetaView {
    pub name: Seq<char>,
    pub unit: Seq<char>,
    pub mqtt_topic: Seq<char>,
    pub historian_tag: Seq<char>,
    pub alarm_group: Seq<char>,
    pub eng_low: u64,
    pub eng_high: u64,
}

impl View for TagMeta {
    type V = TagMetaView;

    closed spec fn view(&self) -> TagMetaView {
        TagMetaView {
            name: self.name@,
            unit: self.unit@,
            mqtt_topic: self.mqtt_topic@,
            historian_tag: self.historian_tag@,
            alarm_group: self.alarm_group@,
            eng_low: self.eng_low,
            eng_high: self.eng_high,
        }
    }
}

impl Clone for TagMeta {
    fn clone(&self) -> (copy: TagMeta)
        ensures
            copy@ == self@,
    {
        proof {
            use_type_invariant(self);
        }
        TagMeta {
            name: self.name.clone(),
            unit: self.unit.clone(),
            mqtt_topic: self.mqtt_topic.clone(),
            historian_tag: self.historian_tag.clone(),
            alarm_group: self.alarm_group.clone(),
            eng_low: self.eng_low,
            eng_high: self.eng_high,
        }
    }
}

impl TagMeta {
    #[verifier::type_invariant]
    spec fn range_ordered(&self) -> bool {
        le(self.eng_low, self.eng_high)
    }

    /// Metadata with the given attributes and engineering range. There is
    /// none when the range's low end is above its high end or either end is a
    /// NaN.
    pub fn new(
        name: String,
        unit: String,
        mqtt_topic: String,
        historian_tag: String,
        alarm_group: String,
        eng_low: u64,
        eng_high: u64,
    ) -> (meta: Option<TagMeta>)
        ensures
            meta is Some <==> le(eng_low, eng_high),
            meta matches Some(m) ==> m@ == (TagMetaView {
                name: name@,
                unit: unit@,
                mqtt_topic: mqtt_topic@,
                historian_tag: historian_tag@,
                alarm_group: alarm_group@,
                eng_low,
                eng_high,
            }),
    {
        if double_le(eng_low, eng_high) {
            Some(TagMeta { name, unit, mqtt_topic, historian_tag, alarm_group, eng_low, eng_high })
        } else {
            None
        }
    }

    pub fn name(&self) -> (name: &String)
        ensures
            name@ == self@.name,
    {
        &self.name
    }

    pub fn unit(&self) -> (unit: &String)
        ensures
            unit@ == self@.unit,
    {
        &self.unit
    }

    pub fn mqtt_topic(&self) -> (topic: &String)
        ensures
            topic@ == self@.mqtt_topic,
    {
        &self.mqtt_topic
    }

    pub fn historian_tag(&self) -> (tag: &String)
        ensures
            tag@ == self@.historian_tag,
    {
        &self.historian_tag
    }

    pub fn alarm_group(&self) -> (group: &String)
        ensures
            group@ == self@.alarm_group,
    {
        &self.alarm_group
    }

    /// The engineering range, low end first; the low end is not above the
    /// high end.
    pub fn eng_range(&self) -> (range: (u64, u64))
        ensures
            range == (self@.eng_low, self@.eng_high),
            le(range.0, range.1),
    {
        proof {
            use_type_invariant(self);
        }
        (self.eng_low, self.eng_high)
    }

    /// The attribute of the given name; see [`attribute`].
    pub fn attr(&self, key: &str) -> (value: Option<String>)
        ensures
            text_view(value) == attribute(self@, key@),
    {
        if str_equal(key, "name") {
            Some(self.name.clone())
        } else if str_equal(key, "unit") {
            Some(self.unit.clone())
        } else if str_equal(key, "mqtt_topic") {
            Some(self.mqtt_topic.clone())
        } else if str_equal(key, "historian_tag") {
            Some(self.historian_tag.clone())
        } else if str_equal(key, "alarm_group") {
            Some(self.alarm_group.clone())
        } else {
            None
        }
    }
}

/// The bit pattern of 150.0, the high end of the range of a tag that arrives
/// unregistered.
pub const DEFAULT_ENG_HIGH: u64 = 0x4062_C000_0000_0000;

/// A dotted tag name with every dot turned into a slash.
pub open spec fn slashed(name: Seq<char>) -> Seq<char> {
    name.map_values(
        |c: char|
            if c == '.' {
                '/'
            } else {
                c
            },
    )
}

/// The metadata that a tag gets when it arrives unregistered: it is named
/// after itself, measured in degrees Celsius, published under `iiot/` and its
/// name with slashes for dots, in the alarm group `default`, over the range
/// from 0.0 to 150.0.
pub open spec fn template(tag_name: Seq<char>) -> TagMetaView {
    TagMetaView {
        name: tag_name,
        unit: "°C"@,
        mqtt_topic: "iiot/"@ + slashed(tag_name),
        historian_tag: Seq::empty(),
        alarm_group: "default"@,
        eng_low: 0,
        eng_high: DEFAULT_ENG_HIGH,
    }
}

impl TagMeta {
    /// The metadata for a tag that arrives unregistered; see [`template`].
    pub fn template_for(tag_name: &str) -> (meta: TagMeta)
        ensures
            meta@ == template(tag_name@),
    {
        let n = tag_name.unicode_len();
        let mut topic = String::from_str("iiot/");
        let mut i: usize = 0;
        while i < n
            invariant
                i <= n,
                n == tag_name@.len(),
                topic@ == "iiot/"@ + slashed(tag_name@.take(i as int)),
            decreases n - i,
        {
            let ghost done = tag_name@.take(i as int);
            let ghost more = tag_name@.take(i + 1);
            if tag_name.get_char(i) == '.' {
                proof {
                    reveal_strlit("/");
                    assert("/"@ =~= seq!['/']);
                }
                topic.append("/");
            } else {
                topic.append(tag_name.substring_char(i, i + 1));
            }
            assert(topic@ =~= "iiot/"@ + slashed(more)) by {
                assert(more =~= done.push(tag_name@[i as int]));
                assert(tag_name@.subrange(i as int, i + 1) =~= seq![tag_name@[i as int]]);
                assert(slashed(more) =~= slashed(done) + slashed(seq![tag_name@[i as int]]));
            }
            i += 1;
        }
        assert(tag_name@.take(n as int) =~= tag_name@);
        TagMeta {
            name: tag_name.to_owned(),
            unit: "°C".to_owned(),
            mqtt_topic: topic,
            historian_tag: String::new(),
            alarm_group: "default".to_owned(),
            eng_low: 0,
            eng_high: DEFAULT_ENG_HIGH,
        }
    }
}

/// The text attribute of a tag under a key: one of `name`, `unit`,
/// `mqtt_topic`, `historian_tag`, `alarm_group`; no other key has a value.
pub open spec fn attribute(meta: TagMetaView, key: Seq<char>) -> Option<Seq<char>> {
    if key == "name"@ {
        Some(meta.name)
    } else if key == "unit"@ {
        Some(meta.unit)
    } else if key == "mqtt_topic"@ {
        Some(meta.mqtt_topic)
    } else if key == "historian_tag"@ {
        Some(meta.historian_tag)
    } else if key == "alarm_group"@ {
        Some(meta.alarm_group)
    } else {
        None
    }
}

/// Mathematical view of the registry.
pub struct RegistryView {
    /// The number of each registered name.
    pub ids: Map<Seq<char>, u32>,
    /// The metadata of each assigned number.
    pub tags: Map<u32, TagMetaView>,
    /// The number that the next new name gets.
    pub next_id: nat,
}

/// What holds of every registry: numbers start at 1 and stay below
/// `next_id`; metadata is kept for exactly the assigned numbers; every name
/// has an assigned number, no two names share one, and every assigned number
/// belongs to a name; every engineering range is ordered.
pub open spec fn valid(v: RegistryView) -> bool {
    &&& 1 <= v.next_id <= u32::MAX
    &&& forall|id: u32| #[trigger] v.tags.contains_key(id) <==> 1 <= id < v.next_id
    &&& forall|n: Seq<char>| #[trigger] v.ids.contains_key(n) ==> 1 <= v.ids[n] < v.next_id
    &&& forall|n: Seq<char>, m: Seq<char>|
        #[trigger] v.ids.contains_key(n) && #[trigger] v.ids.contains_key(m) && v.ids[n]
            == v.ids[m] ==> n == m
    &&& forall|id: u32| #[trigger]
        v.tags.contains_key(id) ==> exists|n: Seq<char>| #[trigger]
            v.ids.contains_key(n) && v.ids[n] == id
    &&& forall|id: u32|
        #[trigger] v.tags.contains_key(id) ==> le(v.tags[id].eng_low, v.tags[id].eng_high)
}

/// The registry with no tag.
pub open spec fn empty() -> RegistryView {
    RegistryView { ids: Map::empty(), tags: Map::empty(), next_id: 1 }
}

/// One call of `get_or_create`: the registry afterwards and the number
/// returned. A known name changes nothing and gives its number; a new name
/// gets `next_id`, with the metadata handed in.
pub open spec fn created(v: RegistryView, name: Seq<char>, meta: TagMetaView) -> (
    RegistryView,
    u32,
) {
    if v.ids.contains_key(name) {
        (v, v.ids[name])
    } else {
        (
            RegistryView {
                ids: v.ids.insert(name, v.next_id as u32),
                tags: v.tags.insert(v.next_id as u32, meta),
                next_id: v.next_id + 1,
            },
            v.next_id as u32,
        )
    }
}

/// The text attribute of a tag number under a key; none for an unknown
/// number.
pub open spec fn attribute_of(v: RegistryView, tag_id: u32, key: Seq<char>) -> Option<Seq<char>> {
    if v.tags.contains_key(tag_id) {
        attribute(v.tags[tag_id], key)
    } else {
        None
    }
}

/// The engineering range of a tag number; none for an unknown number.
pub open spec fn range_of(v: RegistryView, tag_id: u32) -> Option<(u64, u64)> {
    if v.tags.contains_key(tag_id) {
        Some((v.tags[tag_id].eng_low, v.tags[tag_id].eng_high))
    } else {
        None
    }
}

spec fn ranges_ordered(tags: Map<u32, TagMeta>) -> bool {
    forall|id: u32| #[trigger] tags.contains_key(id) ==> le(tags[id]@.eng_low, tags[id]@.eng_high)
}

spec fn model(names: Map<Seq<char>, u32>, tags: Map<u32, TagMeta>, next_id: u32) -> RegistryView {
    RegistryView {
        ids: names,
        tags: Map::new(|id: u32| tags.contains_key(id), |id: u32| tags[id]@),
        next_id: next_id as nat,
    }
}

/// Whether the names are numbered as the metadata is kept: metadata is kept
/// for exactly the numbers from 1 up to `next_id`, every name has one of
/// them, no two names share one, and each of them belongs to a name.
spec fn numbered(names: Map<Seq<char>, u32>, tags: Map<u32, TagMeta>, next_id: u32) -> bool {
    &&& 1 <= next_id
    &&& forall|id: u32| #[trigger] tags.contains_key(id) <==> 1 <= id < next_id
    &&& forall|n: Seq<char>| #[trigger] names.contains_key(n) ==> 1 <= names[n] < next_id
    &&& forall|n: Seq<char>, m: Seq<char>|
        #[trigger] names.contains_key(n) && #[trigger] names.contains_key(m) && names[n]
            == names[m] ==> n == m
    &&& forall|id: u32| 1 <= id < next_id ==> #[trigger] has_name(names, id)
}

/// Whether some name has the number `id`.
spec fn has_name(names: Map<Seq<char>, u32>, id: u32) -> bool {
    exists|n: Seq<char>| #[trigger] names.contains_key(n) && names[n] == id
}

proof fn lemma_model_valid(names: Map<Seq<char>, u32>, tags: Map<u32, TagMeta>, next_id: u32)
    requires
        numbered(names, tags, next_id),
        ranges_ordered(tags),
    ensures
        valid(model(names, tags, next_id)),
{
    let v = model(names, tags, next_id);
    assert forall|id: u32| #[trigger] v.tags.contains_key(id) implies exists|n: Seq<char>| #[trigger]
        v.ids.contains_key(n) && v.ids[n] == id by {
        assert(tags.contains_key(id));
        assert(has_name(names, id));
        let n = choose|n: Seq<char>| #[trigger] names.contains_key(n) && names[n] == id;
        assert(v.ids.contains_key(n) && v.ids[n] == id);
    }
    assert forall|id: u32| #[trigger] v.tags.contains_key(id) implies le(
        v.tags[id].eng_low,
        v.tags[id].eng_high,
    ) by {
        assert(tags.contains_key(id));
    }
    assert forall|id: u32| #[trigger] v.tags.contains_key(id) <==> 1 <= id < v.next_id by {
        assert(v.tags.contains_key(id) == tags.contains_key(id));
    }
}

proof fn lemma_model_grows(
    names: Map<Seq<char>, u32>,
    tags: Map<u32, TagMeta>,
    next_id: u32,
    name: Seq<char>,
    meta: TagMeta,
)
    requires
        numbered(names, tags, next_id),
        ranges_ordered(tags),
        le(meta@.eng_low, meta@.eng_high),
        !names.contains_key(name),
        next_id < u32::MAX,
    ensures
        numbered(names.insert(name, next_id), tags.insert(next_id, meta), (next_id + 1) as u32),
        ranges_ordered(tags.insert(next_id, meta)),
        model(names.insert(name, next_id), tags.insert(next_id, meta), (next_id + 1) as u32)
            == created(model(names, tags, next_id), name, meta@).0,
        created(model(names, tags, next_id), name, meta@).1 == next_id,
{
    let grown_names = names.insert(name, next_id);
    let grown = tags.insert(next_id, meta);
    let next = (next_id + 1) as u32;
    assert forall|i: u32| 1 <= i < next implies #[trigger] has_name(grown_names, i) by {
        if i == next_id {
            assert(grown_names.contains_key(name) && grown_names[name] == i);
        } else {
            assert(has_name(names, i));
            let n = choose|n: Seq<char>| #[trigger] names.contains_key(n) && names[n] == i;
            assert(grown_names.contains_key(n) && grown_names[n] == i);
        }
    }
    assert forall|n: Seq<char>, m: Seq<char>|
        #[trigger] grown_names.contains_key(n) && #[trigger] grown_names.contains_key(m)
            && grown_names[n] == grown_names[m] implies n == m by {
        if n != name {
            assert(names.contains_key(n));
        }
        if m != name {
            assert(names.contains_key(m));
        }
    }
    assert forall|n: Seq<char>| #[trigger] grown_names.contains_key(n) implies 1 <= grown_names[n]
        < next by {
        if n != name {
            assert(names.contains_key(n));
        }
    }
    assert forall|i: u32| #[trigger] grown.contains_key(i) <==> 1 <= i < next by {
        if i != next_id {
            assert(grown.contains_key(i) == tags.contains_key(i));
        }
    }
    assert forall|i: u32| #[trigger] grown.contains_key(i) implies le(
        grown[i]@.eng_low,
        grown[i]@.eng_high,
    ) by {
        if i != next_id {
            assert(tags.contains_key(i));
        }
    }
    let after = model(grown_names, grown, next);
    let expected = created(model(names, tags, next_id), name, meta@).0;
    assert(after.tags =~= expected.tags);
}

/// The tag registry.
pub struct TagRegistry {
    tags: HashMap<u32, TagMeta>,
    name_to_id: StringHashMap<u32>,
    next_id: u32,
}

impl View for TagRegistry {
    type V = RegistryView;

    closed spec fn view(&self) -> RegistryView {
        model(self.name_to_id@, self.tags@, self.next_id)
    }
}

impl TagRegistry {
    #[verifier::type_invariant]
    spec fn well_formed(&self) -> bool {
        &&& numbered(self.name_to_id@, self.tags@, self.next_id)
        &&& ranges_ordered(self.tags@)
    }

    /// A registry with no tag; the first name gets number 1.
    pub fn new() -> (registry: TagRegistry)
        ensures
            registry@ == empty(),
            valid(registry@),
    {
        let registry = TagRegistry {
            tags: HashMap::new(),
            name_to_id: StringHashMap::new(),
            next_id: 1,
        };
        proof {
            assert(registry@.tags =~= empty().tags);
            lemma_model_valid(registry.name_to_id@, registry.tags@, registry.next_id);
        }
        registry
    }

    /// The number of `name`. A name that is already registered keeps its
    /// number and its metadata: `meta` is dropped. A new name gets the next
    /// number, and `meta` is kept for it. See [`created`].
    ///
    /// A new name needs a number that is still free: the registry holds at
    /// most `u32::MAX - 1` names.
    pub fn get_or_create(&mut self, name: &str, meta: TagMeta) -> (id: u32)
        requires
            old(self)@.ids.contains_key(name@) || old(self)@.next_id < u32::MAX,
        ensures
            final(self)@ == created(old(self)@, name@, meta@).0,
            id == created(old(self)@, name@, meta@).1,
            valid(old(self)@),
            valid(final(self)@),
            id >= 1,
    {
        proof {
            use_type_invariant(&*self);
            use_type_invariant(&meta);
            lemma_model_valid(self.name_to_id@, self.tags@, self.next_id);
        }
        if let Some(id) = self.name_to_id.get(name) {
            return *id;
        }
        let id: u32 = self.next_id;
        proof {
            lemma_model_grows(self.name_to_id@, self.tags@, self.next_id, name@, meta);
            lemma_model_valid(
                self.name_to_id@.insert(name@, id),
                self.tags@.insert(id, meta),
                (id + 1) as u32,
            );
        }
        let mut taken = TagRegistry::new();
        core::mem::swap(self, &mut taken);
        let TagRegistry { tags, name_to_id, next_id } = taken;
        let mut tags = tags;
        let mut name_to_id = name_to_id;
        name_to_id.insert(name.to_owned(), id);
        tags.insert(id, meta);
        *self = TagRegistry { tags, name_to_id, next_id: next_id + 1 };
        id
    }

    /// The text attribute of a tag under a key; see [`attribute_of`]. There
    /// is none for an unknown number or an unknown key. Number 0 is never
    /// known, nor is any number from `next_id` on.
    pub fn get_attr(&self, tag_id: u32, key: &str) -> (value: Option<String>)
        ensures
            text_view(value) == attribute_of(self@, tag_id, key@),
            valid(self@),
    {
        proof {
            use_type_invariant(self);
            lemma_model_valid(self.name_to_id@, self.tags@, self.next_id);
        }
        match self.tags.get(&tag_id) {
            Some(meta) => meta.attr(key),
            None => None,
        }
    }

    /// The engineering range of a tag, low end first; see [`range_of`]. There
    /// is none for an unknown number. The low end is not above the high end.
    pub fn get_eng_range(&self, tag_id: u32) -> (range: Option<(u64, u64)>)
        ensures
            range == range_of(self@, tag_id),
            range matches Some(r) ==> le(r.0, r.1),
            valid(self@),
    {
        proof {
            use_type_invariant(self);
            lemma_model_valid(self.name_to_id@, self.tags@, self.next_id);
        }
        match self.tags.get(&tag_id) {
            Some(meta) => Some(meta.eng_range()),
            None => None,
        }
    }

    /// The number of `name`, if it is registered.
    pub fn lookup(&self, name: &str) -> (id: Option<u32>)
        ensures
            id is Some <==> self@.ids.contains_key(name@),
            id matches Some(n) ==> n == self@.ids[name@],
            valid(self@),
    {
        proof {
            use_type_invariant(self);
            lemma_model_valid(self.name_to_id@, self.tags@, self.next_id);
        }
        match self.name_to_id.get(name) {
            Some(id) => Some(*id),
            None => None,
        }
    }

    /// Whether `get_or_create` can be called with `name`: the name is
    /// registered, or a number is still free for it.
    pub fn has_room_for(&self, name: &str) -> (ok: bool)
        ensures
            ok == (self@.ids.contains_key(name@) || self@.next_id < u32::MAX),
            valid(self@),
    {
        proof {
            use_type_invariant(self);
            lemma_model_valid(self.name_to_id@, self.tags@, self.next_id);
        }
        self.next_id < u32::MAX || self.name_to_id.contains_key(name)
    }

    /// How many tags are registered.
    pub fn len(&self) -> (n: usize)
        ensures
            n + 1 == self@.next_id,
            valid(self@),
    {
        proof {
            use_type_invariant(self);
            lemma_model_valid(self.name_to_id@, self.tags@, self.next_id);
        }
        (self.next_id - 1) as usize
    }
}

/// In a valid registry, number 0 and every number from `next_id` on are
/// unknown: they have no attribute under any key and no engineering range.
pub proof fn lemma_unassigned_numbers_are_unknown(v: RegistryView, tag_id: u32, key: Seq<char>)
    requires
        valid(v),
        tag_id == 0 || tag_id >= v.next_id,
    ensures
        attribute_of(v, tag_id, key) is None,
        range_of(v, tag_id) is None,
{
    assert(!v.tags.contains_key(tag_id));
}

/// The registry after a run of `get_or_create` calls, each given as the name
/// and the metadata handed in.
pub open spec fn after_calls(v: RegistryView, calls: Seq<(Seq<char>, TagMetaView)>) -> RegistryView
    decreases calls.len(),
{
    if calls.len() == 0 {
        v
    } else {
        created(after_calls(v, calls.drop_last()), calls.last().0, calls.last().1).0
    }
}

/// The number that call number `i` of a run returns.
pub open spec fn id_at(v: RegistryView, calls: Seq<(Seq<char>, TagMetaView)>, i: int) -> u32 {
    created(after_calls(v, calls.take(i)), calls[i].0, calls[i].1).1
}

/// Whether the engineering range of every metadata handed in is ordered.
pub open spec fn ranges_of_calls_ordered(calls: Seq<(Seq<char>, TagMetaView)>) -> bool {
    forall|i: int| 0 <= i < calls.len() ==> le((#[trigger] calls[i]).1.eng_low, calls[i].1.eng_high)
}

/// One call keeps a registry valid, keeps every name's number, and never
/// lowers `next_id`; the number returned is registered for the name.
pub proof fn lemma_created_keeps(v: RegistryView, name: Seq<char>, meta: TagMetaView)
    requires
        valid(v),
        le(meta.eng_low, meta.eng_high),
        created(v, name, meta).0.next_id <= u32::MAX,
    ensures
        valid(created(v, name, meta).0),
        v.next_id <= created(v, name, meta).0.next_id,
        created(v, name, meta).0.ids.contains_key(name),
        created(v, name, meta).0.ids[name] == created(v, name, meta).1,
        forall|n: Seq<char>| #[trigger]
            v.ids.contains_key(n) ==> created(v, name, meta).0.ids.contains_key(n) && created(
                v,
                name,
                meta,
            ).0.ids[n] == v.ids[n],
{
    let w = created(v, name, meta).0;
    if !v.ids.contains_key(name) {
        let id = v.next_id as u32;
        assert forall|i: u32| #[trigger] w.tags.contains_key(i) implies exists|n: Seq<char>| #[trigger]
            w.ids.contains_key(n) && w.ids[n] == i by {
            if i == id {
                assert(w.ids.contains_key(name) && w.ids[name] == i);
            } else {
                assert(v.tags.contains_key(i));
                let n = choose|n: Seq<char>| #[trigger] v.ids.contains_key(n) && v.ids[n] == i;
                assert(w.ids.contains_key(n) && w.ids[n] == i);
            }
        }
        assert forall|n: Seq<char>, m: Seq<char>|
            #[trigger] w.ids.contains_key(n) && #[trigger] w.ids.contains_key(m) && w.ids[n]
                == w.ids[m] implies n == m by {
            if n != name {
                assert(v.ids.contains_key(n));
            }
            if m != name {
                assert(v.ids.contains_key(m));
            }
        }
        assert forall|n: Seq<char>| #[trigger] w.ids.contains_key(n) implies 1 <= w.ids[n]
            < w.next_id by {
            if n != name {
                assert(v.ids.contains_key(n));
            }
        }
        assert forall|i: u32| #[trigger] w.tags.contains_key(i) <==> 1 <= i < w.next_id by {
            if i != id {
                assert(w.tags.contains_key(i) == v.tags.contains_key(i));
            }
        }
        assert forall|i: u32| #[trigger] w.tags.contains_key(i) implies le(
            w.tags[i].eng_low,
            w.tags[i].eng_high,
        ) by {
            if i != id {
                assert(v.tags.contains_key(i));
            }
        }
    }
}

/// Over any run of `get_or_create` calls on a valid registry that does not
/// run out of numbers: two calls return the same number exactly when they
/// name the same tag, and every number returned is at least 1 and below the
/// final `next_id`.
pub proof fn lemma_ids_follow_names(
    v: RegistryView,
    calls: Seq<(Seq<char>, TagMetaView)>,
    i: int,
    j: int,
)
    requires
        valid(v),
        ranges_of_calls_ordered(calls),
        after_calls(v, calls).next_id <= u32::MAX,
        0 <= i < calls.len(),
        0 <= j < calls.len(),
    ensures
        valid(after_calls(v, calls)),
        calls[i].0 == calls[j].0 <==> id_at(v, calls, i) == id_at(v, calls, j),
        1 <= id_at(v, calls, i) < after_calls(v, calls).next_id,
{
    lemma_run(v, calls, i);
    lemma_run(v, calls, j);
    let end = after_calls(v, calls);
    assert(end.ids.contains_key(calls[i].0) && end.ids.contains_key(calls[j].0));
}

/// Over a run as in [`lemma_ids_follow_names`], the registry stays valid and
/// the number returned by call `i` is the one the final registry holds for
/// that call's name.
pub proof fn lemma_run(v: RegistryView, calls: Seq<(Seq<char>, TagMetaView)>, i: int)
    requires
        valid(v),
        ranges_of_calls_ordered(calls),
        after_calls(v, calls).next_id <= u32::MAX,
        0 <= i < calls.len(),
    ensures
        valid(after_calls(v, calls)),
        v.next_id <= after_calls(v, calls).next_id,
        after_calls(v, calls).ids.contains_key(calls[i].0),
        after_calls(v, calls).ids[calls[i].0] == id_at(v, calls, i),
    decreases calls.len(),
{
    let front = calls.drop_last();
    let last = calls.last();
    let mid = after_calls(v, front);
    lemma_prefix_valid(v, front, calls.len() - 1, after_calls(v, calls).next_id);
    assert(mid.next_id <= created(mid, last.0, last.1).0.next_id);
    assert(le(last.1.eng_low, last.1.eng_high));
    lemma_created_keeps(mid, last.0, last.1);
    if i == calls.len() - 1 {
        assert(calls.take(i) =~= front);
    } else {
        assert(ranges_of_calls_ordered(front)) by {
            assert forall|k: int| 0 <= k < front.len() implies le(
                (#[trigger] front[k]).1.eng_low,
                front[k].1.eng_high,
            ) by {
                assert(front[k] == calls[k]);
            }
        }
        lemma_run(v, front, i);
        assert(front.take(i) =~= calls.take(i));
        assert(front[i] == calls[i]);
    }
}

/// A run that ends with `next_id` within a bound stays valid and within the
/// bound throughout.
proof fn lemma_prefix_valid(
    v: RegistryView,
    calls: Seq<(Seq<char>, TagMetaView)>,
    n: int,
    bound: nat,
)
    requires
        valid(v),
        n == calls.len(),
        bound <= u32::MAX,
        forall|k: int| 0 <= k < calls.len() ==> le((#[trigger] calls[k]).1.eng_low, calls[k].1.eng_high),
        after_calls(v, calls).next_id <= bound,
    ensures
        valid(after_calls(v, calls)),
        v.next_id <= after_calls(v, calls).next_id,
    decreases calls.len(),
{
    if calls.len() > 0 {
        let front = calls.drop_last();
        let last = calls.last();
        let mid = after_calls(v, front);
        assert(mid.next_id <= created(mid, last.0, last.1).0.next_id);
        assert forall|k: int| 0 <= k < front.len() implies le(
            (#[trigger] front[k]).1.eng_low,
            front[k].1.eng_high,
        ) by {
            assert(front[k] == calls[k]);
        }
        lemma_prefix_valid(v, front, n - 1, bound);
        lemma_created_keeps(mid, last.0, last.1);
    }
}

} // verus!
