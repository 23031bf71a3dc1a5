//! Tags: key/value annotations on a counter event.
//!
//! A caller hands in a [`TagSet`], a mapping from key to value. Before an
//! event leaves, the fixed `version` tag is appended to the caller's tags;
//! the caller's tags are never rewritten, so a caller-supplied `version`
//! key travels next to the appended one.

use vstd::prelude::*;

verus! {

/// The key of the tag that is appended to every event.
pub const VERSION_KEY: &'static str = "version";

/// The build version, the value of the appended `version` tag.
pub const BUILD_VERSION: &'static str = "0.1.0";

/// A tag as a pair of texts: key first, then value.
pub type TagText = (Seq<char>, Seq<char>);

/// One key/value annotation.
#[derive(Debug, Clone, PartialEq, Eq)]
pub struct Tag {
    pub key: String,
    pub value: String,
}

impl View for Tag {
    type V = TagText;

    open spec fn view(&self) -> TagText {
        (self.key@, self.value@)
    }
}

/// The tags of `tags`, each as a pair of texts, in the same order.
pub open spec fn tag_texts(tags: Seq<Tag>) -> Seq<TagText> {
    tags.map_values(|t: Tag| t@)
}

/// No key occurs at two positions of `s`.
pub open spec fn distinct_keys(s: Seq<TagText>) -> bool {
    forall|i: int, j: int| 0 <= i < j < s.len() ==> (#[trigger] s[i]).0 != (#[trigger] s[j]).0
}

/// Some position of `s` holds the key `key`.
pub open spec fn has_key(s: Seq<TagText>, key: Seq<char>) -> bool {
    exists|i: int| 0 <= i < s.len() && (#[trigger] s[i]).0 == key
}

/// A position of `s` that holds the key `key`, where there is one.
pub open spec fn key_index(s: Seq<TagText>, key: Seq<char>) -> int {
    choose|i: int| 0 <= i < s.len() && (#[trigger] s[i]).0 == key
}

/// The mapping that `s` spells out: each key that occurs, to the value beside it.
pub open spec fn as_map(s: Seq<TagText>) -> Map<Seq<char>, Seq<char>> {
    Map::new(|key: Seq<char>| has_key(s, key), |key: Seq<char>| s[key_index(s, key)].1)
}

/// The tag that is appended to every event: `version`, with the build version.
pub open spec fn version_tag() -> TagText {
    (VERSION_KEY@, BUILD_VERSION@)
}

/// What is sent for the caller's tags `caller`: the same tags in the same
/// order, then the `version` tag.
pub open spec fn outgoing(caller: Seq<TagText>) -> Seq<TagText> {
    caller.push(version_tag())
}

/// The tags of `s` that stand under the key `key`, in their order.
pub open spec fn tags_under(s: Seq<TagText>, key: Seq<char>) -> Seq<TagText> {
    s.filter(|tag: TagText| tag.0 == key)
}

/// The tags a caller supplied, in order; none where the caller gave no mapping.
pub open spec fn caller_entries(tags: Option<TagSet>) -> Seq<TagText> {
    match tags {
        Some(set) => set.entries(),
        None => Seq::empty(),
    }
}

/// A mapping from tag key to tag value, kept in the order in which the keys
/// were first inserted.
#[derive(Debug)]
pub struct TagSet {
    entries: Vec<Tag>,
}

impl View for TagSet {
    type V = Map<Seq<char>, Seq<char>>;

    /// The mapping itself, without the order.
    open spec fn view(&self) -> Map<Seq<char>, Seq<char>> {
        as_map(self.entries())
    }
}

impl TagSet {
    /// The tags in the order in which they are sent.
    pub closed spec fn entries(&self) -> Seq<TagText> {
        tag_texts(self.entries@)
    }

    /// Every key occurs once.
    #[verifier::type_invariant]
    pub open spec fn wf(&self) -> bool {
        distinct_keys(self.entries())
    }

    /// An empty mapping.
    pub fn new() -> (set: TagSet)
        ensures
            set.wf(),
            set@ == Map::<Seq<char>, Seq<char>>::empty(),
            set.entries() == Seq::<TagText>::empty(),
    {
        let set = TagSet { entries: Vec::new() };
        assert(set.entries() =~= Seq::<TagText>::empty());
        assert(set@ =~= Map::<Seq<char>, Seq<char>>::empty());
        set
    }

    /// The first position that holds `key`, if any does.
    fn position(&self, key: &String) -> (found: Option<usize>)
        ensures
            found matches Some(i) ==> i < self.entries().len() && self.entries()[i as int].0
                == key@,
            found is None ==> !has_key(self.entries(), key@),
    {
        let mut i: usize = 0;
        while i < self.entries.len()
            invariant
                i <= self.entries.len(),
                forall|j: int| 0 <= j < i ==> (#[trigger] self.entries()[j]).0 != key@,
            decreases self.entries.len() - i,
        {
            if self.entries[i].key == *key {
                return Some(i);
            }
            i = i + 1;
        }
        None
    }

    /// Maps `key` to `value`. A key that is already there keeps its place and
    /// gets the new value, and its old value is returned; a new key goes last.
    pub fn insert(&mut self, key: String, value: String) -> (previous: Option<String>)
        ensures
            final(self).wf(),
            final(self)@ == old(self)@.insert(key@, value@),
            match previous {
                Some(was) => old(self)@.contains_key(key@) && was@ == old(self)@[key@],
                None => !old(self)@.contains_key(key@),
            },
            final(self).entries() == if old(self)@.contains_key(key@) {
                old(self).entries().update(key_index(old(self).entries(), key@), (key@, value@))
            } else {
                old(self).entries().push((key@, value@))
            },
    {
        proof {
            use_type_invariant(&*self);
        }
        let found = self.position(&key);
        let ghost before = self.entries();
        // The vector is worked on outside the set, which holds no tag meanwhile.
        let mut entries: Vec<Tag> = Vec::new();
        core::mem::swap(&mut self.entries, &mut entries);
        let previous = match found {
            Some(i) => {
                proof {
                    lemma_key_index(before, key@, i as int);
                    lemma_update_value(before, i as int, value@);
                }
                let previous = entries[i].value.clone();
                entries.set(i, Tag { key, value });
                assert(tag_texts(entries@) =~= before.update(i as int, (key@, value@)));
                Some(previous)
            },
            None => {
                proof {
                    lemma_push_new_key(before, (key@, value@));
                }
                entries.push(Tag { key, value });
                assert(tag_texts(entries@) =~= before.push((key@, value@)));
                None
            },
        };
        core::mem::swap(&mut self.entries, &mut entries);
        previous
    }

    /// The value that `key` is mapped to, if any.
    pub fn get(&self, key: &str) -> (value: Option<&String>)
        ensures
            match value {
                Some(found) => self@.contains_key(key@) && found@ == self@[key@],
                None => !self@.contains_key(key@),
            },
    {
        proof {
            use_type_invariant(self);
        }
        let wanted = key.to_owned();
        match self.position(&wanted) {
            Some(i) => {
                proof {
                    lemma_key_index(self.entries(), key@, i as int);
                }
                Some(&self.entries[i].value)
            },
            None => None,
        }
    }

    /// The number of tags.
    pub fn len(&self) -> (n: usize)
        ensures
            self.wf(),
            n == self.entries().len(),
            n == self@.len(),
    {
        proof {
            use_type_invariant(self);
            lemma_map_len(self.entries());
        }
        self.entries.len()
    }
}

impl Clone for TagSet {
    /// A tag set with the same tags in the same order.
    fn clone(&self) -> (copy: TagSet)
        ensures
            copy.wf(),
            copy.entries() == self.entries(),
            copy@ == self@,
    {
        proof {
            use_type_invariant(self);
        }
        let mut entries: Vec<Tag> = Vec::new();
        let mut i: usize = 0;
        while i < self.entries.len()
            invariant
                i <= self.entries.len(),
                tag_texts(entries@) == self.entries().take(i as int),
            decreases self.entries.len() - i,
        {
            let tag = Tag { key: self.entries[i].key.clone(), value: self.entries[i].value.clone() };
            let ghost copied = tag_texts(entries@);
            entries.push(tag);
            assert(tag_texts(entries@) =~= copied.push(self.entries()[i as int]));
            assert(copied.push(self.entries()[i as int]) =~= self.entries().take(i + 1));
            i = i + 1;
        }
        assert(tag_texts(entries@) =~= self.entries());
        TagSet { entries }
    }
}

/// The tags that are sent for what the caller supplied: the caller's tags in
/// their order, then the `version` tag with the build version. The caller's
/// tags are left as they are, also one whose key is `version`.
pub fn outgoing_tags(tags: Option<TagSet>) -> (out: Vec<Tag>)
    ensures
        tag_texts(out@) == outgoing(caller_entries(tags)),
{
    let mut out = match tags {
        Some(set) => set.entries,
        None => Vec::new(),
    };
    let ghost caller = tag_texts(out@);
    assert(caller =~= caller_entries(tags));
    out.push(Tag { key: VERSION_KEY.to_owned(), value: BUILD_VERSION.to_owned() });
    assert(tag_texts(out@) =~= caller.push(version_tag()));
    out
}

/// Where no key is repeated, the position of a key is the one place that holds it.
pub proof fn lemma_key_index(s: Seq<TagText>, key: Seq<char>, i: int)
    requires
        distinct_keys(s),
        0 <= i < s.len(),
        s[i].0 == key,
    ensures
        has_key(s, key),
        key_index(s, key) == i,
        as_map(s).contains_key(key),
        as_map(s)[key] == s[i].1,
{
    let j = key_index(s, key);
    assert(s[j].0 == s[i].0);
}

/// Giving the key at position `i` a new value changes the mapping at that key
/// and nowhere else, and repeats no key.
pub proof fn lemma_update_value(s: Seq<TagText>, i: int, value: Seq<char>)
    requires
        distinct_keys(s),
        0 <= i < s.len(),
    ensures
        distinct_keys(s.update(i, (s[i].0, value))),
        as_map(s.update(i, (s[i].0, value))) == as_map(s).insert(s[i].0, value),
{
    let key = s[i].0;
    let t = s.update(i, (key, value));
    assert(distinct_keys(t)) by {
        assert forall|a: int, b: int| 0 <= a < b < t.len() implies (#[trigger] t[a]).0 != (
        #[trigger] t[b]).0 by {
            assert(t[a].0 == s[a].0);
            assert(t[b].0 == s[b].0);
        }
    }
    assert forall|k: Seq<char>| has_key(t, k) <==> has_key(s, k) by {
        if has_key(t, k) {
            let j = key_index(t, k);
            assert(s[j].0 == k);
        }
        if has_key(s, k) {
            let j = key_index(s, k);
            assert(t[j].0 == k);
        }
    }
    assert forall|k: Seq<char>| has_key(t, k) implies #[trigger] as_map(t)[k] == as_map(s).insert(
        key,
        value,
    )[k] by {
        let j = key_index(t, k);
        assert(s[j].0 == k);
        lemma_key_index(s, k, j);
        lemma_key_index(t, k, j);
    }
    assert(s[i].0 == key);
    assert(as_map(t) =~= as_map(s).insert(key, value));
}

/// Appending a tag whose key is new adds that key to the mapping and
/// changes nothing else, and repeats no key.
pub proof fn lemma_push_new_key(s: Seq<TagText>, tag: TagText)
    requires
        distinct_keys(s),
        !has_key(s, tag.0),
    ensures
        distinct_keys(s.push(tag)),
        as_map(s.push(tag)) == as_map(s).insert(tag.0, tag.1),
{
    let t = s.push(tag);
    assert(distinct_keys(t)) by {
        assert forall|a: int, b: int| 0 <= a < b < t.len() implies (#[trigger] t[a]).0 != (
        #[trigger] t[b]).0 by {
            assert(t[a] == s[a]);
            if b < s.len() {
                assert(t[b] == s[b]);
            }
        }
    }
    assert(t[s.len() as int].0 == tag.0);
    assert forall|k: Seq<char>| has_key(t, k) <==> (k == tag.0 || has_key(s, k)) by {
        if has_key(t, k) {
            let j = key_index(t, k);
            if j < s.len() {
                assert(s[j].0 == k);
            }
        }
        if has_key(s, k) {
            let j = key_index(s, k);
            assert(t[j].0 == k);
        }
    }
    assert forall|k: Seq<char>| has_key(t, k) implies #[trigger] as_map(t)[k] == as_map(s).insert(
        tag.0,
        tag.1,
    )[k] by {
        let j = key_index(t, k);
        lemma_key_index(t, k, j);
        if j < s.len() {
            assert(s[j].0 == k);
            lemma_key_index(s, k, j);
        }
    }
    assert(as_map(t) =~= as_map(s).insert(tag.0, tag.1));
}

/// A sequence without a repeated key spells out a finite mapping with one
/// key for each position.
pub proof fn lemma_map_len(s: Seq<TagText>)
    requires
        distinct_keys(s),
    ensures
        as_map(s).dom().finite(),
        as_map(s).len() == s.len(),
    decreases s.len(),
{
    if s.len() == 0 {
        assert(as_map(s) =~= Map::<Seq<char>, Seq<char>>::empty());
    } else {
        let head = s.drop_last();
        let last = s.last();
        lemma_map_len(head);
        assert(!has_key(head, last.0)) by {
            if has_key(head, last.0) {
                let i = key_index(head, last.0);
                assert(s[i].0 == s[s.len() - 1].0);
            }
        }
        assert(as_map(s).dom() =~= as_map(head).dom().insert(last.0)) by {
            assert forall|key: Seq<char>| has_key(s, key) <==> (key == last.0 || has_key(
                head,
                key,
            )) by {
                if has_key(s, key) {
                    let i = key_index(s, key);
                    if i < s.len() - 1 {
                        assert(head[i].0 == key);
                    }
                }
                if has_key(head, key) {
                    let i = key_index(head, key);
                    assert(s[i].0 == key);
                }
                if key == last.0 {
                    assert(s[s.len() - 1].0 == key);
                }
            }
        }
    }
}

/// Where no key is repeated, a tag occurs once if the mapping holds it and
/// not at all if it does not.
pub proof fn lemma_count_by_map(s: Seq<TagText>, tag: TagText)
    requires
        distinct_keys(s),
    ensures
        s.to_multiset().count(tag) == if as_map(s).contains_pair(tag.0, tag.1) {
            1nat
        } else {
            0nat
        },
{
    assert(s.no_duplicates()) by {
        assert forall|i: int, j: int| 0 <= i < s.len() && 0 <= j < s.len() && i != j implies s[i]
            != s[j] by {
            if i < j {
                assert(s[i].0 != s[j].0);
            } else {
                assert(s[j].0 != s[i].0);
            }
        }
    }
    s.lemma_multiset_has_no_duplicates();
    s.to_multiset_ensures();
    if s.contains(tag) {
        let i = choose|i: int| 0 <= i < s.len() && s[i] == tag;
        lemma_key_index(s, tag.0, i);
    }
    if as_map(s).contains_pair(tag.0, tag.1) {
        let i = key_index(s, tag.0);
        assert(s[i] == tag);
    }
}

/// What is sent is what the caller supplied and the `version` tag, each as
/// often as it is there. Under the key `version` stand the caller's tags of
/// that key, untouched, and behind them the appended one; under every other
/// key stands what the caller supplied.
pub proof fn lemma_outgoing_adds_version(caller: Seq<TagText>)
    ensures
        outgoing(caller).to_multiset() == caller.to_multiset().insert(version_tag()),
        tags_under(outgoing(caller), VERSION_KEY@) == tags_under(caller, VERSION_KEY@).push(
            version_tag(),
        ),
        forall|key: Seq<char>|
            key != VERSION_KEY@ ==> #[trigger] tags_under(outgoing(caller), key) == tags_under(
                caller,
                key,
            ),
{
    vstd::seq_lib::to_multiset_build(caller, version_tag());
    caller.lemma_filter_push(version_tag(), |tag: TagText| tag.0 == VERSION_KEY@);
    assert forall|key: Seq<char>| key != VERSION_KEY@ implies #[trigger] tags_under(
        outgoing(caller),
        key,
    ) == tags_under(caller, key) by {
        caller.lemma_filter_push(version_tag(), |tag: TagText| tag.0 == key);
    }
}

/// Two tag sets that map the same keys to the same values send the same
/// tags, each as often as the other, in whatever order they were filled.
pub proof fn lemma_outgoing_ignores_order(a: TagSet, b: TagSet)
    requires
        a.wf(),
        b.wf(),
        a@ == b@,
    ensures
        a.entries().to_multiset() == b.entries().to_multiset(),
        outgoing(a.entries()).to_multiset() == outgoing(b.entries()).to_multiset(),
{
    assert forall|tag: TagText|
        a.entries().to_multiset().count(tag) == b.entries().to_multiset().count(tag) by {
        lemma_count_by_map(a.entries(), tag);
        lemma_count_by_map(b.entries(), tag);
    }
    assert(a.entries().to_multiset() =~= b.entries().to_multiset());
    lemma_outgoing_adds_version(a.entries());
    lemma_outgoing_adds_version(b.entries());
}

} // verus!
