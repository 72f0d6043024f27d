//! The attribute store that any tagged node carries.
//!
//! A store is an ordered list of `(name, value)` pairs with distinct names.
//! Setting a name that is already present replaces its value where it stands;
//! a new name goes to the end. Rendering walks the store in that order.
use vstd::prelude::*;
use crate::escape::{escape, write_escaped};

verus! {

/// The model of an attribute store: its `(name, value)` pairs in store order.
pub type AttributesView = Seq<(Seq<char>, Seq<char>)>;

/// No attribute name occurs twice.
pub open spec fn keys_distinct(attrs: AttributesView) -> bool {
    forall|i: int, j: int| 0 <= i < j < attrs.len() ==> attrs[i].0 != attrs[j].0
}

/// Some pair of `attrs` is named `key`.
pub open spec fn has_key(attrs: AttributesView, key: Seq<char>) -> bool {
    exists|i: int| 0 <= i < attrs.len() && (#[trigger] attrs[i]).0 == key
}

/// The position of a pair named `key`; meaningful where `has_key` holds, and
/// the only such position where the names are distinct.
pub open spec fn key_index(attrs: AttributesView, key: Seq<char>) -> int {
    choose|i: int| 0 <= i < attrs.len() && (#[trigger] attrs[i]).0 == key
}

/// The store after `key` was set to `value`: an existing pair keeps its
/// position and takes the new value, a new name is appended.
pub open spec fn set_attribute(
    attrs: AttributesView,
    key: Seq<char>,
    value: Seq<char>,
) -> AttributesView {
    if has_key(attrs, key) {
        attrs.update(key_index(attrs, key), (key, value))
    } else {
        attrs.push((key, value))
    }
}

/// The value stored under `key`, if any.
pub open spec fn get_attribute(attrs: AttributesView, key: Seq<char>) -> Option<Seq<char>> {
    if has_key(attrs, key) {
        Some(attrs[key_index(attrs, key)].1)
    } else {
        None
    }
}

/// One rendered pair: a space, the name, and the escaped value in double
/// quotes.
pub open spec fn attribute_html(pair: (Seq<char>, Seq<char>)) -> Seq<char> {
    " "@ + pair.0 + "=\""@ + escape(pair.1) + "\""@
}

/// The rendered store: every pair in store order, nothing for an empty store.
pub open spec fn attributes_html(attrs: AttributesView) -> Seq<char>
    decreases attrs.len(),
{
    if attrs.len() == 0 {
        Seq::empty()
    } else {
        attributes_html(attrs.drop_last()) + attribute_html(attrs.last())
    }
}

/// Where the names are distinct, a name is found only at its own position.
pub proof fn lemma_key_index_unique(attrs: AttributesView, i: int)
    requires
        keys_distinct(attrs),
        0 <= i < attrs.len(),
    ensures
        has_key(attrs, attrs[i].0),
        key_index(attrs, attrs[i].0) == i,
{
    let key = attrs[i].0;
    assert(has_key(attrs, key));
    let j = key_index(attrs, key);
    if j < i {
        assert(attrs[j].0 != attrs[i].0);
    } else if i < j {
        assert(attrs[i].0 != attrs[j].0);
    }
}

/// Setting an attribute keeps the names distinct.
pub proof fn lemma_set_keeps_distinct(attrs: AttributesView, key: Seq<char>, value: Seq<char>)
    requires
        keys_distinct(attrs),
    ensures
        keys_distinct(set_attribute(attrs, key, value)),
{
    let after = set_attribute(attrs, key, value);
    assert forall|i: int, j: int| 0 <= i < j < after.len() implies after[i].0 != after[j].0 by {
        if has_key(attrs, key) {
            assert(after[i].0 == attrs[i].0);
            assert(after[j].0 == attrs[j].0);
        } else if j == attrs.len() {
            assert(attrs[i].0 != key);
        }
    }
}

/// Setting a name that is present changes the pair of that name and no
/// other, and keeps the length of the store.
pub proof fn lemma_set_present(attrs: AttributesView, key: Seq<char>, value: Seq<char>)
    requires
        has_key(attrs, key),
    ensures
        set_attribute(attrs, key, value).len() == attrs.len(),
        set_attribute(attrs, key, value)[key_index(attrs, key)] == (key, value),
        forall|i: int|
            0 <= i < attrs.len() ==> (#[trigger] set_attribute(attrs, key, value)[i]).0
                == attrs[i].0,
        forall|i: int|
            0 <= i < attrs.len() && i != key_index(attrs, key) ==> (#[trigger] set_attribute(
                attrs,
                key,
                value,
            )[i]) == attrs[i],
{
}

/// Setting a new name makes the store one longer: the new pair comes last,
/// behind the pairs that were there.
pub proof fn lemma_set_absent(attrs: AttributesView, key: Seq<char>, value: Seq<char>)
    requires
        !has_key(attrs, key),
    ensures
        set_attribute(attrs, key, value) == attrs + seq![(key, value)],
{
    assert(set_attribute(attrs, key, value) =~= attrs + seq![(key, value)]);
}

/// After `key` was set to `value`, `value` is what is stored under `key`.
pub proof fn lemma_get_after_set(attrs: AttributesView, key: Seq<char>, value: Seq<char>)
    requires
        keys_distinct(attrs),
    ensures
        get_attribute(set_attribute(attrs, key, value), key) == Some(value),
{
    let after = set_attribute(attrs, key, value);
    lemma_set_keeps_distinct(attrs, key, value);
    let i = if has_key(attrs, key) {
        key_index(attrs, key)
    } else {
        attrs.len() as int
    };
    assert(after[i] == (key, value));
    lemma_key_index_unique(after, i);
}

/// Setting `key` changes nothing that is stored under another name.
pub proof fn lemma_get_other_after_set(
    attrs: AttributesView,
    key: Seq<char>,
    value: Seq<char>,
    other: Seq<char>,
)
    requires
        keys_distinct(attrs),
        other != key,
    ensures
        get_attribute(set_attribute(attrs, key, value), other) == get_attribute(attrs, other),
{
    let after = set_attribute(attrs, key, value);
    lemma_set_keeps_distinct(attrs, key, value);
    if has_key(attrs, other) {
        let i = key_index(attrs, other);
        assert(after[i] == attrs[i]);
        lemma_key_index_unique(after, i);
    } else if has_key(after, other) {
        let j = key_index(after, other);
        if j < attrs.len() {
            assert(attrs[j].0 == other);
        }
    }
}

/// The last value set under a name is the one that stays: setting a name
/// twice is setting it once, to the second value.
pub proof fn lemma_last_set_wins(
    attrs: AttributesView,
    key: Seq<char>,
    first: Seq<char>,
    second: Seq<char>,
)
    requires
        keys_distinct(attrs),
    ensures
        set_attribute(set_attribute(attrs, key, first), key, second) == set_attribute(
            attrs,
            key,
            second,
        ),
{
    let once = set_attribute(attrs, key, first);
    lemma_set_keeps_distinct(attrs, key, first);
    let i = if has_key(attrs, key) {
        key_index(attrs, key)
    } else {
        attrs.len() as int
    };
    assert(once[i] == (key, first));
    lemma_key_index_unique(once, i);
    assert(set_attribute(once, key, second) =~= set_attribute(attrs, key, second));
}

/// Rendering a store that ends in `pair` appends the rendering of `pair`:
/// the pairs are rendered in store order.
pub proof fn lemma_attributes_html_push(attrs: AttributesView, pair: (Seq<char>, Seq<char>))
    ensures
        attributes_html(attrs.push(pair)) == attributes_html(attrs) + attribute_html(pair),
{
    assert(attrs.push(pair).drop_last() =~= attrs);
}

/// A rendered store that is not empty begins with a space and ends with the
/// double quote that closes its last value: no space follows it.
pub proof fn lemma_attributes_html_ends(attrs: AttributesView)
    requires
        attrs.len() > 0,
    ensures
        attributes_html(attrs).len() > 0,
        attributes_html(attrs).first() == ' ',
        attributes_html(attrs).last() == '"',
    decreases attrs.len(),
{
    reveal_strlit(" ");
    reveal_strlit("\"");
    if attrs.len() > 1 {
        lemma_attributes_html_ends(attrs.drop_last());
    } else {
        assert(attributes_html(attrs.drop_last()) =~= Seq::<char>::empty());
    }
}

/// Appends the rendered pair `name`, `value` to `out`.
pub fn write_attribute(out: &mut String, name: &str, value: &str)
    ensures
        final(out)@ == old(out)@ + attribute_html((name@, value@)),
{
    out.append(" ");
    out.append(name);
    out.append("=\"");
    write_escaped(out, value);
    out.append("\"");
    assert(out@ =~= old(out)@ + attribute_html((name@, value@)));
}

/// An ordered set of HTML attributes with distinct names.
#[derive(Debug)]
pub struct Attributes {
    entries: Vec<(String, String)>,
}

/// The model of stored pairs: each name and value by its characters.
spec fn pairs_view(entries: Seq<(String, String)>) -> AttributesView {
    Seq::new(entries.len(), |i: int| (entries[i].0@, entries[i].1@))
}

impl View for Attributes {
    type V = AttributesView;

    closed spec fn view(&self) -> AttributesView {
        pairs_view(self.entries@)
    }
}

impl Attributes {
    #[verifier::type_invariant]
    spec fn names_are_distinct(&self) -> bool {
        keys_distinct(self@)
    }

    /// An empty store.
    pub fn new() -> (attrs: Attributes)
        ensures
            attrs@ == AttributesView::empty(),
    {
        let entries: Vec<(String, String)> = Vec::new();
        assert(pairs_view(entries@) =~= AttributesView::empty());
        Attributes { entries }
    }

    /// The number of attributes. The names of a store are always distinct.
    pub fn len(&self) -> (n: usize)
        ensures
            n == self@.len(),
            keys_distinct(self@),
    {
        proof {
            use_type_invariant(self);
        }
        self.entries.len()
    }

    /// Whether the store holds no attribute.
    pub fn is_empty(&self) -> (empty: bool)
        ensures
            empty == (self@.len() == 0),
    {
        self.entries.len() == 0
    }

    /// The value stored under `key`, if there is one.
    pub fn get(&self, key: &str) -> (value: Option<&str>)
        ensures
            (match value {
                Some(v) => get_attribute(self@, key@) == Some(v@),
                None => get_attribute(self@, key@) is None,
            }),
    {
        proof {
            use_type_invariant(self);
        }
        let name = key.to_owned();
        let n = self.entries.len();
        let mut i: usize = 0;
        while i < n
            invariant
                n == self.entries@.len(),
                i <= n,
                name@ == key@,
                self@ == pairs_view(self.entries@),
                forall|j: int| 0 <= j < i ==> (#[trigger] self@[j]).0 != key@,
                keys_distinct(self@),
            decreases n - i,
        {
            if self.entries[i].0 == name {
                assert(self@[i as int].0 == key@);
                assert(key_index(self@, key@) == i);
                return Some(self.entries[i].1.as_str());
            }
            i += 1;
        }
        None
    }

    /// Sets `key` to `value`. A name that is already present keeps its place
    /// and gets the new value; a new name goes to the end.
    pub fn set(self, key: &str, value: &str) -> (attrs: Attributes)
        ensures
            attrs@ == set_attribute(self@, key@, value@),
            keys_distinct(attrs@),
    {
        proof {
            use_type_invariant(&self);
        }
        let ghost before = self@;
        let mut entries = self.entries;
        let name = key.to_owned();
        let n = entries.len();
        let mut i: usize = 0;
        while i < n
            invariant
                n == entries@.len(),
                i <= n,
                name@ == key@,
                before == self@,
                before == pairs_view(entries@),
                forall|j: int| 0 <= j < i ==> (#[trigger] before[j]).0 != key@,
                keys_distinct(before),
            decreases n - i,
        {
            if entries[i].0 == name {
                assert(before[i as int].0 == key@);
                assert(key_index(before, key@) == i);
                entries.set(i, (name, value.to_owned()));
                assert(pairs_view(entries@) =~= before.update(i as int, (key@, value@)));
                return Attributes { entries };
            }
            i += 1;
        }
        entries.push((name, value.to_owned()));
        assert(pairs_view(entries@) =~= before.push((key@, value@)));
        Attributes { entries }
    }

    /// Appends the rendered store to `out`.
    pub fn write_html(&self, out: &mut String)
        ensures
            final(out)@ == old(out)@ + attributes_html(self@),
    {
        let ghost before = out@;
        let n = self.entries.len();
        let mut i: usize = 0;
        assert(self@.take(0) =~= AttributesView::empty());
        while i < n
            invariant
                n == self.entries@.len(),
                i <= n,
                self@ == pairs_view(self.entries@),
                out@ == before + attributes_html(self@.take(i as int)),
            decreases n - i,
        {
            write_attribute(out, self.entries[i].0.as_str(), self.entries[i].1.as_str());
            proof {
                assert(self@.take(i + 1).drop_last() =~= self@.take(i as int));
                assert(self@.take(i + 1).last() == self@[i as int]);
            }
            i += 1;
        }
        assert(self@.take(n as int) =~= self@);
    }

    /// The rendered store: empty for an empty store, else each attribute as a
    /// space, the name, `=` and the escaped value in double quotes.
    pub fn to_html_string(&self) -> (html: String)
        ensures
            html@ == attributes_html(self@),
    {
        let mut html = String::new();
        self.write_html(&mut html);
        html
    }
}

impl Clone for Attributes {
    /// A store with the same pairs in the same order.
    fn clone(&self) -> (attrs: Attributes)
        ensures
            attrs@ == self@,
    {
        proof {
            use_type_invariant(self);
        }
        let mut entries: Vec<(String, String)> = Vec::new();
        let n = self.entries.len();
        let mut i: usize = 0;
        while i < n
            invariant
                n == self.entries@.len(),
                i <= n,
                pairs_view(entries@) == pairs_view(self.entries@).take(i as int),
            decreases n - i,
        {
            let ghost sofar = pairs_view(entries@);
            entries.push((self.entries[i].0.clone(), self.entries[i].1.clone()));
            assert(pairs_view(entries@) =~= sofar.push(pairs_view(self.entries@)[i as int]));
            assert(pairs_view(entries@) =~= pairs_view(self.entries@).take(i + 1));
            i += 1;
        }
        assert(pairs_view(entries@) =~= pairs_view(self.entries@));
        Attributes { entries }
    }
}

impl Default for Attributes {
    fn default() -> (attrs: Attributes)
        ensures
            attrs@ == AttributesView::empty(),
    {
        Attributes::new()
    }
}

} // verus!
