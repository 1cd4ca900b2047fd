//! The item and key-schema model that the storage logic reads.
use vstd::prelude::*;

verus! {

/// The scalar type of a key attribute.
#[derive(PartialEq, Eq, Structural, Clone, Copy, Debug)]
pub enum ScalarAttributeType {
    S,
    N,
    B,
}

/// The role of an attribute in a key schema.
#[derive(PartialEq, Eq, Structural, Clone, Copy, Debug)]
pub enum KeyType {
    Hash,
    Range,
}

/// One element of a key schema.
pub struct KeySchemaElement {
    pub attribute_name: String,
    pub key_type: KeyType,
}

/// The declared type of an attribute.
pub struct AttributeDefinition {
    pub attribute_name: String,
    pub attribute_type: ScalarAttributeType,
}

/// An attribute value of the scalar and set kinds.
#[derive(Debug)]
pub enum AttributeValue {
    S(String),
    N(String),
    B(Vec<u8>),
    Bool(bool),
    Null(bool),
    Ss(Vec<String>),
    Ns(Vec<String>),
    Bs(Vec<Vec<u8>>),
}

/// The mathematical value of an [`AttributeValue`].
pub enum AttrView {
    S(Seq<char>),
    N(Seq<char>),
    B(Seq<u8>),
    Bool(bool),
    Null(bool),
    Ss(Seq<Seq<char>>),
    Ns(Seq<Seq<char>>),
    Bs(Seq<Seq<u8>>),
}

impl View for AttributeValue {
    type V = AttrView;

    open spec fn view(&self) -> AttrView {
        match self {
            AttributeValue::S(s) => AttrView::S(s@),
            AttributeValue::N(n) => AttrView::N(n@),
            AttributeValue::B(b) => AttrView::B(b@),
            AttributeValue::Bool(b) => AttrView::Bool(*b),
            AttributeValue::Null(b) => AttrView::Null(*b),
            AttributeValue::Ss(v) => AttrView::Ss(v@.map_values(|x: String| x@)),
            AttributeValue::Ns(v) => AttrView::Ns(v@.map_values(|x: String| x@)),
            AttributeValue::Bs(v) => AttrView::Bs(v@.map_values(|x: Vec<u8>| x@)),
        }
    }
}

fn clone_strings(v: &Vec<String>) -> (r: Vec<String>)
    ensures
        r@.map_values(|x: String| x@) == v@.map_values(|x: String| x@),
{
    let mut r: Vec<String> = Vec::new();
    let mut i: usize = 0;
    while i < v.len()
        invariant
            i <= v.len(),
            r.len() == i,
            forall|j: int| 0 <= j < i ==> r@[j]@ == v@[j]@,
        decreases v.len() - i,
    {
        r.push(v[i].clone());
        i += 1;
    }
    assert(r@.map_values(|x: String| x@) =~= v@.map_values(|x: String| x@));
    r
}

fn clone_bytes(v: &Vec<u8>) -> (r: Vec<u8>)
    ensures
        r@ == v@,
{
    let mut r: Vec<u8> = Vec::new();
    let mut i: usize = 0;
    while i < v.len()
        invariant
            i <= v.len(),
            r@ == v@.take(i as int),
        decreases v.len() - i,
    {
        r.push(v[i]);
        assert(v@.take(i + 1) =~= v@.take(i as int).push(v@[i as int]));
        i += 1;
    }
    assert(v@.take(v.len() as int) =~= v@);
    r
}

fn clone_byte_lists(v: &Vec<Vec<u8>>) -> (r: Vec<Vec<u8>>)
    ensures
        r@.map_values(|x: Vec<u8>| x@) == v@.map_values(|x: Vec<u8>| x@),
{
    let mut r: Vec<Vec<u8>> = Vec::new();
    let mut i: usize = 0;
    while i < v.len()
        invariant
            i <= v.len(),
            r.len() == i,
            forall|j: int| 0 <= j < i ==> r@[j]@ == v@[j]@,
        decreases v.len() - i,
    {
        r.push(clone_bytes(&v[i]));
        i += 1;
    }
    assert(r@.map_values(|x: Vec<u8>| x@) =~= v@.map_values(|x: Vec<u8>| x@));
    r
}

impl AttributeValue {
    /// A copy of the value.
    pub fn duplicate(&self) -> (r: AttributeValue)
        ensures
            r@ == self@,
    {
        match self {
            AttributeValue::S(s) => AttributeValue::S(s.clone()),
            AttributeValue::N(n) => AttributeValue::N(n.clone()),
            AttributeValue::B(b) => AttributeValue::B(clone_bytes(b)),
            AttributeValue::Bool(b) => AttributeValue::Bool(*b),
            AttributeValue::Null(b) => AttributeValue::Null(*b),
            AttributeValue::Ss(v) => AttributeValue::Ss(clone_strings(v)),
            AttributeValue::Ns(v) => AttributeValue::Ns(clone_strings(v)),
            AttributeValue::Bs(v) => AttributeValue::Bs(clone_byte_lists(v)),
        }
    }
}

/// An item: attribute names paired with their values. A name occurs at most
/// once.
#[derive(Debug)]
pub struct Item {
    pub attrs: Vec<(String, AttributeValue)>,
}

/// The value stored under `name` in a sequence of attributes, taking the
/// first entry with that name.
pub open spec fn lookup(attrs: Seq<(Seq<char>, AttrView)>, name: Seq<char>) -> Option<AttrView>
    decreases attrs.len(),
{
    if attrs.len() == 0 {
        None
    } else if attrs[0].0 == name {
        Some(attrs[0].1)
    } else {
        lookup(attrs.drop_first(), name)
    }
}

/// The view of an optional item.
pub open spec fn opt_item_view(o: Option<Item>) -> Option<Seq<(Seq<char>, AttrView)>> {
    match o {
        Some(i) => Some(i@),
        None => None,
    }
}

impl View for Item {
    type V = Seq<(Seq<char>, AttrView)>;

    open spec fn view(&self) -> Seq<(Seq<char>, AttrView)> {
        self.attrs@.map_values(|e: (String, AttributeValue)| (e.0@, e.1@))
    }
}

/// `lookup` finds the first entry whose name matches.
pub proof fn lemma_lookup_at(attrs: Seq<(Seq<char>, AttrView)>, name: Seq<char>, i: int)
    requires
        0 <= i <= attrs.len(),
        forall|j: int| 0 <= j < i ==> attrs[j].0 != name,
        i < attrs.len() ==> attrs[i].0 == name,
    ensures
        lookup(attrs, name) == (if i < attrs.len() { Some(attrs[i].1) } else { None::<AttrView> }),
    decreases attrs.len(),
{
    if attrs.len() > 0 && i > 0 {
        assert forall|j: int| 0 <= j < i - 1 implies attrs.drop_first()[j].0 != name by {
            assert(attrs.drop_first()[j] == attrs[j + 1]);
        }
        lemma_lookup_at(attrs.drop_first(), name, i - 1);
    }
}

impl Item {
    /// An item with no attributes.
    pub fn new() -> (r: Item)
        ensures
            r@ == Seq::<(Seq<char>, AttrView)>::empty(),
    {
        let r = Item { attrs: Vec::new() };
        assert(r@ =~= Seq::<(Seq<char>, AttrView)>::empty());
        r
    }

    /// The value of the attribute named `name`, if present.
    pub fn get(&self, name: &str) -> (r: Option<&AttributeValue>)
        ensures
            match r {
                Some(v) => lookup(self@, name@) == Some(v@),
                None => lookup(self@, name@) is None,
            },
    {
        let mut i: usize = 0;
        while i < self.attrs.len()
            invariant
                i <= self.attrs.len(),
                forall|j: int| 0 <= j < i ==> self@[j].0 != name@,
            decreases self.attrs.len() - i,
        {
            if crate::text::str_eq(self.attrs[i].0.as_str(), name) {
                proof {
                    lemma_lookup_at(self@, name@, i as int);
                }
                return Some(&self.attrs[i].1);
            }
            i += 1;
        }
        proof {
            lemma_lookup_at(self@, name@, i as int);
        }
        None
    }

    /// Adds `name` with `value` when the item does not yet hold `name`.
    pub fn insert_new(&mut self, name: String, value: AttributeValue)
        ensures
            lookup(old(self)@, name@) is None ==> final(self)@ == old(self)@.push((name@, value@)),
            lookup(old(self)@, name@) is Some ==> final(self)@ == old(self)@,
            forall|n: Seq<char>|
                #[trigger] lookup(final(self)@, n) == match lookup(old(self)@, n) {
                    Some(v) => Some(v),
                    None => if n == name@ {
                        Some(value@)
                    } else {
                        None::<AttrView>
                    },
                },
    {
        let ghost e = (name@, value@);
        if self.get(name.as_str()).is_none() {
            self.attrs.push((name, value));
            assert(self@ =~= old(self)@.push(e));
            assert forall|n: Seq<char>| #[trigger] lookup(self@, n) == match lookup(old(self)@, n) {
                Some(v) => Some(v),
                None => if n == e.0 {
                    Some(e.1)
                } else {
                    None::<AttrView>
                },
            } by {
                lemma_lookup_push(old(self)@, e, n);
            }
        }
    }
}


/// Looking a name up after appending an entry finds the earlier entry when
/// there is one, else the appended one when the names match.
pub proof fn lemma_lookup_push(attrs: Seq<(Seq<char>, AttrView)>, e: (Seq<char>, AttrView), name: Seq<char>)
    ensures
        lookup(attrs.push(e), name) == (match lookup(attrs, name) {
            Some(v) => Some(v),
            None => if e.0 == name {
                Some(e.1)
            } else {
                None::<AttrView>
            },
        }),
    decreases attrs.len(),
{
    if attrs.len() == 0 {
        assert(attrs.push(e).drop_first() =~= Seq::<(Seq<char>, AttrView)>::empty());
    } else {
        assert(attrs.push(e).drop_first() =~= attrs.drop_first().push(e));
        lemma_lookup_push(attrs.drop_first(), e, name);
    }
}

impl Item {
    /// A copy of the item.
    pub fn duplicate(&self) -> (r: Item)
        ensures
            r@ == self@,
    {
        let mut attrs: Vec<(String, AttributeValue)> = Vec::new();
        let mut i: usize = 0;
        while i < self.attrs.len()
            invariant
                i <= self.attrs@.len(),
                attrs@.len() == i,
                forall|j: int| 0 <= j < i ==> (#[trigger] attrs@[j]).0@ == self.attrs@[j].0@ && attrs@[j].1@ == self.attrs@[j].1@,
            decreases self.attrs@.len() - i,
        {
            attrs.push((self.attrs[i].0.clone(), self.attrs[i].1.duplicate()));
            i += 1;
        }
        let r = Item { attrs };
        assert(r@ =~= self@);
        r
    }
}

} // verus!
