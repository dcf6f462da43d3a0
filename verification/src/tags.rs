//! Short lists of tags, kept in a `SmallVec` that holds a handful of items
//! without allocating.

use smallvec::SmallVec;
use vstd::prelude::*;

verus! {

/// An append-only list of strings.
#[verifier::external_body]
#[derive(Debug)]
pub struct TagVec {
    items: SmallVec<[String; 4]>,
}

/// The informational tags of a headword or a pronunciation.
pub type InfoVec = TagVec;

/// The priority codes of a headword or a pronunciation.
pub type PriorityVec = TagVec;

/// The strings that a list holds, in the order in which they were pushed.
pub uninterp spec fn tag_texts(tags: TagVec) -> Seq<Seq<char>>;

/// `SmallVec::new`: a list that holds nothing.
#[verifier::external_body]
fn tags_new() -> (tags: TagVec)
    ensures
        tag_texts(tags) == Seq::<Seq<char>>::empty(),
{
    TagVec { items: SmallVec::new() }
}

/// `SmallVec::push`: the item goes to the end, the others stay.
#[verifier::external_body]
fn tags_push(tags: &mut TagVec, item: String)
    ensures
        tag_texts(*final(tags)) == tag_texts(*old(tags)).push(item@),
{
    tags.items.push(item)
}

/// `SmallVec::to_vec`: the items, cloned, in their order.
#[verifier::external_body]
fn tags_to_vec(tags: &TagVec) -> (items: Vec<String>)
    ensures
        items.deep_view() == tag_texts(*tags),
{
    tags.items.to_vec()
}

impl View for TagVec {
    type V = Seq<Seq<char>>;

    closed spec fn view(&self) -> Seq<Seq<char>> {
        tag_texts(*self)
    }
}

impl TagVec {
    /// An empty list.
    pub fn new() -> (tags: Self)
        ensures
            tags@ == Seq::<Seq<char>>::empty(),
    {
        tags_new()
    }

    /// Appends an item.
    pub fn push(&mut self, item: String)
        ensures
            final(self)@ == old(self)@.push(item@),
    {
        tags_push(self, item)
    }

    /// Copies the items out, in their order.
    pub fn to_vec(&self) -> (items: Vec<String>)
        ensures
            items.deep_view() == self@,
    {
        tags_to_vec(self)
    }
}

} // verus!
