//! The names that the dictionary schema gives to its elements.

use vstd::prelude::*;
use vstd::string::*;

verus! {

/// An element of the schema, or anything else.
#[derive(Clone, Copy, Debug, PartialEq, Eq, Structural)]
pub enum Tag {
    /// `entry`: one record.
    Entry,
    /// `ent_seq`: the identifier of a record.
    EntSeq,
    /// `k_ele`: a kanji spelling.
    KEle,
    /// `keb`: the headword of a kanji spelling.
    Keb,
    /// `ke_inf`: a coded note on a kanji spelling.
    KeInf,
    /// `ke_pri`: a priority code of a kanji spelling.
    KePri,
    /// `r_ele`: a reading.
    REle,
    /// `reb`: the pronunciation of a reading.
    Reb,
    /// `re_nokanji`: the reading stands without any kanji spelling.
    ReNokanji,
    /// `re_restr`: a kanji spelling that the reading is restricted to.
    ReRestr,
    /// `re_inf`: a coded note on a reading.
    ReInf,
    /// `re_pri`: a priority code of a reading.
    RePri,
    /// `sense`: a sense.
    Sense,
    /// `stagk`: a kanji spelling that the sense is restricted to.
    Stagk,
    /// `stagr`: a reading that the sense is restricted to.
    Stagr,
    /// `pos`: a coded part of speech.
    Pos,
    /// `xref`: a cross-reference.
    Xref,
    /// `ant`: a cross-reference to an antonym.
    Ant,
    /// `field`: a coded field of application.
    Field,
    /// `misc`: a coded note on a sense.
    Misc,
    /// `gloss`: a translation.
    Gloss,
    /// Any other name.
    Unknown,
}

/// The bytes of a text of ASCII characters.
pub open spec fn ascii(s: Seq<char>) -> Seq<u8> {
    Seq::new(s.len(), |i: int| s[i] as u8)
}

/// The element that a tag name stands for.
pub open spec fn tag_of(name: Seq<u8>) -> Tag {
    if name == ascii("entry"@) {
        Tag::Entry
    } else if name == ascii("ent_seq"@) {
        Tag::EntSeq
    } else if name == ascii("k_ele"@) {
        Tag::KEle
    } else if name == ascii("keb"@) {
        Tag::Keb
    } else if name == ascii("ke_inf"@) {
        Tag::KeInf
    } else if name == ascii("ke_pri"@) {
        Tag::KePri
    } else if name == ascii("r_ele"@) {
        Tag::REle
    } else if name == ascii("reb"@) {
        Tag::Reb
    } else if name == ascii("re_nokanji"@) {
        Tag::ReNokanji
    } else if name == ascii("re_restr"@) {
        Tag::ReRestr
    } else if name == ascii("re_inf"@) {
        Tag::ReInf
    } else if name == ascii("re_pri"@) {
        Tag::RePri
    } else if name == ascii("sense"@) {
        Tag::Sense
    } else if name == ascii("stagk"@) {
        Tag::Stagk
    } else if name == ascii("stagr"@) {
        Tag::Stagr
    } else if name == ascii("pos"@) {
        Tag::Pos
    } else if name == ascii("xref"@) {
        Tag::Xref
    } else if name == ascii("ant"@) {
        Tag::Ant
    } else if name == ascii("field"@) {
        Tag::Field
    } else if name == ascii("misc"@) {
        Tag::Misc
    } else if name == ascii("gloss"@) {
        Tag::Gloss
    } else {
        Tag::Unknown
    }
}

/// Whether an attribute key is the language marker, `xml:lang`.
pub open spec fn is_language_key(key: Seq<u8>) -> bool {
    key == ascii("xml:lang"@)
}

/// Compares two byte strings.
pub fn same_bytes(a: &[u8], b: &[u8]) -> (same: bool)
    ensures
        same == (a@ == b@),
{
    if a.len() != b.len() {
        return false;
    }
    let mut i: usize = 0;
    while i < a.len()
        invariant
            i <= a.len(),
            a.len() == b.len(),
            forall|j: int| 0 <= j < i ==> a@[j] == b@[j],
        decreases a.len() - i,
    {
        if a[i] != b[i] {
            return false;
        }
        i += 1;
    }
    assert(a@ =~= b@);
    true
}

/// Compares a byte string with an ASCII text.
pub fn is_named(name: &[u8], text: &str) -> (same: bool)
    requires
        text.is_ascii(),
    ensures
        same == (name@ == ascii(text@)),
{
    broadcast use is_ascii_spec_bytes;

    same_bytes(name, text.as_bytes())
}

/// Finds the element that a tag name stands for.
pub fn classify(name: &[u8]) -> (tag: Tag)
    ensures
        tag == tag_of(name@),
{
    proof {
        reveal_strlit("entry");
        reveal_strlit("ent_seq");
        reveal_strlit("k_ele");
        reveal_strlit("keb");
        reveal_strlit("ke_inf");
        reveal_strlit("ke_pri");
        reveal_strlit("r_ele");
        reveal_strlit("reb");
        reveal_strlit("re_nokanji");
        reveal_strlit("re_restr");
        reveal_strlit("re_inf");
        reveal_strlit("re_pri");
        reveal_strlit("sense");
        reveal_strlit("stagk");
        reveal_strlit("stagr");
        reveal_strlit("pos");
        reveal_strlit("xref");
        reveal_strlit("ant");
        reveal_strlit("field");
        reveal_strlit("misc");
        reveal_strlit("gloss");
    }
    if is_named(name, "entry") {
        Tag::Entry
    } else if is_named(name, "ent_seq") {
        Tag::EntSeq
    } else if is_named(name, "k_ele") {
        Tag::KEle
    } else if is_named(name, "keb") {
        Tag::Keb
    } else if is_named(name, "ke_inf") {
        Tag::KeInf
    } else if is_named(name, "ke_pri") {
        Tag::KePri
    } else if is_named(name, "r_ele") {
        Tag::REle
    } else if is_named(name, "reb") {
        Tag::Reb
    } else if is_named(name, "re_nokanji") {
        Tag::ReNokanji
    } else if is_named(name, "re_restr") {
        Tag::ReRestr
    } else if is_named(name, "re_inf") {
        Tag::ReInf
    } else if is_named(name, "re_pri") {
        Tag::RePri
    } else if is_named(name, "sense") {
        Tag::Sense
    } else if is_named(name, "stagk") {
        Tag::Stagk
    } else if is_named(name, "stagr") {
        Tag::Stagr
    } else if is_named(name, "pos") {
        Tag::Pos
    } else if is_named(name, "xref") {
        Tag::Xref
    } else if is_named(name, "ant") {
        Tag::Ant
    } else if is_named(name, "field") {
        Tag::Field
    } else if is_named(name, "misc") {
        Tag::Misc
    } else if is_named(name, "gloss") {
        Tag::Gloss
    } else {
        Tag::Unknown
    }
}

/// Tells whether an attribute key is the language marker.
pub fn names_language(key: &[u8]) -> (b: bool)
    ensures
        b == is_language_key(key@),
{
    proof {
        reveal_strlit("xml:lang");
    }
    is_named(key, "xml:lang")
}

} // verus!
