//! The configuration document: its sections, how its bytes are read, and
//! how the section of a record is found.

use std::collections::BTreeMap;
use vstd::prelude::*;

verus! {

/// Where the configuration document lies, relative to the directory that
/// the build runs in.
pub const PATH: &'static str = "application.yml";

/// One section of the configuration: its name and the names of its keys.
/// The values of the keys play no part in the check and are not kept.
#[derive(Clone, Debug, PartialEq, Eq)]
pub struct Section {
    pub name: String,
    pub keys: Vec<String>,
}

impl View for Section {
    type V = (Seq<char>, Seq<Seq<char>>);

    open spec fn view(&self) -> (Seq<char>, Seq<Seq<char>>) {
        (self.name@, self.keys.deep_view())
    }
}

impl DeepView for Section {
    type V = (Seq<char>, Seq<Seq<char>>);

    open spec fn deep_view(&self) -> (Seq<char>, Seq<Seq<char>>) {
        self@
    }
}

/// What was found at `PATH`.
#[derive(Clone, Debug, PartialEq, Eq)]
pub enum ConfigFile {
    /// No file could be opened there.
    Absent,
    /// A file was opened, and reading it failed.
    Unreadable,
    /// The bytes of the file.
    Contents(Vec<u8>),
}

/// The sections that a YAML document holds when it is read as a mapping
/// from section names to mappings from keys to strings: each section with
/// its name and the names of its keys. `None` where the bytes are no such
/// document.
pub uninterp spec fn yaml_sections(bytes: Seq<u8>) -> Option<Seq<(Seq<char>, Seq<Seq<char>>)>>;

/// Reads the bytes with `serde_yaml::from_slice` as a
/// `BTreeMap<String, BTreeMap<String, String>>`, and hands out each entry
/// as a `Section`, the values dropped. Assumed, not proved: the outcome is
/// `yaml_sections` of the bytes, that is, it depends on the bytes alone.
#[verifier::external_body]
pub(crate) fn parse_yaml(bytes: &[u8]) -> (parsed: Option<Vec<Section>>)
    ensures
        parsed.deep_view() == yaml_sections(bytes@),
{
    match serde_yaml::from_slice::<BTreeMap<String, BTreeMap<String, String>>>(bytes) {
        Ok(document) => Some(
            document.into_iter().map(
                |(name, entries)| Section { name, keys: entries.into_keys().collect() },
            ).collect(),
        ),
        Err(_) => None,
    }
}

/// The lower-case form of a name, as `str::to_lowercase` of the standard
/// library gives it.
pub uninterp spec fn lowercased(name: Seq<char>) -> Seq<char>;

/// Calls `str::to_lowercase`. Assumed, not proved: the outcome is
/// `lowercased` of the name, that is, it depends on the name alone.
#[verifier::external_body]
pub(crate) fn to_lowercase(name: &str) -> (lowered: String)
    ensures
        lowered@ == lowercased(name@),
{
    name.to_lowercase()
}

/// The section at `i` is the first one named `key`.
pub open spec fn is_section_at(
    sections: Seq<(Seq<char>, Seq<Seq<char>>)>,
    key: Seq<char>,
    i: int,
) -> bool {
    &&& 0 <= i < sections.len()
    &&& sections[i].0 == key
    &&& forall|j: int| 0 <= j < i ==> sections[j].0 != key
}

/// Some section is named `key`.
pub open spec fn has_section(sections: Seq<(Seq<char>, Seq<Seq<char>>)>, key: Seq<char>) -> bool {
    exists|i: int| 0 <= i < sections.len() && (#[trigger] sections[i]).0 == key
}

/// The keys of the section named `key`; of the first one, where several
/// share the name.
pub open spec fn section_keys(
    sections: Seq<(Seq<char>, Seq<Seq<char>>)>,
    key: Seq<char>,
) -> Seq<Seq<char>> {
    sections[choose|i: int| is_section_at(sections, key, i)].1
}

/// Where a section is the first of its name, `section_keys` gives its
/// keys.
pub proof fn lemma_section_found(
    sections: Seq<(Seq<char>, Seq<Seq<char>>)>,
    key: Seq<char>,
    i: int,
)
    requires
        is_section_at(sections, key, i),
    ensures
        has_section(sections, key),
        section_keys(sections, key) == sections[i].1,
{
    let c = choose|c: int| is_section_at(sections, key, c);
    if c < i {
        assert(sections[c].0 != key);
    } else if i < c {
        assert(sections[i].0 != key);
    }
}

/// Finds the first section named `key`.
pub fn find_section(sections: &Vec<Section>, key: &String) -> (found: Option<usize>)
    ensures
        (match found {
            Some(i) => is_section_at(sections.deep_view(), key@, i as int),
            None => !has_section(sections.deep_view(), key@),
        }),
{
    let mut i: usize = 0;
    while i < sections.len()
        invariant
            i <= sections.len(),
            forall|j: int| 0 <= j < i ==> (#[trigger] sections.deep_view()[j]).0 != key@,
        decreases sections.len() - i,
    {
        if sections[i].name == *key {
            assert(sections.deep_view()[i as int].0 == key@);
            return Some(i);
        }
        i += 1;
    }
    None
}

} // verus!
