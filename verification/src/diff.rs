//! The comparison itself: members that the configuration does not know
//! are errors, keys that the record does not declare are gathered into
//! one warning.

use crate::diagnostic::{error_at, warning_at, Diagnostic, Note, Place, Target};
use crate::listing::{
    contains_name, insert_ascending, is_ascending, join, join_names, lemma_sorted_listing_found,
    sorted_listing,
};
use vstd::prelude::*;

verus! {

/// The message of the error on a member that the configuration lacks.
pub const PROPERTY_ABSENT: &'static str = "Property does not exist";

/// The start of the warning that lists the keys without a member.
pub const MISSING_PREFIX: &'static str = "Missing the following properties: ";

/// What stands between two keys in that warning.
pub const MISSING_SEPARATOR: &'static str = ", ";

/// The name at `i` does not occur at an earlier position.
pub open spec fn first_occurrence(names: Seq<Seq<char>>, i: int) -> bool {
    &&& 0 <= i < names.len()
    &&& forall|j: int| 0 <= j < i ==> names[j] != names[i]
}

/// The member at `i` is reported: the configuration has no key of its
/// name, and no earlier member of that name took the report.
pub open spec fn is_absent(fields: Seq<Seq<char>>, keys: Seq<Seq<char>>, i: int) -> bool {
    first_occurrence(fields, i) && !keys.contains(fields[i])
}

/// The error on the member at `i`.
pub open spec fn absence_error(i: int) -> Note {
    error_at(Place::Member(i), PROPERTY_ABSENT@)
}

/// The errors on the reported members among the first `n`, in
/// declaration order.
pub open spec fn absence_errors(fields: Seq<Seq<char>>, keys: Seq<Seq<char>>, n: int) -> Seq<
    Note,
>
    decreases n,
{
    if n <= 0 {
        Seq::empty()
    } else if is_absent(fields, keys, n - 1) {
        absence_errors(fields, keys, n - 1).push(absence_error(n - 1))
    } else {
        absence_errors(fields, keys, n - 1)
    }
}

/// The names that are keys of the configuration and not members of the
/// record.
pub open spec fn unused_keys(fields: Seq<Seq<char>>, keys: Seq<Seq<char>>) -> Set<Seq<char>> {
    Set::new(|k: Seq<char>| keys.contains(k) && !fields.contains(k))
}

/// Those names in ascending order, each once.
pub open spec fn missing_names(fields: Seq<Seq<char>>, keys: Seq<Seq<char>>) -> Seq<Seq<char>> {
    sorted_listing(unused_keys(fields, keys))
}

/// The warning that lists `missing`.
pub open spec fn missing_warning(missing: Seq<Seq<char>>) -> Note {
    warning_at(Place::Name, MISSING_PREFIX@ + join(missing, MISSING_SEPARATOR@))
}

/// The warning on the keys without a member, or nothing where every key
/// has one.
pub open spec fn missing_warnings(fields: Seq<Seq<char>>, keys: Seq<Seq<char>>) -> Seq<Note> {
    let missing = missing_names(fields, keys);
    if missing.len() == 0 {
        Seq::empty()
    } else {
        seq![missing_warning(missing)]
    }
}

/// Everything that comparing the members with the keys reports: the
/// errors first, then the warning.
pub open spec fn field_report(fields: Seq<Seq<char>>, keys: Seq<Seq<char>>) -> Seq<Note> {
    absence_errors(fields, keys, fields.len() as int) + missing_warnings(fields, keys)
}

/// Tells whether the name at `i` occurs at an earlier position too.
pub fn occurs_before(names: &Vec<String>, i: usize) -> (r: bool)
    requires
        i < names.len(),
    ensures
        r == !first_occurrence(names.deep_view(), i as int),
{
    let mut j: usize = 0;
    while j < i
        invariant
            j <= i < names.len(),
            forall|k: int| 0 <= k < j ==> names.deep_view()[k] != names.deep_view()[i as int],
        decreases i - j,
    {
        if names[j] == names[i] {
            assert(names.deep_view()[j as int] == names.deep_view()[i as int]);
            return true;
        }
        j += 1;
    }
    false
}

/// The keys that no member is named after, in ascending order, each once.
pub fn missing_properties(fields: &Vec<String>, keys: &Vec<String>) -> (missing: Vec<String>)
    ensures
        missing.deep_view() == missing_names(fields.deep_view(), keys.deep_view()),
{
    let mut missing: Vec<String> = Vec::new();
    let mut i: usize = 0;
    while i < keys.len()
        invariant
            i <= keys.len(),
            is_ascending(missing.deep_view()),
            forall|k: Seq<char>| #[trigger]
                missing.deep_view().contains(k) <==> keys.deep_view().take(i as int).contains(k)
                    && !fields.deep_view().contains(k),
        decreases keys.len() - i,
    {
        let ghost seen = keys.deep_view().take(i as int);
        let ghost next = keys.deep_view().take(i + 1);
        assert(next =~= seen.push(keys[i as int]@));
        assert forall|k: Seq<char>| next.contains(k) <==> seen.contains(k) || k
            == keys[i as int]@ by {
            if seen.contains(k) {
                let j = choose|j: int| 0 <= j < seen.len() && seen[j] == k;
                assert(next[j] == k);
            }
            if k == keys[i as int]@ {
                assert(next[i as int] == k);
            }
        }
        if !contains_name(fields, &keys[i]) {
            insert_ascending(&mut missing, keys[i].clone());
        }
        i += 1;
    }
    proof {
        assert(keys.deep_view().take(i as int) =~= keys.deep_view());
        lemma_sorted_listing_found(
            missing.deep_view(),
            unused_keys(fields.deep_view(), keys.deep_view()),
        );
    }
    missing
}

/// Compares the members of a record with the keys of its configuration
/// section. Each member without a key gets an error, once per name and in
/// declaration order; the keys without a member are listed in one warning
/// on the record's name.
pub fn diff_fields(fields: &Vec<String>, keys: &Vec<String>) -> (report: Vec<Diagnostic>)
    ensures
        report.deep_view() == field_report(fields.deep_view(), keys.deep_view()),
{
    let mut report: Vec<Diagnostic> = Vec::new();
    let mut i: usize = 0;
    while i < fields.len()
        invariant
            i <= fields.len(),
            report.deep_view() == absence_errors(fields.deep_view(), keys.deep_view(), i as int),
        decreases fields.len() - i,
    {
        let ghost before = report.deep_view();
        if !contains_name(keys, &fields[i]) && !occurs_before(fields, i) {
            let message = String::from_str(PROPERTY_ABSENT);
            report.push(Diagnostic::error(Target::Member(i), message));
            assert(report.deep_view() =~= before.push(absence_error(i as int)));
        }
        i += 1;
    }
    let ghost errors = report.deep_view();
    let missing = missing_properties(fields, keys);
    if missing.len() > 0 {
        let mut message = String::from_str(MISSING_PREFIX);
        let listed = join_names(&missing, MISSING_SEPARATOR);
        message.append(listed.as_str());
        report.push(Diagnostic::warning(Target::Name, message));
        assert(report.deep_view() =~= errors + seq![missing_warning(missing.deep_view())]);
    } else {
        assert(report.deep_view() =~= errors + Seq::<Note>::empty());
    }
    report
}

} // verus!
