//! What holds of every report, proved from the definitions of the other
//! modules.

use crate::config::{has_section, lowercased, section_keys, yaml_sections, ConfigFile};
use crate::declaration::{DeclarationView, MembersView, RecordView};
use crate::diagnostic::{error_at, warning_at, Note, Place, Severity};
use crate::diff::{
    absence_error, absence_errors, field_report, first_occurrence, is_absent, missing_names,
    missing_warning, missing_warnings, unused_keys, MISSING_PREFIX, MISSING_SEPARATOR,
    PROPERTY_ABSENT,
};
use crate::listing::{
    is_ascending, join, lemma_sorted_listing_exists, lemma_sorted_listing_found,
};
use crate::validate::{
    absent_message, item_report, malformed_message, no_section_message, record_report,
    section_report, NOT_A_RECORD,
};
use vstd::prelude::*;

verus! {

/// The note points at a member of the record that is called `name`.
pub open spec fn refers_to(note: Note, fields: Seq<Seq<char>>, name: Seq<char>) -> bool {
    note.place matches Place::Member(i) && 0 <= i < fields.len() && fields[i] == name
}

/// `part` stands somewhere in `whole`.
pub open spec fn occurs_in(part: Seq<char>, whole: Seq<char>) -> bool {
    exists|at: int|
        0 <= at && at + part.len() <= whole.len() && #[trigger] whole.subrange(
            at,
            at + part.len(),
        ) == part
}

/// The note at `d` is an error that says "Property does not exist" on a
/// member called `name`, and no other note of the report points at a
/// member of that name.
pub open spec fn is_only_report_of(
    report: Seq<Note>,
    fields: Seq<Seq<char>>,
    name: Seq<char>,
    d: int,
) -> bool {
    &&& 0 <= d < report.len()
    &&& refers_to(report[d], fields, name)
    &&& report[d].severity == Severity::Error
    &&& report[d].message == PROPERTY_ABSENT@
    &&& forall|e: int|
        0 <= e < report.len() && #[trigger] refers_to(report[e], fields, name) ==> e == d
}

/// The position that an error on a member points at.
spec fn member_of(note: Note) -> int {
    match note.place {
        Place::Member(i) => i,
        _ => -1,
    }
}

/// The note is the error on a reported member among the first `n`.
spec fn is_absence_error_before(
    fields: Seq<Seq<char>>,
    keys: Seq<Seq<char>>,
    n: int,
    note: Note,
) -> bool {
    &&& note == absence_error(member_of(note))
    &&& member_of(note) < n
    &&& is_absent(fields, keys, member_of(note))
}

proof fn lemma_absence_errors(fields: Seq<Seq<char>>, keys: Seq<Seq<char>>, n: int)
    requires
        0 <= n <= fields.len(),
    ensures
        forall|d: int|
            0 <= d < absence_errors(fields, keys, n).len() ==> is_absence_error_before(
                fields,
                keys,
                n,
                #[trigger] absence_errors(fields, keys, n)[d],
            ),
        forall|d: int, e: int|
            0 <= d < e < absence_errors(fields, keys, n).len() ==> member_of(
                #[trigger] absence_errors(fields, keys, n)[d],
            ) < member_of(#[trigger] absence_errors(fields, keys, n)[e]),
        forall|i: int|
            0 <= i < n && #[trigger] is_absent(fields, keys, i) ==> absence_errors(
                fields,
                keys,
                n,
            ).contains(absence_error(i)),
    decreases n,
{
    if n > 0 {
        lemma_absence_errors(fields, keys, n - 1);
        let before = absence_errors(fields, keys, n - 1);
        let report = absence_errors(fields, keys, n);
        assert forall|i: int| 0 <= i < n && #[trigger] is_absent(fields, keys, i) implies
            report.contains(absence_error(i)) by {
            if i < n - 1 {
                let d = choose|d: int| 0 <= d < before.len() && before[d] == absence_error(i);
                assert(report[d] == absence_error(i));
            } else {
                assert(report[report.len() - 1] == absence_error(i));
            }
        }
    }
}

proof fn lemma_first_occurrence_exists(names: Seq<Seq<char>>, i: int)
    requires
        0 <= i < names.len(),
    ensures
        exists|j: int| 0 <= j <= i && names[j] == names[i] && #[trigger] first_occurrence(names, j),
    decreases i,
{
    if first_occurrence(names, i) {
    } else {
        let j = choose|j: int| 0 <= j < i && names[j] == names[i];
        lemma_first_occurrence_exists(names, j);
    }
}

/// Where the record declares exactly the names that the section holds as
/// keys, whatever their order and however often each is written, nothing
/// is reported.
pub proof fn lemma_equal_names_report_nothing(fields: Seq<Seq<char>>, keys: Seq<Seq<char>>)
    requires
        fields.to_set() == keys.to_set(),
    ensures
        field_report(fields, keys) == Seq::<Note>::empty(),
{
    let n = fields.len() as int;
    lemma_absence_errors(fields, keys, n);
    let errors = absence_errors(fields, keys, n);
    if errors.len() > 0 {
        let i = member_of(errors[0]);
        assert(fields.to_set().contains(fields[i]));
        assert(keys.to_set().contains(fields[i]));
    }
    let none = Seq::<Seq<char>>::empty();
    assert forall|k: Seq<char>| #[trigger] none.contains(k) <==> unused_keys(
        fields,
        keys,
    ).contains(k) by {
        if keys.contains(k) {
            assert(keys.to_set().contains(k));
            assert(fields.to_set().contains(k));
        }
    }
    lemma_sorted_listing_found(none, unused_keys(fields, keys));
    assert(field_report(fields, keys) =~= Seq::<Note>::empty());
}

/// A record whose named members are called exactly as the keys of its
/// section gets no diagnostic.
pub proof fn lemma_matching_record_reports_nothing(
    record: RecordView,
    sections: Seq<(Seq<char>, Seq<Seq<char>>)>,
    key: Seq<char>,
)
    requires
        has_section(sections, key),
        record.members matches MembersView::Named(fields) && fields.to_set() == section_keys(
            sections,
            key,
        ).to_set(),
    ensures
        section_report(record, Some(sections), key) == Seq::<Note>::empty(),
{
    match record.members {
        MembersView::Named(fields) => {
            lemma_equal_names_report_nothing(fields, section_keys(sections, key));
        },
        _ => {},
    }
}

/// A name that the record declares and the section lacks is reported
/// exactly once: one note of the report points at a member of that name,
/// and it is an error that says "Property does not exist".
pub proof fn lemma_absent_member_reported_once(
    fields: Seq<Seq<char>>,
    keys: Seq<Seq<char>>,
    name: Seq<char>,
)
    requires
        fields.contains(name),
        !keys.contains(name),
    ensures
        exists|d: int| #[trigger] is_only_report_of(field_report(fields, keys), fields, name, d),
{
    let n = fields.len() as int;
    let report = field_report(fields, keys);
    let errors = absence_errors(fields, keys, n);
    lemma_absence_errors(fields, keys, n);
    let any = choose|i: int| 0 <= i < fields.len() && fields[i] == name;
    lemma_first_occurrence_exists(fields, any);
    let i = choose|j: int|
        0 <= j <= any && fields[j] == fields[any] && #[trigger] first_occurrence(fields, j);
    assert(is_absent(fields, keys, i));
    let d = choose|d: int| 0 <= d < errors.len() && errors[d] == absence_error(i);
    assert(report[d] == errors[d]);
    assert(refers_to(report[d], fields, name));
    assert forall|e: int|
        0 <= e < report.len() && #[trigger] refers_to(report[e], fields, name) implies e == d by {
        if e < errors.len() {
            assert(report[e] == errors[e]);
            let j = member_of(errors[e]);
            assert(is_absent(fields, keys, j));
            if j < i {
                assert(fields[j] != fields[i]);
            } else if i < j {
                assert(fields[i] != fields[j]);
            }
            if e < d {
                assert(member_of(errors[e]) < member_of(errors[d]));
            } else if d < e {
                assert(member_of(errors[d]) < member_of(errors[e]));
            }
        } else {
            assert(report[e] == missing_warnings(fields, keys)[e - errors.len()]);
        }
    }
    assert(is_only_report_of(report, fields, name, d));
}

proof fn lemma_part_occurs_in_join(parts: Seq<Seq<char>>, separator: Seq<char>, i: int)
    requires
        0 <= i < parts.len(),
    ensures
        occurs_in(parts[i], join(parts, separator)),
    decreases parts.len(),
{
    let whole = join(parts, separator);
    if parts.len() == 1 {
        assert(whole.subrange(0int, 0int + parts[i].len()) =~= parts[i]);
    } else {
        let front = join(parts.drop_last(), separator);
        if i == parts.len() - 1 {
            let at = (front.len() + separator.len()) as int;
            assert(whole.subrange(at, at + parts[i].len()) =~= parts[i]);
        } else {
            lemma_part_occurs_in_join(parts.drop_last(), separator, i);
            let at = choose|at: int|
                0 <= at && at + parts[i].len() <= front.len() && #[trigger] front.subrange(
                    at,
                    at + parts[i].len(),
                ) == parts[i];
            assert(whole.subrange(at, at + parts[i].len()) =~= front.subrange(
                at,
                at + parts[i].len(),
            ));
        }
    }
}

/// A key of the section that the record does not declare is listed in
/// the one warning of the report, which is its last note: the message is
/// "Missing the following properties: " and then the keys without a
/// member, ascending, each once, ", " between them; the key is one of
/// them and stands in the message.
pub proof fn lemma_unused_key_listed(fields: Seq<Seq<char>>, keys: Seq<Seq<char>>, key: Seq<char>)
    requires
        keys.contains(key),
        !fields.contains(key),
    ensures
        ({
            let report = field_report(fields, keys);
            let missing = missing_names(fields, keys);
            &&& report.len() > 0
            &&& report.last() == warning_at(
                Place::Name,
                MISSING_PREFIX@ + join(missing, MISSING_SEPARATOR@),
            )
            &&& forall|d: int|
                0 <= d < report.len() - 1 ==> (#[trigger] report[d]).severity == Severity::Error
            &&& is_ascending(missing)
            &&& forall|k: Seq<char>| #[trigger]
                missing.contains(k) <==> keys.contains(k) && !fields.contains(k)
            &&& missing.contains(key)
            &&& occurs_in(key, report.last().message)
        }),
{
    let n = fields.len() as int;
    let report = field_report(fields, keys);
    let errors = absence_errors(fields, keys, n);
    let missing = missing_names(fields, keys);
    let unused = unused_keys(fields, keys);
    assert(unused.finite()) by {
        vstd::seq_lib::seq_to_set_is_finite(keys);
        assert(unused.subset_of(keys.to_set()));
        vstd::set_lib::lemma_set_subset_finite(keys.to_set(), unused);
    }
    lemma_sorted_listing_exists(unused);
    assert(unused.contains(key));
    assert(missing.contains(key));
    assert forall|k: Seq<char>| #[trigger]
        missing.contains(k) <==> keys.contains(k) && !fields.contains(k) by {
        assert(missing.contains(k) <==> unused.contains(k));
    }
    assert(missing_warnings(fields, keys) =~= seq![missing_warning(missing)]);
    assert(report.last() == missing_warning(missing));
    lemma_absence_errors(fields, keys, n);
    assert forall|d: int| 0 <= d < report.len() - 1 implies (#[trigger] report[d]).severity
        == Severity::Error by {
        assert(report[d] == errors[d]);
    }
    let i = choose|i: int| 0 <= i < missing.len() && missing[i] == key;
    lemma_part_occurs_in_join(missing, MISSING_SEPARATOR@, i);
    let listed = join(missing, MISSING_SEPARATOR@);
    let at = choose|at: int|
        0 <= at && at + key.len() <= listed.len() && #[trigger] listed.subrange(
            at,
            at + key.len(),
        ) == key;
    let message = report.last().message;
    let shift = MISSING_PREFIX@.len() as int;
    assert(message.subrange(shift + at, shift + at + key.len()) =~= listed.subrange(
        at,
        at + key.len(),
    ));
}

/// The section of a record is looked up under its name in lower case and
/// under no other name: two records whose names are alike in lower case
/// are held against the same section.
pub proof fn lemma_section_by_lower_case_name(record: RecordView, other: RecordView, bytes: Vec<u8>)
    requires
        lowercased(record.name) == lowercased(other.name),
        record.members == other.members,
    ensures
        record_report(record, ConfigFile::Contents(bytes)) == record_report(
            other,
            ConfigFile::Contents(bytes),
        ),
{
}

/// A file that is absent, a file that cannot be read as a configuration,
/// and a configuration without the record's section each give one error
/// on the record's name and nothing else.
pub proof fn lemma_configuration_faults(record: RecordView, file: ConfigFile)
    ensures
        file is Absent ==> record_report(record, file) == seq![
            error_at(Place::Name, absent_message()),
        ],
        file is Unreadable ==> record_report(record, file) == seq![
            error_at(Place::Name, malformed_message()),
        ],
        file matches ConfigFile::Contents(bytes) && yaml_sections(bytes@) is None
            ==> record_report(record, file) == seq![error_at(Place::Name, malformed_message())],
        file matches ConfigFile::Contents(bytes) && yaml_sections(bytes@) matches Some(sections)
            && !has_section(sections, lowercased(record.name)) ==> record_report(record, file)
            == seq![error_at(Place::Name, no_section_message(lowercased(record.name)))],
        absent_message() == "No application.yml found"@,
        malformed_message() == "Error parsing application.yml"@,
{
    reveal_strlit("No ");
    reveal_strlit("application.yml");
    reveal_strlit(" found");
    reveal_strlit("Error parsing ");
    reveal_strlit("No application.yml found");
    reveal_strlit("Error parsing application.yml");
    assert(absent_message() =~= "No application.yml found"@);
    assert(malformed_message() =~= "Error parsing application.yml"@);
}

/// An item that is no record gets exactly one warning, whatever the
/// configuration file holds.
pub proof fn lemma_other_item_one_warning(file: ConfigFile)
    ensures
        item_report(DeclarationView::Other, file) == seq![
            warning_at(Place::Item, NOT_A_RECORD@),
        ],
{
}

} // verus!
