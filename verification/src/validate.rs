//! The check from end to end: inspect the declaration, look its section
//! up in the configuration, compare, report.

use crate::config::{
    find_section, has_section, lemma_section_found, lowercased, parse_yaml, section_keys,
    to_lowercase, yaml_sections, ConfigFile, Section, PATH,
};
use crate::declaration::{
    parse_item, parsed_item, Declaration, DeclarationView, Members, MembersView, Record,
    RecordView,
};
use crate::diagnostic::{error_at, warning_at, Diagnostic, Note, Place, Target};
use crate::diff::{diff_fields, field_report};
use vstd::prelude::*;

verus! {

/// The message of the warning on an item that is no record.
pub const NOT_A_RECORD: &'static str = "uhmm";

/// The message of the error on a record without named members.
pub const NO_NAMED_MEMBERS: &'static str = "Huhh what you trying to do";

/// "No application.yml found".
pub open spec fn absent_message() -> Seq<char> {
    "No "@ + PATH@ + " found"@
}

/// "Error parsing application.yml".
pub open spec fn malformed_message() -> Seq<char> {
    "Error parsing "@ + PATH@
}

/// "Cannot find key `...`", with the key between the quotes.
pub open spec fn no_section_message(key: Seq<char>) -> Seq<char> {
    "Cannot find key `"@ + key + "`"@
}

/// What comparing a record with a parsed configuration reports, where the
/// record's section goes by the name `key`. The first fault ends the
/// check: a document that did not parse, then a missing section, then a
/// record without named members. Only then are members and keys compared.
pub open spec fn section_report(
    record: RecordView,
    sections: Option<Seq<(Seq<char>, Seq<Seq<char>>)>>,
    key: Seq<char>,
) -> Seq<Note> {
    match sections {
        None => seq![error_at(Place::Name, malformed_message())],
        Some(sections) => if !has_section(sections, key) {
            seq![error_at(Place::Name, no_section_message(key))]
        } else {
            match record.members {
                MembersView::Named(fields) => field_report(fields, section_keys(sections, key)),
                _ => seq![error_at(Place::Name, NO_NAMED_MEMBERS@)],
            }
        },
    }
}

/// What checking a record against the configuration file reports. The
/// section is looked up under the record's name in lower case.
pub open spec fn record_report(record: RecordView, file: ConfigFile) -> Seq<Note> {
    match file {
        ConfigFile::Absent => seq![error_at(Place::Name, absent_message())],
        ConfigFile::Unreadable => seq![error_at(Place::Name, malformed_message())],
        ConfigFile::Contents(bytes) => section_report(
            record,
            yaml_sections(bytes@),
            lowercased(record.name),
        ),
    }
}

/// What checking an item reports: one warning where it is no record.
pub open spec fn item_report(item: DeclarationView, file: ConfigFile) -> Seq<Note> {
    match item {
        DeclarationView::Record(record) => record_report(record, file),
        DeclarationView::Other => seq![warning_at(Place::Item, NOT_A_RECORD@)],
    }
}

/// What checking the item written in `input` reports; `None` where the
/// text is not one item.
pub open spec fn source_report(input: Seq<char>, file: ConfigFile) -> Option<Seq<Note>> {
    match parsed_item(input) {
        Some(item) => Some(item_report(item, file)),
        None => None,
    }
}

fn single(diagnostic: Diagnostic) -> (report: Vec<Diagnostic>)
    ensures
        report.deep_view() == seq![diagnostic@],
{
    let mut report: Vec<Diagnostic> = Vec::new();
    report.push(diagnostic);
    assert(report.deep_view() =~= seq![diagnostic@]);
    report
}

fn malformed() -> (report: Vec<Diagnostic>)
    ensures
        report.deep_view() == seq![error_at(Place::Name, malformed_message())],
{
    let message = String::from_str("Error parsing ").concat(PATH);
    single(Diagnostic::error(Target::Name, message))
}

/// Checks a record against a configuration that has been parsed already,
/// or has failed to parse (`None`), looking for the section named `key`.
pub fn check_section(
    record: &Record,
    sections: &Option<Vec<Section>>,
    key: &String,
) -> (report: Vec<Diagnostic>)
    ensures
        report.deep_view() == section_report(record@, sections.deep_view(), key@),
{
    match sections {
        None => malformed(),
        Some(sections) => match find_section(sections, key) {
            None => {
                let message = String::from_str("Cannot find key `").concat(key.as_str()).concat(
                    "`",
                );
                single(Diagnostic::error(Target::Name, message))
            },
            Some(at) => {
                proof {
                    lemma_section_found(sections.deep_view(), key@, at as int);
                }
                match &record.members {
                    Members::Named(fields) => diff_fields(fields, &sections[at].keys),
                    _ => single(
                        Diagnostic::error(Target::Name, String::from_str(NO_NAMED_MEMBERS)),
                    ),
                }
            },
        },
    }
}

/// Checks a record against the configuration file.
pub fn light_it_up(record: &Record, file: &ConfigFile) -> (report: Vec<Diagnostic>)
    ensures
        report.deep_view() == record_report(record@, *file),
{
    match file {
        ConfigFile::Absent => {
            let message = String::from_str("No ").concat(PATH).concat(" found");
            single(Diagnostic::error(Target::Name, message))
        },
        ConfigFile::Unreadable => malformed(),
        ConfigFile::Contents(bytes) => {
            let sections = parse_yaml(bytes.as_slice());
            let key = to_lowercase(record.name.as_str());
            check_section(record, &sections, &key)
        },
    }
}

/// Checks an item that has been inspected already.
pub fn validate_item(item: &Declaration, file: &ConfigFile) -> (report: Vec<Diagnostic>)
    ensures
        report.deep_view() == item_report(item@, *file),
{
    match item {
        Declaration::Record(record) => light_it_up(record, file),
        Declaration::Other => single(
            Diagnostic::warning(Target::Item, String::from_str(NOT_A_RECORD)),
        ),
    }
}

/// Checks the item that `input` declares against the configuration file.
/// The arguments of the annotation, `_metadata`, play no part. `None`
/// where `input` is not the text of one item.
pub fn validate_fields(
    _metadata: &str,
    input: &str,
    file: &ConfigFile,
) -> (report: Option<Vec<Diagnostic>>)
    ensures
        report.deep_view() == source_report(input@, *file),
{
    match parse_item(input) {
        Some(item) => Some(validate_item(&item, file)),
        None => None,
    }
}

} // verus!
