use validate_fields_core::config::{find_section, ConfigFile, Section};
use validate_fields_core::declaration::{Declaration, Members, Record};
use validate_fields_core::diagnostic::{Diagnostic, Severity, Target};
use validate_fields_core::diff::{diff_fields, missing_properties, occurs_before};
use validate_fields_core::listing::{contains_name, insert_ascending, join_names};
use validate_fields_core::text::name_precedes;
use validate_fields_core::validate::{check_section, light_it_up, validate_item};

fn names(list: &[&str]) -> Vec<String> {
    list.iter().map(|name| name.to_string()).collect()
}

fn record(name: &str, members: &[&str]) -> Record {
    Record { name: name.to_string(), members: Members::Named(names(members)) }
}

fn section(name: &str, keys: &[&str]) -> Section {
    Section { name: name.to_string(), keys: names(keys) }
}

fn absent(at: usize) -> Diagnostic {
    Diagnostic {
        severity: Severity::Error,
        target: Target::Member(at),
        message: "Property does not exist".to_string(),
    }
}

fn missing(list: &str) -> Diagnostic {
    Diagnostic {
        severity: Severity::Warning,
        target: Target::Name,
        message: format!("Missing the following properties: {}", list),
    }
}

#[test]
fn order_is_by_code_point() {
    assert!(name_precedes("age", "email"));
    assert!(!name_precedes("email", "age"));
    assert!(name_precedes("Zeta", "alpha"));
    assert!(name_precedes("a", "ab"));
    assert!(!name_precedes("ab", "a"));
    assert!(name_precedes("", "a"));
    assert!(!name_precedes("a", ""));
    assert!(name_precedes("z", "\u{e9}"));
    assert!(name_precedes("\u{e9}", "\u{4e2d}"));
}

#[test]
fn no_name_precedes_itself() {
    assert!(!name_precedes("name", "name"));
    assert!(!name_precedes("", ""));
}

#[test]
fn order_agrees_with_the_order_of_strings() {
    let samples = ["", "a", "A", "ab", "b", "name", "nam", "\u{e9}", "e\u{301}", "\u{1f600}"];
    for a in samples {
        for b in samples {
            assert_eq!(name_precedes(a, b), a < b);
        }
    }
}

#[test]
fn membership_is_by_equal_text() {
    let list = names(&["name", "age"]);
    assert!(contains_name(&list, &"age".to_string()));
    assert!(!contains_name(&list, &"Age".to_string()));
    assert!(!contains_name(&list, &"ag".to_string()));
    assert!(!contains_name(&Vec::new(), &"age".to_string()));
}

#[test]
fn insertion_keeps_the_list_ascending() {
    let mut list: Vec<String> = Vec::new();
    for name in ["m", "a", "z", "k", "a", "zz", "m"] {
        insert_ascending(&mut list, name.to_string());
    }
    assert_eq!(list, names(&["a", "k", "m", "z", "zz"]));
}

#[test]
fn joining_puts_the_separator_between_neighbours() {
    assert_eq!(join_names(&names(&[]), ", "), "");
    assert_eq!(join_names(&names(&["extra"]), ", "), "extra");
    assert_eq!(join_names(&names(&["a", "b", "c"]), ", "), "a, b, c");
    assert_eq!(join_names(&names(&["", ""]), "-"), "-");
}

#[test]
fn earlier_occurrences_are_seen() {
    let list = names(&["a", "b", "a", "c", "b"]);
    assert!(!occurs_before(&list, 0));
    assert!(!occurs_before(&list, 1));
    assert!(occurs_before(&list, 2));
    assert!(!occurs_before(&list, 3));
    assert!(occurs_before(&list, 4));
}

#[test]
fn missing_properties_are_the_keys_without_a_member() {
    let fields = names(&["name", "age", "email"]);
    let keys = names(&["name", "extra", "age", "email", "also", "extra"]);
    assert_eq!(missing_properties(&fields, &keys), names(&["also", "extra"]));
    assert_eq!(missing_properties(&fields, &names(&["age"])), names(&[]));
    assert_eq!(missing_properties(&names(&[]), &names(&["b", "a"])), names(&["a", "b"]));
}

#[test]
fn equal_sets_in_any_order_report_nothing() {
    let fields = names(&["name", "age", "email"]);
    let keys = names(&["email", "name", "age", "name"]);
    assert_eq!(diff_fields(&fields, &keys), vec![]);
    assert_eq!(diff_fields(&names(&[]), &names(&[])), vec![]);
}

#[test]
fn each_absent_member_is_reported_once() {
    let fields = names(&["name", "age", "email"]);
    assert_eq!(diff_fields(&fields, &names(&["name", "age"])), vec![absent(2)]);
    assert_eq!(diff_fields(&fields, &names(&[])), vec![absent(0), absent(1), absent(2)]);
}

#[test]
fn a_name_declared_twice_is_reported_at_its_first_member() {
    let fields = names(&["email", "name", "email"]);
    assert_eq!(diff_fields(&fields, &names(&["name"])), vec![absent(0)]);
}

#[test]
fn both_sides_can_disagree_at_once() {
    let fields = names(&["name", "age", "email"]);
    let keys = names(&["zip", "age", "city"]);
    assert_eq!(diff_fields(&fields, &keys), vec![absent(0), absent(2), missing("city, zip")]);
}

#[test]
fn first_section_of_a_name_is_found() {
    let sections = vec![section("a", &["x"]), section("b", &["y"]), section("a", &["z"])];
    assert_eq!(find_section(&sections, &"a".to_string()), Some(0));
    assert_eq!(find_section(&sections, &"b".to_string()), Some(1));
    assert_eq!(find_section(&sections, &"c".to_string()), None);
    assert_eq!(find_section(&Vec::new(), &"a".to_string()), None);
}

#[test]
fn parsed_configuration_is_checked_under_the_given_key() {
    let person = record("Person", &["name", "age", "email"]);
    let sections = Some(vec![section("client", &["url"]), section("person", &["name", "age"])]);
    assert_eq!(check_section(&person, &sections, &"person".to_string()), vec![absent(2)]);
    assert_eq!(
        check_section(&person, &sections, &"client".to_string()),
        vec![absent(0), absent(1), absent(2), missing("url")]
    );
    let report = check_section(&person, &sections, &"Person".to_string());
    assert_eq!(report.len(), 1);
    assert_eq!(report[0].message, "Cannot find key `Person`");
    let report = check_section(&person, &None, &"person".to_string());
    assert_eq!(report.len(), 1);
    assert_eq!(report[0].severity, Severity::Error);
    assert_eq!(report[0].target, Target::Name);
    assert_eq!(report[0].message, "Error parsing application.yml");
}

#[test]
fn record_is_checked_against_the_bytes_of_the_file() {
    let person = record("Person", &["name", "age", "email"]);
    let file = ConfigFile::Contents(b"person:\n  name: x\n  email: z\n  nick: n\n".to_vec());
    assert_eq!(light_it_up(&person, &file), vec![absent(1), missing("nick")]);
}

#[test]
fn record_name_is_lowered_as_a_whole() {
    let file = ConfigFile::Contents("\u{e9}cole:\n  name: x\n".as_bytes().to_vec());
    assert_eq!(light_it_up(&record("\u{c9}COLE", &["name"]), &file), vec![]);
}

#[test]
fn inspected_items_are_checked_alike() {
    let file = ConfigFile::Contents(b"person:\n  name: x\n".to_vec());
    let person = Declaration::Record(record("Person", &["name", "age"]));
    assert_eq!(validate_item(&person, &file), vec![absent(1)]);
    let report = validate_item(&Declaration::Other, &file);
    assert_eq!(report.len(), 1);
    assert_eq!(report[0].severity, Severity::Warning);
    assert_eq!(report[0].target, Target::Item);
    let positional =
        Declaration::Record(Record { name: "Person".to_string(), members: Members::Positional });
    let report = validate_item(&positional, &file);
    assert_eq!(report.len(), 1);
    assert_eq!(report[0].message, "Huhh what you trying to do");
}
