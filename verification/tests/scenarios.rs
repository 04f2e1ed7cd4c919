use validate_fields_core::config::ConfigFile;
use validate_fields_core::diagnostic::{Diagnostic, Severity, Target};
use validate_fields_core::validate::validate_fields;

fn contents(text: &str) -> ConfigFile {
    ConfigFile::Contents(text.as_bytes().to_vec())
}

fn error(target: Target, message: &str) -> Diagnostic {
    Diagnostic { severity: Severity::Error, target, message: message.to_string() }
}

fn warning(target: Target, message: &str) -> Diagnostic {
    Diagnostic { severity: Severity::Warning, target, message: message.to_string() }
}

const PERSON: &str = "struct Person { name: String, age: u8, email: String }";

#[test]
fn member_without_key_is_an_error_on_that_member() {
    let file = contents("person: {name: \"x\", age: \"y\"}");
    let report = validate_fields("", PERSON, &file);
    assert_eq!(report, Some(vec![error(Target::Member(2), "Property does not exist")]));
}

#[test]
fn key_without_member_is_listed_in_one_warning() {
    let file = contents("person: {name: \"x\", age: \"y\", email: \"z\", extra: \"w\"}");
    let report = validate_fields("", PERSON, &file);
    assert_eq!(
        report,
        Some(vec![warning(Target::Name, "Missing the following properties: extra")])
    );
}

#[test]
fn equal_names_give_no_diagnostic() {
    let file = contents("person:\n  email: z\n  name: x\n  age: y\n");
    assert_eq!(validate_fields("", PERSON, &file), Some(vec![]));
}

#[test]
fn block_mapping_is_read_like_a_flow_mapping() {
    let file = contents("person:\n  name: x\n  age: y\n");
    let report = validate_fields("", PERSON, &file);
    assert_eq!(report, Some(vec![error(Target::Member(2), "Property does not exist")]));
}

#[test]
fn missing_keys_are_sorted_and_joined() {
    let file = contents("person:\n  zeta: a\n  name: x\n  alpha: b\n  Beta: c\n  age: y\n  email: z\n");
    let report = validate_fields("", PERSON, &file);
    assert_eq!(
        report,
        Some(vec![warning(Target::Name, "Missing the following properties: Beta, alpha, zeta")])
    );
}

#[test]
fn errors_come_in_declaration_order_before_the_warning() {
    let file = contents("person:\n  age: y\n  phone: p\n");
    let report = validate_fields("", PERSON, &file);
    assert_eq!(
        report,
        Some(vec![
            error(Target::Member(0), "Property does not exist"),
            error(Target::Member(2), "Property does not exist"),
            warning(Target::Name, "Missing the following properties: phone"),
        ])
    );
}

#[test]
fn section_is_found_under_the_lower_case_name() {
    let file = contents("httpclient:\n  url: u\n");
    let report = validate_fields("", "struct HTTPClient { url: String }", &file);
    assert_eq!(report, Some(vec![]));
}

#[test]
fn section_under_the_declared_spelling_is_not_found() {
    let file = contents("HTTPClient:\n  url: u\nPerson:\n  name: n\n");
    let report = validate_fields("", "struct HTTPClient { url: String }", &file);
    assert_eq!(report, Some(vec![error(Target::Name, "Cannot find key `httpclient`")]));
    let report = validate_fields("", "struct Person { name: String }", &file);
    assert_eq!(report, Some(vec![error(Target::Name, "Cannot find key `person`")]));
}

#[test]
fn no_delimiter_is_put_into_the_key() {
    let file = contents("http_client:\n  url: u\n");
    let report = validate_fields("", "struct HttpClient { url: String }", &file);
    assert_eq!(report, Some(vec![error(Target::Name, "Cannot find key `httpclient`")]));
}

#[test]
fn absent_file_is_one_error() {
    let report = validate_fields("", PERSON, &ConfigFile::Absent);
    assert_eq!(report, Some(vec![error(Target::Name, "No application.yml found")]));
}

#[test]
fn unreadable_file_is_one_error() {
    let report = validate_fields("", PERSON, &ConfigFile::Unreadable);
    assert_eq!(report, Some(vec![error(Target::Name, "Error parsing application.yml")]));
}

#[test]
fn malformed_file_is_one_error() {
    let report = validate_fields("", PERSON, &contents("person: [name, age\n"));
    assert_eq!(report, Some(vec![error(Target::Name, "Error parsing application.yml")]));
}

#[test]
fn document_of_another_shape_is_malformed() {
    let report = validate_fields("", PERSON, &contents("- person\n- client\n"));
    assert_eq!(report, Some(vec![error(Target::Name, "Error parsing application.yml")]));
    let report = validate_fields("", PERSON, &contents("person: name\n"));
    assert_eq!(report, Some(vec![error(Target::Name, "Error parsing application.yml")]));
}

#[test]
fn bytes_that_are_no_text_are_malformed() {
    let file = ConfigFile::Contents(vec![0xff, 0xfe, 0x00]);
    let report = validate_fields("", PERSON, &file);
    assert_eq!(report, Some(vec![error(Target::Name, "Error parsing application.yml")]));
}

#[test]
fn missing_section_is_one_error() {
    let file = contents("client:\n  url: u\n");
    let report = validate_fields("", PERSON, &file);
    assert_eq!(report, Some(vec![error(Target::Name, "Cannot find key `person`")]));
}

#[test]
fn function_gets_one_warning() {
    let file = contents("person:\n  name: x\n");
    let report = validate_fields("", "fn main() { println!(\"Hello, world!\"); }", &file);
    assert_eq!(report, Some(vec![warning(Target::Item, "uhmm")]));
}

#[test]
fn other_items_get_one_warning_whatever_the_file() {
    let report = validate_fields("", "enum Colour { Red, Green }", &ConfigFile::Absent);
    assert_eq!(report, Some(vec![warning(Target::Item, "uhmm")]));
}

#[test]
fn positional_members_are_an_error() {
    let file = contents("pair:\n  first: a\n");
    let report = validate_fields("", "struct Pair(u8, u8);", &file);
    assert_eq!(report, Some(vec![error(Target::Name, "Huhh what you trying to do")]));
}

#[test]
fn unit_record_is_an_error() {
    let file = contents("marker:\n  first: a\n");
    let report = validate_fields("", "struct Marker;", &file);
    assert_eq!(report, Some(vec![error(Target::Name, "Huhh what you trying to do")]));
}

#[test]
fn configuration_faults_come_before_the_member_fault() {
    let report = validate_fields("", "struct Pair(u8, u8);", &ConfigFile::Absent);
    assert_eq!(report, Some(vec![error(Target::Name, "No application.yml found")]));
    let report = validate_fields("", "struct Pair(u8, u8);", &contents("other:\n  a: b\n"));
    assert_eq!(report, Some(vec![error(Target::Name, "Cannot find key `pair`")]));
}

#[test]
fn record_without_members_matches_an_empty_section() {
    let report = validate_fields("", "struct Empty {}", &contents("empty: {}\n"));
    assert_eq!(report, Some(vec![]));
}

#[test]
fn generics_and_attributes_do_not_matter() {
    let file = contents("client:\n  url: u\n  path: p\ncredentials:\n  private_key: k\n");
    let client = "#[derive(Debug)] pub struct Client<'a> { url: &'a str, pub path: &'a str }";
    assert_eq!(validate_fields("", client, &file), Some(vec![]));
    let credentials = "struct Credentials<'a> { private_key: &'a str }";
    assert_eq!(validate_fields("", credentials, &file), Some(vec![]));
}

#[test]
fn arguments_of_the_annotation_are_ignored() {
    let file = contents("person:\n  name: x\n  age: y\n");
    let plain = validate_fields("", PERSON, &file);
    let with_arguments = validate_fields("strict, path = \"other.yml\"", PERSON, &file);
    assert_eq!(plain, with_arguments);
}

#[test]
fn text_that_is_no_item_gives_nothing() {
    let file = contents("person:\n  name: x\n");
    assert_eq!(validate_fields("", "struct Person { name String }", &file), None);
    assert_eq!(validate_fields("", "1 + 2", &file), None);
    assert_eq!(validate_fields("", "", &file), None);
    assert_eq!(validate_fields("", "struct A {} struct B {}", &file), None);
}

#[test]
fn values_of_the_keys_are_not_looked_at() {
    let file = contents("person:\n  name: x\n  age: 5\n  email: true\n");
    assert_eq!(validate_fields("", PERSON, &file), Some(vec![]));
}
