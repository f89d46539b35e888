//! The entry-document check: well-formedness, then validation against the
//! bundled reference schema, collecting every violation instead of failing
//! on the first.

use vstd::prelude::*;

verus! {

/// The bundled reference schema for plugin entry documents: a fixed
/// resource, versioned with the implementation, never user-supplied.
pub const ENTRY_SCHEMA: &'static str = "<?xml version=\"1.0\" encoding=\"UTF-8\"?>\n<xs:schema xmlns:xs=\"http://www.w3.org/2001/XMLSchema\" elementFormDefault=\"qualified\">\n  <xs:element name=\"html\">\n    <xs:complexType>\n      <xs:sequence>\n        <xs:element name=\"head\">\n          <xs:complexType>\n            <xs:sequence>\n              <xs:element name=\"title\" type=\"xs:string\"/>\n            </xs:sequence>\n          </xs:complexType>\n        </xs:element>\n        <xs:element name=\"body\" type=\"xs:string\"/>\n      </xs:sequence>\n    </xs:complexType>\n  </xs:element>\n</xs:schema>\n";

/// Whether a schema text compiles as XSD.
pub uninterp spec fn xsd_accepted(schema: Seq<char>) -> bool;

/// Whether a text parses as a well-formed XML document.
pub uninterp spec fn xml_parses(text: Seq<char>) -> bool;

/// The violation messages that validating `text` against `schema` yields,
/// or `None` when the validation engine itself fails.
pub uninterp spec fn schema_report(schema: Seq<char>, text: Seq<char>) -> Option<Seq<Seq<char>>>;

/// The outcome of compiling a schema and validating a document against it.
pub enum SchemaCheck {
    /// The schema text did not compile.
    BadSchema,
    /// The document is not well-formed XML.
    NotXml,
    /// The validation engine failed.
    EngineFail,
    /// The collected violation messages; empty means the document conforms.
    Report(Vec<String>),
}

/// Relies on `fastxml::schema::Schema::from_xsd`, `fastxml::Parser::parse`
/// and `fastxml::schema::Validator::run` with an explicit schema (which
/// never touches the network): each outcome is decided by the two texts
/// alone.
#[verifier::external_body]
fn schema_check(schema: &str, doc: &str) -> (r: SchemaCheck)
    ensures
        match r {
            SchemaCheck::BadSchema => !xsd_accepted(schema@),
            SchemaCheck::NotXml => xsd_accepted(schema@) && !xml_parses(doc@),
            SchemaCheck::EngineFail => xsd_accepted(schema@) && xml_parses(doc@) && schema_report(
                schema@,
                doc@,
            ) is None,
            SchemaCheck::Report(v) => xsd_accepted(schema@) && xml_parses(doc@) && schema_report(
                schema@,
                doc@,
            ) == Option::Some(v.deep_view()),
        },
{
    let sch = match fastxml::schema::Schema::from_xsd(schema.as_bytes()) {
        Result::Ok(s) => s,
        Result::Err(_) => return SchemaCheck::BadSchema,
    };
    let parsed = match fastxml::Parser::from(doc).parse() {
        Result::Ok(d) => d,
        Result::Err(_) => return SchemaCheck::NotXml,
    };
    match fastxml::schema::Validator::from(&parsed).schema(sch).run() {
        Result::Ok(rep) => SchemaCheck::Report(rep.errors().iter().map(|e| e.to_string()).collect()),
        Result::Err(_) => SchemaCheck::EngineFail,
    }
}

/// Relies on `fastxml::Parser::parse`: well-formedness is decided by the
/// text alone.
#[verifier::external_body]
pub fn xml_is_well_formed(doc: &str) -> (r: bool)
    ensures
        r == xml_parses(doc@),
{
    fastxml::Parser::from(doc).parse().is_ok()
}

/// Why an entry document was rejected.
#[derive(Debug)]
pub enum EntryError {
    /// The bundled schema was rejected or the validation engine failed.
    Internal,
    /// The document is not well-formed XML.
    MalformedDocument,
    /// The document violates the schema; every violation is collected.
    SchemaViolation(Vec<String>),
}

/// The mathematical value of an [`EntryError`].
#[verifier::ext_equal]
pub enum EntryErrorView {
    Internal,
    MalformedDocument,
    SchemaViolation(Seq<Seq<char>>),
}

impl View for EntryError {
    type V = EntryErrorView;

    open spec fn view(&self) -> EntryErrorView {
        match self {
            EntryError::Internal => EntryErrorView::Internal,
            EntryError::MalformedDocument => EntryErrorView::MalformedDocument,
            EntryError::SchemaViolation(v) => EntryErrorView::SchemaViolation(v.deep_view()),
        }
    }
}

/// The outcome of checking an entry document against a schema.
pub open spec fn spec_validate_entry(schema: Seq<char>, text: Seq<char>) -> Result<
    (),
    EntryErrorView,
> {
    if !xsd_accepted(schema) {
        Result::Err(EntryErrorView::Internal)
    } else if !xml_parses(text) {
        Result::Err(EntryErrorView::MalformedDocument)
    } else {
        match schema_report(schema, text) {
            Option::None => Result::Err(EntryErrorView::Internal),
            Option::Some(msgs) => if msgs.len() == 0 {
                Result::Ok(())
            } else {
                Result::Err(EntryErrorView::SchemaViolation(msgs))
            },
        }
    }
}

/// Check an entry document: well-formed XML, then conformant to the bundled
/// schema, with all violations collected.
pub fn validate_entry_xhtml(entry_content: &str) -> (r: Result<(), EntryError>)
    ensures
        match r {
            Result::Ok(u) => spec_validate_entry(ENTRY_SCHEMA@, entry_content@) is Ok,
            Result::Err(e) => spec_validate_entry(ENTRY_SCHEMA@, entry_content@) == Result::<
                (),
                EntryErrorView,
            >::Err(e@),
        },
{
    match schema_check(ENTRY_SCHEMA, entry_content) {
        SchemaCheck::BadSchema => Result::Err(EntryError::Internal),
        SchemaCheck::NotXml => Result::Err(EntryError::MalformedDocument),
        SchemaCheck::EngineFail => Result::Err(EntryError::Internal),
        SchemaCheck::Report(msgs) => {
            if msgs.len() == 0 {
                Result::Ok(())
            } else {
                Result::Err(EntryError::SchemaViolation(msgs))
            }
        },
    }
}

} // verus!
