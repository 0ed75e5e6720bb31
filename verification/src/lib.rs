//! Parser for JUnit-style XML test reports.
//!
//! The parser turns a byte slice holding a JUnit XML document into a typed
//! tree of test suites and test cases, tolerating the several dialects found
//! in the wild (plain JUnit, nextest, Surefire, `testrun`-rooted documents).
//!
//! The XML tokenizer is the `quick_xml` crate, wrapped behind the trusted
//! boundary in [`tok`]; everything built on its events — the recursive
//! descent over elements, attribute coercion, text accumulation, the
//! tolerance for unknown elements — is verified against the specification
//! parser in [`sem`].

pub mod errors;
pub mod laws;
pub mod model;
pub mod num;
pub mod parse;
pub mod sem;
pub mod tok;

pub use errors::Error;
pub use model::Properties;
pub use model::RerunOrFlaky;
pub use model::RerunOrFlakyKind;
pub use model::TestCase;
pub use model::TestError;
pub use model::TestFailure;
pub use model::TestSkipped;
pub use model::TestStatus;
pub use model::TestSuite;
pub use model::TestSuites;
pub use parse::from_reader;
pub use parse::parse_events;
pub use tok::ElemTag;
pub use tok::Event;
