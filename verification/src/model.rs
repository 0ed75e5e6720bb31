//! The document model: typed records for test suites, test cases, their
//! status, reruns and properties, together with the mathematical models
//! (`...Model` types) that the parser contracts speak of.

use vstd::prelude::*;

verus! {

broadcast use vstd::std_specs::vec::group_vec_axioms;

// ---------------------------------------------------------------------------
// Mathematical models
// ---------------------------------------------------------------------------

/// Model of [`Properties`]: the ordered key/value pairs, duplicates retained.
#[verifier::ext_equal]
pub ghost struct PropsModel {
    pub entries: Seq<(Seq<char>, Seq<char>)>,
}

/// Model shared by [`TestFailure`], [`TestError`] and [`TestSkipped`]:
/// a message, a body text and a type tag.
#[verifier::ext_equal]
pub ghost struct LeafModel {
    pub message: Seq<char>,
    pub text: Seq<char>,
    pub typ: Seq<char>,
}

/// Model of [`TestStatus`].
#[verifier::ext_equal]
pub ghost enum StatusModel {
    Success,
    Error(LeafModel),
    Failure(LeafModel),
    Skipped(LeafModel),
}

/// Model of [`RerunOrFlaky`].
#[verifier::ext_equal]
pub ghost struct RerunModel {
    pub timestamp: Option<Seq<char>>,
    pub time: Seq<char>,
    pub rerun_type: Seq<char>,
    pub message: Seq<char>,
    pub text: Seq<char>,
    pub system_out: Option<Seq<char>>,
    pub system_err: Option<Seq<char>>,
    pub stack_trace: Option<Seq<char>>,
    pub kind: RerunOrFlakyKind,
}

/// Model of [`TestCase`].
#[verifier::ext_equal]
pub ghost struct CaseModel {
    pub time: Seq<char>,
    pub name: Seq<char>,
    pub status: StatusModel,
    pub original_name: Seq<char>,
    pub classname: Option<Seq<char>>,
    pub group: Option<Seq<char>>,
    pub file: Option<Seq<char>>,
    pub line: Option<u64>,
    pub timestamp: Option<Seq<char>>,
    pub system_out: Option<Seq<char>>,
    pub system_err: Option<Seq<char>>,
    pub properties: PropsModel,
    pub reruns: Seq<RerunModel>,
}

/// Model of [`TestSuite`]; `suites` makes it recursive, one level per
/// nested `testsuite` element.
#[verifier::ext_equal]
pub ghost struct SuiteModel {
    pub cases: Seq<CaseModel>,
    pub suites: Seq<SuiteModel>,
    pub time: Seq<char>,
    pub tests: u64,
    pub errors: u64,
    pub failures: u64,
    pub skipped: u64,
    pub assertions: Option<u64>,
    pub name: Seq<char>,
    pub timestamp: Option<Seq<char>>,
    pub hostname: Option<Seq<char>>,
    pub id: Option<Seq<char>>,
    pub package: Option<Seq<char>>,
    pub file: Option<Seq<char>>,
    pub log: Option<Seq<char>>,
    pub url: Option<Seq<char>>,
    pub version: Option<Seq<char>>,
    pub system_out: Option<Seq<char>>,
    pub system_err: Option<Seq<char>>,
    pub properties: PropsModel,
}

/// Model of [`TestSuites`], the root of a parsed report.
#[verifier::ext_equal]
pub ghost struct SuitesModel {
    pub suites: Seq<SuiteModel>,
    pub time: Seq<char>,
    pub tests: u64,
    pub errors: u64,
    pub failures: u64,
    pub skipped: u64,
    pub name: Seq<char>,
    pub timestamp: Option<Seq<char>>,
}

// ---------------------------------------------------------------------------
// Executable document types
// ---------------------------------------------------------------------------

/// Properties associated to a [`TestSuite`] or a [`TestCase`]: ordered
/// key/value pairs in document order, duplicate keys all retained.
#[derive(Debug)]
pub struct Properties {
    /// The properties, in the order they appeared in the document.
    pub vec: Vec<(String, String)>,
}

impl View for Properties {
    type V = PropsModel;

    open spec fn view(&self) -> PropsModel {
        PropsModel { entries: Seq::new(self.vec@.len(), |i: int| (self.vec@[i].0@, self.vec@[i].1@)) }
    }
}

impl Properties {
    /// An empty property list.
    pub fn new() -> (r: Properties)
        ensures
            r@.entries =~= Seq::<(Seq<char>, Seq<char>)>::empty(),
    {
        Properties { vec: Vec::new() }
    }

    /// Appends one key/value pair, keeping every earlier pair.
    pub fn add_property(&mut self, key: String, value: String)
        ensures
            final(self)@.entries =~= old(self)@.entries.push((key@, value@)),
    {
        self.vec.push((key, value));
    }
}

/// The kind of rerun or flaky result, fixed by the element's tag name.
#[derive(Debug, Clone, Copy, PartialEq, Eq, Structural)]
pub enum RerunOrFlakyKind {
    /// From a `flakyFailure` element.
    FlakyFailure,
    /// From a `flakyError` element.
    FlakyError,
    /// From a `rerunFailure` element.
    RerunFailure,
    /// From a `rerunError` element.
    RerunError,
}

/// Value from a `flakyFailure`, `flakyError`, `rerunFailure` or
/// `rerunError` element: one secondary execution of a test case.
#[derive(Debug)]
pub struct RerunOrFlaky {
    /// The `timestamp` attribute, when present.
    pub timestamp: Option<String>,
    /// The `time` attribute as it stood in the document; empty when the
    /// attribute was absent or empty, which both mean zero.
    pub time: String,
    /// The `type` attribute.
    pub rerun_type: String,
    /// The `message` attribute.
    pub message: String,
    /// Body of the element: text segments trimmed and concatenated, CDATA
    /// kept verbatim.
    pub text: String,
    /// Content of nested `system-out` elements, joined with a newline when
    /// more than one appeared.
    pub system_out: Option<String>,
    /// Content of nested `system-err` elements, joined with a newline when
    /// more than one appeared.
    pub system_err: Option<String>,
    /// Content of the last nested `stackTrace` element.
    pub stack_trace: Option<String>,
    /// Which of the four rerun elements this came from.
    pub kind: RerunOrFlakyKind,
}

impl View for RerunOrFlaky {
    type V = RerunModel;

    open spec fn view(&self) -> RerunModel {
        RerunModel {
            timestamp: match self.timestamp { Some(ref s) => Some(s@), None => None },
            time: self.time@,
            rerun_type: self.rerun_type@,
            message: self.message@,
            text: self.text@,
            system_out: match self.system_out { Some(ref s) => Some(s@), None => None },
            system_err: match self.system_err { Some(ref s) => Some(s@), None => None },
            stack_trace: match self.stack_trace { Some(ref s) => Some(s@), None => None },
            kind: self.kind,
        }
    }
}

/// Value from a `failure` element.
#[derive(Debug)]
pub struct TestFailure {
    /// The `message` attribute.
    pub message: String,
    /// Body of the element: the last text or CDATA segment, text trimmed.
    pub text: String,
    /// The `type` attribute.
    pub failure_type: String,
}

impl View for TestFailure {
    type V = LeafModel;

    open spec fn view(&self) -> LeafModel {
        LeafModel { message: self.message@, text: self.text@, typ: self.failure_type@ }
    }
}

/// Value from an `error` element.
#[derive(Debug)]
pub struct TestError {
    /// The `message` attribute.
    pub message: String,
    /// Body of the element: the last text or CDATA segment, text trimmed.
    pub text: String,
    /// The `type` attribute.
    pub error_type: String,
}

impl View for TestError {
    type V = LeafModel;

    open spec fn view(&self) -> LeafModel {
        LeafModel { message: self.message@, text: self.text@, typ: self.error_type@ }
    }
}

/// Value from a `skipped` element.
#[derive(Debug)]
pub struct TestSkipped {
    /// The `message` attribute.
    pub message: String,
    /// Body of the element: the last text or CDATA segment, text trimmed.
    pub text: String,
    /// The `type` attribute.
    pub skipped_type: String,
}

impl View for TestSkipped {
    type V = LeafModel;

    open spec fn view(&self) -> LeafModel {
        LeafModel { message: self.message@, text: self.text@, typ: self.skipped_type@ }
    }
}

/// Status of a test case: exactly one of success, error, failure or skipped.
#[derive(Debug)]
pub enum TestStatus {
    /// No `failure`, `error` or `skipped` child appeared.
    Success,
    /// The test case holds an `error` child.
    Error(TestError),
    /// The test case holds a `failure` child.
    Failure(TestFailure),
    /// The test case holds a `skipped` child.
    Skipped(TestSkipped),
}

impl View for TestStatus {
    type V = StatusModel;

    open spec fn view(&self) -> StatusModel {
        match self {
            TestStatus::Success => StatusModel::Success,
            TestStatus::Error(e) => StatusModel::Error(e@),
            TestStatus::Failure(f) => StatusModel::Failure(f@),
            TestStatus::Skipped(s) => StatusModel::Skipped(s@),
        }
    }
}

impl TestStatus {
    /// Returns `true` exactly when the status is `Success`.
    pub fn is_success(&self) -> (r: bool)
        ensures
            r == (self@ is Success),
    {
        matches!(self, TestStatus::Success)
    }

    /// Returns `true` exactly when the status is `Error`.
    pub fn is_error(&self) -> (r: bool)
        ensures
            r == (self@ is Error),
    {
        matches!(self, TestStatus::Error(_))
    }

    /// Returns the contained [`TestError`] as a reference.
    pub fn error_as_ref(&self) -> (r: &TestError)
        requires
            self@ is Error,
        ensures
            r@ == self@->Error_0,
    {
        match self {
            TestStatus::Error(e) => e,
            _ => vstd::pervasive::unreached(),
        }
    }

    /// Returns `true` exactly when the status is `Failure`.
    pub fn is_failure(&self) -> (r: bool)
        ensures
            r == (self@ is Failure),
    {
        matches!(self, TestStatus::Failure(_))
    }

    /// Returns the contained [`TestFailure`] as a reference.
    pub fn failure_as_ref(&self) -> (r: &TestFailure)
        requires
            self@ is Failure,
        ensures
            r@ == self@->Failure_0,
    {
        match self {
            TestStatus::Failure(f) => f,
            _ => vstd::pervasive::unreached(),
        }
    }

    /// Returns `true` exactly when the status is `Skipped`.
    pub fn is_skipped(&self) -> (r: bool)
        ensures
            r == (self@ is Skipped),
    {
        matches!(self, TestStatus::Skipped(_))
    }

    /// Returns the contained [`TestSkipped`] as a reference.
    pub fn skipped_as_ref(&self) -> (r: &TestSkipped)
        requires
            self@ is Skipped,
        ensures
            r@ == self@->Skipped_0,
    {
        match self {
            TestStatus::Skipped(s) => s,
            _ => vstd::pervasive::unreached(),
        }
    }
}

/// A single test case.
#[derive(Debug)]
pub struct TestCase {
    /// The `time` attribute as it stood in the document; empty when the
    /// attribute was absent or empty, which both mean zero.
    pub time: String,
    /// Name of the test case: `classname::name` when a `classname`
    /// attribute is present, else `group::name` when a `group` attribute
    /// is present, else the `name` attribute unchanged.
    pub name: String,
    /// Status of the test case.
    pub status: TestStatus,
    /// The `name` attribute, unchanged.
    pub original_name: String,
    /// The `classname` attribute, when present.
    pub classname: Option<String>,
    /// The `group` attribute, when present.
    pub group: Option<String>,
    /// The `file` attribute, when present.
    pub file: Option<String>,
    /// The `line` attribute, when present.
    pub line: Option<u64>,
    /// The `timestamp` attribute, when present.
    pub timestamp: Option<String>,
    /// Content of `system-out` children, joined with a newline when more
    /// than one appeared; `None` when none appeared.
    pub system_out: Option<String>,
    /// Content of `system-err` children, joined with a newline when more
    /// than one appeared; `None` when none appeared.
    pub system_err: Option<String>,
    /// Properties of the test case.
    pub properties: Properties,
    /// Reruns of the test case, in document order.
    pub reruns: Vec<RerunOrFlaky>,
}

impl View for TestCase {
    type V = CaseModel;

    open spec fn view(&self) -> CaseModel {
        CaseModel {
            time: self.time@,
            name: self.name@,
            status: self.status@,
            original_name: self.original_name@,
            classname: match self.classname { Some(ref s) => Some(s@), None => None },
            group: match self.group { Some(ref s) => Some(s@), None => None },
            file: match self.file { Some(ref s) => Some(s@), None => None },
            line: self.line,
            timestamp: match self.timestamp { Some(ref s) => Some(s@), None => None },
            system_out: match self.system_out { Some(ref s) => Some(s@), None => None },
            system_err: match self.system_err { Some(ref s) => Some(s@), None => None },
            properties: self.properties@,
            reruns: Seq::new(self.reruns@.len(), |i: int| self.reruns@[i]@),
        }
    }
}

/// A test suite: its cases, its nested suites and its metadata.
#[derive(Debug)]
pub struct TestSuite {
    /// The test cases of this suite, in document order.
    pub cases: Vec<TestCase>,
    /// Nested test suites, in document order.
    pub suites: Vec<TestSuite>,
    /// The `time` attribute as it stood in the document; empty when the
    /// attribute was absent or empty, which both mean zero.
    pub time: String,
    /// The `tests` attribute; zero when absent or empty.
    pub tests: u64,
    /// The `errors` attribute; zero when absent or empty.
    pub errors: u64,
    /// The `failures` attribute; zero when absent or empty.
    pub failures: u64,
    /// The `skipped` attribute; zero when absent or empty.
    pub skipped: u64,
    /// The `assertions` attribute, when present.
    pub assertions: Option<u64>,
    /// The `name` attribute; empty when absent.
    pub name: String,
    /// The `timestamp` attribute, when present.
    pub timestamp: Option<String>,
    /// The `hostname` attribute, when present.
    pub hostname: Option<String>,
    /// The `id` attribute, when present.
    pub id: Option<String>,
    /// The `package` attribute, when present.
    pub package: Option<String>,
    /// The `file` attribute, when present.
    pub file: Option<String>,
    /// The `log` attribute, when present.
    pub log: Option<String>,
    /// The `url` attribute, when present.
    pub url: Option<String>,
    /// The `version` attribute, when present.
    pub version: Option<String>,
    /// Content of `system-out` children, joined with a newline when more
    /// than one appeared; `None` when none appeared.
    pub system_out: Option<String>,
    /// Content of `system-err` children, joined with a newline when more
    /// than one appeared; `None` when none appeared.
    pub system_err: Option<String>,
    /// Properties of the test suite.
    pub properties: Properties,
}

/// The views of a sequence of cases, one [`CaseModel`] per element.
pub open spec fn case_views(v: Seq<TestCase>) -> Seq<CaseModel> {
    Seq::new(v.len(), |i: int| if 0 <= i < v.len() { v[i]@ } else { arbitrary() })
}

/// Appending a case to a sequence appends its view to the views.
pub proof fn lemma_case_views_push(v: Seq<TestCase>, c: TestCase)
    ensures
        case_views(v.push(c)) == case_views(v).push(c@),
{
    let a = case_views(v.push(c));
    let b = case_views(v).push(c@);
    assert(a.len() == b.len());
    assert forall|i: int| 0 <= i < a.len() implies a[i] == b[i] by {
        if i < v.len() {
            assert(v.push(c)[i] == v[i]);
        } else {
            assert(v.push(c)[i] == c);
        }
    }
    assert(a =~= b);
}

/// The views of a sequence of suites, one [`SuiteModel`] per element.
pub open spec fn suite_views(v: Seq<TestSuite>) -> Seq<SuiteModel>
    decreases v,
{
    Seq::new(v.len(), |i: int| if 0 <= i < v.len() { suite_view(v[i]) } else { arbitrary() })
}

/// The view of one suite; recursive through its nested suites.
pub open spec fn suite_view(s: TestSuite) -> SuiteModel
    decreases s,
{
    SuiteModel {
        cases: case_views(s.cases@),
        suites: suite_views(s.suites@),
        time: s.time@,
        tests: s.tests,
        errors: s.errors,
        failures: s.failures,
        skipped: s.skipped,
        assertions: s.assertions,
        name: s.name@,
        timestamp: match s.timestamp { Some(t) => Some(t@), None => None },
        hostname: match s.hostname { Some(t) => Some(t@), None => None },
        id: match s.id { Some(t) => Some(t@), None => None },
        package: match s.package { Some(t) => Some(t@), None => None },
        file: match s.file { Some(t) => Some(t@), None => None },
        log: match s.log { Some(t) => Some(t@), None => None },
        url: match s.url { Some(t) => Some(t@), None => None },
        version: match s.version { Some(t) => Some(t@), None => None },
        system_out: match s.system_out { Some(t) => Some(t@), None => None },
        system_err: match s.system_err { Some(t) => Some(t@), None => None },
        properties: s.properties@,
    }
}

impl View for TestSuite {
    type V = SuiteModel;

    open spec fn view(&self) -> SuiteModel {
        suite_view(*self)
    }
}

/// Appending a suite to a sequence appends its view to the views.
pub proof fn lemma_suite_views_push(v: Seq<TestSuite>, c: TestSuite)
    ensures
        suite_views(v.push(c)) == suite_views(v).push(suite_view(c)),
{
    let a = suite_views(v.push(c));
    let b = suite_views(v).push(suite_view(c));
    assert(a.len() == b.len());
    assert forall|i: int| 0 <= i < a.len() implies a[i] == b[i] by {
        if i < v.len() {
            assert(v.push(c)[i] == v[i]);
        } else {
            assert(v.push(c)[i] == c);
        }
    }
    assert(a =~= b);
}


/// The root of a parsed report: the test suites and the root element's
/// own rollup attributes.
#[derive(Debug)]
pub struct TestSuites {
    /// The test suites of the document, in document order.
    pub suites: Vec<TestSuite>,
    /// The `time` attribute as it stood in the document; empty when the
    /// attribute was absent or empty, which both mean zero.
    pub time: String,
    /// The `tests` attribute; zero when absent or empty.
    pub tests: u64,
    /// The `errors` attribute; zero when absent or empty.
    pub errors: u64,
    /// The `failures` attribute; zero when absent or empty.
    pub failures: u64,
    /// The `skipped` attribute; zero when absent or empty.
    pub skipped: u64,
    /// The `name` attribute; empty when absent.
    pub name: String,
    /// The `timestamp` attribute, when present.
    pub timestamp: Option<String>,
}

impl View for TestSuites {
    type V = SuitesModel;

    open spec fn view(&self) -> SuitesModel {
        SuitesModel {
            suites: suite_views(self.suites@),
            time: self.time@,
            tests: self.tests,
            errors: self.errors,
            failures: self.failures,
            skipped: self.skipped,
            name: self.name@,
            timestamp: match self.timestamp { Some(ref s) => Some(s@), None => None },
        }
    }
}

} // verus!
