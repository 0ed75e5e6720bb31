//! The parsing semantics: a recursive specification parser over the
//! tokenizer's event sequence. Every executable parsing function of the
//! crate is proved to return exactly what these functions say.

use vstd::prelude::*;

use crate::errors::ErrModel;
use crate::model::CaseModel;
use crate::model::LeafModel;
use crate::model::PropsModel;
use crate::model::RerunModel;
use crate::model::RerunOrFlakyKind;
use crate::model::StatusModel;
use crate::model::SuiteModel;
use crate::model::SuitesModel;
use crate::num::is_f64_lit;
use crate::num::u64_value;
use crate::tok::Event;
use crate::tok::ElemTag;
use crate::tok::trim_spec;
use crate::tok::unescaped_of;
use crate::tok::utf8_of;

verus! {

// ---------------------------------------------------------------------------
// Attribute and text coercion
// ---------------------------------------------------------------------------

/// An attribute value decoded as UTF-8 and entity-unescaped.
pub open spec fn coerce_string_spec(raw: Seq<u8>) -> Result<Seq<char>, ErrModel> {
    match utf8_of(raw) {
        Option::None => Result::Err(ErrModel::Utf8(raw)),
        Option::Some(s) => match unescaped_of(s) {
            Option::None => Result::Err(
                ErrModel::Xml("malformed entity reference in attribute value"@),
            ),
            Option::Some(u) => Result::Ok(u),
        },
    }
}

/// A numeric attribute value as an unsigned integer: empty means zero, a
/// non-empty value must be a decimal `u64` literal.
pub open spec fn coerce_u64_spec(raw: Seq<u8>) -> Result<u64, ErrModel> {
    match utf8_of(raw) {
        Option::None => Result::Err(ErrModel::Utf8(raw)),
        Option::Some(s) => if s.len() == 0 {
            Result::Ok(0u64)
        } else {
            match u64_value(raw) {
                Option::Some(v) => Result::Ok(v),
                Option::None => Result::Err(ErrModel::Int(s)),
            }
        },
    }
}

/// A timing attribute value, kept as its text: empty (meaning zero) or a
/// floating-point literal.
pub open spec fn coerce_f64_spec(raw: Seq<u8>) -> Result<Seq<char>, ErrModel> {
    match utf8_of(raw) {
        Option::None => Result::Err(ErrModel::Utf8(raw)),
        Option::Some(s) => if s.len() == 0 {
            Result::Ok(s)
        } else if is_f64_lit(raw) {
            Result::Ok(s)
        } else {
            Result::Err(ErrModel::Float(s))
        },
    }
}

/// A text segment decoded as UTF-8 and entity-unescaped; both failures are
/// the tokenizer's domain and so count as malformed XML.
pub open spec fn text_value_spec(raw: Seq<u8>) -> Result<Seq<char>, ErrModel> {
    match utf8_of(raw) {
        Option::None => Result::Err(ErrModel::Xml("text is not valid UTF-8"@)),
        Option::Some(s) => match unescaped_of(s) {
            Option::None => Result::Err(ErrModel::Xml("malformed entity reference in text"@)),
            Option::Some(u) => Result::Ok(u),
        },
    }
}

/// A CDATA segment decoded as UTF-8, kept verbatim.
pub open spec fn cdata_value_spec(raw: Seq<u8>) -> Result<Seq<char>, ErrModel> {
    match utf8_of(raw) {
        Option::None => Result::Err(ErrModel::Utf8(raw)),
        Option::Some(s) => Result::Ok(s),
    }
}

/// A tag's attribute list, or the tokenizer's attribute error as malformed
/// XML.
pub open spec fn attrs_of(tag: ElemTag) -> Result<Seq<(String, Vec<u8>)>, ErrModel> {
    match tag.attrs {
        Result::Ok(v) => Result::Ok(v@),
        Result::Err(m) => Result::Err(ErrModel::Xml(m@)),
    }
}

// ---------------------------------------------------------------------------
// Empty models and small helpers
// ---------------------------------------------------------------------------

/// The leaf record before any attribute or body is read.
pub open spec fn empty_leaf_model() -> LeafModel {
    LeafModel { message: Seq::empty(), text: Seq::empty(), typ: Seq::empty() }
}

/// The rerun record of the given kind before any attribute or body is read.
pub open spec fn empty_rerun_model(kind: RerunOrFlakyKind) -> RerunModel {
    RerunModel {
        timestamp: Option::None,
        time: Seq::empty(),
        rerun_type: Seq::empty(),
        message: Seq::empty(),
        text: Seq::empty(),
        system_out: Option::None,
        system_err: Option::None,
        stack_trace: Option::None,
        kind: kind,
    }
}

/// The test case before any attribute or child is read.
pub open spec fn empty_case_model() -> CaseModel {
    CaseModel {
        time: Seq::empty(),
        name: Seq::empty(),
        status: StatusModel::Success,
        original_name: Seq::empty(),
        classname: Option::None,
        group: Option::None,
        file: Option::None,
        line: Option::None,
        timestamp: Option::None,
        system_out: Option::None,
        system_err: Option::None,
        properties: PropsModel { entries: Seq::empty() },
        reruns: Seq::empty(),
    }
}

/// The test suite before any attribute or child is read.
pub open spec fn empty_suite_model() -> SuiteModel {
    SuiteModel {
        cases: Seq::empty(),
        suites: Seq::empty(),
        time: Seq::empty(),
        tests: 0,
        errors: 0,
        failures: 0,
        skipped: 0,
        assertions: Option::None,
        name: Seq::empty(),
        timestamp: Option::None,
        hostname: Option::None,
        id: Option::None,
        package: Option::None,
        file: Option::None,
        log: Option::None,
        url: Option::None,
        version: Option::None,
        system_out: Option::None,
        system_err: Option::None,
        properties: PropsModel { entries: Seq::empty() },
    }
}

/// The report root before any attribute or child is read.
pub open spec fn empty_suites_model() -> SuitesModel {
    SuitesModel {
        suites: Seq::empty(),
        time: Seq::empty(),
        tests: 0,
        errors: 0,
        failures: 0,
        skipped: 0,
        name: Seq::empty(),
        timestamp: Option::None,
    }
}

/// The name a test case reports: `classname::name` when a class name is
/// present, else `group::name` when a group is present, else the original
/// name unchanged.
pub open spec fn derived_name(
    classname: Option<Seq<char>>,
    group: Option<Seq<char>>,
    original: Seq<char>,
) -> Seq<char> {
    match classname {
        Option::Some(c) => c + "::"@ + original,
        Option::None => match group {
            Option::Some(g) => g + "::"@ + original,
            Option::None => original,
        },
    }
}

/// The case with its reported name derived from its attributes.
pub open spec fn with_derived_name(c: CaseModel) -> CaseModel {
    CaseModel { name: derived_name(c.classname, c.group, c.original_name), ..c }
}

/// Output captured so far joined with a newly captured block: the first
/// block stands alone, later non-empty states gain a newline in between.
pub open spec fn join_output(prev: Option<Seq<char>>, add: Seq<char>) -> Option<Seq<char>> {
    match prev {
        Option::None => Option::Some(add),
        Option::Some(p) => if p.len() == 0 {
            Option::Some(add)
        } else {
            Option::Some(p + "\n"@ + add)
        },
    }
}

/// The diagnostic for a subtree whose end tag never came.
pub open spec fn missing_end_msg(name: Seq<char>) -> Seq<char> {
    "missing end tag for element "@ + name
}

/// The continuation index after a child parse that began at `i` and
/// reported `j`: the child consumed at least one event, so this is `j`
/// whenever the child's report is sound; it keeps the recursion of the
/// specification parser well founded.
pub open spec fn clip(j: int, i: int, n: int) -> int {
    if i < j && j <= n {
        j
    } else {
        i + 1
    }
}

// ---------------------------------------------------------------------------
// Attribute folds
// ---------------------------------------------------------------------------

/// Folds a leaf element's attributes: `type` and `message`, others ignored.
pub open spec fn p_leaf_attrs(
    attrs: Seq<(String, Vec<u8>)>,
    i: int,
    acc: LeafModel,
) -> Result<LeafModel, ErrModel>
    decreases attrs.len() - i,
{
    if i < 0 || i >= attrs.len() {
        Result::Ok(acc)
    } else {
        let key = attrs[i].0@;
        let raw = attrs[i].1@;
        if key == "type"@ {
            match coerce_string_spec(raw) {
                Result::Err(e) => Result::Err(e),
                Result::Ok(v) => p_leaf_attrs(attrs, i + 1, LeafModel { typ: v, ..acc }),
            }
        } else if key == "message"@ {
            match coerce_string_spec(raw) {
                Result::Err(e) => Result::Err(e),
                Result::Ok(v) => p_leaf_attrs(attrs, i + 1, LeafModel { message: v, ..acc }),
            }
        } else {
            p_leaf_attrs(attrs, i + 1, acc)
        }
    }
}

/// Folds a rerun element's attributes: `type`, `time`, `timestamp` and
/// `message`, others ignored.
pub open spec fn p_rerun_attrs(
    attrs: Seq<(String, Vec<u8>)>,
    i: int,
    acc: RerunModel,
) -> Result<RerunModel, ErrModel>
    decreases attrs.len() - i,
{
    if i < 0 || i >= attrs.len() {
        Result::Ok(acc)
    } else {
        let key = attrs[i].0@;
        let raw = attrs[i].1@;
        if key == "type"@ {
            match coerce_string_spec(raw) {
                Result::Err(e) => Result::Err(e),
                Result::Ok(v) => p_rerun_attrs(attrs, i + 1, RerunModel { rerun_type: v, ..acc }),
            }
        } else if key == "time"@ {
            match coerce_f64_spec(raw) {
                Result::Err(e) => Result::Err(e),
                Result::Ok(v) => p_rerun_attrs(attrs, i + 1, RerunModel { time: v, ..acc }),
            }
        } else if key == "timestamp"@ {
            match coerce_string_spec(raw) {
                Result::Err(e) => Result::Err(e),
                Result::Ok(v) => p_rerun_attrs(
                    attrs,
                    i + 1,
                    RerunModel { timestamp: Option::Some(v), ..acc },
                ),
            }
        } else if key == "message"@ {
            match coerce_string_spec(raw) {
                Result::Err(e) => Result::Err(e),
                Result::Ok(v) => p_rerun_attrs(attrs, i + 1, RerunModel { message: v, ..acc }),
            }
        } else {
            p_rerun_attrs(attrs, i + 1, acc)
        }
    }
}

/// Folds a `property` element's attributes into its key and value.
pub open spec fn p_prop_attrs(
    attrs: Seq<(String, Vec<u8>)>,
    i: int,
    k: Option<Seq<char>>,
    v: Option<Seq<char>>,
) -> Result<(Option<Seq<char>>, Option<Seq<char>>), ErrModel>
    decreases attrs.len() - i,
{
    if i < 0 || i >= attrs.len() {
        Result::Ok((k, v))
    } else {
        let key = attrs[i].0@;
        let raw = attrs[i].1@;
        if key == "name"@ {
            match coerce_string_spec(raw) {
                Result::Err(e) => Result::Err(e),
                Result::Ok(s) => p_prop_attrs(attrs, i + 1, Option::Some(s), v),
            }
        } else if key == "value"@ {
            match coerce_string_spec(raw) {
                Result::Err(e) => Result::Err(e),
                Result::Ok(s) => p_prop_attrs(attrs, i + 1, k, Option::Some(s)),
            }
        } else {
            p_prop_attrs(attrs, i + 1, k, v)
        }
    }
}

/// Folds a test case's attributes; the reported name is derived afterwards
/// by [`with_derived_name`].
pub open spec fn p_case_attrs(
    attrs: Seq<(String, Vec<u8>)>,
    i: int,
    acc: CaseModel,
) -> Result<CaseModel, ErrModel>
    decreases attrs.len() - i,
{
    if i < 0 || i >= attrs.len() {
        Result::Ok(acc)
    } else {
        let key = attrs[i].0@;
        let raw = attrs[i].1@;
        if key == "time"@ {
            match coerce_f64_spec(raw) {
                Result::Err(e) => Result::Err(e),
                Result::Ok(v) => p_case_attrs(attrs, i + 1, CaseModel { time: v, ..acc }),
            }
        } else if key == "name"@ {
            match coerce_string_spec(raw) {
                Result::Err(e) => Result::Err(e),
                Result::Ok(v) => p_case_attrs(attrs, i + 1, CaseModel { original_name: v, ..acc }),
            }
        } else if key == "classname"@ {
            match coerce_string_spec(raw) {
                Result::Err(e) => Result::Err(e),
                Result::Ok(v) => p_case_attrs(
                    attrs,
                    i + 1,
                    CaseModel { classname: Option::Some(v), ..acc },
                ),
            }
        } else if key == "group"@ {
            match coerce_string_spec(raw) {
                Result::Err(e) => Result::Err(e),
                Result::Ok(v) => p_case_attrs(attrs, i + 1, CaseModel { group: Option::Some(v), ..acc }),
            }
        } else if key == "file"@ {
            match coerce_string_spec(raw) {
                Result::Err(e) => Result::Err(e),
                Result::Ok(v) => p_case_attrs(attrs, i + 1, CaseModel { file: Option::Some(v), ..acc }),
            }
        } else if key == "line"@ {
            match coerce_u64_spec(raw) {
                Result::Err(e) => Result::Err(e),
                Result::Ok(v) => p_case_attrs(attrs, i + 1, CaseModel { line: Option::Some(v), ..acc }),
            }
        } else if key == "timestamp"@ {
            match coerce_string_spec(raw) {
                Result::Err(e) => Result::Err(e),
                Result::Ok(v) => p_case_attrs(
                    attrs,
                    i + 1,
                    CaseModel { timestamp: Option::Some(v), ..acc },
                ),
            }
        } else {
            p_case_attrs(attrs, i + 1, acc)
        }
    }
}

/// Folds a test suite's attributes.
pub open spec fn p_suite_attrs(
    attrs: Seq<(String, Vec<u8>)>,
    i: int,
    acc: SuiteModel,
) -> Result<SuiteModel, ErrModel>
    decreases attrs.len() - i,
{
    if i < 0 || i >= attrs.len() {
        Result::Ok(acc)
    } else {
        let key = attrs[i].0@;
        let raw = attrs[i].1@;
        if key == "time"@ {
            match coerce_f64_spec(raw) {
                Result::Err(e) => Result::Err(e),
                Result::Ok(v) => p_suite_attrs(attrs, i + 1, SuiteModel { time: v, ..acc }),
            }
        } else if key == "tests"@ {
            match coerce_u64_spec(raw) {
                Result::Err(e) => Result::Err(e),
                Result::Ok(v) => p_suite_attrs(attrs, i + 1, SuiteModel { tests: v, ..acc }),
            }
        } else if key == "errors"@ {
            match coerce_u64_spec(raw) {
                Result::Err(e) => Result::Err(e),
                Result::Ok(v) => p_suite_attrs(attrs, i + 1, SuiteModel { errors: v, ..acc }),
            }
        } else if key == "failures"@ {
            match coerce_u64_spec(raw) {
                Result::Err(e) => Result::Err(e),
                Result::Ok(v) => p_suite_attrs(attrs, i + 1, SuiteModel { failures: v, ..acc }),
            }
        } else if key == "skipped"@ {
            match coerce_u64_spec(raw) {
                Result::Err(e) => Result::Err(e),
                Result::Ok(v) => p_suite_attrs(attrs, i + 1, SuiteModel { skipped: v, ..acc }),
            }
        } else if key == "assertions"@ {
            match coerce_u64_spec(raw) {
                Result::Err(e) => Result::Err(e),
                Result::Ok(v) => p_suite_attrs(
                    attrs,
                    i + 1,
                    SuiteModel { assertions: Option::Some(v), ..acc },
                ),
            }
        } else if key == "name"@ {
            match coerce_string_spec(raw) {
                Result::Err(e) => Result::Err(e),
                Result::Ok(v) => p_suite_attrs(attrs, i + 1, SuiteModel { name: v, ..acc }),
            }
        } else if key == "timestamp"@ {
            match coerce_string_spec(raw) {
                Result::Err(e) => Result::Err(e),
                Result::Ok(v) => p_suite_attrs(
                    attrs,
                    i + 1,
                    SuiteModel { timestamp: Option::Some(v), ..acc },
                ),
            }
        } else if key == "hostname"@ {
            match coerce_string_spec(raw) {
                Result::Err(e) => Result::Err(e),
                Result::Ok(v) => p_suite_attrs(
                    attrs,
                    i + 1,
                    SuiteModel { hostname: Option::Some(v), ..acc },
                ),
            }
        } else if key == "id"@ {
            match coerce_string_spec(raw) {
                Result::Err(e) => Result::Err(e),
                Result::Ok(v) => p_suite_attrs(attrs, i + 1, SuiteModel { id: Option::Some(v), ..acc }),
            }
        } else if key == "package"@ {
            match coerce_string_spec(raw) {
                Result::Err(e) => Result::Err(e),
                Result::Ok(v) => p_suite_attrs(
                    attrs,
                    i + 1,
                    SuiteModel { package: Option::Some(v), ..acc },
                ),
            }
        } else if key == "file"@ {
            match coerce_string_spec(raw) {
                Result::Err(e) => Result::Err(e),
                Result::Ok(v) => p_suite_attrs(attrs, i + 1, SuiteModel { file: Option::Some(v), ..acc }),
            }
        } else if key == "log"@ {
            match coerce_string_spec(raw) {
                Result::Err(e) => Result::Err(e),
                Result::Ok(v) => p_suite_attrs(attrs, i + 1, SuiteModel { log: Option::Some(v), ..acc }),
            }
        } else if key == "url"@ {
            match coerce_string_spec(raw) {
                Result::Err(e) => Result::Err(e),
                Result::Ok(v) => p_suite_attrs(attrs, i + 1, SuiteModel { url: Option::Some(v), ..acc }),
            }
        } else if key == "version"@ {
            match coerce_string_spec(raw) {
                Result::Err(e) => Result::Err(e),
                Result::Ok(v) => p_suite_attrs(
                    attrs,
                    i + 1,
                    SuiteModel { version: Option::Some(v), ..acc },
                ),
            }
        } else {
            p_suite_attrs(attrs, i + 1, acc)
        }
    }
}

/// Folds the root element's attributes.
pub open spec fn p_suites_attrs(
    attrs: Seq<(String, Vec<u8>)>,
    i: int,
    acc: SuitesModel,
) -> Result<SuitesModel, ErrModel>
    decreases attrs.len() - i,
{
    if i < 0 || i >= attrs.len() {
        Result::Ok(acc)
    } else {
        let key = attrs[i].0@;
        let raw = attrs[i].1@;
        if key == "time"@ {
            match coerce_f64_spec(raw) {
                Result::Err(e) => Result::Err(e),
                Result::Ok(v) => p_suites_attrs(attrs, i + 1, SuitesModel { time: v, ..acc }),
            }
        } else if key == "tests"@ {
            match coerce_u64_spec(raw) {
                Result::Err(e) => Result::Err(e),
                Result::Ok(v) => p_suites_attrs(attrs, i + 1, SuitesModel { tests: v, ..acc }),
            }
        } else if key == "errors"@ {
            match coerce_u64_spec(raw) {
                Result::Err(e) => Result::Err(e),
                Result::Ok(v) => p_suites_attrs(attrs, i + 1, SuitesModel { errors: v, ..acc }),
            }
        } else if key == "failures"@ {
            match coerce_u64_spec(raw) {
                Result::Err(e) => Result::Err(e),
                Result::Ok(v) => p_suites_attrs(attrs, i + 1, SuitesModel { failures: v, ..acc }),
            }
        } else if key == "skipped"@ {
            match coerce_u64_spec(raw) {
                Result::Err(e) => Result::Err(e),
                Result::Ok(v) => p_suites_attrs(attrs, i + 1, SuitesModel { skipped: v, ..acc }),
            }
        } else if key == "name"@ {
            match coerce_string_spec(raw) {
                Result::Err(e) => Result::Err(e),
                Result::Ok(v) => p_suites_attrs(attrs, i + 1, SuitesModel { name: v, ..acc }),
            }
        } else if key == "timestamp"@ {
            match coerce_string_spec(raw) {
                Result::Err(e) => Result::Err(e),
                Result::Ok(v) => p_suites_attrs(
                    attrs,
                    i + 1,
                    SuitesModel { timestamp: Option::Some(v), ..acc },
                ),
            }
        } else {
            p_suites_attrs(attrs, i + 1, acc)
        }
    }
}

// ---------------------------------------------------------------------------
// Element bodies
// ---------------------------------------------------------------------------

/// Consumes an unrecognized element's subtree: events up to and past the
/// matching end tag, counting same-name nesting.
pub open spec fn p_skip(evs: Seq<Event>, i: int, name: Seq<char>, depth: int) -> Result<
    int,
    ErrModel,
>
    decreases evs.len() - i,
{
    if i < 0 || i >= evs.len() {
        Result::Err(ErrModel::Xml(missing_end_msg(name)))
    } else {
        match evs[i] {
            Event::Eof => Result::Err(ErrModel::Xml(missing_end_msg(name))),
            Event::Bad(m) => Result::Err(ErrModel::Xml(m@)),
            Event::Start(t) => if t.name@ == name {
                p_skip(evs, i + 1, name, depth + 1)
            } else {
                p_skip(evs, i + 1, name, depth)
            },
            Event::End(n) => if n@ == name {
                if depth == 0 {
                    Result::Ok(i + 1)
                } else {
                    p_skip(evs, i + 1, name, depth - 1)
                }
            } else {
                p_skip(evs, i + 1, name, depth)
            },
            _ => p_skip(evs, i + 1, name, depth),
        }
    }
}

/// Drains a `system-out`, `system-err` or `stackTrace` body: direct text
/// and CDATA concatenated verbatim, nested elements consumed and ignored.
pub open spec fn p_system(evs: Seq<Event>, i: int, name: Seq<char>, acc: Seq<char>) -> Result<
    (Seq<char>, int),
    ErrModel,
>
    decreases evs.len() - i,
{
    if i < 0 || i >= evs.len() {
        Result::Err(ErrModel::Eof(name))
    } else {
        match evs[i] {
            Event::Eof => Result::Err(ErrModel::Eof(name)),
            Event::Bad(m) => Result::Err(ErrModel::Xml(m@)),
            Event::End(n) => if n@ == name {
                Result::Ok((acc, i + 1))
            } else {
                p_system(evs, i + 1, name, acc)
            },
            Event::Text(raw) => match text_value_spec(raw@) {
                Result::Err(e) => Result::Err(e),
                Result::Ok(u) => p_system(evs, i + 1, name, acc + u),
            },
            Event::CData(raw) => match cdata_value_spec(raw@) {
                Result::Err(e) => Result::Err(e),
                Result::Ok(u) => p_system(evs, i + 1, name, acc + u),
            },
            Event::Start(t) => match p_skip(evs, i + 1, t.name@, 0) {
                Result::Err(e) => Result::Err(e),
                Result::Ok(j) => p_system(evs, clip(j, i, evs.len() as int), name, acc),
            },
            _ => p_system(evs, i + 1, name, acc),
        }
    }
}

/// Drains a `failure`, `error` or `skipped` body: the last text segment
/// (trimmed) or CDATA segment (verbatim) becomes the text, nested elements
/// are consumed and ignored.
pub open spec fn p_leaf_body(evs: Seq<Event>, i: int, name: Seq<char>, acc: LeafModel) -> Result<
    (LeafModel, int),
    ErrModel,
>
    decreases evs.len() - i,
{
    if i < 0 || i >= evs.len() {
        Result::Err(ErrModel::Eof(name))
    } else {
        match evs[i] {
            Event::Eof => Result::Err(ErrModel::Eof(name)),
            Event::Bad(m) => Result::Err(ErrModel::Xml(m@)),
            Event::End(n) => if n@ == name {
                Result::Ok((acc, i + 1))
            } else {
                p_leaf_body(evs, i + 1, name, acc)
            },
            Event::Text(raw) => match text_value_spec(raw@) {
                Result::Err(e) => Result::Err(e),
                Result::Ok(u) => p_leaf_body(
                    evs,
                    i + 1,
                    name,
                    LeafModel { text: trim_spec(u), ..acc },
                ),
            },
            Event::CData(raw) => match cdata_value_spec(raw@) {
                Result::Err(e) => Result::Err(e),
                Result::Ok(u) => p_leaf_body(evs, i + 1, name, LeafModel { text: u, ..acc }),
            },
            Event::Start(t) => match p_skip(evs, i + 1, t.name@, 0) {
                Result::Err(e) => Result::Err(e),
                Result::Ok(j) => p_leaf_body(evs, clip(j, i, evs.len() as int), name, acc),
            },
            _ => p_leaf_body(evs, i + 1, name, acc),
        }
    }
}

/// The pair a `property` element yields once its attributes and body are
/// known: the value defaults to empty, a missing name is an error.
pub open spec fn prop_result(k: Option<Seq<char>>, v: Option<Seq<char>>) -> Result<
    (Seq<char>, Seq<char>),
    ErrModel,
> {
    match k {
        Option::Some(kk) => Result::Ok(
            (
                kk,
                match v {
                    Option::Some(vv) => vv,
                    Option::None => Seq::empty(),
                },
            ),
        ),
        Option::None => Result::Err(ErrModel::MissingName),
    }
}

/// Drains a `property` element's body: the last text segment (trimmed) or
/// CDATA segment (verbatim) overrides the `value` attribute.
pub open spec fn p_prop_body(
    evs: Seq<Event>,
    i: int,
    k: Option<Seq<char>>,
    v: Option<Seq<char>>,
) -> Result<((Seq<char>, Seq<char>), int), ErrModel>
    decreases evs.len() - i,
{
    if i < 0 || i >= evs.len() {
        Result::Err(ErrModel::Eof("property"@))
    } else {
        match evs[i] {
            Event::Eof => Result::Err(ErrModel::Eof("property"@)),
            Event::Bad(m) => Result::Err(ErrModel::Xml(m@)),
            Event::End(n) => if n@ == "property"@ {
                match prop_result(k, v) {
                    Result::Err(e) => Result::Err(e),
                    Result::Ok(p) => Result::Ok((p, i + 1)),
                }
            } else {
                p_prop_body(evs, i + 1, k, v)
            },
            Event::Text(raw) => match text_value_spec(raw@) {
                Result::Err(e) => Result::Err(e),
                Result::Ok(u) => p_prop_body(evs, i + 1, k, Option::Some(trim_spec(u))),
            },
            Event::CData(raw) => match cdata_value_spec(raw@) {
                Result::Err(e) => Result::Err(e),
                Result::Ok(u) => p_prop_body(evs, i + 1, k, Option::Some(u)),
            },
            Event::Start(t) => match p_skip(evs, i + 1, t.name@, 0) {
                Result::Err(e) => Result::Err(e),
                Result::Ok(j) => p_prop_body(evs, clip(j, i, evs.len() as int), k, v),
            },
            _ => p_prop_body(evs, i + 1, k, v),
        }
    }
}

/// Drains a `properties` body: `property` children in document order, all
/// of them kept, unknown elements consumed and ignored.
pub open spec fn p_properties(evs: Seq<Event>, i: int, acc: Seq<(Seq<char>, Seq<char>)>) -> Result<
    (PropsModel, int),
    ErrModel,
>
    decreases evs.len() - i,
{
    if i < 0 || i >= evs.len() {
        Result::Err(ErrModel::Eof("properties"@))
    } else {
        match evs[i] {
            Event::Eof => Result::Err(ErrModel::Eof("properties"@)),
            Event::Bad(m) => Result::Err(ErrModel::Xml(m@)),
            Event::End(n) => if n@ == "properties"@ {
                Result::Ok((PropsModel { entries: acc }, i + 1))
            } else {
                p_properties(evs, i + 1, acc)
            },
            Event::Empty(t) => if t.name@ == "property"@ {
                match attrs_of(t) {
                    Result::Err(e) => Result::Err(e),
                    Result::Ok(al) => match p_prop_attrs(al, 0, Option::None, Option::None) {
                        Result::Err(e) => Result::Err(e),
                        Result::Ok((k, v)) => match prop_result(k, v) {
                            Result::Err(e) => Result::Err(e),
                            Result::Ok(p) => p_properties(evs, i + 1, acc.push(p)),
                        },
                    },
                }
            } else {
                p_properties(evs, i + 1, acc)
            },
            Event::Start(t) => if t.name@ == "property"@ {
                match attrs_of(t) {
                    Result::Err(e) => Result::Err(e),
                    Result::Ok(al) => match p_prop_attrs(al, 0, Option::None, Option::None) {
                        Result::Err(e) => Result::Err(e),
                        Result::Ok((k, v)) => match p_prop_body(evs, i + 1, k, v) {
                            Result::Err(e) => Result::Err(e),
                            Result::Ok((p, j)) => p_properties(evs, clip(j, i, evs.len() as int), acc.push(p)),
                        },
                    },
                }
            } else {
                match p_skip(evs, i + 1, t.name@, 0) {
                    Result::Err(e) => Result::Err(e),
                    Result::Ok(j) => p_properties(evs, clip(j, i, evs.len() as int), acc),
                }
            },
            _ => p_properties(evs, i + 1, acc),
        }
    }
}

/// Drains a rerun element's body: text and CDATA concatenated (text
/// segments trimmed), nested `system-out`/`system-err` joined across
/// occurrences, the last `stackTrace` kept, unknown elements consumed.
pub open spec fn p_rerun_body(evs: Seq<Event>, i: int, name: Seq<char>, acc: RerunModel) -> Result<
    (RerunModel, int),
    ErrModel,
>
    decreases evs.len() - i,
{
    if i < 0 || i >= evs.len() {
        Result::Err(ErrModel::Eof(name))
    } else {
        match evs[i] {
            Event::Eof => Result::Err(ErrModel::Eof(name)),
            Event::Bad(m) => Result::Err(ErrModel::Xml(m@)),
            Event::End(n) => if n@ == name {
                Result::Ok((acc, i + 1))
            } else {
                p_rerun_body(evs, i + 1, name, acc)
            },
            Event::Text(raw) => match text_value_spec(raw@) {
                Result::Err(e) => Result::Err(e),
                Result::Ok(u) => p_rerun_body(
                    evs,
                    i + 1,
                    name,
                    RerunModel { text: acc.text + trim_spec(u), ..acc },
                ),
            },
            Event::CData(raw) => match cdata_value_spec(raw@) {
                Result::Err(e) => Result::Err(e),
                Result::Ok(u) => p_rerun_body(evs, i + 1, name, RerunModel { text: acc.text + u, ..acc }),
            },
            Event::Start(t) => if t.name@ == "system-out"@ {
                match p_system(evs, i + 1, "system-out"@, Seq::empty()) {
                    Result::Err(e) => Result::Err(e),
                    Result::Ok((c, j)) => p_rerun_body(
                        evs,
                        clip(j, i, evs.len() as int),
                        name,
                        RerunModel { system_out: join_output(acc.system_out, c), ..acc },
                    ),
                }
            } else if t.name@ == "system-err"@ {
                match p_system(evs, i + 1, "system-err"@, Seq::empty()) {
                    Result::Err(e) => Result::Err(e),
                    Result::Ok((c, j)) => p_rerun_body(
                        evs,
                        clip(j, i, evs.len() as int),
                        name,
                        RerunModel { system_err: join_output(acc.system_err, c), ..acc },
                    ),
                }
            } else if t.name@ == "stackTrace"@ {
                match p_system(evs, i + 1, "stackTrace"@, Seq::empty()) {
                    Result::Err(e) => Result::Err(e),
                    Result::Ok((c, j)) => p_rerun_body(
                        evs,
                        clip(j, i, evs.len() as int),
                        name,
                        RerunModel { stack_trace: Option::Some(c), ..acc },
                    ),
                }
            } else {
                match p_skip(evs, i + 1, t.name@, 0) {
                    Result::Err(e) => Result::Err(e),
                    Result::Ok(j) => p_rerun_body(evs, clip(j, i, evs.len() as int), name, acc),
                }
            },
            _ => p_rerun_body(evs, i + 1, name, acc),
        }
    }
}

/// Which rerun kind a tag name denotes, if any.
pub open spec fn rerun_kind_of(name: Seq<char>) -> Option<RerunOrFlakyKind> {
    if name == "flakyFailure"@ {
        Option::Some(RerunOrFlakyKind::FlakyFailure)
    } else if name == "flakyError"@ {
        Option::Some(RerunOrFlakyKind::FlakyError)
    } else if name == "rerunFailure"@ {
        Option::Some(RerunOrFlakyKind::RerunFailure)
    } else if name == "rerunError"@ {
        Option::Some(RerunOrFlakyKind::RerunError)
    } else {
        Option::None
    }
}

/// The status a leaf element's name denotes, carrying the parsed leaf;
/// names other than `error`, `failure` and `skipped` denote no status.
pub open spec fn status_of(name: Seq<char>, leaf: LeafModel) -> Option<StatusModel> {
    if name == "error"@ {
        Option::Some(StatusModel::Error(leaf))
    } else if name == "failure"@ {
        Option::Some(StatusModel::Failure(leaf))
    } else if name == "skipped"@ {
        Option::Some(StatusModel::Skipped(leaf))
    } else {
        Option::None
    }
}

/// Drains a `testcase` body, dispatching its children: status leaves (the
/// last one wins), reruns (all kept, in order), captured output,
/// properties; unknown elements are consumed and ignored.
pub open spec fn p_case_children(evs: Seq<Event>, i: int, acc: CaseModel) -> Result<
    (CaseModel, int),
    ErrModel,
>
    decreases evs.len() - i,
{
    if i < 0 || i >= evs.len() {
        Result::Err(ErrModel::Eof("testcase"@))
    } else {
        match evs[i] {
            Event::Eof => Result::Err(ErrModel::Eof("testcase"@)),
            Event::Bad(m) => Result::Err(ErrModel::Xml(m@)),
            Event::End(n) => if n@ == "testcase"@ {
                Result::Ok((acc, i + 1))
            } else {
                p_case_children(evs, i + 1, acc)
            },
            Event::Empty(t) => if status_of(t.name@, empty_leaf_model()) is Some {
                match attrs_of(t) {
                    Result::Err(e) => Result::Err(e),
                    Result::Ok(al) => match p_leaf_attrs(al, 0, empty_leaf_model()) {
                        Result::Err(e) => Result::Err(e),
                        Result::Ok(leaf) => p_case_children(
                            evs,
                            i + 1,
                            CaseModel { status: status_of(t.name@, leaf)->0, ..acc },
                        ),
                    },
                }
            } else if rerun_kind_of(t.name@) is Some {
                match attrs_of(t) {
                    Result::Err(e) => Result::Err(e),
                    Result::Ok(al) => match p_rerun_attrs(
                        al,
                        0,
                        empty_rerun_model(rerun_kind_of(t.name@)->0),
                    ) {
                        Result::Err(e) => Result::Err(e),
                        Result::Ok(rr) => p_case_children(
                            evs,
                            i + 1,
                            CaseModel { reruns: acc.reruns.push(rr), ..acc },
                        ),
                    },
                }
            } else {
                p_case_children(evs, i + 1, acc)
            },
            Event::Start(t) => if status_of(t.name@, empty_leaf_model()) is Some {
                match attrs_of(t) {
                    Result::Err(e) => Result::Err(e),
                    Result::Ok(al) => match p_leaf_attrs(al, 0, empty_leaf_model()) {
                        Result::Err(e) => Result::Err(e),
                        Result::Ok(leaf0) => match p_leaf_body(evs, i + 1, t.name@, leaf0) {
                            Result::Err(e) => Result::Err(e),
                            Result::Ok((leaf, j)) => p_case_children(
                                evs,
                                clip(j, i, evs.len() as int),
                                CaseModel { status: status_of(t.name@, leaf)->0, ..acc },
                            ),
                        },
                    },
                }
            } else if rerun_kind_of(t.name@) is Some {
                match attrs_of(t) {
                    Result::Err(e) => Result::Err(e),
                    Result::Ok(al) => match p_rerun_attrs(
                        al,
                        0,
                        empty_rerun_model(rerun_kind_of(t.name@)->0),
                    ) {
                        Result::Err(e) => Result::Err(e),
                        Result::Ok(rr0) => match p_rerun_body(evs, i + 1, t.name@, rr0) {
                            Result::Err(e) => Result::Err(e),
                            Result::Ok((rr, j)) => p_case_children(
                                evs,
                                clip(j, i, evs.len() as int),
                                CaseModel { reruns: acc.reruns.push(rr), ..acc },
                            ),
                        },
                    },
                }
            } else if t.name@ == "system-out"@ {
                match p_system(evs, i + 1, "system-out"@, Seq::empty()) {
                    Result::Err(e) => Result::Err(e),
                    Result::Ok((c, j)) => p_case_children(
                        evs,
                        clip(j, i, evs.len() as int),
                        CaseModel { system_out: join_output(acc.system_out, c), ..acc },
                    ),
                }
            } else if t.name@ == "system-err"@ {
                match p_system(evs, i + 1, "system-err"@, Seq::empty()) {
                    Result::Err(e) => Result::Err(e),
                    Result::Ok((c, j)) => p_case_children(
                        evs,
                        clip(j, i, evs.len() as int),
                        CaseModel { system_err: join_output(acc.system_err, c), ..acc },
                    ),
                }
            } else if t.name@ == "properties"@ {
                match p_properties(evs, i + 1, Seq::empty()) {
                    Result::Err(e) => Result::Err(e),
                    Result::Ok((ps, j)) => p_case_children(
                        evs,
                        clip(j, i, evs.len() as int),
                        CaseModel { properties: ps, ..acc },
                    ),
                }
            } else {
                match p_skip(evs, i + 1, t.name@, 0) {
                    Result::Err(e) => Result::Err(e),
                    Result::Ok(j) => p_case_children(evs, clip(j, i, evs.len() as int), acc),
                }
            },
            _ => p_case_children(evs, i + 1, acc),
        }
    }
}

/// A fully parsed test case from a tag: attributes folded, the reported
/// name derived.
pub open spec fn p_case_from_attrs(tag: ElemTag) -> Result<CaseModel, ErrModel> {
    match attrs_of(tag) {
        Result::Err(e) => Result::Err(e),
        Result::Ok(al) => match p_case_attrs(al, 0, empty_case_model()) {
            Result::Err(e) => Result::Err(e),
            Result::Ok(c) => Result::Ok(with_derived_name(c)),
        },
    }
}

/// A test suite's attributes folded onto the empty suite.
pub open spec fn p_suite_from_attrs(tag: ElemTag) -> Result<SuiteModel, ErrModel> {
    match attrs_of(tag) {
        Result::Err(e) => Result::Err(e),
        Result::Ok(al) => p_suite_attrs(al, 0, empty_suite_model()),
    }
}

/// Drains a `testsuite` body, dispatching its children: nested suites
/// (recursively), test cases, captured output, properties; unknown
/// elements are consumed and ignored.
pub open spec fn p_suite_children(evs: Seq<Event>, i: int, acc: SuiteModel) -> Result<
    (SuiteModel, int),
    ErrModel,
>
    decreases evs.len() - i,
{
    if i < 0 || i >= evs.len() {
        Result::Err(ErrModel::Eof("testsuite"@))
    } else {
        match evs[i] {
            Event::Eof => Result::Err(ErrModel::Eof("testsuite"@)),
            Event::Bad(m) => Result::Err(ErrModel::Xml(m@)),
            Event::End(n) => if n@ == "testsuite"@ {
                Result::Ok((acc, i + 1))
            } else {
                p_suite_children(evs, i + 1, acc)
            },
            Event::Empty(t) => if t.name@ == "testsuite"@ {
                match p_suite_from_attrs(t) {
                    Result::Err(e) => Result::Err(e),
                    Result::Ok(child) => p_suite_children(
                        evs,
                        i + 1,
                        SuiteModel { suites: acc.suites.push(child), ..acc },
                    ),
                }
            } else if t.name@ == "testcase"@ {
                match p_case_from_attrs(t) {
                    Result::Err(e) => Result::Err(e),
                    Result::Ok(c) => p_suite_children(
                        evs,
                        i + 1,
                        SuiteModel { cases: acc.cases.push(c), ..acc },
                    ),
                }
            } else {
                p_suite_children(evs, i + 1, acc)
            },
            Event::Start(t) => if t.name@ == "testsuite"@ {
                match p_suite_from_attrs(t) {
                    Result::Err(e) => Result::Err(e),
                    Result::Ok(child0) => match p_suite_children(evs, i + 1, child0) {
                        Result::Err(e) => Result::Err(e),
                        Result::Ok((child, j)) => p_suite_children(
                            evs,
                            clip(j, i, evs.len() as int),
                            SuiteModel { suites: acc.suites.push(child), ..acc },
                        ),
                    },
                }
            } else if t.name@ == "testcase"@ {
                match p_case_from_attrs(t) {
                    Result::Err(e) => Result::Err(e),
                    Result::Ok(c0) => match p_case_children(evs, i + 1, c0) {
                        Result::Err(e) => Result::Err(e),
                        Result::Ok((c, j)) => p_suite_children(
                            evs,
                            clip(j, i, evs.len() as int),
                            SuiteModel { cases: acc.cases.push(c), ..acc },
                        ),
                    },
                }
            } else if t.name@ == "system-out"@ {
                match p_system(evs, i + 1, "system-out"@, Seq::empty()) {
                    Result::Err(e) => Result::Err(e),
                    Result::Ok((c, j)) => p_suite_children(
                        evs,
                        clip(j, i, evs.len() as int),
                        SuiteModel { system_out: join_output(acc.system_out, c), ..acc },
                    ),
                }
            } else if t.name@ == "system-err"@ {
                match p_system(evs, i + 1, "system-err"@, Seq::empty()) {
                    Result::Err(e) => Result::Err(e),
                    Result::Ok((c, j)) => p_suite_children(
                        evs,
                        clip(j, i, evs.len() as int),
                        SuiteModel { system_err: join_output(acc.system_err, c), ..acc },
                    ),
                }
            } else if t.name@ == "properties"@ {
                match p_properties(evs, i + 1, Seq::empty()) {
                    Result::Err(e) => Result::Err(e),
                    Result::Ok((ps, j)) => p_suite_children(
                        evs,
                        clip(j, i, evs.len() as int),
                        SuiteModel { properties: ps, ..acc },
                    ),
                }
            } else {
                match p_skip(evs, i + 1, t.name@, 0) {
                    Result::Err(e) => Result::Err(e),
                    Result::Ok(j) => p_suite_children(evs, clip(j, i, evs.len() as int), acc),
                }
            },
            _ => p_suite_children(evs, i + 1, acc),
        }
    }
}

/// The root element's attributes folded onto the empty root.
pub open spec fn p_suites_from_attrs(tag: ElemTag) -> Result<SuitesModel, ErrModel> {
    match attrs_of(tag) {
        Result::Err(e) => Result::Err(e),
        Result::Ok(al) => p_suites_attrs(al, 0, empty_suites_model()),
    }
}

/// Drains a `testsuites` or `testrun` body: `testsuite` children in
/// document order; either end tag closes it; unknown elements are consumed
/// and ignored.
pub open spec fn p_suites_children(evs: Seq<Event>, i: int, acc: SuitesModel) -> Result<
    (SuitesModel, int),
    ErrModel,
>
    decreases evs.len() - i,
{
    if i < 0 || i >= evs.len() {
        Result::Err(ErrModel::Eof("testsuites"@))
    } else {
        match evs[i] {
            Event::Eof => Result::Err(ErrModel::Eof("testsuites"@)),
            Event::Bad(m) => Result::Err(ErrModel::Xml(m@)),
            Event::End(n) => if n@ == "testsuites"@ || n@ == "testrun"@ {
                Result::Ok((acc, i + 1))
            } else {
                p_suites_children(evs, i + 1, acc)
            },
            Event::Empty(t) => if t.name@ == "testsuite"@ {
                match p_suite_from_attrs(t) {
                    Result::Err(e) => Result::Err(e),
                    Result::Ok(s) => p_suites_children(
                        evs,
                        i + 1,
                        SuitesModel { suites: acc.suites.push(s), ..acc },
                    ),
                }
            } else {
                p_suites_children(evs, i + 1, acc)
            },
            Event::Start(t) => if t.name@ == "testsuite"@ {
                match p_suite_from_attrs(t) {
                    Result::Err(e) => Result::Err(e),
                    Result::Ok(s0) => match p_suite_children(evs, i + 1, s0) {
                        Result::Err(e) => Result::Err(e),
                        Result::Ok((s, j)) => p_suites_children(
                            evs,
                            clip(j, i, evs.len() as int),
                            SuitesModel { suites: acc.suites.push(s), ..acc },
                        ),
                    },
                }
            } else {
                match p_skip(evs, i + 1, t.name@, 0) {
                    Result::Err(e) => Result::Err(e),
                    Result::Ok(j) => p_suites_children(evs, clip(j, i, evs.len() as int), acc),
                }
            },
            _ => p_suites_children(evs, i + 1, acc),
        }
    }
}

/// A bare `testsuite` root wrapped in a synthesized report root.
pub open spec fn wrap_single_suite(s: SuiteModel) -> SuitesModel {
    SuitesModel { suites: seq![s], ..empty_suites_model() }
}

/// The whole document: events are scanned for the first recognized root
/// element (`testsuites`, `testrun`, or a bare `testsuite`), which is then
/// parsed; other top-level content is consumed and ignored.
pub open spec fn p_root(evs: Seq<Event>, i: int) -> Result<SuitesModel, ErrModel>
    decreases evs.len() - i,
{
    if i < 0 || i >= evs.len() {
        Result::Err(ErrModel::Eof("testsuites"@))
    } else {
        match evs[i] {
            Event::Eof => Result::Err(ErrModel::Eof("testsuites"@)),
            Event::Bad(m) => Result::Err(ErrModel::Xml(m@)),
            Event::Empty(t) => if t.name@ == "testsuites"@ || t.name@ == "testrun"@ {
                p_suites_from_attrs(t)
            } else if t.name@ == "testsuite"@ {
                match p_suite_from_attrs(t) {
                    Result::Err(e) => Result::Err(e),
                    Result::Ok(s) => Result::Ok(wrap_single_suite(s)),
                }
            } else {
                p_root(evs, i + 1)
            },
            Event::Start(t) => if t.name@ == "testsuites"@ || t.name@ == "testrun"@ {
                match p_suites_from_attrs(t) {
                    Result::Err(e) => Result::Err(e),
                    Result::Ok(acc) => match p_suites_children(evs, i + 1, acc) {
                        Result::Err(e) => Result::Err(e),
                        Result::Ok((m, _)) => Result::Ok(m),
                    },
                }
            } else if t.name@ == "testsuite"@ {
                match p_suite_from_attrs(t) {
                    Result::Err(e) => Result::Err(e),
                    Result::Ok(s0) => match p_suite_children(evs, i + 1, s0) {
                        Result::Err(e) => Result::Err(e),
                        Result::Ok((s, _)) => Result::Ok(wrap_single_suite(s)),
                    },
                }
            } else {
                match p_skip(evs, i + 1, t.name@, 0) {
                    Result::Err(e) => Result::Err(e),
                    Result::Ok(j) => p_root(evs, clip(j, i, evs.len() as int)),
                }
            },
            _ => p_root(evs, i + 1),
        }
    }
}

} // verus!
