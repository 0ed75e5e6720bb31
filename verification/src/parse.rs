//! The executable parser: recursive descent over the tokenizer's events,
//! each function proved to return exactly what the specification parser in
//! [`crate::sem`] says.

use vstd::prelude::*;
use vstd::string::StringExecFns;

use crate::errors::ErrModel;
use crate::errors::Error;
use crate::model::CaseModel;
use crate::model::LeafModel;
use crate::model::Properties;
use crate::model::PropsModel;
use crate::model::RerunModel;
use crate::model::SuiteModel;
use crate::model::SuitesModel;
use crate::model::RerunOrFlaky;
use crate::model::RerunOrFlakyKind;
use crate::model::TestCase;
use crate::model::TestStatus;
use crate::model::TestSuite;
use crate::model::TestSuites;
use crate::num::is_f64_literal;
use crate::num::parse_u64_bytes;
use crate::sem::attrs_of;
use crate::sem::cdata_value_spec;
use crate::sem::coerce_f64_spec;
use crate::sem::coerce_string_spec;
use crate::sem::coerce_u64_spec;
use crate::sem::empty_case_model;
use crate::sem::empty_leaf_model;
use crate::sem::empty_rerun_model;
use crate::sem::empty_suite_model;
use crate::sem::empty_suites_model;
use crate::sem::join_output;
use crate::sem::missing_end_msg;
use crate::sem::p_case_attrs;
use crate::sem::p_case_children;
use crate::sem::p_case_from_attrs;
use crate::sem::p_leaf_attrs;
use crate::sem::p_leaf_body;
use crate::sem::p_prop_attrs;
use crate::sem::p_prop_body;
use crate::sem::p_properties;
use crate::sem::p_rerun_attrs;
use crate::sem::p_rerun_body;
use crate::sem::p_root;
use crate::sem::p_skip;
use crate::sem::p_suite_attrs;
use crate::sem::p_suite_children;
use crate::sem::p_suite_from_attrs;
use crate::sem::p_suites_attrs;
use crate::sem::p_suites_children;
use crate::sem::p_suites_from_attrs;
use crate::sem::p_system;
use crate::sem::prop_result;
use crate::sem::rerun_kind_of;
use crate::sem::status_of;
use crate::sem::text_value_spec;
use crate::sem::with_derived_name;
use crate::sem::wrap_single_suite;
use crate::tok::Event;
use crate::tok::events_of;
use crate::tok::tokenize;
use crate::tok::trim_string;
use crate::tok::unescape_str;
use crate::tok::utf8_string;

verus! {

/// Tests an element or attribute name against a recognized name.
fn name_is(n: &String, lit: &str) -> (r: bool)
    ensures
        r == (n@ == lit@),
{
    let s: String = lit.to_owned();
    n.eq(&s)
}

// ---------------------------------------------------------------------------
// Attribute and text coercion
// ---------------------------------------------------------------------------

/// Decodes and unescapes an attribute value.
fn coerce_string(raw: &Vec<u8>) -> (r: Result<String, Error>)
    ensures
        match r {
            Result::Ok(s) => coerce_string_spec(raw@) == Result::<Seq<char>, ErrModel>::Ok(s@),
            Result::Err(e) => coerce_string_spec(raw@) == Result::<Seq<char>, ErrModel>::Err(e@),
        },
{
    match utf8_string(raw.as_slice()) {
        Option::None => Result::Err(Error::ParseUt8Error(clone_bytes(raw))),
        Option::Some(s) => match unescape_str(s.as_str()) {
            Option::None => Result::Err(
                Error::XMLError("malformed entity reference in attribute value".to_owned()),
            ),
            Option::Some(u) => Result::Ok(u),
        },
    }
}

/// Copies the bytes of an attribute value.
fn clone_bytes(raw: &Vec<u8>) -> (r: Vec<u8>)
    ensures
        r@ == raw@,
{
    let mut out: Vec<u8> = Vec::new();
    let mut i: usize = 0;
    while i < raw.len()
        invariant
            0 <= i <= raw@.len(),
            out@ == raw@.subrange(0, i as int),
        decreases raw@.len() - i,
    {
        out.push(raw[i]);
        i = i + 1;
        proof {
            assert(out@ =~= raw@.subrange(0, i as int));
        }
    }
    proof {
        assert(out@ =~= raw@);
    }
    out
}

/// Coerces a numeric attribute value to a `u64`; empty means zero.
fn coerce_u64(raw: &Vec<u8>) -> (r: Result<u64, Error>)
    ensures
        match r {
            Result::Ok(v) => coerce_u64_spec(raw@) == Result::<u64, ErrModel>::Ok(v),
            Result::Err(e) => coerce_u64_spec(raw@) == Result::<u64, ErrModel>::Err(e@),
        },
{
    match utf8_string(raw.as_slice()) {
        Option::None => Result::Err(Error::ParseUt8Error(clone_bytes(raw))),
        Option::Some(s) => {
            if s.as_str().is_empty() {
                Result::Ok(0u64)
            } else {
                match parse_u64_bytes(raw.as_slice()) {
                    Option::Some(v) => Result::Ok(v),
                    Option::None => Result::Err(Error::ParseIntError(s)),
                }
            }
        },
    }
}

/// Checks a timing attribute value and keeps it as text; empty means zero.
fn coerce_f64(raw: &Vec<u8>) -> (r: Result<String, Error>)
    ensures
        match r {
            Result::Ok(s) => coerce_f64_spec(raw@) == Result::<Seq<char>, ErrModel>::Ok(s@),
            Result::Err(e) => coerce_f64_spec(raw@) == Result::<Seq<char>, ErrModel>::Err(e@),
        },
{
    match utf8_string(raw.as_slice()) {
        Option::None => Result::Err(Error::ParseUt8Error(clone_bytes(raw))),
        Option::Some(s) => {
            if s.as_str().is_empty() {
                Result::Ok(s)
            } else if is_f64_literal(raw.as_slice()) {
                Result::Ok(s)
            } else {
                Result::Err(Error::ParseFloatError(s))
            }
        },
    }
}

/// Decodes and unescapes a text segment.
fn text_value(raw: &Vec<u8>) -> (r: Result<String, Error>)
    ensures
        match r {
            Result::Ok(s) => text_value_spec(raw@) == Result::<Seq<char>, ErrModel>::Ok(s@),
            Result::Err(e) => text_value_spec(raw@) == Result::<Seq<char>, ErrModel>::Err(e@),
        },
{
    match utf8_string(raw.as_slice()) {
        Option::None => Result::Err(Error::XMLError("text is not valid UTF-8".to_owned())),
        Option::Some(s) => match unescape_str(s.as_str()) {
            Option::None => Result::Err(
                Error::XMLError("malformed entity reference in text".to_owned()),
            ),
            Option::Some(u) => Result::Ok(u),
        },
    }
}

/// Decodes a CDATA segment.
fn cdata_value(raw: &Vec<u8>) -> (r: Result<String, Error>)
    ensures
        match r {
            Result::Ok(s) => cdata_value_spec(raw@) == Result::<Seq<char>, ErrModel>::Ok(s@),
            Result::Err(e) => cdata_value_spec(raw@) == Result::<Seq<char>, ErrModel>::Err(e@),
        },
{
    match utf8_string(raw.as_slice()) {
        Option::None => Result::Err(Error::ParseUt8Error(clone_bytes(raw))),
        Option::Some(s) => Result::Ok(s),
    }
}

// ---------------------------------------------------------------------------
// Skipping unrecognized subtrees
// ---------------------------------------------------------------------------

/// The diagnostic for a subtree whose end tag never came.
fn missing_end_message(name: &String) -> (r: String)
    ensures
        r@ == missing_end_msg(name@),
{
    let mut s: String = "missing end tag for element ".to_owned();
    s.append(name.as_str());
    s
}

/// Consumes an unrecognized element's subtree up to and past its matching
/// end tag, counting same-name nesting in `depth`.
fn skip_tree(evs: &Vec<Event>, i: usize, name: &String, depth: usize) -> (r: Result<usize, Error>)
    requires
        i <= evs@.len(),
        depth <= i,
    ensures
        match r {
            Result::Ok(j) => p_skip(evs@, i as int, name@, depth as int) == Result::<
                int,
                ErrModel,
            >::Ok(j as int) && i < j <= evs@.len(),
            Result::Err(e) => p_skip(evs@, i as int, name@, depth as int) == Result::<
                int,
                ErrModel,
            >::Err(e@),
        },
    decreases evs@.len() - i,
{
    if i == evs.len() {
        return Result::Err(Error::XMLError(missing_end_message(name)));
    }
    match &evs[i] {
        Event::Eof => Result::Err(Error::XMLError(missing_end_message(name))),
        Event::Bad(m) => Result::Err(Error::XMLError(m.clone())),
        Event::Start(t) => {
            if t.name.eq(name) {
                skip_tree(evs, i + 1, name, depth + 1)
            } else {
                skip_tree(evs, i + 1, name, depth)
            }
        },
        Event::End(n) => {
            if n.eq(name) {
                if depth == 0 {
                    Result::Ok(i + 1)
                } else {
                    skip_tree(evs, i + 1, name, depth - 1)
                }
            } else {
                skip_tree(evs, i + 1, name, depth)
            }
        },
        _ => skip_tree(evs, i + 1, name, depth),
    }
}

// ---------------------------------------------------------------------------
// Text-accumulating bodies
// ---------------------------------------------------------------------------

/// Drains a `system-out`, `system-err` or `stackTrace` body, concatenating
/// its direct text and CDATA; nested elements are consumed and ignored.
fn parse_system(evs: &Vec<Event>, i: usize, name: &str, acc: String) -> (r: Result<
    (String, usize),
    Error,
>)
    requires
        i <= evs@.len(),
    ensures
        match r {
            Result::Ok((s, j)) => p_system(evs@, i as int, name@, acc@) == Result::<
                (Seq<char>, int),
                ErrModel,
            >::Ok((s@, j as int)) && i < j <= evs@.len(),
            Result::Err(e) => p_system(evs@, i as int, name@, acc@) == Result::<
                (Seq<char>, int),
                ErrModel,
            >::Err(e@),
        },
    decreases evs@.len() - i,
{
    if i == evs.len() {
        return Result::Err(Error::UnexpectedEndOfFile(name.to_owned()));
    }
    match &evs[i] {
        Event::Eof => Result::Err(Error::UnexpectedEndOfFile(name.to_owned())),
        Event::Bad(m) => Result::Err(Error::XMLError(m.clone())),
        Event::End(n) => {
            if name_is(n, name) {
                Result::Ok((acc, i + 1))
            } else {
                parse_system(evs, i + 1, name, acc)
            }
        },
        Event::Text(raw) => match text_value(raw) {
            Result::Err(e) => Result::Err(e),
            Result::Ok(u) => parse_system(evs, i + 1, name, acc.concat(u.as_str())),
        },
        Event::CData(raw) => match cdata_value(raw) {
            Result::Err(e) => Result::Err(e),
            Result::Ok(u) => parse_system(evs, i + 1, name, acc.concat(u.as_str())),
        },
        Event::Start(t) => match skip_tree(evs, i + 1, &t.name, 0) {
            Result::Err(e) => Result::Err(e),
            Result::Ok(j) => parse_system(evs, j, name, acc),
        },
        _ => parse_system(evs, i + 1, name, acc),
    }
}

/// The record shared by `failure`, `error` and `skipped` elements while
/// they are being parsed.
pub struct LeafRec {
    /// The `message` attribute.
    pub message: String,
    /// The body text.
    pub text: String,
    /// The `type` attribute.
    pub typ: String,
}

impl View for LeafRec {
    type V = LeafModel;

    open spec fn view(&self) -> LeafModel {
        LeafModel { message: self.message@, text: self.text@, typ: self.typ@ }
    }
}

/// The leaf record before any attribute or body is read.
fn empty_leaf() -> (r: LeafRec)
    ensures
        r@ == empty_leaf_model(),
{
    let r = LeafRec { message: String::new(), text: String::new(), typ: String::new() };
    proof {
        assert(r@ =~= empty_leaf_model());
    }
    r
}

/// Drains a `failure`, `error` or `skipped` body: the last text segment
/// (trimmed) or CDATA segment (verbatim) becomes the text.
fn parse_leaf_body(evs: &Vec<Event>, i: usize, name: &String, acc: LeafRec) -> (r: Result<
    (LeafRec, usize),
    Error,
>)
    requires
        i <= evs@.len(),
    ensures
        match r {
            Result::Ok((l, j)) => p_leaf_body(evs@, i as int, name@, acc@) == Result::<
                (LeafModel, int),
                ErrModel,
            >::Ok((l@, j as int)) && i < j <= evs@.len(),
            Result::Err(e) => p_leaf_body(evs@, i as int, name@, acc@) == Result::<
                (LeafModel, int),
                ErrModel,
            >::Err(e@),
        },
    decreases evs@.len() - i,
{
    if i == evs.len() {
        return Result::Err(Error::UnexpectedEndOfFile(name.clone()));
    }
    match &evs[i] {
        Event::Eof => Result::Err(Error::UnexpectedEndOfFile(name.clone())),
        Event::Bad(m) => Result::Err(Error::XMLError(m.clone())),
        Event::End(n) => {
            if n.eq(name) {
                Result::Ok((acc, i + 1))
            } else {
                parse_leaf_body(evs, i + 1, name, acc)
            }
        },
        Event::Text(raw) => match text_value(raw) {
            Result::Err(e) => Result::Err(e),
            Result::Ok(u) => {
                let acc2 = LeafRec { text: trim_string(u.as_str()), ..acc };
                parse_leaf_body(evs, i + 1, name, acc2)
            },
        },
        Event::CData(raw) => match cdata_value(raw) {
            Result::Err(e) => Result::Err(e),
            Result::Ok(u) => {
                let acc2 = LeafRec { text: u, ..acc };
                parse_leaf_body(evs, i + 1, name, acc2)
            },
        },
        Event::Start(t) => match skip_tree(evs, i + 1, &t.name, 0) {
            Result::Err(e) => Result::Err(e),
            Result::Ok(j) => parse_leaf_body(evs, j, name, acc),
        },
        _ => parse_leaf_body(evs, i + 1, name, acc),
    }
}

// ---------------------------------------------------------------------------
// Attribute folds
// ---------------------------------------------------------------------------

/// The view of an optional string.
spec fn opt_str_view(o: Option<String>) -> Option<Seq<char>> {
    match o {
        Option::Some(s) => Option::Some(s@),
        Option::None => Option::None,
    }
}

/// Folds a leaf element's attributes: `type` and `message`.
fn parse_leaf_attrs(attrs: &Vec<(String, Vec<u8>)>, i: usize, acc: LeafRec) -> (r: Result<
    LeafRec,
    Error,
>)
    requires
        i <= attrs@.len(),
    ensures
        match r {
            Result::Ok(l) => p_leaf_attrs(attrs@, i as int, acc@) == Result::<
                LeafModel,
                ErrModel,
            >::Ok(l@),
            Result::Err(e) => p_leaf_attrs(attrs@, i as int, acc@) == Result::<
                LeafModel,
                ErrModel,
            >::Err(e@),
        },
    decreases attrs@.len() - i,
{
    if i == attrs.len() {
        return Result::Ok(acc);
    }
    let key = &attrs[i].0;
    let raw = &attrs[i].1;
    if name_is(key, "type") {
        match coerce_string(raw) {
            Result::Err(e) => Result::Err(e),
            Result::Ok(v) => parse_leaf_attrs(attrs, i + 1, LeafRec { typ: v, ..acc }),
        }
    } else if name_is(key, "message") {
        match coerce_string(raw) {
            Result::Err(e) => Result::Err(e),
            Result::Ok(v) => parse_leaf_attrs(attrs, i + 1, LeafRec { message: v, ..acc }),
        }
    } else {
        parse_leaf_attrs(attrs, i + 1, acc)
    }
}

/// The rerun record of the given kind before any attribute or body is read.
fn empty_rerun(kind: RerunOrFlakyKind) -> (r: RerunOrFlaky)
    ensures
        r@ == empty_rerun_model(kind),
{
    let r = RerunOrFlaky {
        timestamp: Option::None,
        time: String::new(),
        rerun_type: String::new(),
        message: String::new(),
        text: String::new(),
        system_out: Option::None,
        system_err: Option::None,
        stack_trace: Option::None,
        kind,
    };
    proof {
        assert(r@ =~= empty_rerun_model(kind));
    }
    r
}

/// Folds a rerun element's attributes: `type`, `time`, `timestamp`,
/// `message`.
fn parse_rerun_attrs(attrs: &Vec<(String, Vec<u8>)>, i: usize, acc: RerunOrFlaky) -> (r: Result<
    RerunOrFlaky,
    Error,
>)
    requires
        i <= attrs@.len(),
    ensures
        match r {
            Result::Ok(l) => p_rerun_attrs(attrs@, i as int, acc@) == Result::<
                RerunModel,
                ErrModel,
            >::Ok(l@),
            Result::Err(e) => p_rerun_attrs(attrs@, i as int, acc@) == Result::<
                RerunModel,
                ErrModel,
            >::Err(e@),
        },
    decreases attrs@.len() - i,
{
    if i == attrs.len() {
        return Result::Ok(acc);
    }
    let key = &attrs[i].0;
    let raw = &attrs[i].1;
    if name_is(key, "type") {
        match coerce_string(raw) {
            Result::Err(e) => Result::Err(e),
            Result::Ok(v) => parse_rerun_attrs(attrs, i + 1, RerunOrFlaky { rerun_type: v, ..acc }),
        }
    } else if name_is(key, "time") {
        match coerce_f64(raw) {
            Result::Err(e) => Result::Err(e),
            Result::Ok(v) => parse_rerun_attrs(attrs, i + 1, RerunOrFlaky { time: v, ..acc }),
        }
    } else if name_is(key, "timestamp") {
        match coerce_string(raw) {
            Result::Err(e) => Result::Err(e),
            Result::Ok(v) => parse_rerun_attrs(
                attrs,
                i + 1,
                RerunOrFlaky { timestamp: Option::Some(v), ..acc },
            ),
        }
    } else if name_is(key, "message") {
        match coerce_string(raw) {
            Result::Err(e) => Result::Err(e),
            Result::Ok(v) => parse_rerun_attrs(attrs, i + 1, RerunOrFlaky { message: v, ..acc }),
        }
    } else {
        parse_rerun_attrs(attrs, i + 1, acc)
    }
}

/// Folds a `property` element's attributes into its key and value.
fn parse_prop_attrs(
    attrs: &Vec<(String, Vec<u8>)>,
    i: usize,
    k: Option<String>,
    v: Option<String>,
) -> (r: Result<(Option<String>, Option<String>), Error>)
    requires
        i <= attrs@.len(),
    ensures
        match r {
            Result::Ok(p) => p_prop_attrs(attrs@, i as int, opt_str_view(k), opt_str_view(v))
                == Result::<(Option<Seq<char>>, Option<Seq<char>>), ErrModel>::Ok(
                (opt_str_view(p.0), opt_str_view(p.1)),
            ),
            Result::Err(e) => p_prop_attrs(attrs@, i as int, opt_str_view(k), opt_str_view(v))
                == Result::<(Option<Seq<char>>, Option<Seq<char>>), ErrModel>::Err(e@),
        },
    decreases attrs@.len() - i,
{
    if i == attrs.len() {
        return Result::Ok((k, v));
    }
    let key = &attrs[i].0;
    let raw = &attrs[i].1;
    if name_is(key, "name") {
        match coerce_string(raw) {
            Result::Err(e) => Result::Err(e),
            Result::Ok(s) => parse_prop_attrs(attrs, i + 1, Option::Some(s), v),
        }
    } else if name_is(key, "value") {
        match coerce_string(raw) {
            Result::Err(e) => Result::Err(e),
            Result::Ok(s) => parse_prop_attrs(attrs, i + 1, k, Option::Some(s)),
        }
    } else {
        parse_prop_attrs(attrs, i + 1, k, v)
    }
}

// ---------------------------------------------------------------------------
// Properties
// ---------------------------------------------------------------------------

/// The pair a `property` element yields: a missing value defaults to the
/// empty string, a missing name is an error.
fn make_prop(k: Option<String>, v: Option<String>) -> (r: Result<(String, String), Error>)
    ensures
        match r {
            Result::Ok(p) => prop_result(opt_str_view(k), opt_str_view(v)) == Result::<
                (Seq<char>, Seq<char>),
                ErrModel,
            >::Ok((p.0@, p.1@)),
            Result::Err(e) => prop_result(opt_str_view(k), opt_str_view(v)) == Result::<
                (Seq<char>, Seq<char>),
                ErrModel,
            >::Err(e@),
        },
{
    match k {
        Option::Some(kk) => {
            let vv = match v {
                Option::Some(s) => s,
                Option::None => String::new(),
            };
            Result::Ok((kk, vv))
        },
        Option::None => Result::Err(Error::MissingPropertyName),
    }
}

/// Drains a `property` element's body: the last text segment (trimmed) or
/// CDATA segment (verbatim) overrides the `value` attribute.
fn parse_prop_body(evs: &Vec<Event>, i: usize, k: Option<String>, v: Option<String>) -> (r: Result<
    ((String, String), usize),
    Error,
>)
    requires
        i <= evs@.len(),
    ensures
        match r {
            Result::Ok((p, j)) => p_prop_body(evs@, i as int, opt_str_view(k), opt_str_view(v))
                == Result::<((Seq<char>, Seq<char>), int), ErrModel>::Ok(((p.0@, p.1@), j as int))
                && i < j <= evs@.len(),
            Result::Err(e) => p_prop_body(evs@, i as int, opt_str_view(k), opt_str_view(v))
                == Result::<((Seq<char>, Seq<char>), int), ErrModel>::Err(e@),
        },
    decreases evs@.len() - i,
{
    if i == evs.len() {
        return Result::Err(Error::UnexpectedEndOfFile("property".to_owned()));
    }
    match &evs[i] {
        Event::Eof => Result::Err(Error::UnexpectedEndOfFile("property".to_owned())),
        Event::Bad(m) => Result::Err(Error::XMLError(m.clone())),
        Event::End(n) => {
            if name_is(n, "property") {
                match make_prop(k, v) {
                    Result::Err(e) => Result::Err(e),
                    Result::Ok(p) => Result::Ok((p, i + 1)),
                }
            } else {
                parse_prop_body(evs, i + 1, k, v)
            }
        },
        Event::Text(raw) => match text_value(raw) {
            Result::Err(e) => Result::Err(e),
            Result::Ok(u) => parse_prop_body(
                evs,
                i + 1,
                k,
                Option::Some(trim_string(u.as_str())),
            ),
        },
        Event::CData(raw) => match cdata_value(raw) {
            Result::Err(e) => Result::Err(e),
            Result::Ok(u) => parse_prop_body(evs, i + 1, k, Option::Some(u)),
        },
        Event::Start(t) => match skip_tree(evs, i + 1, &t.name, 0) {
            Result::Err(e) => Result::Err(e),
            Result::Ok(j) => parse_prop_body(evs, j, k, v),
        },
        _ => parse_prop_body(evs, i + 1, k, v),
    }
}

/// Drains a `properties` body: every `property` child is kept, in
/// document order; unknown elements are consumed and ignored.
fn parse_properties(evs: &Vec<Event>, i: usize, acc: Properties) -> (r: Result<
    (Properties, usize),
    Error,
>)
    requires
        i <= evs@.len(),
    ensures
        match r {
            Result::Ok((ps, j)) => p_properties(evs@, i as int, acc@.entries) == Result::<
                (crate::model::PropsModel, int),
                ErrModel,
            >::Ok((ps@, j as int)) && i < j <= evs@.len(),
            Result::Err(e) => p_properties(evs@, i as int, acc@.entries) == Result::<
                (crate::model::PropsModel, int),
                ErrModel,
            >::Err(e@),
        },
    decreases evs@.len() - i,
{
    if i == evs.len() {
        return Result::Err(Error::UnexpectedEndOfFile("properties".to_owned()));
    }
    match &evs[i] {
        Event::Eof => Result::Err(Error::UnexpectedEndOfFile("properties".to_owned())),
        Event::Bad(m) => Result::Err(Error::XMLError(m.clone())),
        Event::End(n) => {
            if name_is(n, "properties") {
                Result::Ok((acc, i + 1))
            } else {
                parse_properties(evs, i + 1, acc)
            }
        },
        Event::Empty(t) => {
            if name_is(&t.name, "property") {
                match &t.attrs {
                    Result::Err(m) => Result::Err(Error::XMLError(m.clone())),
                    Result::Ok(al) => match parse_prop_attrs(al, 0, Option::None, Option::None) {
                        Result::Err(e) => Result::Err(e),
                        Result::Ok((k, v)) => match make_prop(k, v) {
                            Result::Err(e) => Result::Err(e),
                            Result::Ok(p) => {
                                let mut acc2 = acc;
                                acc2.add_property(p.0, p.1);
                                parse_properties(evs, i + 1, acc2)
                            },
                        },
                    },
                }
            } else {
                parse_properties(evs, i + 1, acc)
            }
        },
        Event::Start(t) => {
            if name_is(&t.name, "property") {
                match &t.attrs {
                    Result::Err(m) => Result::Err(Error::XMLError(m.clone())),
                    Result::Ok(al) => match parse_prop_attrs(al, 0, Option::None, Option::None) {
                        Result::Err(e) => Result::Err(e),
                        Result::Ok((k, v)) => match parse_prop_body(evs, i + 1, k, v) {
                            Result::Err(e) => Result::Err(e),
                            Result::Ok((p, j)) => {
                                let mut acc2 = acc;
                                acc2.add_property(p.0, p.1);
                                parse_properties(evs, j, acc2)
                            },
                        },
                    },
                }
            } else {
                match skip_tree(evs, i + 1, &t.name, 0) {
                    Result::Err(e) => Result::Err(e),
                    Result::Ok(j) => parse_properties(evs, j, acc),
                }
            }
        },
        _ => parse_properties(evs, i + 1, acc),
    }
}

// ---------------------------------------------------------------------------
// Rerun bodies
// ---------------------------------------------------------------------------

/// Joins newly captured output onto what was captured before: the first
/// block stands alone, later non-empty states gain a newline in between.
fn join_out(prev: Option<String>, add: String) -> (r: Option<String>)
    ensures
        opt_str_view(r) == join_output(opt_str_view(prev), add@),
{
    match prev {
        Option::None => Option::Some(add),
        Option::Some(p) => {
            if p.as_str().is_empty() {
                Option::Some(add)
            } else {
                let mut s = p;
                s.append("\n");
                s.append(add.as_str());
                Option::Some(s)
            }
        },
    }
}

/// Drains a rerun element's body: text and CDATA concatenated (text
/// segments trimmed), nested outputs joined, the last stack trace kept.
fn parse_rerun_body(evs: &Vec<Event>, i: usize, name: &String, acc: RerunOrFlaky) -> (r: Result<
    (RerunOrFlaky, usize),
    Error,
>)
    requires
        i <= evs@.len(),
    ensures
        match r {
            Result::Ok((l, j)) => p_rerun_body(evs@, i as int, name@, acc@) == Result::<
                (RerunModel, int),
                ErrModel,
            >::Ok((l@, j as int)) && i < j <= evs@.len(),
            Result::Err(e) => p_rerun_body(evs@, i as int, name@, acc@) == Result::<
                (RerunModel, int),
                ErrModel,
            >::Err(e@),
        },
    decreases evs@.len() - i,
{
    if i == evs.len() {
        return Result::Err(Error::UnexpectedEndOfFile(name.clone()));
    }
    match &evs[i] {
        Event::Eof => Result::Err(Error::UnexpectedEndOfFile(name.clone())),
        Event::Bad(m) => Result::Err(Error::XMLError(m.clone())),
        Event::End(n) => {
            if n.eq(name) {
                Result::Ok((acc, i + 1))
            } else {
                parse_rerun_body(evs, i + 1, name, acc)
            }
        },
        Event::Text(raw) => match text_value(raw) {
            Result::Err(e) => Result::Err(e),
            Result::Ok(u) => {
                let t = trim_string(u.as_str());
                let acc2 = RerunOrFlaky { text: acc.text.concat(t.as_str()), ..acc };
                parse_rerun_body(evs, i + 1, name, acc2)
            },
        },
        Event::CData(raw) => match cdata_value(raw) {
            Result::Err(e) => Result::Err(e),
            Result::Ok(u) => {
                let acc2 = RerunOrFlaky { text: acc.text.concat(u.as_str()), ..acc };
                parse_rerun_body(evs, i + 1, name, acc2)
            },
        },
        Event::Start(t) => {
            if name_is(&t.name, "system-out") {
                match parse_system(evs, i + 1, "system-out", String::new()) {
                    Result::Err(e) => Result::Err(e),
                    Result::Ok((c, j)) => {
                        let acc2 = RerunOrFlaky {
                            system_out: join_out(acc.system_out, c),
                            ..acc
                        };
                        parse_rerun_body(evs, j, name, acc2)
                    },
                }
            } else if name_is(&t.name, "system-err") {
                match parse_system(evs, i + 1, "system-err", String::new()) {
                    Result::Err(e) => Result::Err(e),
                    Result::Ok((c, j)) => {
                        let acc2 = RerunOrFlaky {
                            system_err: join_out(acc.system_err, c),
                            ..acc
                        };
                        parse_rerun_body(evs, j, name, acc2)
                    },
                }
            } else if name_is(&t.name, "stackTrace") {
                match parse_system(evs, i + 1, "stackTrace", String::new()) {
                    Result::Err(e) => Result::Err(e),
                    Result::Ok((c, j)) => {
                        let acc2 = RerunOrFlaky { stack_trace: Option::Some(c), ..acc };
                        parse_rerun_body(evs, j, name, acc2)
                    },
                }
            } else {
                match skip_tree(evs, i + 1, &t.name, 0) {
                    Result::Err(e) => Result::Err(e),
                    Result::Ok(j) => parse_rerun_body(evs, j, name, acc),
                }
            }
        },
        _ => parse_rerun_body(evs, i + 1, name, acc),
    }
}

// ---------------------------------------------------------------------------
// Test cases
// ---------------------------------------------------------------------------

/// The test case before any attribute or child is read.
fn empty_case() -> (r: TestCase)
    ensures
        r@ == empty_case_model(),
{
    let r = TestCase {
        time: String::new(),
        name: String::new(),
        status: TestStatus::Success,
        original_name: String::new(),
        classname: Option::None,
        group: Option::None,
        file: Option::None,
        line: Option::None,
        timestamp: Option::None,
        system_out: Option::None,
        system_err: Option::None,
        properties: Properties::new(),
        reruns: Vec::new(),
    };
    proof {
        assert(r@ =~= empty_case_model());
    }
    r
}

/// Folds a test case's attributes.
fn parse_case_attrs(attrs: &Vec<(String, Vec<u8>)>, i: usize, acc: TestCase) -> (r: Result<
    TestCase,
    Error,
>)
    requires
        i <= attrs@.len(),
    ensures
        match r {
            Result::Ok(c) => p_case_attrs(attrs@, i as int, acc@) == Result::<
                CaseModel,
                ErrModel,
            >::Ok(c@),
            Result::Err(e) => p_case_attrs(attrs@, i as int, acc@) == Result::<
                CaseModel,
                ErrModel,
            >::Err(e@),
        },
    decreases attrs@.len() - i,
{
    if i == attrs.len() {
        return Result::Ok(acc);
    }
    let key = &attrs[i].0;
    let raw = &attrs[i].1;
    if name_is(key, "time") {
        match coerce_f64(raw) {
            Result::Err(e) => Result::Err(e),
            Result::Ok(v) => parse_case_attrs(attrs, i + 1, TestCase { time: v, ..acc }),
        }
    } else if name_is(key, "name") {
        match coerce_string(raw) {
            Result::Err(e) => Result::Err(e),
            Result::Ok(v) => parse_case_attrs(attrs, i + 1, TestCase { original_name: v, ..acc }),
        }
    } else if name_is(key, "classname") {
        match coerce_string(raw) {
            Result::Err(e) => Result::Err(e),
            Result::Ok(v) => parse_case_attrs(
                attrs,
                i + 1,
                TestCase { classname: Option::Some(v), ..acc },
            ),
        }
    } else if name_is(key, "group") {
        match coerce_string(raw) {
            Result::Err(e) => Result::Err(e),
            Result::Ok(v) => parse_case_attrs(attrs, i + 1, TestCase { group: Option::Some(v), ..acc }),
        }
    } else if name_is(key, "file") {
        match coerce_string(raw) {
            Result::Err(e) => Result::Err(e),
            Result::Ok(v) => parse_case_attrs(attrs, i + 1, TestCase { file: Option::Some(v), ..acc }),
        }
    } else if name_is(key, "line") {
        match coerce_u64(raw) {
            Result::Err(e) => Result::Err(e),
            Result::Ok(v) => parse_case_attrs(attrs, i + 1, TestCase { line: Option::Some(v), ..acc }),
        }
    } else if name_is(key, "timestamp") {
        match coerce_string(raw) {
            Result::Err(e) => Result::Err(e),
            Result::Ok(v) => parse_case_attrs(
                attrs,
                i + 1,
                TestCase { timestamp: Option::Some(v), ..acc },
            ),
        }
    } else {
        parse_case_attrs(attrs, i + 1, acc)
    }
}

/// Joins two name parts with the `::` separator.
fn join_name(a: &String, b: &String) -> (r: String)
    ensures
        r@ == a@ + "::"@ + b@,
{
    let mut n = a.clone();
    n.append("::");
    n.append(b.as_str());
    n
}

/// Derives the reported name of a test case from its attributes.
fn apply_derived_name(c: TestCase) -> (r: TestCase)
    ensures
        r@ == with_derived_name(c@),
{
    let name: String = match &c.classname {
        Option::Some(cn) => join_name(cn, &c.original_name),
        Option::None => match &c.group {
            Option::Some(g) => join_name(g, &c.original_name),
            Option::None => c.original_name.clone(),
        },
    };
    let r = TestCase { name, ..c };
    proof {
        assert(r@ =~= with_derived_name(c@));
    }
    r
}

/// A fully attribute-initialized test case from a tag.
fn case_from_attrs(tag: &crate::tok::ElemTag) -> (r: Result<TestCase, Error>)
    ensures
        match r {
            Result::Ok(c) => p_case_from_attrs(*tag) == Result::<CaseModel, ErrModel>::Ok(c@),
            Result::Err(e) => p_case_from_attrs(*tag) == Result::<CaseModel, ErrModel>::Err(e@),
        },
{
    match &tag.attrs {
        Result::Err(m) => Result::Err(Error::XMLError(m.clone())),
        Result::Ok(al) => match parse_case_attrs(al, 0, empty_case()) {
            Result::Err(e) => Result::Err(e),
            Result::Ok(c) => Result::Ok(apply_derived_name(c)),
        },
    }
}

/// The status value a leaf element's name denotes.
fn make_status(name: &String, leaf: LeafRec) -> (r: Option<TestStatus>)
    ensures
        match r {
            Option::Some(st) => status_of(name@, leaf@) == Option::Some(st@),
            Option::None => status_of(name@, leaf@) is None,
        },
{
    if name_is(name, "error") {
        Option::Some(
            TestStatus::Error(
                crate::model::TestError {
                    message: leaf.message,
                    text: leaf.text,
                    error_type: leaf.typ,
                },
            ),
        )
    } else if name_is(name, "failure") {
        Option::Some(
            TestStatus::Failure(
                crate::model::TestFailure {
                    message: leaf.message,
                    text: leaf.text,
                    failure_type: leaf.typ,
                },
            ),
        )
    } else if name_is(name, "skipped") {
        Option::Some(
            TestStatus::Skipped(
                crate::model::TestSkipped {
                    message: leaf.message,
                    text: leaf.text,
                    skipped_type: leaf.typ,
                },
            ),
        )
    } else {
        Option::None
    }
}

/// The rerun kind a tag name denotes, if any.
fn kind_of_name(name: &String) -> (r: Option<RerunOrFlakyKind>)
    ensures
        r == rerun_kind_of(name@),
{
    if name_is(name, "flakyFailure") {
        Option::Some(RerunOrFlakyKind::FlakyFailure)
    } else if name_is(name, "flakyError") {
        Option::Some(RerunOrFlakyKind::FlakyError)
    } else if name_is(name, "rerunFailure") {
        Option::Some(RerunOrFlakyKind::RerunFailure)
    } else if name_is(name, "rerunError") {
        Option::Some(RerunOrFlakyKind::RerunError)
    } else {
        Option::None
    }
}

/// Drains a `testcase` body, dispatching its children: status leaves (the
/// last one wins), reruns, captured output, properties; unknown elements
/// are consumed and ignored.
#[verifier::rlimit(80)]
fn parse_case_children(evs: &Vec<Event>, i: usize, acc: TestCase) -> (r: Result<
    (TestCase, usize),
    Error,
>)
    requires
        i <= evs@.len(),
    ensures
        match r {
            Result::Ok((c, j)) => p_case_children(evs@, i as int, acc@) == Result::<
                (CaseModel, int),
                ErrModel,
            >::Ok((c@, j as int)) && i < j <= evs@.len(),
            Result::Err(e) => p_case_children(evs@, i as int, acc@) == Result::<
                (CaseModel, int),
                ErrModel,
            >::Err(e@),
        },
    decreases evs@.len() - i,
{
    if i == evs.len() {
        return Result::Err(Error::UnexpectedEndOfFile("testcase".to_owned()));
    }
    match &evs[i] {
        Event::Eof => Result::Err(Error::UnexpectedEndOfFile("testcase".to_owned())),
        Event::Bad(m) => Result::Err(Error::XMLError(m.clone())),
        Event::End(n) => {
            if name_is(n, "testcase") {
                Result::Ok((acc, i + 1))
            } else {
                parse_case_children(evs, i + 1, acc)
            }
        },
        Event::Empty(t) => {
            if name_is(&t.name, "error") || name_is(&t.name, "failure") || name_is(
                &t.name,
                "skipped",
            ) {
                match &t.attrs {
                    Result::Err(m) => Result::Err(Error::XMLError(m.clone())),
                    Result::Ok(al) => match parse_leaf_attrs(al, 0, empty_leaf()) {
                        Result::Err(e) => Result::Err(e),
                        Result::Ok(leaf) => match make_status(&t.name, leaf) {
                            Option::Some(st) => {
                                let mut acc2 = acc;
                                acc2.status = st;
                                parse_case_children(evs, i + 1, acc2)
                            },
                            Option::None => vstd::pervasive::unreached(),
                        },
                    },
                }
            } else if kind_of_name(&t.name).is_some() {
                match &t.attrs {
                    Result::Err(m) => Result::Err(Error::XMLError(m.clone())),
                    Result::Ok(al) => {
                        let kind = match kind_of_name(&t.name) {
                            Option::Some(k) => k,
                            Option::None => vstd::pervasive::unreached(),
                        };
                        match parse_rerun_attrs(al, 0, empty_rerun(kind)) {
                            Result::Err(e) => Result::Err(e),
                            Result::Ok(rr) => {
                                let mut acc2 = acc;
                                acc2.reruns.push(rr);
                                proof {
                                    assert(acc2@ =~= CaseModel {
                                        reruns: acc@.reruns.push(rr@),
                                        ..acc@
                                    });
                                }
                                parse_case_children(evs, i + 1, acc2)
                            },
                        }
                    },
                }
            } else {
                parse_case_children(evs, i + 1, acc)
            }
        },
        Event::Start(t) => {
            if name_is(&t.name, "error") || name_is(&t.name, "failure") || name_is(
                &t.name,
                "skipped",
            ) {
                match &t.attrs {
                    Result::Err(m) => Result::Err(Error::XMLError(m.clone())),
                    Result::Ok(al) => match parse_leaf_attrs(al, 0, empty_leaf()) {
                        Result::Err(e) => Result::Err(e),
                        Result::Ok(leaf0) => match parse_leaf_body(evs, i + 1, &t.name, leaf0) {
                            Result::Err(e) => Result::Err(e),
                            Result::Ok((leaf, j)) => match make_status(&t.name, leaf) {
                                Option::Some(st) => {
                                    let mut acc2 = acc;
                                    acc2.status = st;
                                    parse_case_children(evs, j, acc2)
                                },
                                Option::None => vstd::pervasive::unreached(),
                            },
                        },
                    },
                }
            } else if kind_of_name(&t.name).is_some() {
                match &t.attrs {
                    Result::Err(m) => Result::Err(Error::XMLError(m.clone())),
                    Result::Ok(al) => {
                        let kind = match kind_of_name(&t.name) {
                            Option::Some(k) => k,
                            Option::None => vstd::pervasive::unreached(),
                        };
                        match parse_rerun_attrs(al, 0, empty_rerun(kind)) {
                            Result::Err(e) => Result::Err(e),
                            Result::Ok(rr0) => match parse_rerun_body(evs, i + 1, &t.name, rr0) {
                                Result::Err(e) => Result::Err(e),
                                Result::Ok((rr, j)) => {
                                    let mut acc2 = acc;
                                    acc2.reruns.push(rr);
                                    proof {
                                        assert(acc2@ =~= CaseModel {
                                            reruns: acc@.reruns.push(rr@),
                                            ..acc@
                                        });
                                    }
                                    parse_case_children(evs, j, acc2)
                                },
                            },
                        }
                    },
                }
            } else if name_is(&t.name, "system-out") {
                match parse_system(evs, i + 1, "system-out", String::new()) {
                    Result::Err(e) => Result::Err(e),
                    Result::Ok((c, j)) => {
                        let mut acc2 = acc;
                        acc2.system_out = join_out(acc2.system_out, c);
                        parse_case_children(evs, j, acc2)
                    },
                }
            } else if name_is(&t.name, "system-err") {
                match parse_system(evs, i + 1, "system-err", String::new()) {
                    Result::Err(e) => Result::Err(e),
                    Result::Ok((c, j)) => {
                        let mut acc2 = acc;
                        acc2.system_err = join_out(acc2.system_err, c);
                        parse_case_children(evs, j, acc2)
                    },
                }
            } else if name_is(&t.name, "properties") {
                match parse_properties(evs, i + 1, Properties::new()) {
                    Result::Err(e) => Result::Err(e),
                    Result::Ok((ps, j)) => {
                        let mut acc2 = acc;
                        acc2.properties = ps;
                        parse_case_children(evs, j, acc2)
                    },
                }
            } else {
                match skip_tree(evs, i + 1, &t.name, 0) {
                    Result::Err(e) => Result::Err(e),
                    Result::Ok(j) => parse_case_children(evs, j, acc),
                }
            }
        },
        _ => parse_case_children(evs, i + 1, acc),
    }
}

// ---------------------------------------------------------------------------
// Test suites
// ---------------------------------------------------------------------------

/// The test suite before any attribute or child is read.
fn empty_suite() -> (r: TestSuite)
    ensures
        r@ == empty_suite_model(),
{
    let r = TestSuite {
        cases: Vec::new(),
        suites: Vec::new(),
        time: String::new(),
        tests: 0,
        errors: 0,
        failures: 0,
        skipped: 0,
        assertions: Option::None,
        name: String::new(),
        timestamp: Option::None,
        hostname: Option::None,
        id: Option::None,
        package: Option::None,
        file: Option::None,
        log: Option::None,
        url: Option::None,
        version: Option::None,
        system_out: Option::None,
        system_err: Option::None,
        properties: Properties::new(),
    };
    proof {
        assert(crate::model::suite_views(r.suites@) =~= Seq::<SuiteModel>::empty());
        assert(crate::model::case_views(r.cases@) =~= Seq::<CaseModel>::empty());
        assert(r@ =~= empty_suite_model());
    }
    r
}

/// Folds a test suite's attributes.
#[verifier::rlimit(80)]
fn parse_suite_attrs(attrs: &Vec<(String, Vec<u8>)>, i: usize, acc: TestSuite) -> (r: Result<
    TestSuite,
    Error,
>)
    requires
        i <= attrs@.len(),
    ensures
        match r {
            Result::Ok(s) => p_suite_attrs(attrs@, i as int, acc@) == Result::<
                SuiteModel,
                ErrModel,
            >::Ok(s@),
            Result::Err(e) => p_suite_attrs(attrs@, i as int, acc@) == Result::<
                SuiteModel,
                ErrModel,
            >::Err(e@),
        },
    decreases attrs@.len() - i,
{
    if i == attrs.len() {
        return Result::Ok(acc);
    }
    let key = &attrs[i].0;
    let raw = &attrs[i].1;
    if name_is(key, "time") {
        match coerce_f64(raw) {
            Result::Err(e) => Result::Err(e),
            Result::Ok(v) => parse_suite_attrs(attrs, i + 1, TestSuite { time: v, ..acc }),
        }
    } else if name_is(key, "tests") {
        match coerce_u64(raw) {
            Result::Err(e) => Result::Err(e),
            Result::Ok(v) => parse_suite_attrs(attrs, i + 1, TestSuite { tests: v, ..acc }),
        }
    } else if name_is(key, "errors") {
        match coerce_u64(raw) {
            Result::Err(e) => Result::Err(e),
            Result::Ok(v) => parse_suite_attrs(attrs, i + 1, TestSuite { errors: v, ..acc }),
        }
    } else if name_is(key, "failures") {
        match coerce_u64(raw) {
            Result::Err(e) => Result::Err(e),
            Result::Ok(v) => parse_suite_attrs(attrs, i + 1, TestSuite { failures: v, ..acc }),
        }
    } else if name_is(key, "skipped") {
        match coerce_u64(raw) {
            Result::Err(e) => Result::Err(e),
            Result::Ok(v) => parse_suite_attrs(attrs, i + 1, TestSuite { skipped: v, ..acc }),
        }
    } else if name_is(key, "assertions") {
        match coerce_u64(raw) {
            Result::Err(e) => Result::Err(e),
            Result::Ok(v) => parse_suite_attrs(
                attrs,
                i + 1,
                TestSuite { assertions: Option::Some(v), ..acc },
            ),
        }
    } else if name_is(key, "name") {
        match coerce_string(raw) {
            Result::Err(e) => Result::Err(e),
            Result::Ok(v) => parse_suite_attrs(attrs, i + 1, TestSuite { name: v, ..acc }),
        }
    } else if name_is(key, "timestamp") {
        match coerce_string(raw) {
            Result::Err(e) => Result::Err(e),
            Result::Ok(v) => parse_suite_attrs(
                attrs,
                i + 1,
                TestSuite { timestamp: Option::Some(v), ..acc },
            ),
        }
    } else if name_is(key, "hostname") {
        match coerce_string(raw) {
            Result::Err(e) => Result::Err(e),
            Result::Ok(v) => parse_suite_attrs(
                attrs,
                i + 1,
                TestSuite { hostname: Option::Some(v), ..acc },
            ),
        }
    } else if name_is(key, "id") {
        match coerce_string(raw) {
            Result::Err(e) => Result::Err(e),
            Result::Ok(v) => parse_suite_attrs(attrs, i + 1, TestSuite { id: Option::Some(v), ..acc }),
        }
    } else if name_is(key, "package") {
        match coerce_string(raw) {
            Result::Err(e) => Result::Err(e),
            Result::Ok(v) => parse_suite_attrs(
                attrs,
                i + 1,
                TestSuite { package: Option::Some(v), ..acc },
            ),
        }
    } else if name_is(key, "file") {
        match coerce_string(raw) {
            Result::Err(e) => Result::Err(e),
            Result::Ok(v) => parse_suite_attrs(attrs, i + 1, TestSuite { file: Option::Some(v), ..acc }),
        }
    } else if name_is(key, "log") {
        match coerce_string(raw) {
            Result::Err(e) => Result::Err(e),
            Result::Ok(v) => parse_suite_attrs(attrs, i + 1, TestSuite { log: Option::Some(v), ..acc }),
        }
    } else if name_is(key, "url") {
        match coerce_string(raw) {
            Result::Err(e) => Result::Err(e),
            Result::Ok(v) => parse_suite_attrs(attrs, i + 1, TestSuite { url: Option::Some(v), ..acc }),
        }
    } else if name_is(key, "version") {
        match coerce_string(raw) {
            Result::Err(e) => Result::Err(e),
            Result::Ok(v) => parse_suite_attrs(
                attrs,
                i + 1,
                TestSuite { version: Option::Some(v), ..acc },
            ),
        }
    } else {
        parse_suite_attrs(attrs, i + 1, acc)
    }
}

/// A fully attribute-initialized test suite from a tag.
fn suite_from_attrs(tag: &crate::tok::ElemTag) -> (r: Result<TestSuite, Error>)
    ensures
        match r {
            Result::Ok(s) => p_suite_from_attrs(*tag) == Result::<SuiteModel, ErrModel>::Ok(s@),
            Result::Err(e) => p_suite_from_attrs(*tag) == Result::<SuiteModel, ErrModel>::Err(e@),
        },
{
    match &tag.attrs {
        Result::Err(m) => Result::Err(Error::XMLError(m.clone())),
        Result::Ok(al) => parse_suite_attrs(al, 0, empty_suite()),
    }
}

/// Drains a `testsuite` body, dispatching its children: nested suites,
/// test cases, captured output, properties; unknown elements are consumed
/// and ignored.
#[verifier::rlimit(80)]
fn parse_suite_children(evs: &Vec<Event>, i: usize, acc: TestSuite) -> (r: Result<
    (TestSuite, usize),
    Error,
>)
    requires
        i <= evs@.len(),
    ensures
        match r {
            Result::Ok((s, j)) => p_suite_children(evs@, i as int, acc@) == Result::<
                (SuiteModel, int),
                ErrModel,
            >::Ok((s@, j as int)) && i < j <= evs@.len(),
            Result::Err(e) => p_suite_children(evs@, i as int, acc@) == Result::<
                (SuiteModel, int),
                ErrModel,
            >::Err(e@),
        },
    decreases evs@.len() - i,
{
    if i == evs.len() {
        return Result::Err(Error::UnexpectedEndOfFile("testsuite".to_owned()));
    }
    match &evs[i] {
        Event::Eof => Result::Err(Error::UnexpectedEndOfFile("testsuite".to_owned())),
        Event::Bad(m) => Result::Err(Error::XMLError(m.clone())),
        Event::End(n) => {
            if name_is(n, "testsuite") {
                Result::Ok((acc, i + 1))
            } else {
                parse_suite_children(evs, i + 1, acc)
            }
        },
        Event::Empty(t) => {
            if name_is(&t.name, "testsuite") {
                match suite_from_attrs(t) {
                    Result::Err(e) => Result::Err(e),
                    Result::Ok(child) => {
                        let ghost cg = child;
                        let mut acc2 = acc;
                        let ghost pre = acc2.suites@;
                        acc2.suites.push(child);
                        proof {
                            crate::model::lemma_suite_views_push(pre, cg);
                            assert(acc2@ =~= SuiteModel { suites: acc@.suites.push(cg@), ..acc@ });
                        }
                        parse_suite_children(evs, i + 1, acc2)
                    },
                }
            } else if name_is(&t.name, "testcase") {
                match case_from_attrs(t) {
                    Result::Err(e) => Result::Err(e),
                    Result::Ok(c) => {
                        let ghost cg = c;
                        let mut acc2 = acc;
                        let ghost pre = acc2.cases@;
                        acc2.cases.push(c);
                        proof {
                            crate::model::lemma_case_views_push(pre, cg);
                            assert(acc2@ =~= SuiteModel { cases: acc@.cases.push(cg@), ..acc@ });
                        }
                        parse_suite_children(evs, i + 1, acc2)
                    },
                }
            } else {
                parse_suite_children(evs, i + 1, acc)
            }
        },
        Event::Start(t) => {
            if name_is(&t.name, "testsuite") {
                match suite_from_attrs(t) {
                    Result::Err(e) => Result::Err(e),
                    Result::Ok(child0) => match parse_suite_children(evs, i + 1, child0) {
                        Result::Err(e) => Result::Err(e),
                        Result::Ok((child, j)) => {
                            let ghost cg = child;
                            let mut acc2 = acc;
                            let ghost pre = acc2.suites@;
                            acc2.suites.push(child);
                            proof {
                                crate::model::lemma_suite_views_push(pre, cg);
                                assert(acc2@ =~= SuiteModel {
                                    suites: acc@.suites.push(cg@),
                                    ..acc@
                                });
                            }
                            parse_suite_children(evs, j, acc2)
                        },
                    },
                }
            } else if name_is(&t.name, "testcase") {
                match case_from_attrs(t) {
                    Result::Err(e) => Result::Err(e),
                    Result::Ok(c0) => match parse_case_children(evs, i + 1, c0) {
                        Result::Err(e) => Result::Err(e),
                        Result::Ok((c, j)) => {
                            let ghost cg = c;
                            let mut acc2 = acc;
                            let ghost pre = acc2.cases@;
                            acc2.cases.push(c);
                            proof {
                                crate::model::lemma_case_views_push(pre, cg);
                                assert(acc2@ =~= SuiteModel {
                                    cases: acc@.cases.push(cg@),
                                    ..acc@
                                });
                            }
                            parse_suite_children(evs, j, acc2)
                        },
                    },
                }
            } else if name_is(&t.name, "system-out") {
                match parse_system(evs, i + 1, "system-out", String::new()) {
                    Result::Err(e) => Result::Err(e),
                    Result::Ok((c, j)) => {
                        let joined = join_out(acc.system_out, c);
                        let acc2 = TestSuite { system_out: joined, ..acc };
                        parse_suite_children(evs, j, acc2)
                    },
                }
            } else if name_is(&t.name, "system-err") {
                match parse_system(evs, i + 1, "system-err", String::new()) {
                    Result::Err(e) => Result::Err(e),
                    Result::Ok((c, j)) => {
                        let joined = join_out(acc.system_err, c);
                        let acc2 = TestSuite { system_err: joined, ..acc };
                        parse_suite_children(evs, j, acc2)
                    },
                }
            } else if name_is(&t.name, "properties") {
                match parse_properties(evs, i + 1, Properties::new()) {
                    Result::Err(e) => Result::Err(e),
                    Result::Ok((ps, j)) => {
                        let acc2 = TestSuite { properties: ps, ..acc };
                        parse_suite_children(evs, j, acc2)
                    },
                }
            } else {
                match skip_tree(evs, i + 1, &t.name, 0) {
                    Result::Err(e) => Result::Err(e),
                    Result::Ok(j) => parse_suite_children(evs, j, acc),
                }
            }
        },
        _ => parse_suite_children(evs, i + 1, acc),
    }
}

// ---------------------------------------------------------------------------
// The report root
// ---------------------------------------------------------------------------

/// The report root before any attribute or child is read.
fn empty_suites() -> (r: TestSuites)
    ensures
        r@ == empty_suites_model(),
        r.suites@ == Seq::<TestSuite>::empty(),
{
    let r = TestSuites {
        suites: Vec::new(),
        time: String::new(),
        tests: 0,
        errors: 0,
        failures: 0,
        skipped: 0,
        name: String::new(),
        timestamp: Option::None,
    };
    proof {
        assert(r@ =~= empty_suites_model());
    }
    r
}

/// Folds the root element's attributes.
fn parse_suites_attrs(attrs: &Vec<(String, Vec<u8>)>, i: usize, acc: TestSuites) -> (r: Result<
    TestSuites,
    Error,
>)
    requires
        i <= attrs@.len(),
    ensures
        match r {
            Result::Ok(s) => p_suites_attrs(attrs@, i as int, acc@) == Result::<
                SuitesModel,
                ErrModel,
            >::Ok(s@),
            Result::Err(e) => p_suites_attrs(attrs@, i as int, acc@) == Result::<
                SuitesModel,
                ErrModel,
            >::Err(e@),
        },
    decreases attrs@.len() - i,
{
    if i == attrs.len() {
        return Result::Ok(acc);
    }
    let key = &attrs[i].0;
    let raw = &attrs[i].1;
    if name_is(key, "time") {
        match coerce_f64(raw) {
            Result::Err(e) => Result::Err(e),
            Result::Ok(v) => parse_suites_attrs(attrs, i + 1, TestSuites { time: v, ..acc }),
        }
    } else if name_is(key, "tests") {
        match coerce_u64(raw) {
            Result::Err(e) => Result::Err(e),
            Result::Ok(v) => parse_suites_attrs(attrs, i + 1, TestSuites { tests: v, ..acc }),
        }
    } else if name_is(key, "errors") {
        match coerce_u64(raw) {
            Result::Err(e) => Result::Err(e),
            Result::Ok(v) => parse_suites_attrs(attrs, i + 1, TestSuites { errors: v, ..acc }),
        }
    } else if name_is(key, "failures") {
        match coerce_u64(raw) {
            Result::Err(e) => Result::Err(e),
            Result::Ok(v) => parse_suites_attrs(attrs, i + 1, TestSuites { failures: v, ..acc }),
        }
    } else if name_is(key, "skipped") {
        match coerce_u64(raw) {
            Result::Err(e) => Result::Err(e),
            Result::Ok(v) => parse_suites_attrs(attrs, i + 1, TestSuites { skipped: v, ..acc }),
        }
    } else if name_is(key, "name") {
        match coerce_string(raw) {
            Result::Err(e) => Result::Err(e),
            Result::Ok(v) => parse_suites_attrs(attrs, i + 1, TestSuites { name: v, ..acc }),
        }
    } else if name_is(key, "timestamp") {
        match coerce_string(raw) {
            Result::Err(e) => Result::Err(e),
            Result::Ok(v) => parse_suites_attrs(
                attrs,
                i + 1,
                TestSuites { timestamp: Option::Some(v), ..acc },
            ),
        }
    } else {
        parse_suites_attrs(attrs, i + 1, acc)
    }
}

/// A fully attribute-initialized report root from a tag.
fn suites_from_attrs(tag: &crate::tok::ElemTag) -> (r: Result<TestSuites, Error>)
    ensures
        match r {
            Result::Ok(s) => p_suites_from_attrs(*tag) == Result::<SuitesModel, ErrModel>::Ok(s@),
            Result::Err(e) => p_suites_from_attrs(*tag) == Result::<SuitesModel, ErrModel>::Err(
                e@,
            ),
        },
{
    match &tag.attrs {
        Result::Err(m) => Result::Err(Error::XMLError(m.clone())),
        Result::Ok(al) => parse_suites_attrs(al, 0, empty_suites()),
    }
}

/// Drains a `testsuites` or `testrun` body: `testsuite` children in
/// document order; unknown elements are consumed and ignored.
#[verifier::rlimit(60)]
fn parse_suites_children(evs: &Vec<Event>, i: usize, acc: TestSuites) -> (r: Result<
    (TestSuites, usize),
    Error,
>)
    requires
        i <= evs@.len(),
    ensures
        match r {
            Result::Ok((s, j)) => p_suites_children(evs@, i as int, acc@) == Result::<
                (SuitesModel, int),
                ErrModel,
            >::Ok((s@, j as int)) && i < j <= evs@.len(),
            Result::Err(e) => p_suites_children(evs@, i as int, acc@) == Result::<
                (SuitesModel, int),
                ErrModel,
            >::Err(e@),
        },
    decreases evs@.len() - i,
{
    if i == evs.len() {
        return Result::Err(Error::UnexpectedEndOfFile("testsuites".to_owned()));
    }
    match &evs[i] {
        Event::Eof => Result::Err(Error::UnexpectedEndOfFile("testsuites".to_owned())),
        Event::Bad(m) => Result::Err(Error::XMLError(m.clone())),
        Event::End(n) => {
            if name_is(n, "testsuites") || name_is(n, "testrun") {
                Result::Ok((acc, i + 1))
            } else {
                parse_suites_children(evs, i + 1, acc)
            }
        },
        Event::Empty(t) => {
            if name_is(&t.name, "testsuite") {
                match suite_from_attrs(t) {
                    Result::Err(e) => Result::Err(e),
                    Result::Ok(s) => {
                        let ghost cg = s;
                        let mut acc2 = acc;
                        let ghost pre = acc2.suites@;
                        acc2.suites.push(s);
                        proof {
                            crate::model::lemma_suite_views_push(pre, cg);
                            assert(acc2@ =~= SuitesModel { suites: acc@.suites.push(cg@), ..acc@ });
                        }
                        parse_suites_children(evs, i + 1, acc2)
                    },
                }
            } else {
                parse_suites_children(evs, i + 1, acc)
            }
        },
        Event::Start(t) => {
            if name_is(&t.name, "testsuite") {
                match suite_from_attrs(t) {
                    Result::Err(e) => Result::Err(e),
                    Result::Ok(s0) => match parse_suite_children(evs, i + 1, s0) {
                        Result::Err(e) => Result::Err(e),
                        Result::Ok((s, j)) => {
                            let ghost cg = s;
                            let mut acc2 = acc;
                            let ghost pre = acc2.suites@;
                            acc2.suites.push(s);
                            proof {
                                crate::model::lemma_suite_views_push(pre, cg);
                                assert(acc2@ =~= SuitesModel {
                                    suites: acc@.suites.push(cg@),
                                    ..acc@
                                });
                            }
                            parse_suites_children(evs, j, acc2)
                        },
                    },
                }
            } else {
                match skip_tree(evs, i + 1, &t.name, 0) {
                    Result::Err(e) => Result::Err(e),
                    Result::Ok(j) => parse_suites_children(evs, j, acc),
                }
            }
        },
        _ => parse_suites_children(evs, i + 1, acc),
    }
}

/// Wraps a bare `testsuite` root in a synthesized report root.
fn wrap_suite(s: TestSuite) -> (r: TestSuites)
    ensures
        r@ == wrap_single_suite(s@),
{
    let ghost sg = s;
    let mut root = empty_suites();
    let ghost pre = root.suites@;
    root.suites.push(s);
    proof {
        crate::model::lemma_suite_views_push(pre, sg);
        assert(root@ =~= wrap_single_suite(sg@));
    }
    root
}

/// Parses the document root from the event sequence, starting at `i`.
fn parse_root(evs: &Vec<Event>, i: usize) -> (r: Result<TestSuites, Error>)
    requires
        i <= evs@.len(),
    ensures
        match r {
            Result::Ok(t) => p_root(evs@, i as int) == Result::<SuitesModel, ErrModel>::Ok(t@),
            Result::Err(e) => p_root(evs@, i as int) == Result::<SuitesModel, ErrModel>::Err(e@),
        },
    decreases evs@.len() - i,
{
    if i == evs.len() {
        return Result::Err(Error::UnexpectedEndOfFile("testsuites".to_owned()));
    }
    match &evs[i] {
        Event::Eof => Result::Err(Error::UnexpectedEndOfFile("testsuites".to_owned())),
        Event::Bad(m) => Result::Err(Error::XMLError(m.clone())),
        Event::Empty(t) => {
            if name_is(&t.name, "testsuites") || name_is(&t.name, "testrun") {
                suites_from_attrs(t)
            } else if name_is(&t.name, "testsuite") {
                match suite_from_attrs(t) {
                    Result::Err(e) => Result::Err(e),
                    Result::Ok(s) => Result::Ok(wrap_suite(s)),
                }
            } else {
                parse_root(evs, i + 1)
            }
        },
        Event::Start(t) => {
            if name_is(&t.name, "testsuites") || name_is(&t.name, "testrun") {
                match suites_from_attrs(t) {
                    Result::Err(e) => Result::Err(e),
                    Result::Ok(acc) => match parse_suites_children(evs, i + 1, acc) {
                        Result::Err(e) => Result::Err(e),
                        Result::Ok((m, _)) => Result::Ok(m),
                    },
                }
            } else if name_is(&t.name, "testsuite") {
                match suite_from_attrs(t) {
                    Result::Err(e) => Result::Err(e),
                    Result::Ok(s0) => match parse_suite_children(evs, i + 1, s0) {
                        Result::Err(e) => Result::Err(e),
                        Result::Ok((s, _)) => Result::Ok(wrap_suite(s)),
                    },
                }
            } else {
                match skip_tree(evs, i + 1, &t.name, 0) {
                    Result::Err(e) => Result::Err(e),
                    Result::Ok(j) => parse_root(evs, j),
                }
            }
        },
        _ => parse_root(evs, i + 1),
    }
}

// ---------------------------------------------------------------------------
// Public entry points
// ---------------------------------------------------------------------------

/// Parses a whole report from an event sequence: the verified core of the
/// library. The result is exactly what the specification parser
/// [`p_root`] says of the events.
pub fn parse_events(evs: &Vec<Event>) -> (r: Result<TestSuites, Error>)
    ensures
        match r {
            Result::Ok(t) => p_root(evs@, 0) == Result::<SuitesModel, ErrModel>::Ok(t@),
            Result::Err(e) => p_root(evs@, 0) == Result::<SuitesModel, ErrModel>::Err(e@),
        },
{
    parse_root(evs, 0)
}

/// Whether a parse result is exactly what the specification parser says
/// of an event sequence.
pub open spec fn parse_outcome_matches(evs: Seq<Event>, r: Result<TestSuites, Error>) -> bool {
    match r {
        Result::Ok(t) => p_root(evs, 0) == Result::<SuitesModel, ErrModel>::Ok(t@),
        Result::Err(e) => p_root(evs, 0) == Result::<SuitesModel, ErrModel>::Err(e@),
    }
}

/// Parses a JUnit XML report from the document's bytes.
///
/// The bytes run through the XML tokenizer, whose event sequence on a
/// document [`events_of`] names; the result is exactly the specification
/// parser's verdict on that sequence. The same bytes always give the same
/// report or the same error.
pub fn from_reader(data: &[u8]) -> (r: Result<TestSuites, Error>)
    ensures
        parse_outcome_matches(events_of(data@), r),
{
    let evs = tokenize(data);
    parse_events(&evs)
}

} // verus!
