//! Laws of the parser: properties of the specification parser in
//! [`crate::sem`] that hold for every document, each stated and proved
//! here. The executable parser inherits them through its exact contracts.

use vstd::prelude::*;

use crate::errors::ErrModel;
use crate::model::CaseModel;
use crate::model::LeafModel;
use crate::model::PropsModel;
use crate::model::RerunModel;
use crate::model::SuiteModel;
use crate::model::SuitesModel;
use crate::sem::clip;
use crate::sem::derived_name;
use crate::sem::join_output;
use crate::sem::p_case_children;
use crate::sem::p_leaf_body;
use crate::sem::p_prop_body;
use crate::sem::p_properties;
use crate::sem::p_rerun_body;
use crate::sem::p_root;
use crate::sem::p_skip;
use crate::sem::p_suite_children;
use crate::sem::p_suite_from_attrs;
use crate::sem::p_suites_children;
use crate::sem::p_suites_from_attrs;
use crate::sem::p_system;
use crate::sem::rerun_kind_of;
use crate::sem::status_of;
use crate::sem::wrap_single_suite;
use crate::tok::ElemTag;
use crate::tok::Event;

verus! {

// ---------------------------------------------------------------------------
// Every parse step moves forward
// ---------------------------------------------------------------------------

/// Skipping a subtree consumes at least one event and stays in bounds.
pub proof fn lemma_skip_bounds(evs: Seq<Event>, i: int, name: Seq<char>, depth: int, j: int)
    requires
        p_skip(evs, i, name, depth) == Result::<int, ErrModel>::Ok(j),
    ensures
        i < j <= evs.len(),
    decreases evs.len() - i,
{
    if 0 <= i < evs.len() {
        match evs[i] {
            Event::Start(t) => {
                if t.name@ == name {
                    lemma_skip_bounds(evs, i + 1, name, depth + 1, j);
                } else {
                    lemma_skip_bounds(evs, i + 1, name, depth, j);
                }
            },
            Event::End(n) => {
                if n@ == name {
                    if depth != 0 {
                        lemma_skip_bounds(evs, i + 1, name, depth - 1, j);
                    }
                } else {
                    lemma_skip_bounds(evs, i + 1, name, depth, j);
                }
            },
            Event::Eof => {},
            Event::Bad(_) => {},
            _ => {
                lemma_skip_bounds(evs, i + 1, name, depth, j);
            },
        }
    }
}

/// Draining an output body consumes at least one event and stays in bounds.
pub proof fn lemma_system_bounds(
    evs: Seq<Event>,
    i: int,
    name: Seq<char>,
    acc: Seq<char>,
    c: Seq<char>,
    j: int,
)
    requires
        p_system(evs, i, name, acc) == Result::<(Seq<char>, int), ErrModel>::Ok((c, j)),
    ensures
        i < j <= evs.len(),
    decreases evs.len() - i,
{
    if 0 <= i < evs.len() {
        match evs[i] {
            Event::End(n) => {
                if n@ != name {
                    lemma_system_bounds(evs, i + 1, name, acc, c, j);
                }
            },
            Event::Text(raw) => {
                match crate::sem::text_value_spec(raw@) {
                    Result::Ok(u) => lemma_system_bounds(evs, i + 1, name, acc + u, c, j),
                    Result::Err(_) => {},
                }
            },
            Event::CData(raw) => {
                match crate::sem::cdata_value_spec(raw@) {
                    Result::Ok(u) => lemma_system_bounds(evs, i + 1, name, acc + u, c, j),
                    Result::Err(_) => {},
                }
            },
            Event::Start(t) => {
                match p_skip(evs, i + 1, t.name@, 0) {
                    Result::Ok(k) => {
                        lemma_skip_bounds(evs, i + 1, t.name@, 0, k);
                        lemma_system_bounds(evs, clip(k, i, evs.len() as int), name, acc, c, j);
                    },
                    Result::Err(_) => {},
                }
            },
            Event::Eof => {},
            Event::Bad(_) => {},
            _ => {
                lemma_system_bounds(evs, i + 1, name, acc, c, j);
            },
        }
    }
}

/// Draining a leaf body consumes at least one event and stays in bounds.
pub proof fn lemma_leaf_body_bounds(
    evs: Seq<Event>,
    i: int,
    name: Seq<char>,
    acc: LeafModel,
    l: LeafModel,
    j: int,
)
    requires
        p_leaf_body(evs, i, name, acc) == Result::<(LeafModel, int), ErrModel>::Ok((l, j)),
    ensures
        i < j <= evs.len(),
    decreases evs.len() - i,
{
    if 0 <= i < evs.len() {
        match evs[i] {
            Event::End(n) => {
                if n@ != name {
                    lemma_leaf_body_bounds(evs, i + 1, name, acc, l, j);
                }
            },
            Event::Text(raw) => {
                match crate::sem::text_value_spec(raw@) {
                    Result::Ok(u) => lemma_leaf_body_bounds(
                        evs,
                        i + 1,
                        name,
                        LeafModel { text: crate::tok::trim_spec(u), ..acc },
                        l,
                        j,
                    ),
                    Result::Err(_) => {},
                }
            },
            Event::CData(raw) => {
                match crate::sem::cdata_value_spec(raw@) {
                    Result::Ok(u) => lemma_leaf_body_bounds(
                        evs,
                        i + 1,
                        name,
                        LeafModel { text: u, ..acc },
                        l,
                        j,
                    ),
                    Result::Err(_) => {},
                }
            },
            Event::Start(t) => {
                match p_skip(evs, i + 1, t.name@, 0) {
                    Result::Ok(k) => {
                        lemma_skip_bounds(evs, i + 1, t.name@, 0, k);
                        lemma_leaf_body_bounds(
                            evs,
                            clip(k, i, evs.len() as int),
                            name,
                            acc,
                            l,
                            j,
                        );
                    },
                    Result::Err(_) => {},
                }
            },
            Event::Eof => {},
            Event::Bad(_) => {},
            _ => {
                lemma_leaf_body_bounds(evs, i + 1, name, acc, l, j);
            },
        }
    }
}

/// Draining a `property` body consumes at least one event and stays in
/// bounds.
pub proof fn lemma_prop_body_bounds(
    evs: Seq<Event>,
    i: int,
    k: Option<Seq<char>>,
    v: Option<Seq<char>>,
    p: (Seq<char>, Seq<char>),
    j: int,
)
    requires
        p_prop_body(evs, i, k, v) == Result::<((Seq<char>, Seq<char>), int), ErrModel>::Ok((p, j)),
    ensures
        i < j <= evs.len(),
    decreases evs.len() - i,
{
    if 0 <= i < evs.len() {
        match evs[i] {
            Event::End(n) => {
                if n@ != "property"@ {
                    lemma_prop_body_bounds(evs, i + 1, k, v, p, j);
                }
            },
            Event::Text(raw) => {
                match crate::sem::text_value_spec(raw@) {
                    Result::Ok(u) => lemma_prop_body_bounds(
                        evs,
                        i + 1,
                        k,
                        Option::Some(crate::tok::trim_spec(u)),
                        p,
                        j,
                    ),
                    Result::Err(_) => {},
                }
            },
            Event::CData(raw) => {
                match crate::sem::cdata_value_spec(raw@) {
                    Result::Ok(u) => lemma_prop_body_bounds(evs, i + 1, k, Option::Some(u), p, j),
                    Result::Err(_) => {},
                }
            },
            Event::Start(t) => {
                match p_skip(evs, i + 1, t.name@, 0) {
                    Result::Ok(kk) => {
                        lemma_skip_bounds(evs, i + 1, t.name@, 0, kk);
                        lemma_prop_body_bounds(evs, clip(kk, i, evs.len() as int), k, v, p, j);
                    },
                    Result::Err(_) => {},
                }
            },
            Event::Eof => {},
            Event::Bad(_) => {},
            _ => {
                lemma_prop_body_bounds(evs, i + 1, k, v, p, j);
            },
        }
    }
}

/// Draining a `properties` body consumes at least one event and stays in
/// bounds.
pub proof fn lemma_properties_bounds(
    evs: Seq<Event>,
    i: int,
    acc: Seq<(Seq<char>, Seq<char>)>,
    ps: PropsModel,
    j: int,
)
    requires
        p_properties(evs, i, acc) == Result::<(PropsModel, int), ErrModel>::Ok((ps, j)),
    ensures
        i < j <= evs.len(),
    decreases evs.len() - i,
{
    if 0 <= i < evs.len() {
        match evs[i] {
            Event::End(n) => {
                if n@ != "properties"@ {
                    lemma_properties_bounds(evs, i + 1, acc, ps, j);
                }
            },
            Event::Empty(t) => {
                if t.name@ == "property"@ {
                    match crate::sem::attrs_of(t) {
                        Result::Ok(al) => {
                            match crate::sem::p_prop_attrs(al, 0, Option::None, Option::None) {
                                Result::Ok((k, v)) => {
                                    match crate::sem::prop_result(k, v) {
                                        Result::Ok(p) => lemma_properties_bounds(
                                            evs,
                                            i + 1,
                                            acc.push(p),
                                            ps,
                                            j,
                                        ),
                                        Result::Err(_) => {},
                                    }
                                },
                                Result::Err(_) => {},
                            }
                        },
                        Result::Err(_) => {},
                    }
                } else {
                    lemma_properties_bounds(evs, i + 1, acc, ps, j);
                }
            },
            Event::Start(t) => {
                if t.name@ == "property"@ {
                    match crate::sem::attrs_of(t) {
                        Result::Ok(al) => {
                            match crate::sem::p_prop_attrs(al, 0, Option::None, Option::None) {
                                Result::Ok((k, v)) => {
                                    match p_prop_body(evs, i + 1, k, v) {
                                        Result::Ok((p, jj)) => {
                                            lemma_prop_body_bounds(evs, i + 1, k, v, p, jj);
                                            lemma_properties_bounds(
                                                evs,
                                                clip(jj, i, evs.len() as int),
                                                acc.push(p),
                                                ps,
                                                j,
                                            );
                                        },
                                        Result::Err(_) => {},
                                    }
                                },
                                Result::Err(_) => {},
                            }
                        },
                        Result::Err(_) => {},
                    }
                } else {
                    match p_skip(evs, i + 1, t.name@, 0) {
                        Result::Ok(kk) => {
                            lemma_skip_bounds(evs, i + 1, t.name@, 0, kk);
                            lemma_properties_bounds(evs, clip(kk, i, evs.len() as int), acc, ps, j);
                        },
                        Result::Err(_) => {},
                    }
                }
            },
            Event::Eof => {},
            Event::Bad(_) => {},
            _ => {
                lemma_properties_bounds(evs, i + 1, acc, ps, j);
            },
        }
    }
}

/// Draining a rerun body consumes at least one event and stays in bounds.
pub proof fn lemma_rerun_body_bounds(
    evs: Seq<Event>,
    i: int,
    name: Seq<char>,
    acc: RerunModel,
    l: RerunModel,
    j: int,
)
    requires
        p_rerun_body(evs, i, name, acc) == Result::<(RerunModel, int), ErrModel>::Ok((l, j)),
    ensures
        i < j <= evs.len(),
    decreases evs.len() - i,
{
    if 0 <= i < evs.len() {
        match evs[i] {
            Event::End(n) => {
                if n@ != name {
                    lemma_rerun_body_bounds(evs, i + 1, name, acc, l, j);
                }
            },
            Event::Text(raw) => {
                match crate::sem::text_value_spec(raw@) {
                    Result::Ok(u) => lemma_rerun_body_bounds(
                        evs,
                        i + 1,
                        name,
                        RerunModel { text: acc.text + crate::tok::trim_spec(u), ..acc },
                        l,
                        j,
                    ),
                    Result::Err(_) => {},
                }
            },
            Event::CData(raw) => {
                match crate::sem::cdata_value_spec(raw@) {
                    Result::Ok(u) => lemma_rerun_body_bounds(
                        evs,
                        i + 1,
                        name,
                        RerunModel { text: acc.text + u, ..acc },
                        l,
                        j,
                    ),
                    Result::Err(_) => {},
                }
            },
            Event::Start(t) => {
                if t.name@ == "system-out"@ {
                    match p_system(evs, i + 1, "system-out"@, Seq::empty()) {
                        Result::Ok((cc, jj)) => {
                            lemma_system_bounds(evs, i + 1, "system-out"@, Seq::empty(), cc, jj);
                            lemma_rerun_body_bounds(
                                evs,
                                clip(jj, i, evs.len() as int),
                                name,
                                RerunModel { system_out: join_output(acc.system_out, cc), ..acc },
                                l,
                                j,
                            );
                        },
                        Result::Err(_) => {},
                    }
                } else if t.name@ == "system-err"@ {
                    match p_system(evs, i + 1, "system-err"@, Seq::empty()) {
                        Result::Ok((cc, jj)) => {
                            lemma_system_bounds(evs, i + 1, "system-err"@, Seq::empty(), cc, jj);
                            lemma_rerun_body_bounds(
                                evs,
                                clip(jj, i, evs.len() as int),
                                name,
                                RerunModel { system_err: join_output(acc.system_err, cc), ..acc },
                                l,
                                j,
                            );
                        },
                        Result::Err(_) => {},
                    }
                } else if t.name@ == "stackTrace"@ {
                    match p_system(evs, i + 1, "stackTrace"@, Seq::empty()) {
                        Result::Ok((cc, jj)) => {
                            lemma_system_bounds(evs, i + 1, "stackTrace"@, Seq::empty(), cc, jj);
                            lemma_rerun_body_bounds(
                                evs,
                                clip(jj, i, evs.len() as int),
                                name,
                                RerunModel { stack_trace: Option::Some(cc), ..acc },
                                l,
                                j,
                            );
                        },
                        Result::Err(_) => {},
                    }
                } else {
                    match p_skip(evs, i + 1, t.name@, 0) {
                        Result::Ok(kk) => {
                            lemma_skip_bounds(evs, i + 1, t.name@, 0, kk);
                            lemma_rerun_body_bounds(
                                evs,
                                clip(kk, i, evs.len() as int),
                                name,
                                acc,
                                l,
                                j,
                            );
                        },
                        Result::Err(_) => {},
                    }
                }
            },
            Event::Eof => {},
            Event::Bad(_) => {},
            _ => {
                lemma_rerun_body_bounds(evs, i + 1, name, acc, l, j);
            },
        }
    }
}

/// Parsing a test case's children consumes at least one event and stays in
/// bounds.
pub proof fn lemma_case_children_bounds(
    evs: Seq<Event>,
    i: int,
    acc: CaseModel,
    c: CaseModel,
    j: int,
)
    requires
        p_case_children(evs, i, acc) == Result::<(CaseModel, int), ErrModel>::Ok((c, j)),
    ensures
        i < j <= evs.len(),
    decreases evs.len() - i,
{
    let n = evs.len() as int;
    if 0 <= i < evs.len() {
        match evs[i] {
            Event::End(nm) => {
                if nm@ != "testcase"@ {
                    lemma_case_children_bounds(evs, i + 1, acc, c, j);
                }
            },
            Event::Empty(t) => {
                if status_of(t.name@, crate::sem::empty_leaf_model()) is Some {
                    match crate::sem::attrs_of(t) {
                        Result::Ok(al) => {
                            match crate::sem::p_leaf_attrs(al, 0, crate::sem::empty_leaf_model()) {
                                Result::Ok(leaf) => lemma_case_children_bounds(
                                    evs,
                                    i + 1,
                                    CaseModel { status: status_of(t.name@, leaf)->0, ..acc },
                                    c,
                                    j,
                                ),
                                Result::Err(_) => {},
                            }
                        },
                        Result::Err(_) => {},
                    }
                } else if rerun_kind_of(t.name@) is Some {
                    match crate::sem::attrs_of(t) {
                        Result::Ok(al) => {
                            match crate::sem::p_rerun_attrs(
                                al,
                                0,
                                crate::sem::empty_rerun_model(rerun_kind_of(t.name@)->0),
                            ) {
                                Result::Ok(rr) => lemma_case_children_bounds(
                                    evs,
                                    i + 1,
                                    CaseModel { reruns: acc.reruns.push(rr), ..acc },
                                    c,
                                    j,
                                ),
                                Result::Err(_) => {},
                            }
                        },
                        Result::Err(_) => {},
                    }
                } else {
                    lemma_case_children_bounds(evs, i + 1, acc, c, j);
                }
            },
            Event::Start(t) => {
                if status_of(t.name@, crate::sem::empty_leaf_model()) is Some {
                    match crate::sem::attrs_of(t) {
                        Result::Ok(al) => {
                            match crate::sem::p_leaf_attrs(al, 0, crate::sem::empty_leaf_model()) {
                                Result::Ok(leaf0) => {
                                    match p_leaf_body(evs, i + 1, t.name@, leaf0) {
                                        Result::Ok((leaf, jj)) => {
                                            lemma_leaf_body_bounds(
                                                evs,
                                                i + 1,
                                                t.name@,
                                                leaf0,
                                                leaf,
                                                jj,
                                            );
                                            lemma_case_children_bounds(
                                                evs,
                                                clip(jj, i, n),
                                                CaseModel {
                                                    status: status_of(t.name@, leaf)->0,
                                                    ..acc
                                                },
                                                c,
                                                j,
                                            );
                                        },
                                        Result::Err(_) => {},
                                    }
                                },
                                Result::Err(_) => {},
                            }
                        },
                        Result::Err(_) => {},
                    }
                } else if rerun_kind_of(t.name@) is Some {
                    match crate::sem::attrs_of(t) {
                        Result::Ok(al) => {
                            match crate::sem::p_rerun_attrs(
                                al,
                                0,
                                crate::sem::empty_rerun_model(rerun_kind_of(t.name@)->0),
                            ) {
                                Result::Ok(rr0) => {
                                    match p_rerun_body(evs, i + 1, t.name@, rr0) {
                                        Result::Ok((rr, jj)) => {
                                            lemma_rerun_body_bounds(
                                                evs,
                                                i + 1,
                                                t.name@,
                                                rr0,
                                                rr,
                                                jj,
                                            );
                                            lemma_case_children_bounds(
                                                evs,
                                                clip(jj, i, n),
                                                CaseModel { reruns: acc.reruns.push(rr), ..acc },
                                                c,
                                                j,
                                            );
                                        },
                                        Result::Err(_) => {},
                                    }
                                },
                                Result::Err(_) => {},
                            }
                        },
                        Result::Err(_) => {},
                    }
                } else if t.name@ == "system-out"@ {
                    match p_system(evs, i + 1, "system-out"@, Seq::empty()) {
                        Result::Ok((cc, jj)) => {
                            lemma_system_bounds(evs, i + 1, "system-out"@, Seq::empty(), cc, jj);
                            lemma_case_children_bounds(
                                evs,
                                clip(jj, i, n),
                                CaseModel { system_out: join_output(acc.system_out, cc), ..acc },
                                c,
                                j,
                            );
                        },
                        Result::Err(_) => {},
                    }
                } else if t.name@ == "system-err"@ {
                    match p_system(evs, i + 1, "system-err"@, Seq::empty()) {
                        Result::Ok((cc, jj)) => {
                            lemma_system_bounds(evs, i + 1, "system-err"@, Seq::empty(), cc, jj);
                            lemma_case_children_bounds(
                                evs,
                                clip(jj, i, n),
                                CaseModel { system_err: join_output(acc.system_err, cc), ..acc },
                                c,
                                j,
                            );
                        },
                        Result::Err(_) => {},
                    }
                } else if t.name@ == "properties"@ {
                    match p_properties(evs, i + 1, Seq::empty()) {
                        Result::Ok((ps, jj)) => {
                            lemma_properties_bounds(evs, i + 1, Seq::empty(), ps, jj);
                            lemma_case_children_bounds(
                                evs,
                                clip(jj, i, n),
                                CaseModel { properties: ps, ..acc },
                                c,
                                j,
                            );
                        },
                        Result::Err(_) => {},
                    }
                } else {
                    match p_skip(evs, i + 1, t.name@, 0) {
                        Result::Ok(kk) => {
                            lemma_skip_bounds(evs, i + 1, t.name@, 0, kk);
                            lemma_case_children_bounds(evs, clip(kk, i, n), acc, c, j);
                        },
                        Result::Err(_) => {},
                    }
                }
            },
            Event::Eof => {},
            Event::Bad(_) => {},
            _ => {
                lemma_case_children_bounds(evs, i + 1, acc, c, j);
            },
        }
    }
}

/// Parsing a test suite's children consumes at least one event and stays in
/// bounds.
pub proof fn lemma_suite_children_bounds(
    evs: Seq<Event>,
    i: int,
    acc: SuiteModel,
    s: SuiteModel,
    j: int,
)
    requires
        p_suite_children(evs, i, acc) == Result::<(SuiteModel, int), ErrModel>::Ok((s, j)),
    ensures
        i < j <= evs.len(),
    decreases evs.len() - i,
{
    let n = evs.len() as int;
    if 0 <= i < evs.len() {
        match evs[i] {
            Event::End(nm) => {
                if nm@ != "testsuite"@ {
                    lemma_suite_children_bounds(evs, i + 1, acc, s, j);
                }
            },
            Event::Empty(t) => {
                if t.name@ == "testsuite"@ {
                    match p_suite_from_attrs(t) {
                        Result::Ok(child) => lemma_suite_children_bounds(
                            evs,
                            i + 1,
                            SuiteModel { suites: acc.suites.push(child), ..acc },
                            s,
                            j,
                        ),
                        Result::Err(_) => {},
                    }
                } else if t.name@ == "testcase"@ {
                    match crate::sem::p_case_from_attrs(t) {
                        Result::Ok(c) => lemma_suite_children_bounds(
                            evs,
                            i + 1,
                            SuiteModel { cases: acc.cases.push(c), ..acc },
                            s,
                            j,
                        ),
                        Result::Err(_) => {},
                    }
                } else {
                    lemma_suite_children_bounds(evs, i + 1, acc, s, j);
                }
            },
            Event::Start(t) => {
                if t.name@ == "testsuite"@ {
                    match p_suite_from_attrs(t) {
                        Result::Ok(child0) => {
                            match p_suite_children(evs, i + 1, child0) {
                                Result::Ok((child, jj)) => {
                                    lemma_suite_children_bounds(evs, i + 1, child0, child, jj);
                                    lemma_suite_children_bounds(
                                        evs,
                                        clip(jj, i, n),
                                        SuiteModel { suites: acc.suites.push(child), ..acc },
                                        s,
                                        j,
                                    );
                                },
                                Result::Err(_) => {},
                            }
                        },
                        Result::Err(_) => {},
                    }
                } else if t.name@ == "testcase"@ {
                    match crate::sem::p_case_from_attrs(t) {
                        Result::Ok(c0) => {
                            match p_case_children(evs, i + 1, c0) {
                                Result::Ok((c, jj)) => {
                                    lemma_case_children_bounds(evs, i + 1, c0, c, jj);
                                    lemma_suite_children_bounds(
                                        evs,
                                        clip(jj, i, n),
                                        SuiteModel { cases: acc.cases.push(c), ..acc },
                                        s,
                                        j,
                                    );
                                },
                                Result::Err(_) => {},
                            }
                        },
                        Result::Err(_) => {},
                    }
                } else if t.name@ == "system-out"@ {
                    match p_system(evs, i + 1, "system-out"@, Seq::empty()) {
                        Result::Ok((cc, jj)) => {
                            lemma_system_bounds(evs, i + 1, "system-out"@, Seq::empty(), cc, jj);
                            lemma_suite_children_bounds(
                                evs,
                                clip(jj, i, n),
                                SuiteModel { system_out: join_output(acc.system_out, cc), ..acc },
                                s,
                                j,
                            );
                        },
                        Result::Err(_) => {},
                    }
                } else if t.name@ == "system-err"@ {
                    match p_system(evs, i + 1, "system-err"@, Seq::empty()) {
                        Result::Ok((cc, jj)) => {
                            lemma_system_bounds(evs, i + 1, "system-err"@, Seq::empty(), cc, jj);
                            lemma_suite_children_bounds(
                                evs,
                                clip(jj, i, n),
                                SuiteModel { system_err: join_output(acc.system_err, cc), ..acc },
                                s,
                                j,
                            );
                        },
                        Result::Err(_) => {},
                    }
                } else if t.name@ == "properties"@ {
                    match p_properties(evs, i + 1, Seq::empty()) {
                        Result::Ok((ps, jj)) => {
                            lemma_properties_bounds(evs, i + 1, Seq::empty(), ps, jj);
                            lemma_suite_children_bounds(
                                evs,
                                clip(jj, i, n),
                                SuiteModel { properties: ps, ..acc },
                                s,
                                j,
                            );
                        },
                        Result::Err(_) => {},
                    }
                } else {
                    match p_skip(evs, i + 1, t.name@, 0) {
                        Result::Ok(kk) => {
                            lemma_skip_bounds(evs, i + 1, t.name@, 0, kk);
                            lemma_suite_children_bounds(evs, clip(kk, i, n), acc, s, j);
                        },
                        Result::Err(_) => {},
                    }
                }
            },
            Event::Eof => {},
            Event::Bad(_) => {},
            _ => {
                lemma_suite_children_bounds(evs, i + 1, acc, s, j);
            },
        }
    }
}

/// Parsing the root element's children consumes at least one event and
/// stays in bounds.
pub proof fn lemma_suites_children_bounds(
    evs: Seq<Event>,
    i: int,
    acc: SuitesModel,
    s: SuitesModel,
    j: int,
)
    requires
        p_suites_children(evs, i, acc) == Result::<(SuitesModel, int), ErrModel>::Ok((s, j)),
    ensures
        i < j <= evs.len(),
    decreases evs.len() - i,
{
    let n = evs.len() as int;
    if 0 <= i < evs.len() {
        match evs[i] {
            Event::End(nm) => {
                if nm@ != "testsuites"@ && nm@ != "testrun"@ {
                    lemma_suites_children_bounds(evs, i + 1, acc, s, j);
                }
            },
            Event::Empty(t) => {
                if t.name@ == "testsuite"@ {
                    match p_suite_from_attrs(t) {
                        Result::Ok(child) => lemma_suites_children_bounds(
                            evs,
                            i + 1,
                            SuitesModel { suites: acc.suites.push(child), ..acc },
                            s,
                            j,
                        ),
                        Result::Err(_) => {},
                    }
                } else {
                    lemma_suites_children_bounds(evs, i + 1, acc, s, j);
                }
            },
            Event::Start(t) => {
                if t.name@ == "testsuite"@ {
                    match p_suite_from_attrs(t) {
                        Result::Ok(s0) => {
                            match p_suite_children(evs, i + 1, s0) {
                                Result::Ok((child, jj)) => {
                                    lemma_suite_children_bounds(evs, i + 1, s0, child, jj);
                                    lemma_suites_children_bounds(
                                        evs,
                                        clip(jj, i, n),
                                        SuitesModel { suites: acc.suites.push(child), ..acc },
                                        s,
                                        j,
                                    );
                                },
                                Result::Err(_) => {},
                            }
                        },
                        Result::Err(_) => {},
                    }
                } else {
                    match p_skip(evs, i + 1, t.name@, 0) {
                        Result::Ok(kk) => {
                            lemma_skip_bounds(evs, i + 1, t.name@, 0, kk);
                            lemma_suites_children_bounds(evs, clip(kk, i, n), acc, s, j);
                        },
                        Result::Err(_) => {},
                    }
                }
            },
            Event::Eof => {},
            Event::Bad(_) => {},
            _ => {
                lemma_suites_children_bounds(evs, i + 1, acc, s, j);
            },
        }
    }
}

// ---------------------------------------------------------------------------
// Name derivation
// ---------------------------------------------------------------------------

/// Law (name derivation): with a class name the case reports
/// `classname::name`; otherwise with a group it reports `group::name`;
/// with neither, the original name unchanged. The class name always takes
/// precedence over the group.
pub proof fn lemma_name_derivation(
    classname: Option<Seq<char>>,
    group: Option<Seq<char>>,
    original: Seq<char>,
)
    ensures
        classname is Some ==> derived_name(classname, group, original) == classname->0 + "::"@
            + original,
        classname is None && group is Some ==> derived_name(classname, group, original)
            == group->0 + "::"@ + original,
        classname is None && group is None ==> derived_name(classname, group, original)
            == original,
{
}

// ---------------------------------------------------------------------------
// Status exclusivity
// ---------------------------------------------------------------------------

/// The element names that determine a test case's status.
pub open spec fn names_status(name: Seq<char>) -> bool {
    name == "error"@ || name == "failure"@ || name == "skipped"@
}

/// An event that opens a status-determining element.
pub open spec fn is_status_child_event(e: Event) -> bool {
    match e {
        Event::Start(t) => names_status(t.name@),
        Event::Empty(t) => names_status(t.name@),
        _ => false,
    }
}

/// Law (status exclusivity, stability): parsing a test case's children
/// over a span with no `failure`, `error` or `skipped` element anywhere in
/// it leaves the status exactly as it was; rerun and flaky children,
/// captured output, properties and unknown elements never change it.
pub proof fn lemma_status_preserved(evs: Seq<Event>, i: int, acc: CaseModel, c: CaseModel, j: int)
    requires
        p_case_children(evs, i, acc) == Result::<(CaseModel, int), ErrModel>::Ok((c, j)),
        forall|k: int| i <= k < j ==> !is_status_child_event(#[trigger] evs[k]),
    ensures
        c.status == acc.status,
    decreases evs.len() - i,
{
    let n = evs.len() as int;
    lemma_case_children_bounds(evs, i, acc, c, j);
    if 0 <= i < evs.len() {
        match evs[i] {
            Event::End(nm) => {
                if nm@ != "testcase"@ {
                    lemma_status_preserved(evs, i + 1, acc, c, j);
                }
            },
            Event::Empty(t) => {
                assert(!is_status_child_event(evs[i]));
                if rerun_kind_of(t.name@) is Some {
                    match crate::sem::attrs_of(t) {
                        Result::Ok(al) => {
                            match crate::sem::p_rerun_attrs(
                                al,
                                0,
                                crate::sem::empty_rerun_model(rerun_kind_of(t.name@)->0),
                            ) {
                                Result::Ok(rr) => lemma_status_preserved(
                                    evs,
                                    i + 1,
                                    CaseModel { reruns: acc.reruns.push(rr), ..acc },
                                    c,
                                    j,
                                ),
                                Result::Err(_) => {},
                            }
                        },
                        Result::Err(_) => {},
                    }
                } else {
                    lemma_status_preserved(evs, i + 1, acc, c, j);
                }
            },
            Event::Start(t) => {
                assert(!is_status_child_event(evs[i]));
                if rerun_kind_of(t.name@) is Some {
                    match crate::sem::attrs_of(t) {
                        Result::Ok(al) => {
                            match crate::sem::p_rerun_attrs(
                                al,
                                0,
                                crate::sem::empty_rerun_model(rerun_kind_of(t.name@)->0),
                            ) {
                                Result::Ok(rr0) => {
                                    match p_rerun_body(evs, i + 1, t.name@, rr0) {
                                        Result::Ok((rr, jj)) => {
                                            lemma_rerun_body_bounds(
                                                evs,
                                                i + 1,
                                                t.name@,
                                                rr0,
                                                rr,
                                                jj,
                                            );
                                            lemma_status_preserved(
                                                evs,
                                                clip(jj, i, n),
                                                CaseModel { reruns: acc.reruns.push(rr), ..acc },
                                                c,
                                                j,
                                            );
                                        },
                                        Result::Err(_) => {},
                                    }
                                },
                                Result::Err(_) => {},
                            }
                        },
                        Result::Err(_) => {},
                    }
                } else if t.name@ == "system-out"@ {
                    match p_system(evs, i + 1, "system-out"@, Seq::empty()) {
                        Result::Ok((cc, jj)) => {
                            lemma_system_bounds(evs, i + 1, "system-out"@, Seq::empty(), cc, jj);
                            lemma_status_preserved(
                                evs,
                                clip(jj, i, n),
                                CaseModel { system_out: join_output(acc.system_out, cc), ..acc },
                                c,
                                j,
                            );
                        },
                        Result::Err(_) => {},
                    }
                } else if t.name@ == "system-err"@ {
                    match p_system(evs, i + 1, "system-err"@, Seq::empty()) {
                        Result::Ok((cc, jj)) => {
                            lemma_system_bounds(evs, i + 1, "system-err"@, Seq::empty(), cc, jj);
                            lemma_status_preserved(
                                evs,
                                clip(jj, i, n),
                                CaseModel { system_err: join_output(acc.system_err, cc), ..acc },
                                c,
                                j,
                            );
                        },
                        Result::Err(_) => {},
                    }
                } else if t.name@ == "properties"@ {
                    match p_properties(evs, i + 1, Seq::empty()) {
                        Result::Ok((ps, jj)) => {
                            lemma_properties_bounds(evs, i + 1, Seq::empty(), ps, jj);
                            lemma_status_preserved(
                                evs,
                                clip(jj, i, n),
                                CaseModel { properties: ps, ..acc },
                                c,
                                j,
                            );
                        },
                        Result::Err(_) => {},
                    }
                } else {
                    match p_skip(evs, i + 1, t.name@, 0) {
                        Result::Ok(kk) => {
                            lemma_skip_bounds(evs, i + 1, t.name@, 0, kk);
                            lemma_status_preserved(evs, clip(kk, i, n), acc, c, j);
                        },
                        Result::Err(_) => {},
                    }
                }
            },
            Event::Eof => {},
            Event::Bad(_) => {},
            _ => {
                lemma_status_preserved(evs, i + 1, acc, c, j);
            },
        }
    }
}

/// Folding a test case's attributes never touches its status.
pub proof fn lemma_case_attrs_keep_status(
    attrs: Seq<(String, Vec<u8>)>,
    i: int,
    acc: CaseModel,
    c: CaseModel,
)
    requires
        crate::sem::p_case_attrs(attrs, i, acc) == Result::<CaseModel, ErrModel>::Ok(c),
    ensures
        c.status == acc.status,
    decreases attrs.len() - i,
{
    if 0 <= i < attrs.len() {
        let key = attrs[i].0@;
        let raw = attrs[i].1@;
        if key == "time"@ {
            if crate::sem::coerce_f64_spec(raw) is Ok {
                lemma_case_attrs_keep_status(
                    attrs,
                    i + 1,
                    CaseModel { time: crate::sem::coerce_f64_spec(raw)->Ok_0, ..acc },
                    c,
                );
            }
        } else if key == "name"@ {
            if crate::sem::coerce_string_spec(raw) is Ok {
                lemma_case_attrs_keep_status(
                    attrs,
                    i + 1,
                    CaseModel { original_name: crate::sem::coerce_string_spec(raw)->Ok_0, ..acc },
                    c,
                );
            }
        } else if key == "classname"@ {
            if crate::sem::coerce_string_spec(raw) is Ok {
                lemma_case_attrs_keep_status(
                    attrs,
                    i + 1,
                    CaseModel {
                        classname: Option::Some(crate::sem::coerce_string_spec(raw)->Ok_0),
                        ..acc
                    },
                    c,
                );
            }
        } else if key == "group"@ {
            if crate::sem::coerce_string_spec(raw) is Ok {
                lemma_case_attrs_keep_status(
                    attrs,
                    i + 1,
                    CaseModel {
                        group: Option::Some(crate::sem::coerce_string_spec(raw)->Ok_0),
                        ..acc
                    },
                    c,
                );
            }
        } else if key == "file"@ {
            if crate::sem::coerce_string_spec(raw) is Ok {
                lemma_case_attrs_keep_status(
                    attrs,
                    i + 1,
                    CaseModel {
                        file: Option::Some(crate::sem::coerce_string_spec(raw)->Ok_0),
                        ..acc
                    },
                    c,
                );
            }
        } else if key == "line"@ {
            if crate::sem::coerce_u64_spec(raw) is Ok {
                lemma_case_attrs_keep_status(
                    attrs,
                    i + 1,
                    CaseModel {
                        line: Option::Some(crate::sem::coerce_u64_spec(raw)->Ok_0),
                        ..acc
                    },
                    c,
                );
            }
        } else if key == "timestamp"@ {
            if crate::sem::coerce_string_spec(raw) is Ok {
                lemma_case_attrs_keep_status(
                    attrs,
                    i + 1,
                    CaseModel {
                        timestamp: Option::Some(crate::sem::coerce_string_spec(raw)->Ok_0),
                        ..acc
                    },
                    c,
                );
            }
        } else {
            lemma_case_attrs_keep_status(attrs, i + 1, acc, c);
        }
    }
}

/// Law (status exclusivity): a test case none of whose children — nested
/// content included — is a `failure`, `error` or `skipped` element reports
/// success, whatever else it holds: reruns, flaky results, output,
/// properties, unknown elements.
pub proof fn lemma_case_without_status_child_is_success(
    evs: Seq<Event>,
    i: int,
    tag: ElemTag,
    c0: CaseModel,
    c: CaseModel,
    j: int,
)
    requires
        crate::sem::p_case_from_attrs(tag) == Result::<CaseModel, ErrModel>::Ok(c0),
        p_case_children(evs, i, c0) == Result::<(CaseModel, int), ErrModel>::Ok((c, j)),
        forall|k: int| i <= k < j ==> !is_status_child_event(#[trigger] evs[k]),
    ensures
        c.status is Success,
{
    match crate::sem::attrs_of(tag) {
        Result::Ok(al) => {
            match crate::sem::p_case_attrs(al, 0, crate::sem::empty_case_model()) {
                Result::Ok(c1) => {
                    lemma_case_attrs_keep_status(al, 0, crate::sem::empty_case_model(), c1);
                },
                Result::Err(_) => {},
            }
        },
        Result::Err(_) => {},
    }
    lemma_status_preserved(evs, i, c0, c, j);
}

/// Law (status exclusivity, last child wins): a self-closing status child
/// sets the status to its own kind and fields; when no status child
/// follows it, that is the status the case reports.
pub proof fn lemma_last_status_child_wins(
    evs: Seq<Event>,
    i: int,
    t: ElemTag,
    leaf: crate::model::LeafModel,
    acc: CaseModel,
    c: CaseModel,
    j: int,
)
    requires
        0 <= i < evs.len(),
        evs[i] == Event::Empty(t),
        names_status(t.name@),
        crate::sem::attrs_of(t) is Ok,
        crate::sem::p_leaf_attrs(crate::sem::attrs_of(t)->Ok_0, 0, crate::sem::empty_leaf_model())
            == Result::<crate::model::LeafModel, ErrModel>::Ok(leaf),
        p_case_children(evs, i, acc) == Result::<(CaseModel, int), ErrModel>::Ok((c, j)),
        forall|k: int| i + 1 <= k < j ==> !is_status_child_event(#[trigger] evs[k]),
    ensures
        c.status == status_of(t.name@, leaf)->0,
{
    lemma_status_preserved(
        evs,
        i + 1,
        CaseModel { status: status_of(t.name@, leaf)->0, ..acc },
        c,
        j,
    );
}

/// Law (status exclusivity, last child wins): a status child with a body
/// sets the status to its parsed kind and fields; when no status child
/// follows its subtree, that is the status the case reports.
pub proof fn lemma_last_status_child_with_body_wins(
    evs: Seq<Event>,
    i: int,
    t: ElemTag,
    leaf0: LeafModel,
    leaf: LeafModel,
    m: int,
    acc: CaseModel,
    c: CaseModel,
    j: int,
)
    requires
        0 <= i < evs.len(),
        evs[i] == Event::Start(t),
        names_status(t.name@),
        crate::sem::attrs_of(t) is Ok,
        crate::sem::p_leaf_attrs(crate::sem::attrs_of(t)->Ok_0, 0, crate::sem::empty_leaf_model())
            == Result::<LeafModel, ErrModel>::Ok(leaf0),
        p_leaf_body(evs, i + 1, t.name@, leaf0) == Result::<(LeafModel, int), ErrModel>::Ok(
            (leaf, m),
        ),
        p_case_children(evs, i, acc) == Result::<(CaseModel, int), ErrModel>::Ok((c, j)),
        forall|k: int| m <= k < j ==> !is_status_child_event(#[trigger] evs[k]),
    ensures
        c.status == status_of(t.name@, leaf)->0,
{
    lemma_leaf_body_bounds(evs, i + 1, t.name@, leaf0, leaf, m);
    lemma_status_preserved(
        evs,
        m,
        CaseModel { status: status_of(t.name@, leaf)->0, ..acc },
        c,
        j,
    );
}

// ---------------------------------------------------------------------------
// Unknown-element tolerance
// ---------------------------------------------------------------------------

/// Law (unknown-element tolerance): a self-closing unrecognized element
/// among a test case's children contributes nothing: the parse continues
/// exactly as it would from the next event.
pub proof fn lemma_unknown_empty_in_case(evs: Seq<Event>, i: int, t: ElemTag, acc: CaseModel)
    requires
        0 <= i < evs.len(),
        evs[i] == Event::Empty(t),
        status_of(t.name@, crate::sem::empty_leaf_model()) is None,
        rerun_kind_of(t.name@) is None,
    ensures
        p_case_children(evs, i, acc) == p_case_children(evs, i + 1, acc),
{
}

/// Law (unknown-element tolerance): an unrecognized element with a body
/// among a test case's children is consumed whole and contributes nothing:
/// the parse continues exactly as it would from past its subtree.
pub proof fn lemma_unknown_start_in_case(
    evs: Seq<Event>,
    i: int,
    t: ElemTag,
    acc: CaseModel,
    j: int,
)
    requires
        0 <= i < evs.len(),
        evs[i] == Event::Start(t),
        status_of(t.name@, crate::sem::empty_leaf_model()) is None,
        rerun_kind_of(t.name@) is None,
        t.name@ != "system-out"@,
        t.name@ != "system-err"@,
        t.name@ != "properties"@,
        p_skip(evs, i + 1, t.name@, 0) == Result::<int, ErrModel>::Ok(j),
    ensures
        p_case_children(evs, i, acc) == p_case_children(evs, j, acc),
{
    lemma_skip_bounds(evs, i + 1, t.name@, 0, j);
}

/// Law (unknown-element tolerance): a self-closing unrecognized element
/// among a test suite's children contributes nothing.
pub proof fn lemma_unknown_empty_in_suite(evs: Seq<Event>, i: int, t: ElemTag, acc: SuiteModel)
    requires
        0 <= i < evs.len(),
        evs[i] == Event::Empty(t),
        t.name@ != "testsuite"@,
        t.name@ != "testcase"@,
    ensures
        p_suite_children(evs, i, acc) == p_suite_children(evs, i + 1, acc),
{
}

/// Law (unknown-element tolerance): an unrecognized element with a body
/// among a test suite's children is consumed whole and contributes nothing.
pub proof fn lemma_unknown_start_in_suite(
    evs: Seq<Event>,
    i: int,
    t: ElemTag,
    acc: SuiteModel,
    j: int,
)
    requires
        0 <= i < evs.len(),
        evs[i] == Event::Start(t),
        t.name@ != "testsuite"@,
        t.name@ != "testcase"@,
        t.name@ != "system-out"@,
        t.name@ != "system-err"@,
        t.name@ != "properties"@,
        p_skip(evs, i + 1, t.name@, 0) == Result::<int, ErrModel>::Ok(j),
    ensures
        p_suite_children(evs, i, acc) == p_suite_children(evs, j, acc),
{
    lemma_skip_bounds(evs, i + 1, t.name@, 0, j);
}

/// Law (unknown-element tolerance): a self-closing unrecognized element
/// among the root's children contributes nothing.
pub proof fn lemma_unknown_empty_in_suites(evs: Seq<Event>, i: int, t: ElemTag, acc: SuitesModel)
    requires
        0 <= i < evs.len(),
        evs[i] == Event::Empty(t),
        t.name@ != "testsuite"@,
    ensures
        p_suites_children(evs, i, acc) == p_suites_children(evs, i + 1, acc),
{
}

/// Law (unknown-element tolerance): an unrecognized element with a body
/// among the root's children is consumed whole and contributes nothing.
pub proof fn lemma_unknown_start_in_suites(
    evs: Seq<Event>,
    i: int,
    t: ElemTag,
    acc: SuitesModel,
    j: int,
)
    requires
        0 <= i < evs.len(),
        evs[i] == Event::Start(t),
        t.name@ != "testsuite"@,
        p_skip(evs, i + 1, t.name@, 0) == Result::<int, ErrModel>::Ok(j),
    ensures
        p_suites_children(evs, i, acc) == p_suites_children(evs, j, acc),
{
    lemma_skip_bounds(evs, i + 1, t.name@, 0, j);
}

/// Law (unknown-element tolerance): a self-closing unrecognized element
/// among a `properties` body's children contributes nothing.
pub proof fn lemma_unknown_empty_in_properties(
    evs: Seq<Event>,
    i: int,
    t: ElemTag,
    acc: Seq<(Seq<char>, Seq<char>)>,
)
    requires
        0 <= i < evs.len(),
        evs[i] == Event::Empty(t),
        t.name@ != "property"@,
    ensures
        p_properties(evs, i, acc) == p_properties(evs, i + 1, acc),
{
}

/// Law (unknown-element tolerance): an unrecognized element with a body
/// among a `properties` body's children is consumed whole and contributes
/// nothing.
pub proof fn lemma_unknown_start_in_properties(
    evs: Seq<Event>,
    i: int,
    t: ElemTag,
    acc: Seq<(Seq<char>, Seq<char>)>,
    j: int,
)
    requires
        0 <= i < evs.len(),
        evs[i] == Event::Start(t),
        t.name@ != "property"@,
        p_skip(evs, i + 1, t.name@, 0) == Result::<int, ErrModel>::Ok(j),
    ensures
        p_properties(evs, i, acc) == p_properties(evs, j, acc),
{
    lemma_skip_bounds(evs, i + 1, t.name@, 0, j);
}

/// Law (unknown-element tolerance): an unrecognized element before the
/// root, self-closing, is passed over.
pub proof fn lemma_unknown_empty_before_root(evs: Seq<Event>, i: int, t: ElemTag)
    requires
        0 <= i < evs.len(),
        evs[i] == Event::Empty(t),
        t.name@ != "testsuites"@,
        t.name@ != "testrun"@,
        t.name@ != "testsuite"@,
    ensures
        p_root(evs, i) == p_root(evs, i + 1),
{
}

/// Law (unknown-element tolerance): an unrecognized element before the
/// root, with a body, is consumed whole and passed over.
pub proof fn lemma_unknown_start_before_root(evs: Seq<Event>, i: int, t: ElemTag, j: int)
    requires
        0 <= i < evs.len(),
        evs[i] == Event::Start(t),
        t.name@ != "testsuites"@,
        t.name@ != "testrun"@,
        t.name@ != "testsuite"@,
        p_skip(evs, i + 1, t.name@, 0) == Result::<int, ErrModel>::Ok(j),
    ensures
        p_root(evs, i) == p_root(evs, j),
{
    lemma_skip_bounds(evs, i + 1, t.name@, 0, j);
}

// ---------------------------------------------------------------------------
// Output multiplicity
// ---------------------------------------------------------------------------

/// Law (output multiplicity): the first captured output block stands
/// alone; every later block is joined on with a newline in between.
pub proof fn lemma_output_joining(prev: Option<Seq<char>>, add: Seq<char>)
    ensures
        prev is None ==> join_output(prev, add) == Option::Some(add),
        prev == Option::Some(Seq::<char>::empty()) ==> join_output(prev, add) == Option::Some(add),
        prev is Some && prev->0.len() > 0 ==> join_output(prev, add) == Option::Some(
            prev->0 + "\n"@ + add,
        ),
{
}

/// Law (output multiplicity): each `system-out` child of a test case joins
/// its content onto what earlier occurrences captured; a self-closing one
/// is covered by [`lemma_unknown_empty_in_case`] and leaves the field
/// untouched.
pub proof fn lemma_case_system_out_step(
    evs: Seq<Event>,
    i: int,
    t: ElemTag,
    acc: CaseModel,
    cc: Seq<char>,
    jj: int,
)
    requires
        0 <= i < evs.len(),
        evs[i] == Event::Start(t),
        t.name@ == "system-out"@,
        p_system(evs, i + 1, "system-out"@, Seq::empty()) == Result::<
            (Seq<char>, int),
            ErrModel,
        >::Ok((cc, jj)),
    ensures
        p_case_children(evs, i, acc) == p_case_children(
            evs,
            jj,
            CaseModel { system_out: join_output(acc.system_out, cc), ..acc },
        ),
{
    reveal_strlit("system-out");
    reveal_strlit("error");
    reveal_strlit("failure");
    reveal_strlit("skipped");
    reveal_strlit("flakyFailure");
    reveal_strlit("flakyError");
    reveal_strlit("rerunFailure");
    reveal_strlit("rerunError");
    assert("system-out"@.len() == 10);
    assert("error"@.len() == 5);
    assert("failure"@.len() == 7);
    assert("skipped"@.len() == 7);
    assert("flakyFailure"@.len() == 12);
    assert("rerunFailure"@.len() == 12);
    assert("flakyError"@.len() == 10);
    assert("rerunError"@.len() == 10);
    assert("system-out"@[0] == 's' && "flakyError"@[0] == 'f' && "rerunError"@[0] == 'r');
    lemma_system_bounds(evs, i + 1, "system-out"@, Seq::empty(), cc, jj);
}

/// Law (output multiplicity): each `system-out` child of a test suite
/// joins its content onto what earlier occurrences captured, exactly as
/// under a test case; a self-closing one is covered by
/// [`lemma_unknown_empty_in_suite`] and leaves the field untouched.
pub proof fn lemma_suite_system_out_step(
    evs: Seq<Event>,
    i: int,
    t: ElemTag,
    acc: SuiteModel,
    cc: Seq<char>,
    jj: int,
)
    requires
        0 <= i < evs.len(),
        evs[i] == Event::Start(t),
        t.name@ == "system-out"@,
        p_system(evs, i + 1, "system-out"@, Seq::empty()) == Result::<
            (Seq<char>, int),
            ErrModel,
        >::Ok((cc, jj)),
    ensures
        p_suite_children(evs, i, acc) == p_suite_children(
            evs,
            jj,
            SuiteModel { system_out: join_output(acc.system_out, cc), ..acc },
        ),
{
    reveal_strlit("system-out");
    reveal_strlit("testsuite");
    reveal_strlit("testcase");
    assert("system-out"@.len() == 10);
    assert("testsuite"@.len() == 9);
    assert("testcase"@.len() == 8);
    lemma_system_bounds(evs, i + 1, "system-out"@, Seq::empty(), cc, jj);
}

// ---------------------------------------------------------------------------
// Nested suites
// ---------------------------------------------------------------------------

/// Law (nested suites): a `testsuite` child of a test suite is parsed
/// recursively as a full suite of its own and appended to the parent's
/// nested suites; its own cases never join the parent's cases.
pub proof fn lemma_nested_suite_step(
    evs: Seq<Event>,
    i: int,
    t: ElemTag,
    acc: SuiteModel,
    child0: SuiteModel,
    child: SuiteModel,
    jj: int,
)
    requires
        0 <= i < evs.len(),
        evs[i] == Event::Start(t),
        t.name@ == "testsuite"@,
        p_suite_from_attrs(t) == Result::<SuiteModel, ErrModel>::Ok(child0),
        p_suite_children(evs, i + 1, child0) == Result::<(SuiteModel, int), ErrModel>::Ok(
            (child, jj),
        ),
    ensures
        p_suite_children(evs, i, acc) == p_suite_children(
            evs,
            jj,
            SuiteModel { suites: acc.suites.push(child), ..acc },
        ),
{
    lemma_suite_children_bounds(evs, i + 1, child0, child, jj);
}

// ---------------------------------------------------------------------------
// Root shapes
// ---------------------------------------------------------------------------

/// Law (root shapes): a self-closing `testsuites` or `testrun` root yields
/// the report carrying that element's attributes and no suites.
pub proof fn lemma_root_wrapper_empty(evs: Seq<Event>, i: int, t: ElemTag)
    requires
        0 <= i < evs.len(),
        evs[i] == Event::Empty(t),
        t.name@ == "testsuites"@ || t.name@ == "testrun"@,
    ensures
        p_root(evs, i) == p_suites_from_attrs(t),
{
}

/// Law (root shapes): a `testsuites` or `testrun` root with a body is the
/// wrapper whose parsed children become the report.
pub proof fn lemma_root_wrapper_start(
    evs: Seq<Event>,
    i: int,
    t: ElemTag,
    acc: SuitesModel,
    m: SuitesModel,
    jj: int,
)
    requires
        0 <= i < evs.len(),
        evs[i] == Event::Start(t),
        t.name@ == "testsuites"@ || t.name@ == "testrun"@,
        p_suites_from_attrs(t) == Result::<SuitesModel, ErrModel>::Ok(acc),
        p_suites_children(evs, i + 1, acc) == Result::<(SuitesModel, int), ErrModel>::Ok((m, jj)),
    ensures
        p_root(evs, i) == Result::<SuitesModel, ErrModel>::Ok(m),
{
}

/// Law (root shapes): a bare self-closing `testsuite` root parses as that
/// one suite wrapped alone in a synthesized report root with default
/// fields.
pub proof fn lemma_root_bare_suite_empty(evs: Seq<Event>, i: int, t: ElemTag, s: SuiteModel)
    requires
        0 <= i < evs.len(),
        evs[i] == Event::Empty(t),
        t.name@ == "testsuite"@,
        p_suite_from_attrs(t) == Result::<SuiteModel, ErrModel>::Ok(s),
    ensures
        p_root(evs, i) == Result::<SuitesModel, ErrModel>::Ok(wrap_single_suite(s)),
{
    reveal_strlit("testsuite");
    reveal_strlit("testsuites");
    reveal_strlit("testrun");
    assert("testsuite"@.len() == 9);
    assert("testsuites"@.len() == 10);
    assert("testsuite"@ != "testsuites"@);
    assert("testsuite"@ != "testrun"@);
}

/// Law (root shapes): a bare `testsuite` root with a body parses as that
/// one suite, children included, wrapped alone in a synthesized report
/// root with default fields.
pub proof fn lemma_root_bare_suite_start(
    evs: Seq<Event>,
    i: int,
    t: ElemTag,
    s0: SuiteModel,
    s: SuiteModel,
    jj: int,
)
    requires
        0 <= i < evs.len(),
        evs[i] == Event::Start(t),
        t.name@ == "testsuite"@,
        p_suite_from_attrs(t) == Result::<SuiteModel, ErrModel>::Ok(s0),
        p_suite_children(evs, i + 1, s0) == Result::<(SuiteModel, int), ErrModel>::Ok((s, jj)),
    ensures
        p_root(evs, i) == Result::<SuitesModel, ErrModel>::Ok(wrap_single_suite(s)),
{
    reveal_strlit("testsuite");
    reveal_strlit("testsuites");
    reveal_strlit("testrun");
    assert("testsuite"@.len() == 9);
    assert("testsuites"@.len() == 10);
    assert("testrun"@.len() == 7);
    lemma_suite_children_bounds(evs, i + 1, s0, s, jj);
}

// ---------------------------------------------------------------------------
// CDATA and text equivalence
// ---------------------------------------------------------------------------

/// Skipping reads only the events from `i` on: two documents of one length
/// that agree there are skipped alike.
pub proof fn lemma_skip_congruent(
    evs1: Seq<Event>,
    evs2: Seq<Event>,
    i: int,
    name: Seq<char>,
    depth: int,
)
    requires
        evs1.len() == evs2.len(),
        forall|k: int| i <= k < evs1.len() ==> evs1[k] == #[trigger] evs2[k],
    ensures
        p_skip(evs1, i, name, depth) == p_skip(evs2, i, name, depth),
    decreases evs1.len() - i,
{
    if 0 <= i < evs1.len() {
        assert(evs1[i] == evs2[i]);
        match evs1[i] {
            Event::Start(t) => {
                if t.name@ == name {
                    lemma_skip_congruent(evs1, evs2, i + 1, name, depth + 1);
                } else {
                    lemma_skip_congruent(evs1, evs2, i + 1, name, depth);
                }
            },
            Event::End(n) => {
                if n@ == name {
                    if depth != 0 {
                        lemma_skip_congruent(evs1, evs2, i + 1, name, depth - 1);
                    }
                } else {
                    lemma_skip_congruent(evs1, evs2, i + 1, name, depth);
                }
            },
            Event::Eof => {},
            Event::Bad(_) => {},
            _ => {
                lemma_skip_congruent(evs1, evs2, i + 1, name, depth);
            },
        }
    }
}

/// An output body reads only the events from `i` on: two documents of one
/// length that agree there drain alike.
pub proof fn lemma_system_congruent(
    evs1: Seq<Event>,
    evs2: Seq<Event>,
    i: int,
    name: Seq<char>,
    acc: Seq<char>,
)
    requires
        evs1.len() == evs2.len(),
        forall|k: int| i <= k < evs1.len() ==> evs1[k] == #[trigger] evs2[k],
    ensures
        p_system(evs1, i, name, acc) == p_system(evs2, i, name, acc),
    decreases evs1.len() - i,
{
    let n = evs1.len() as int;
    if 0 <= i < evs1.len() {
        assert(evs1[i] == evs2[i]);
        match evs1[i] {
            Event::End(nm) => {
                if nm@ != name {
                    lemma_system_congruent(evs1, evs2, i + 1, name, acc);
                }
            },
            Event::Text(raw) => {
                if crate::sem::text_value_spec(raw@) is Ok {
                    lemma_system_congruent(
                        evs1,
                        evs2,
                        i + 1,
                        name,
                        acc + crate::sem::text_value_spec(raw@)->Ok_0,
                    );
                }
            },
            Event::CData(raw) => {
                if crate::sem::cdata_value_spec(raw@) is Ok {
                    lemma_system_congruent(
                        evs1,
                        evs2,
                        i + 1,
                        name,
                        acc + crate::sem::cdata_value_spec(raw@)->Ok_0,
                    );
                }
            },
            Event::Start(t) => {
                lemma_skip_congruent(evs1, evs2, i + 1, t.name@, 0);
                if p_skip(evs1, i + 1, t.name@, 0) is Ok {
                    let k = p_skip(evs1, i + 1, t.name@, 0)->Ok_0;
                    lemma_system_congruent(evs1, evs2, clip(k, i, n), name, acc);
                }
            },
            Event::Eof => {},
            Event::Bad(_) => {},
            _ => {
                lemma_system_congruent(evs1, evs2, i + 1, name, acc);
            },
        }
    }
}

/// A leaf body reads only the events from `i` on: two documents of one
/// length that agree there drain alike.
pub proof fn lemma_leaf_body_congruent(
    evs1: Seq<Event>,
    evs2: Seq<Event>,
    i: int,
    name: Seq<char>,
    acc: LeafModel,
)
    requires
        evs1.len() == evs2.len(),
        forall|k: int| i <= k < evs1.len() ==> evs1[k] == #[trigger] evs2[k],
    ensures
        p_leaf_body(evs1, i, name, acc) == p_leaf_body(evs2, i, name, acc),
    decreases evs1.len() - i,
{
    let n = evs1.len() as int;
    if 0 <= i < evs1.len() {
        assert(evs1[i] == evs2[i]);
        match evs1[i] {
            Event::End(nm) => {
                if nm@ != name {
                    lemma_leaf_body_congruent(evs1, evs2, i + 1, name, acc);
                }
            },
            Event::Text(raw) => {
                if crate::sem::text_value_spec(raw@) is Ok {
                    lemma_leaf_body_congruent(
                        evs1,
                        evs2,
                        i + 1,
                        name,
                        LeafModel {
                            text: crate::tok::trim_spec(crate::sem::text_value_spec(raw@)->Ok_0),
                            ..acc
                        },
                    );
                }
            },
            Event::CData(raw) => {
                if crate::sem::cdata_value_spec(raw@) is Ok {
                    lemma_leaf_body_congruent(
                        evs1,
                        evs2,
                        i + 1,
                        name,
                        LeafModel { text: crate::sem::cdata_value_spec(raw@)->Ok_0, ..acc },
                    );
                }
            },
            Event::Start(t) => {
                lemma_skip_congruent(evs1, evs2, i + 1, t.name@, 0);
                if p_skip(evs1, i + 1, t.name@, 0) is Ok {
                    let k = p_skip(evs1, i + 1, t.name@, 0)->Ok_0;
                    lemma_leaf_body_congruent(evs1, evs2, clip(k, i, n), name, acc);
                }
            },
            Event::Eof => {},
            Event::Bad(_) => {},
            _ => {
                lemma_leaf_body_congruent(evs1, evs2, i + 1, name, acc);
            },
        }
    }
}

/// Law (CDATA and text equivalence): a `failure`, `error` or `skipped`
/// body segment given as escaped text, or as a CDATA block whose decoded
/// content equals that text's trimmed value, yields the same leaf when the
/// documents differ in nothing else. The trimming itself is the one
/// asymmetry: text is trimmed, CDATA is kept verbatim.
pub proof fn lemma_leaf_text_cdata_equivalent(
    evs1: Seq<Event>,
    evs2: Seq<Event>,
    i: int,
    name: Seq<char>,
    acc: LeafModel,
    r1: Vec<u8>,
    r2: Vec<u8>,
)
    requires
        evs1.len() == evs2.len(),
        forall|k: int| i < k < evs1.len() ==> evs1[k] == #[trigger] evs2[k],
        0 <= i < evs1.len(),
        evs1[i] == Event::Text(r1),
        evs2[i] == Event::CData(r2),
        crate::sem::text_value_spec(r1@) is Ok,
        crate::sem::cdata_value_spec(r2@) is Ok,
        crate::tok::trim_spec(crate::sem::text_value_spec(r1@)->Ok_0)
            == crate::sem::cdata_value_spec(r2@)->Ok_0,
    ensures
        p_leaf_body(evs1, i, name, acc) == p_leaf_body(evs2, i, name, acc),
{
    lemma_leaf_body_congruent(
        evs1,
        evs2,
        i + 1,
        name,
        LeafModel {
            text: crate::tok::trim_spec(crate::sem::text_value_spec(r1@)->Ok_0),
            ..acc
        },
    );
}

/// Law (CDATA and text equivalence): a `system-out` or `system-err` body
/// segment given as escaped text, or as a CDATA block with the same decoded
/// content, contributes the same output when the documents differ in
/// nothing else; no trimming applies to either here.
pub proof fn lemma_system_text_cdata_equivalent(
    evs1: Seq<Event>,
    evs2: Seq<Event>,
    i: int,
    name: Seq<char>,
    acc: Seq<char>,
    r1: Vec<u8>,
    r2: Vec<u8>,
)
    requires
        evs1.len() == evs2.len(),
        forall|k: int| i < k < evs1.len() ==> evs1[k] == #[trigger] evs2[k],
        0 <= i < evs1.len(),
        evs1[i] == Event::Text(r1),
        evs2[i] == Event::CData(r2),
        crate::sem::text_value_spec(r1@) is Ok,
        crate::sem::cdata_value_spec(r2@) is Ok,
        crate::sem::text_value_spec(r1@)->Ok_0 == crate::sem::cdata_value_spec(r2@)->Ok_0,
    ensures
        p_system(evs1, i, name, acc) == p_system(evs2, i, name, acc),
{
    lemma_system_congruent(
        evs1,
        evs2,
        i + 1,
        name,
        acc + crate::sem::text_value_spec(r1@)->Ok_0,
    );
}

// ---------------------------------------------------------------------------
// Numeric coercion
// ---------------------------------------------------------------------------

/// Law (numeric coercion): an integer attribute whose value decodes to the
/// empty string coerces to zero; a non-empty value that is no unsigned
/// decimal literal is an integer parse error carrying that text; a literal
/// coerces to its value. [`crate::num::lemma_u64_round_trip`] adds that
/// the decimal representation of any value parses back to it.
pub proof fn lemma_u64_coercion(raw: Seq<u8>)
    ensures
        crate::tok::utf8_of(raw) is None ==> crate::sem::coerce_u64_spec(raw) == Result::<
            u64,
            ErrModel,
        >::Err(ErrModel::Utf8(raw)),
        crate::tok::utf8_of(raw) == Option::Some(Seq::<char>::empty())
            ==> crate::sem::coerce_u64_spec(raw) == Result::<u64, ErrModel>::Ok(0u64),
        crate::tok::utf8_of(raw) is Some && crate::tok::utf8_of(raw)->0.len() > 0
            && crate::num::u64_value(raw) is None ==> crate::sem::coerce_u64_spec(raw)
            == Result::<u64, ErrModel>::Err(ErrModel::Int(crate::tok::utf8_of(raw)->0)),
        crate::tok::utf8_of(raw) is Some && crate::tok::utf8_of(raw)->0.len() > 0
            && crate::num::u64_value(raw) is Some ==> crate::sem::coerce_u64_spec(raw)
            == Result::<u64, ErrModel>::Ok(crate::num::u64_value(raw)->0),
{
}

/// Law (numeric coercion): a timing attribute whose value decodes to the
/// empty string coerces to the empty text, which denotes zero; a non-empty
/// value that is no floating-point literal is a float parse error carrying
/// that text; a literal is kept as its own text, so its value round-trips
/// exactly.
pub proof fn lemma_f64_coercion(raw: Seq<u8>)
    ensures
        crate::tok::utf8_of(raw) is None ==> crate::sem::coerce_f64_spec(raw) == Result::<
            Seq<char>,
            ErrModel,
        >::Err(ErrModel::Utf8(raw)),
        crate::tok::utf8_of(raw) is Some && (crate::tok::utf8_of(raw)->0.len() == 0
            || crate::num::is_f64_lit(raw)) ==> crate::sem::coerce_f64_spec(raw) == Result::<
            Seq<char>,
            ErrModel,
        >::Ok(crate::tok::utf8_of(raw)->0),
        crate::tok::utf8_of(raw) is Some && crate::tok::utf8_of(raw)->0.len() > 0
            && !crate::num::is_f64_lit(raw) ==> crate::sem::coerce_f64_spec(raw) == Result::<
            Seq<char>,
            ErrModel,
        >::Err(ErrModel::Float(crate::tok::utf8_of(raw)->0)),
{
}

} // verus!
