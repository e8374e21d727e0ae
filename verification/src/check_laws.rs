//! What holds of the structural check: which fields a literal and a pattern may name.

use vstd::prelude::*;

use crate::ast::Expr;
use crate::check::{
    at_code, literal_errors, missing_fields, struct_errors, unknown_fields, variant_path, Shapes,
    VariantForm,
};
use crate::diag::{DiagModel, DiagnosticCode};
use crate::hir::{DefId, ResolvedHir, ResolvedTarget};
use crate::token::SourceRange;

verus! {

/// What a definition with named fields is called in messages, and its fields.
pub open spec fn record_of(cx: Shapes, hir: ResolvedHir, id: DefId) -> Option<
    (Seq<char>, Seq<Seq<char>>),
> {
    if cx.variants.dom().contains(id) {
        match (variant_path(hir, id), cx.variants[id]) {
            (Some(path), VariantForm::Struct(declared)) => Some(
                ("variant `"@ + path + "`"@, declared),
            ),
            _ => None,
        }
    } else if cx.structs.dom().contains(id) && hir.has_definition(id) {
        Some(("struct `"@ + hir.spec_definition(id).name@ + "`"@, cx.structs[id]))
    } else {
        None
    }
}

/// The test for a name that a list does not hold.
pub open spec fn outside(list: Seq<Seq<char>>) -> spec_fn(Seq<char>) -> bool {
    |name: Seq<char>| !list.contains(name)
}

/// The report of a name, with a text before it.
pub open spec fn field_report(
    what: Seq<char>,
    text: Seq<char>,
    span: SourceRange,
) -> spec_fn(Seq<char>) -> DiagModel {
    |name: Seq<char>|
        at_code(DiagnosticCode::TypeUnknownField, span, what + text + name + "`"@)
}

/// The report that a record has no field of this name.
pub open spec fn no_such_field(what: Seq<char>, span: SourceRange, name: Seq<char>) -> DiagModel {
    field_report(what, " has no field `"@, span)(name)
}

/// The report that a field of a record was not given.
pub open spec fn field_not_given(what: Seq<char>, span: SourceRange, name: Seq<char>) -> DiagModel {
    field_report(what, " is missing field `"@, span)(name)
}

proof fn lemma_unknown(
    errors: Seq<DiagModel>,
    what: Seq<char>,
    declared: Seq<Seq<char>>,
    names: Seq<Seq<char>>,
    span: SourceRange,
    from: int,
)
    requires
        0 <= from <= names.len(),
    ensures
        unknown_fields(errors, what, declared, names, span, from) == errors + names.skip(
            from,
        ).filter(outside(declared)).map_values(field_report(what, " has no field `"@, span)),
    decreases names.len() - from,
{
    let test = outside(declared);
    let report = field_report(what, " has no field `"@, span);
    reveal(Seq::filter);
    if from < names.len() {
        let name = names[from];
        let next = if declared.contains(name) {
            errors
        } else {
            errors.push(report(name))
        };
        lemma_unknown(next, what, declared, names, span, from + 1);
        let head = seq![name];
        assert(names.skip(from) =~= head + names.skip(from + 1));
        Seq::filter_distributes_over_add(head, names.skip(from + 1), test);
        assert(head.drop_last() =~= Seq::<Seq<char>>::empty());
        assert(head.drop_last().filter(test) =~= Seq::<Seq<char>>::empty());
        assert(head.filter(test) =~= if test(name) {
            head
        } else {
            Seq::<Seq<char>>::empty()
        });
        assert(errors + names.skip(from).filter(test).map_values(report) =~= next + names.skip(
            from + 1,
        ).filter(test).map_values(report));
    } else {
        assert(names.skip(from) =~= Seq::<Seq<char>>::empty());
        assert(names.skip(from).filter(test) =~= Seq::<Seq<char>>::empty());
        assert(errors + names.skip(from).filter(test).map_values(report) =~= errors);
    }
}

proof fn lemma_missing(
    errors: Seq<DiagModel>,
    what: Seq<char>,
    declared: Seq<Seq<char>>,
    names: Seq<Seq<char>>,
    span: SourceRange,
    from: int,
)
    requires
        0 <= from <= declared.len(),
    ensures
        missing_fields(errors, what, declared, names, span, from) == errors + declared.skip(
            from,
        ).filter(outside(names)).map_values(field_report(what, " is missing field `"@, span)),
    decreases declared.len() - from,
{
    let test = outside(names);
    let report = field_report(what, " is missing field `"@, span);
    reveal(Seq::filter);
    if from < declared.len() {
        let name = declared[from];
        let next = if names.contains(name) {
            errors
        } else {
            errors.push(report(name))
        };
        lemma_missing(next, what, declared, names, span, from + 1);
        let head = seq![name];
        assert(declared.skip(from) =~= head + declared.skip(from + 1));
        Seq::filter_distributes_over_add(head, declared.skip(from + 1), test);
        assert(head.drop_last() =~= Seq::<Seq<char>>::empty());
        assert(head.drop_last().filter(test) =~= Seq::<Seq<char>>::empty());
        assert(head.filter(test) =~= if test(name) {
            head
        } else {
            Seq::<Seq<char>>::empty()
        });
        assert(errors + declared.skip(from).filter(test).map_values(report) =~= next
            + declared.skip(from + 1).filter(test).map_values(report));
    } else {
        assert(declared.skip(from) =~= Seq::<Seq<char>>::empty());
        assert(declared.skip(from).filter(test) =~= Seq::<Seq<char>>::empty());
        assert(errors + declared.skip(from).filter(test).map_values(report) =~= errors);
    }
}

/// Reports of different names differ, and no name is both unknown and missing.
proof fn lemma_reports_differ(what: Seq<char>, span: SourceRange)
    ensures
        forall|a: Seq<char>, b: Seq<char>|
            #![trigger field_not_given(what, span, a), field_not_given(what, span, b)]
            field_not_given(what, span, a) == field_not_given(what, span, b) ==> a == b,
        forall|a: Seq<char>, b: Seq<char>|
            #![trigger no_such_field(what, span, a), no_such_field(what, span, b)]
            no_such_field(what, span, a) == no_such_field(what, span, b) ==> a == b,
        forall|a: Seq<char>, b: Seq<char>|
            #![trigger no_such_field(what, span, a), field_not_given(what, span, b)]
            no_such_field(what, span, a) != field_not_given(what, span, b),
{
    reveal_strlit(" has no field `");
    reveal_strlit(" is missing field `");
    reveal_strlit("`");
    assert forall|a: Seq<char>, b: Seq<char>|
        #![trigger field_not_given(what, span, a), field_not_given(what, span, b)]
        field_not_given(what, span, a) == field_not_given(what, span, b) implies a == b by {
        lemma_same_middle(what + " is missing field `"@, a, b, "`"@);
    }
    assert forall|a: Seq<char>, b: Seq<char>|
        #![trigger no_such_field(what, span, a), no_such_field(what, span, b)]
        no_such_field(what, span, a) == no_such_field(what, span, b) implies a == b by {
        lemma_same_middle(what + " has no field `"@, a, b, "`"@);
    }
    assert forall|a: Seq<char>, b: Seq<char>|
        #![trigger no_such_field(what, span, a), field_not_given(what, span, b)]
        no_such_field(what, span, a) != field_not_given(what, span, b) by {
        let left = what + " has no field `"@ + a + "`"@;
        let right = what + " is missing field `"@ + b + "`"@;
        let at = what.len() as int + 1;
        assert(left[at] == " has no field `"@[1]);
        assert(right[at] == " is missing field `"@[1]);
        assert(no_such_field(what, span, a).msg == left);
        assert(field_not_given(what, span, b).msg == right);
    }
}

proof fn lemma_same_middle(before: Seq<char>, a: Seq<char>, b: Seq<char>, after: Seq<char>)
    requires
        before + a + after == before + b + after,
    ensures
        a == b,
{
    assert((before + a + after).len() == before.len() + a.len() + after.len());
    assert((before + b + after).len() == before.len() + b.len() + after.len());
    assert forall|i: int| 0 <= i < a.len() implies a[i] == b[i] by {
        assert((before + a + after)[before.len() + i] == a[i]);
        assert((before + b + after)[before.len() + i] == b[i]);
    }
    assert(a =~= b);
}

proof fn lemma_filter_members(list: Seq<Seq<char>>, test: spec_fn(Seq<char>) -> bool)
    ensures
        forall|name: Seq<char>|
            #[trigger] list.filter(test).contains(name) <==> list.contains(name) && test(name),
    decreases list.len(),
{
    reveal(Seq::filter);
    if list.len() > 0 {
        lemma_filter_members(list.drop_last(), test);
        let rest = list.drop_last().filter(test);
        assert forall|name: Seq<char>|
            #[trigger] list.filter(test).contains(name) == (list.contains(name) && test(name)) by {
            if list.contains(name) && name != list.last() {
                let k = choose|k: int| 0 <= k < list.len() && list[k] == name;
                assert(list.drop_last()[k] == name);
            }
            if list.drop_last().contains(name) {
                let k = choose|k: int|
                    0 <= k < list.drop_last().len() && list.drop_last()[k] == name;
                assert(list[k] == name);
            }
            assert(list[list.len() - 1] == list.last());
            if test(list.last()) {
                assert(list.filter(test) == rest.push(list.last()));
                assert(rest.push(list.last())[rest.len() as int] == list.last());
                if rest.contains(name) {
                    let k = choose|k: int| 0 <= k < rest.len() && rest[k] == name;
                    assert(rest.push(list.last())[k] == name);
                }
                if rest.push(list.last()).contains(name) && name != list.last() {
                    let k = choose|k: int|
                        0 <= k < rest.push(list.last()).len() && rest.push(list.last())[k] == name;
                    assert(rest[k] == name);
                }
            }
        }
    }
}

proof fn lemma_filter_keeps_distinct(list: Seq<Seq<char>>, test: spec_fn(Seq<char>) -> bool)
    requires
        list.no_duplicates(),
    ensures
        list.filter(test).no_duplicates(),
    decreases list.len(),
{
    reveal(Seq::filter);
    if list.len() > 0 {
        let front = list.drop_last();
        assert(front.no_duplicates());
        lemma_filter_keeps_distinct(front, test);
        lemma_filter_members(front, test);
        let rest = front.filter(test);
        if rest.contains(list.last()) {
            let k = choose|k: int| 0 <= k < front.len() && front[k] == list.last();
            assert(list[k] == list[list.len() - 1]);
        }
        assert(forall|k: int| 0 <= k < rest.len() ==> rest.contains(#[trigger] rest[k]));
    }
}

/// A literal of a record, and the fields that it gives: behind the reports
/// that were there stand one for each given name that is not declared and one for
/// each declared name that is not given, in the order of the two lists, and no others.
/// So nothing is added exactly where the same names are given and declared; and
/// where no field is declared twice, exactly one report names each field that
/// was left out.
pub proof fn law_literals_give_exactly_the_declared_fields(
    cx: Shapes,
    hir: ResolvedHir,
    errors: Seq<DiagModel>,
    expression: Expr,
    names: Seq<Seq<char>>,
    id: DefId,
    what: Seq<char>,
    declared: Seq<Seq<char>>,
)
    requires
        hir.expression_targets.at(expression.id) == Some(ResolvedTarget::Item(id)),
        record_of(cx, hir, id) == Some((what, declared)),
    ensures
        ({
            let after = literal_errors(cx, hir, errors, expression, names);
            let added = after.skip(errors.len() as int);
            let span = expression.span;
            &&& errors.is_prefix_of(after)
            &&& added == names.filter(outside(declared)).map_values(
                field_report(what, " has no field `"@, span),
            ) + declared.filter(outside(names)).map_values(
                field_report(what, " is missing field `"@, span),
            )
            &&& after == errors <==> (forall|name: Seq<char>|
                #[trigger] names.contains(name) <==> declared.contains(name))
            &&& forall|name: Seq<char>|
                added.contains(#[trigger] no_such_field(what, span, name)) <==> names.contains(name)
                    && !declared.contains(name)
            &&& forall|name: Seq<char>|
                added.contains(#[trigger] field_not_given(what, span, name)) <==> declared.contains(
                    name,
                ) && !names.contains(name)
            &&& declared.no_duplicates() ==> forall|i: int, j: int, name: Seq<char>|
                #![trigger added[i], added[j], field_not_given(what, span, name)]
                0 <= i < added.len() && 0 <= j < added.len() && added[i] == field_not_given(
                    what,
                    span,
                    name,
                ) && added[j] == field_not_given(what, span, name) ==> i == j
        }),
{
    let span = expression.span;
    let strange = names.filter(outside(declared));
    let left_out = declared.filter(outside(names));
    let first = strange.map_values(field_report(what, " has no field `"@, span));
    let second = left_out.map_values(field_report(what, " is missing field `"@, span));
    let after = literal_errors(cx, hir, errors, expression, names);
    let added = after.skip(errors.len() as int);
    assert(names.skip(0) =~= names);
    assert(declared.skip(0) =~= declared);
    lemma_unknown(errors, what, declared, names, span, 0);
    lemma_missing(
        unknown_fields(errors, what, declared, names, span, 0),
        what,
        declared,
        names,
        span,
        0,
    );
    assert(after == errors + first + second);
    assert(added =~= first + second);
    lemma_filter_members(names, outside(declared));
    lemma_filter_members(declared, outside(names));
    lemma_reports_differ(what, span);
    assert forall|name: Seq<char>|
        added.contains(#[trigger] no_such_field(what, span, name)) == (names.contains(name)
            && !declared.contains(name)) by {
        let report = no_such_field(what, span, name);
        if strange.contains(name) {
            let k = choose|k: int| 0 <= k < strange.len() && strange[k] == name;
            assert(first[k] == report);
            assert(added[k] == report);
        }
        if added.contains(report) {
            let k = choose|k: int| 0 <= k < added.len() && added[k] == report;
            if k < first.len() {
                assert(first[k] == no_such_field(what, span, strange[k]));
                assert(strange.contains(strange[k]));
            } else {
                let other = left_out[k - first.len()];
                assert(second[k - first.len()] == field_not_given(what, span, other));
            }
        }
    }
    assert forall|name: Seq<char>|
        added.contains(#[trigger] field_not_given(what, span, name)) == (declared.contains(name)
            && !names.contains(name)) by {
        let report = field_not_given(what, span, name);
        if left_out.contains(name) {
            let k = choose|k: int| 0 <= k < left_out.len() && left_out[k] == name;
            assert(second[k] == report);
            assert(added[first.len() + k] == report);
        }
        if added.contains(report) {
            let k = choose|k: int| 0 <= k < added.len() && added[k] == report;
            if k < first.len() {
                assert(first[k] == no_such_field(what, span, strange[k]));
            } else {
                let other = left_out[k - first.len()];
                assert(second[k - first.len()] == field_not_given(what, span, other));
                assert(left_out.contains(other));
            }
        }
    }
    if declared.no_duplicates() {
        lemma_filter_keeps_distinct(declared, outside(names));
        assert forall|i: int, j: int, name: Seq<char>|
            #![trigger added[i], added[j], field_not_given(what, span, name)]
            0 <= i < added.len() && 0 <= j < added.len() && added[i] == field_not_given(
                what,
                span,
                name,
            ) && added[j] == field_not_given(what, span, name) implies i == j by {
            if i < first.len() {
                assert(first[i] == no_such_field(what, span, strange[i]));
            }
            if j < first.len() {
                assert(first[j] == no_such_field(what, span, strange[j]));
            }
            let a = left_out[i - first.len()];
            let b = left_out[j - first.len()];
            assert(second[i - first.len()] == field_not_given(what, span, a));
            assert(second[j - first.len()] == field_not_given(what, span, b));
        }
    }
    if after == errors {
        assert(added.len() == 0);
        assert forall|name: Seq<char>| #[trigger] names.contains(name) == declared.contains(
            name,
        ) by {
            let _ = no_such_field(what, span, name);
            let _ = field_not_given(what, span, name);
            assert(!added.contains(no_such_field(what, span, name)));
            assert(!added.contains(field_not_given(what, span, name)));
        }
    } else if forall|name: Seq<char>| #[trigger] names.contains(name) == declared.contains(name) {
        if strange.len() > 0 {
            assert(strange.contains(strange[0]));
        }
        if left_out.len() > 0 {
            assert(left_out.contains(left_out[0]));
        }
        assert(after =~= errors);
    }
}

/// A pattern of a record may leave fields out: behind the reports that were
/// there stands one for each name in the pattern that is not declared, and no others.
pub proof fn law_patterns_name_declared_fields(
    cx: Shapes,
    hir: ResolvedHir,
    errors: Seq<DiagModel>,
    names: Seq<Seq<char>>,
    span: SourceRange,
    id: DefId,
    what: Seq<char>,
    declared: Seq<Seq<char>>,
)
    requires
        record_of(cx, hir, id) == Some((what, declared)),
    ensures
        ({
            let after = struct_errors(
                cx,
                hir,
                errors,
                Some(ResolvedTarget::Item(id)),
                names,
                span,
            );
            &&& after == errors + names.filter(outside(declared)).map_values(
                field_report(what, " has no field `"@, span),
            )
            &&& after == errors <==> (forall|name: Seq<char>|
                #[trigger] names.contains(name) ==> declared.contains(name))
        }),
{
    let strange = names.filter(outside(declared));
    let report = field_report(what, " has no field `"@, span);
    let after = struct_errors(cx, hir, errors, Some(ResolvedTarget::Item(id)), names, span);
    assert(names.skip(0) =~= names);
    lemma_unknown(errors, what, declared, names, span, 0);
    lemma_filter_members(names, outside(declared));
    assert(after == errors + strange.map_values(report));
    if forall|name: Seq<char>| #[trigger] names.contains(name) ==> declared.contains(name) {
        if strange.len() > 0 {
            assert(strange.contains(strange[0]));
        }
        assert(after =~= errors);
    } else if after == errors {
        assert(strange.map_values(report).len() == after.len() - errors.len());
        assert(strange.len() == 0);
        assert forall|name: Seq<char>| #[trigger] names.contains(name) implies declared.contains(
            name,
        ) by {
            assert(!strange.contains(name));
        }
    }
}

} // verus!
