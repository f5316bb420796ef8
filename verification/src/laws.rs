//! The framework's laws, stated over the models that the public
//! contracts use and proved once: what fail-fast evaluation returns, what
//! the complete error map holds, how the two relate, that validation is
//! deterministic, and that the reentrancy guard short-circuits.

use vstd::prelude::*;

use crate::aggregate::guard_wf;
use crate::aggregate::spec_validate_at;
use crate::aggregate::lemma_guard_enter;
use crate::aggregate::spec_complete_at;
use crate::aggregate::spec_field_entries;
use crate::aggregate::spec_fields_first_failure;
use crate::aggregate::spec_member_entries;
use crate::aggregate::spec_members_first_failure;
use crate::aggregate::spec_target_failures;
use crate::aggregate::spec_targets_first_failure;
use crate::schema::MemberField;
use crate::aggregate::Arena;
use crate::aggregate::ErrorMap;
use crate::engine::error::ErrorModel;
use crate::engine::error::ValidationError;
use crate::schema::check_accepts;
use crate::schema::check_failure;
use crate::schema::spec_checks_failures;
use crate::schema::spec_checks_first_failure;
use crate::schema::FieldBinding;
use crate::schema::FieldValue;
use crate::schema::ValidatorInvocation;

verus! {

/// Fail-fast evaluation of one invocation list succeeds exactly when
/// every invocation passes.
pub proof fn lemma_checks_first_failure_none(value: FieldValue, checks: Seq<ValidatorInvocation>)
    ensures
        spec_checks_first_failure(value, checks) is None <==> (forall|j: int|
            0 <= j < checks.len() ==> check_accepts(#[trigger] checks[j], value)),
    decreases checks.len(),
{
    if checks.len() == 0 {
    } else if !check_accepts(checks.first(), value) {
        assert(!check_accepts(checks[0], value));
    } else {
        lemma_checks_first_failure_none(value, checks.drop_first());
        if spec_checks_first_failure(value, checks) is None {
            assert forall|j: int| 0 <= j < checks.len() implies check_accepts(
                #[trigger] checks[j],
                value,
            ) by {
                if j > 0 {
                    assert(checks.drop_first()[j - 1] == checks[j]);
                }
            }
        }
        if forall|j: int| 0 <= j < checks.len() ==> check_accepts(#[trigger] checks[j], value) {
            assert forall|j: int| 0 <= j < checks.drop_first().len() implies check_accepts(
                #[trigger] checks.drop_first()[j],
                value,
            ) by {
                assert(checks.drop_first()[j] == checks[j + 1]);
            }
        }
    }
}

/// When the invocation at `j` is the first failing one, fail-fast
/// evaluation of the list reports exactly its diagnostic.
pub proof fn lemma_checks_first_failure_at(
    value: FieldValue,
    checks: Seq<ValidatorInvocation>,
    j: int,
)
    requires
        0 <= j < checks.len(),
        !check_accepts(checks[j], value),
        forall|k: int| 0 <= k < j ==> check_accepts(#[trigger] checks[k], value),
    ensures
        spec_checks_first_failure(value, checks) == Some(check_failure(checks[j], value)),
    decreases j,
{
    if j > 0 {
        assert(check_accepts(checks.first(), value));
        assert forall|k: int| 0 <= k < j - 1 implies check_accepts(
            #[trigger] checks.drop_first()[k],
            value,
        ) by {
            assert(checks.drop_first()[k] == checks[k + 1]);
        }
        assert(checks.drop_first()[j - 1] == checks[j]);
        lemma_checks_first_failure_at(value, checks.drop_first(), j - 1);
    }
}

/// Fail-fast evaluation of a field list succeeds exactly when every
/// invocation of every field passes.
pub proof fn lemma_fields_first_failure_none(fields: Seq<FieldBinding>)
    ensures
        spec_fields_first_failure(fields) is None <==> (forall|i: int, j: int|
            0 <= i < fields.len() && 0 <= j < fields[i].validators@.len() ==> check_accepts(
                #[trigger] fields[i].validators@[j],
                fields[i].value,
            )),
    decreases fields.len(),
{
    if fields.len() == 0 {
    } else {
        let f = fields.first();
        lemma_checks_first_failure_none(f.value, f.validators@);
        lemma_fields_first_failure_none(fields.drop_first());
        if spec_fields_first_failure(fields) is None {
            assert forall|i: int, j: int|
                0 <= i < fields.len() && 0 <= j
                    < fields[i].validators@.len() implies check_accepts(
                #[trigger] fields[i].validators@[j],
                fields[i].value,
            ) by {
                if i == 0 {
                    assert(check_accepts(f.validators@[j], f.value));
                } else {
                    assert(fields.drop_first()[i - 1] == fields[i]);
                }
            }
        }
        if forall|i: int, j: int|
            0 <= i < fields.len() && 0 <= j < fields[i].validators@.len() ==> check_accepts(
                #[trigger] fields[i].validators@[j],
                fields[i].value,
            ) {
            assert forall|j: int| 0 <= j < f.validators@.len() implies check_accepts(
                #[trigger] f.validators@[j],
                f.value,
            ) by {
                assert(fields[0].validators@[j] == f.validators@[j]);
            }
            assert forall|i: int, j: int|
                0 <= i < fields.drop_first().len() && 0 <= j < fields.drop_first()[
                    i
                ].validators@.len() implies check_accepts(
                #[trigger] fields.drop_first()[i].validators@[j],
                fields.drop_first()[i].value,
            ) by {
                assert(fields.drop_first()[i] == fields[i + 1]);
            }
        }
    }
}

/// When the invocation at `(i, j)` is the first failing one — every
/// earlier field passes completely and the earlier invocations of field
/// `i` pass — fail-fast evaluation reports exactly its diagnostic.
pub proof fn lemma_fields_first_failure_at(fields: Seq<FieldBinding>, i: int, j: int)
    requires
        0 <= i < fields.len(),
        0 <= j < fields[i].validators@.len(),
        !check_accepts(fields[i].validators@[j], fields[i].value),
        forall|i2: int, j2: int|
            0 <= i2 < fields.len() && 0 <= j2 < fields[i2].validators@.len() && (i2 < i || (i2 == i
                && j2 < j)) ==> check_accepts(#[trigger] fields[i2].validators@[j2], fields[i2].value),
    ensures
        spec_fields_first_failure(fields) == Some(
            check_failure(fields[i].validators@[j], fields[i].value),
        ),
    decreases i,
{
    let f = fields.first();
    if i == 0 {
        assert forall|k: int| 0 <= k < j implies check_accepts(#[trigger] f.validators@[k], f.value) by {
            assert(fields[0].validators@[k] == f.validators@[k]);
        }
        lemma_checks_first_failure_at(f.value, f.validators@, j);
    } else {
        assert forall|k: int| 0 <= k < f.validators@.len() implies check_accepts(
            #[trigger] f.validators@[k],
            f.value,
        ) by {
            assert(fields[0].validators@[k] == f.validators@[k]);
        }
        lemma_checks_first_failure_none(f.value, f.validators@);
        let rest = fields.drop_first();
        assert forall|i2: int, j2: int|
            0 <= i2 < rest.len() && 0 <= j2 < rest[i2].validators@.len() && (i2 < i - 1 || (i2 == i
                - 1 && j2 < j)) implies check_accepts(
            #[trigger] rest[i2].validators@[j2],
            rest[i2].value,
        ) by {
            assert(rest[i2] == fields[i2 + 1]);
        }
        assert(rest[i - 1] == fields[i]);
        lemma_fields_first_failure_at(rest, i - 1, j);
    }
}

/// When every invocation of a list passes, it contributes no failures.
pub proof fn lemma_checks_failures_empty(value: FieldValue, checks: Seq<ValidatorInvocation>)
    requires
        forall|j: int| 0 <= j < checks.len() ==> check_accepts(#[trigger] checks[j], value),
    ensures
        spec_checks_failures(value, checks) == Seq::<ErrorModel>::empty(),
    decreases checks.len(),
{
    if checks.len() > 0 {
        lemma_checks_failures_empty(value, checks.drop_last());
    }
}

/// Complete evaluation of one invocation list collects exactly the
/// failing invocations' diagnostics, in declaration order.
pub proof fn lemma_checks_failures_characterize(
    value: FieldValue,
    checks: Seq<ValidatorInvocation>,
)
    ensures
        spec_checks_failures(value, checks) == checks.filter(
            |c: ValidatorInvocation| !check_accepts(c, value),
        ).map_values(|c: ValidatorInvocation| check_failure(c, value)),
    decreases checks.len(),
{
    reveal(Seq::filter);
    let pred = |c: ValidatorInvocation| !check_accepts(c, value);
    let emit = |c: ValidatorInvocation| check_failure(c, value);
    if checks.len() == 0 {
        assert(spec_checks_failures(value, checks) =~= checks.filter(pred).map_values(emit));
    } else {
        let init = checks.drop_last();
        lemma_checks_failures_characterize(value, init);
        if pred(checks.last()) {
            assert(checks.filter(pred) == init.filter(pred).push(checks.last()));
            assert(checks.filter(pred).map_values(emit) =~= init.filter(pred).map_values(
                emit,
            ).push(emit(checks.last())));
        } else {
            assert(checks.filter(pred) == init.filter(pred));
        }
    }
}

/// The complete error map of a field list holds exactly the fields with
/// at least one failing invocation, in declaration order, each with its
/// own ordered failure list.
pub proof fn lemma_field_entries_characterize(fields: Seq<FieldBinding>)
    ensures
        spec_field_entries(fields) == fields.filter(
            |f: FieldBinding| spec_checks_failures(f.value, f.validators@).len() > 0,
        ).map_values(
            |f: FieldBinding| (f.key@, spec_checks_failures(f.value, f.validators@)),
        ),
    decreases fields.len(),
{
    reveal(Seq::filter);
    let pred = |f: FieldBinding| spec_checks_failures(f.value, f.validators@).len() > 0;
    let emit = |f: FieldBinding| (f.key@, spec_checks_failures(f.value, f.validators@));
    if fields.len() == 0 {
        assert(spec_field_entries(fields) =~= fields.filter(pred).map_values(emit));
    } else {
        let init = fields.drop_last();
        lemma_field_entries_characterize(init);
        if pred(fields.last()) {
            assert(fields.filter(pred) == init.filter(pred).push(fields.last()));
            assert(fields.filter(pred).map_values(emit) =~= init.filter(pred).map_values(
                emit,
            ).push(emit(fields.last())));
        } else {
            assert(fields.filter(pred) == init.filter(pred));
        }
    }
}

/// Every element of a filtered sequence is drawn from the sequence it
/// was filtered out of.
pub proof fn lemma_filter_members<A>(s: Seq<A>, pred: spec_fn(A) -> bool, t: int)
    requires
        0 <= t < s.filter(pred).len(),
    ensures
        exists|i: int| 0 <= i < s.len() && s[i] == #[trigger] s.filter(pred)[t],
    decreases s.len(),
{
    reveal(Seq::filter);
    if s.len() > 0 {
        let init = s.drop_last();
        if pred(s.last()) && t == s.filter(pred).len() - 1 {
            assert(s[s.len() - 1] == s.filter(pred)[t]);
        } else {
            lemma_filter_members(init, pred, t);
            let i = choose|i: int| 0 <= i < init.len() && init[i] == init.filter(pred)[t];
            assert(s[i] == s.filter(pred)[t]);
        }
    }
}

/// The complete error map's entries, read entry by entry: every entry
/// belongs to a field with at least one failure and carries that field's
/// full ordered failure list, every such field has its entry, and no
/// entry has an empty list.
pub proof fn lemma_complete_keys(fields: Seq<FieldBinding>)
    ensures
        forall|t: int|
            0 <= t < spec_field_entries(fields).len() ==> exists|i: int|
                0 <= i < fields.len() && #[trigger] spec_field_entries(fields)[t] == (
                fields[i].key@,
                spec_checks_failures(fields[i].value, fields[i].validators@),
                ) && spec_checks_failures(fields[i].value, fields[i].validators@).len() > 0,
        forall|i: int|
            0 <= i < fields.len() && spec_checks_failures(
                #[trigger] fields[i].value,
                fields[i].validators@,
            ).len() > 0 ==> spec_field_entries(fields).contains(
                (fields[i].key@, spec_checks_failures(fields[i].value, fields[i].validators@)),
            ),
        forall|t: int|
            0 <= t < spec_field_entries(fields).len() ==> (#[trigger] spec_field_entries(
                fields,
            )[t]).1.len() > 0,
{
    lemma_field_entries_characterize(fields);
    let pred = |f: FieldBinding| spec_checks_failures(f.value, f.validators@).len() > 0;
    let emit = |f: FieldBinding| (f.key@, spec_checks_failures(f.value, f.validators@));
    let kept = fields.filter(pred);
    assert forall|t: int| 0 <= t < spec_field_entries(fields).len() implies exists|i: int|
        0 <= i < fields.len() && #[trigger] spec_field_entries(fields)[t] == (
        fields[i].key@,
        spec_checks_failures(fields[i].value, fields[i].validators@),
        ) && spec_checks_failures(fields[i].value, fields[i].validators@).len() > 0 by {
        lemma_filter_members(fields, pred, t);
        let i = choose|i: int| 0 <= i < fields.len() && fields[i] == kept[t];
        fields.lemma_filter_pred(pred, t);
        assert(spec_field_entries(fields)[t] == emit(fields[i]));
    }
    assert forall|i: int|
        0 <= i < fields.len() && spec_checks_failures(
            #[trigger] fields[i].value,
            fields[i].validators@,
        ).len() > 0 implies spec_field_entries(fields).contains(
        (fields[i].key@, spec_checks_failures(fields[i].value, fields[i].validators@)),
    ) by {
        fields.lemma_filter_contains(pred, i);
        let t = choose|t: int| 0 <= t < kept.len() && kept[t] == fields[i];
        assert(spec_field_entries(fields)[t] == emit(fields[i]));
    }
    assert forall|t: int| 0 <= t < spec_field_entries(fields).len() implies (
    #[trigger] spec_field_entries(fields)[t]).1.len() > 0 by {
        fields.lemma_filter_pred(pred, t);
    }
}

/// When exactly one invocation fails across a field list, complete
/// evaluation of that field's list holds exactly that diagnostic.
pub proof fn lemma_checks_failures_single(
    value: FieldValue,
    checks: Seq<ValidatorInvocation>,
    j: int,
)
    requires
        0 <= j < checks.len(),
        !check_accepts(checks[j], value),
        forall|k: int|
            0 <= k < checks.len() && k != j ==> check_accepts(#[trigger] checks[k], value),
    ensures
        spec_checks_failures(value, checks) == seq![check_failure(checks[j], value)],
    decreases checks.len(),
{
    let last = checks.len() - 1;
    if j == last {
        assert forall|k: int| 0 <= k < checks.drop_last().len() implies check_accepts(
            #[trigger] checks.drop_last()[k],
            value,
        ) by {
            assert(checks.drop_last()[k] == checks[k]);
        }
        lemma_checks_failures_empty(value, checks.drop_last());
        assert(spec_checks_failures(value, checks) =~= seq![check_failure(checks[j], value)]);
    } else {
        assert(checks.drop_last()[j] == checks[j]);
        assert forall|k: int|
            0 <= k < checks.drop_last().len() && k != j implies check_accepts(
            #[trigger] checks.drop_last()[k],
            value,
        ) by {
            assert(checks.drop_last()[k] == checks[k]);
        }
        lemma_checks_failures_single(value, checks.drop_last(), j);
        assert(check_accepts(checks.last(), value));
    }
}

/// When every invocation of every field passes, the complete error map
/// is empty.
pub proof fn lemma_field_entries_empty(fields: Seq<FieldBinding>)
    requires
        forall|i: int, j: int|
            0 <= i < fields.len() && 0 <= j < fields[i].validators@.len() ==> check_accepts(
                #[trigger] fields[i].validators@[j],
                fields[i].value,
            ),
    ensures
        spec_field_entries(fields) == Seq::<(Seq<char>, Seq<ErrorModel>)>::empty(),
    decreases fields.len(),
{
    if fields.len() > 0 {
        let last = fields.len() - 1;
        assert forall|k: int| 0 <= k < fields[last].validators@.len() implies check_accepts(
            #[trigger] fields[last].validators@[k],
            fields[last].value,
        ) by {
        }
        lemma_checks_failures_empty(fields[last].value, fields[last].validators@);
        assert forall|i: int, j: int|
            0 <= i < fields.drop_last().len() && 0 <= j < fields.drop_last()[
                i
            ].validators@.len() implies check_accepts(
            #[trigger] fields.drop_last()[i].validators@[j],
            fields.drop_last()[i].value,
        ) by {
            assert(fields.drop_last()[i] == fields[i]);
        }
        lemma_field_entries_empty(fields.drop_last());
    }
}

/// When exactly one field has exactly one failing invocation, the
/// fail-fast diagnostic equals the sole error in the sole entry of the
/// complete error map — the two strategies agree.
pub proof fn lemma_single_failure_agreement(fields: Seq<FieldBinding>, i: int, j: int)
    requires
        0 <= i < fields.len(),
        0 <= j < fields[i].validators@.len(),
        !check_accepts(fields[i].validators@[j], fields[i].value),
        forall|i2: int, j2: int|
            0 <= i2 < fields.len() && 0 <= j2 < fields[i2].validators@.len() && !(i2 == i && j2
                == j) ==> check_accepts(#[trigger] fields[i2].validators@[j2], fields[i2].value),
    ensures
        spec_fields_first_failure(fields) == Some(
            check_failure(fields[i].validators@[j], fields[i].value),
        ),
        spec_field_entries(fields) == seq![
            (fields[i].key@, seq![check_failure(fields[i].validators@[j], fields[i].value)]),
        ],
    decreases fields.len(),
{
    lemma_fields_first_failure_at(fields, i, j);
    let last = fields.len() - 1;
    if i == last {
        assert forall|i2: int, j2: int|
            0 <= i2 < fields.drop_last().len() && 0 <= j2 < fields.drop_last()[
                i2
            ].validators@.len() implies check_accepts(
            #[trigger] fields.drop_last()[i2].validators@[j2],
            fields.drop_last()[i2].value,
        ) by {
            assert(fields.drop_last()[i2] == fields[i2]);
        }
        lemma_field_entries_empty(fields.drop_last());
        assert forall|k: int|
            0 <= k < fields[i].validators@.len() && k != j implies check_accepts(
            #[trigger] fields[i].validators@[k],
            fields[i].value,
        ) by {
        }
        lemma_checks_failures_single(fields[i].value, fields[i].validators@, j);
        assert(spec_field_entries(fields) =~= seq![
            (fields[i].key@, seq![check_failure(fields[i].validators@[j], fields[i].value)]),
        ]);
    } else {
        assert forall|k: int| 0 <= k < fields[last].validators@.len() implies check_accepts(
            #[trigger] fields[last].validators@[k],
            fields[last].value,
        ) by {
        }
        lemma_checks_failures_empty(fields[last].value, fields[last].validators@);
        let init = fields.drop_last();
        assert(init[i] == fields[i]);
        assert forall|i2: int, j2: int|
            0 <= i2 < init.len() && 0 <= j2 < init[i2].validators@.len() && !(i2 == i && j2
                == j) implies check_accepts(#[trigger] init[i2].validators@[j2], init[i2].value) by {
            assert(init[i2] == fields[i2]);
        }
        lemma_single_failure_agreement(init, i, j);
    }
}


/// A failing invocation makes its field's complete failure list
/// non-empty.
pub proof fn lemma_checks_failures_nonempty(
    value: FieldValue,
    checks: Seq<ValidatorInvocation>,
    j: int,
)
    requires
        0 <= j < checks.len(),
        !check_accepts(checks[j], value),
    ensures
        spec_checks_failures(value, checks).len() > 0,
{
    lemma_checks_failures_characterize(value, checks);
    let pred = |c: ValidatorInvocation| !check_accepts(c, value);
    checks.lemma_filter_contains(pred, j);
    let t = choose|t: int| 0 <= t < checks.filter(pred).len() && checks.filter(pred)[t] == checks[j];
}

/// Over one field list, fail-fast evaluation succeeds exactly when the
/// complete error map is empty.
pub proof fn lemma_fields_agree(fields: Seq<FieldBinding>)
    ensures
        spec_fields_first_failure(fields) is None <==> spec_field_entries(fields).len() == 0,
{
    lemma_fields_first_failure_none(fields);
    if forall|i: int, j: int|
        0 <= i < fields.len() && 0 <= j < fields[i].validators@.len() ==> check_accepts(
            #[trigger] fields[i].validators@[j],
            fields[i].value,
        ) {
        lemma_field_entries_empty(fields);
    }
    if spec_field_entries(fields).len() == 0 {
        assert forall|i: int, j: int|
            0 <= i < fields.len() && 0 <= j
                < fields[i].validators@.len() implies check_accepts(
            #[trigger] fields[i].validators@[j],
            fields[i].value,
        ) by {
            if !check_accepts(fields[i].validators@[j], fields[i].value) {
                lemma_checks_failures_nonempty(fields[i].value, fields[i].validators@, j);
                lemma_complete_keys(fields);
                assert(spec_field_entries(fields).contains(
                    (
                        fields[i].key@,
                        spec_checks_failures(fields[i].value, fields[i].validators@),
                    ),
                ));
            }
        }
    }
}

/// Over one list of referenced entities, fail-fast evaluation succeeds
/// exactly when every referenced entity validates.
pub proof fn lemma_targets_first_failure_none(a: Arena, targets: Seq<usize>, entered: Seq<Seq<char>>)
    requires
        a.wf(),
        guard_wf(a, entered),
        forall|t: int| 0 <= t < targets.len() ==> (#[trigger] targets[t]) < a.entities@.len(),
    ensures
        spec_targets_first_failure(a, targets, entered) is None <==> (forall|t: int|
            0 <= t < targets.len() ==> spec_validate_at(
                a,
                #[trigger] targets[t] as int,
                entered,
            ) is None),
    decreases targets.len(),
{
    if targets.len() > 0 {
        assert forall|t: int| 0 <= t < targets.drop_first().len() implies (
        #[trigger] targets.drop_first()[t]) < a.entities@.len() by {
            assert(targets.drop_first()[t] == targets[t + 1]);
        }
        lemma_targets_first_failure_none(a, targets.drop_first(), entered);
        if spec_targets_first_failure(a, targets, entered) is None {
            assert forall|t: int| 0 <= t < targets.len() implies spec_validate_at(
                a,
                #[trigger] targets[t] as int,
                entered,
            ) is None by {
                if t > 0 {
                    assert(targets.drop_first()[t - 1] == targets[t]);
                }
            }
        }
        if forall|t: int|
            0 <= t < targets.len() ==> spec_validate_at(
                a,
                #[trigger] targets[t] as int,
                entered,
            ) is None {
            assert forall|t: int| 0 <= t < targets.drop_first().len() implies spec_validate_at(
                a,
                #[trigger] targets.drop_first()[t] as int,
                entered,
            ) is None by {
                assert(targets.drop_first()[t] == targets[t + 1]);
            }
            assert(spec_validate_at(a, targets[0] as int, entered) is None);
        }
    }
}

/// Over one list of referenced entities, the complete failure list is
/// empty exactly when every referenced entity validates.
pub proof fn lemma_target_failures_empty(a: Arena, targets: Seq<usize>, entered: Seq<Seq<char>>)
    ensures
        spec_target_failures(a, targets, entered).len() == 0 <==> (forall|t: int|
            0 <= t < targets.len() ==> spec_validate_at(
                a,
                #[trigger] targets[t] as int,
                entered,
            ) is None),
    decreases targets.len(),
{
    if targets.len() > 0 {
        lemma_target_failures_empty(a, targets.drop_last(), entered);
        if spec_target_failures(a, targets, entered).len() == 0 {
            assert forall|t: int| 0 <= t < targets.len() implies spec_validate_at(
                a,
                #[trigger] targets[t] as int,
                entered,
            ) is None by {
                if t < targets.len() - 1 {
                    assert(targets.drop_last()[t] == targets[t]);
                }
            }
        }
        if forall|t: int|
            0 <= t < targets.len() ==> spec_validate_at(
                a,
                #[trigger] targets[t] as int,
                entered,
            ) is None {
            assert forall|t: int| 0 <= t < targets.drop_last().len() implies spec_validate_at(
                a,
                #[trigger] targets.drop_last()[t] as int,
                entered,
            ) is None by {
                assert(targets.drop_last()[t] == targets[t]);
            }
            assert(spec_validate_at(a, targets[targets.len() - 1] as int, entered) is None);
        }
    }
}

/// Over one list of reference fields, fail-fast evaluation succeeds
/// exactly when every referenced entity of every reference field
/// validates.
pub proof fn lemma_members_first_failure_none(
    a: Arena,
    members: Seq<MemberField>,
    entered: Seq<Seq<char>>,
)
    requires
        a.wf(),
        guard_wf(a, entered),
        forall|j: int, t: int|
            0 <= j < members.len() && 0 <= t < members[j].targets@.len() ==> (
            #[trigger] members[j].targets@[t]) < a.entities@.len(),
    ensures
        spec_members_first_failure(a, members, entered) is None <==> (forall|j: int|
            0 <= j < members.len() ==> spec_targets_first_failure(
                a,
                (#[trigger] members[j]).targets@,
                entered,
            ) is None),
    decreases members.len(),
{
    if members.len() > 0 {
        assert forall|j: int, t: int|
            0 <= j < members.drop_first().len() && 0 <= t < members.drop_first()[
                j
            ].targets@.len() implies (#[trigger] members.drop_first()[j].targets@[t])
            < a.entities@.len() by {
            assert(members.drop_first()[j] == members[j + 1]);
        }
        assert forall|t: int| 0 <= t < members.first().targets@.len() implies (
        #[trigger] members.first().targets@[t]) < a.entities@.len() by {
            assert(members[0].targets@[t] < a.entities@.len());
        }
        lemma_members_first_failure_none(a, members.drop_first(), entered);
        if spec_members_first_failure(a, members, entered) is None {
            assert forall|j: int| 0 <= j < members.len() implies spec_targets_first_failure(
                a,
                (#[trigger] members[j]).targets@,
                entered,
            ) is None by {
                if j > 0 {
                    assert(members.drop_first()[j - 1] == members[j]);
                }
            }
        }
        if forall|j: int|
            0 <= j < members.len() ==> spec_targets_first_failure(
                a,
                (#[trigger] members[j]).targets@,
                entered,
            ) is None {
            assert forall|j: int|
                0 <= j < members.drop_first().len() implies spec_targets_first_failure(
                a,
                (#[trigger] members.drop_first()[j]).targets@,
                entered,
            ) is None by {
                assert(members.drop_first()[j] == members[j + 1]);
            }
            assert(spec_targets_first_failure(a, members[0].targets@, entered) is None);
        }
    }
}

/// Over one list of reference fields, the complete error map's reference
/// entries are empty exactly when every referenced entity validates.
pub proof fn lemma_member_entries_empty(
    a: Arena,
    members: Seq<MemberField>,
    entered: Seq<Seq<char>>,
)
    ensures
        spec_member_entries(a, members, entered).len() == 0 <==> (forall|j: int|
            0 <= j < members.len() ==> spec_target_failures(
                a,
                (#[trigger] members[j]).targets@,
                entered,
            ).len() == 0),
    decreases members.len(),
{
    if members.len() > 0 {
        lemma_member_entries_empty(a, members.drop_last(), entered);
        if spec_member_entries(a, members, entered).len() == 0 {
            assert forall|j: int| 0 <= j < members.len() implies spec_target_failures(
                a,
                (#[trigger] members[j]).targets@,
                entered,
            ).len() == 0 by {
                if j < members.len() - 1 {
                    assert(members.drop_last()[j] == members[j]);
                }
            }
        }
        if forall|j: int|
            0 <= j < members.len() ==> spec_target_failures(
                a,
                (#[trigger] members[j]).targets@,
                entered,
            ).len() == 0 {
            assert forall|j: int|
                0 <= j < members.drop_last().len() implies spec_target_failures(
                a,
                (#[trigger] members.drop_last()[j]).targets@,
                entered,
            ).len() == 0 by {
                assert(members.drop_last()[j] == members[j]);
            }
            assert(spec_target_failures(a, members[members.len() - 1].targets@, entered).len()
                == 0);
        }
    }
}

/// The two strategies agree on validity: fail-fast validation of an
/// entity succeeds exactly when complete validation of the same entity in
/// the same execution context reports an empty error map.
pub proof fn lemma_strategies_agree(a: Arena, idx: int, entered: Seq<Seq<char>>)
    requires
        a.wf(),
        0 <= idx < a.entities@.len(),
        guard_wf(a, entered),
    ensures
        spec_validate_at(a, idx, entered) is None <==> spec_complete_at(a, idx, entered).len()
            == 0,
{
    let e = a.entities@[idx];
    if !entered.contains(e.type_key@) {
        lemma_guard_enter(a, entered, idx);
        let inside = entered.push(e.type_key@);
        lemma_fields_agree(e.fields@);
        lemma_members_first_failure_none(a, e.members@, inside);
        lemma_member_entries_empty(a, e.members@, inside);
        assert forall|j: int|
            0 <= j < e.members@.len() implies (spec_targets_first_failure(
            a,
            (#[trigger] e.members@[j]).targets@,
            inside,
        ) is None <==> spec_target_failures(a, e.members@[j].targets@, inside).len() == 0) by {
            assert forall|t: int| 0 <= t < e.members@[j].targets@.len() implies (
            #[trigger] e.members@[j].targets@[t]) < a.entities@.len() by {
            }
            lemma_targets_first_failure_none(a, e.members@[j].targets@, inside);
            lemma_target_failures_empty(a, e.members@[j].targets@, inside);
        }
    }
}

/// Validation is deterministic: any two results that the fail-fast
/// contract admits for the same arena, the same root and a fresh
/// execution context carry the same outcome.
pub proof fn lemma_validate_idempotent(
    a: Arena,
    root: int,
    r1: Result<(), ValidationError>,
    r2: Result<(), ValidationError>,
)
    requires
        r1 is Ok <==> spec_validate_at(a, root, Seq::empty()) is None,
        r1 matches Err(e) ==> Some(e@) == spec_validate_at(a, root, Seq::empty()),
        r2 is Ok <==> spec_validate_at(a, root, Seq::empty()) is None,
        r2 matches Err(e) ==> Some(e@) == spec_validate_at(a, root, Seq::empty()),
    ensures
        r1 is Ok <==> r2 is Ok,
        r1 is Err && r2 is Err ==> r1->Err_0@ == r2->Err_0@,
{
}

/// Complete validation is deterministic in the same sense: any two
/// results the contract admits carry the same error-map model.
pub proof fn lemma_complete_validate_idempotent(
    a: Arena,
    root: int,
    r1: Result<(), ErrorMap>,
    r2: Result<(), ErrorMap>,
)
    requires
        r1 is Ok <==> spec_complete_at(a, root, Seq::empty()).len() == 0,
        r1 matches Err(m) ==> m@ == spec_complete_at(a, root, Seq::empty()),
        r2 is Ok <==> spec_complete_at(a, root, Seq::empty()).len() == 0,
        r2 matches Err(m) ==> m@ == spec_complete_at(a, root, Seq::empty()),
    ensures
        r1 is Ok <==> r2 is Ok,
        r1 is Err && r2 is Err ==> r1->Err_0@ == r2->Err_0@,
{
}

/// The reentrancy guard: a validation call for a type already being
/// validated in the same execution context reports success at once, in
/// both strategies, whatever the entity actually holds. Together with
/// the termination measure of the walk, this is what keeps cyclic
/// aggregate graphs from overflowing the call depth.
pub proof fn lemma_guard_short_circuit(a: Arena, idx: int, entered: Seq<Seq<char>>)
    requires
        a.wf(),
        0 <= idx < a.entities@.len(),
        guard_wf(a, entered),
        entered.contains(a.entities@[idx].type_key@),
    ensures
        spec_validate_at(a, idx, entered) is None,
        spec_complete_at(a, idx, entered).len() == 0,
{
}

/// Fail-fast validation of an entity, started from a fresh execution
/// context, reports exactly the diagnostic of the first failing
/// invocation of its annotated fields, in field order and then invocation
/// order.
pub proof fn lemma_entity_first_error(a: Arena, idx: int, i: int, j: int)
    requires
        a.wf(),
        0 <= idx < a.entities@.len(),
        0 <= i < a.entities@[idx].fields@.len(),
        0 <= j < a.entities@[idx].fields@[i].validators@.len(),
        !check_accepts(
            a.entities@[idx].fields@[i].validators@[j],
            a.entities@[idx].fields@[i].value,
        ),
        forall|i2: int, j2: int|
            0 <= i2 < a.entities@[idx].fields@.len() && 0 <= j2 < a.entities@[idx].fields@[
                i2
            ].validators@.len() && (i2 < i || (i2 == i && j2 < j)) ==> check_accepts(
                #[trigger] a.entities@[idx].fields@[i2].validators@[j2],
                a.entities@[idx].fields@[i2].value,
            ),
    ensures
        spec_validate_at(a, idx, Seq::empty()) == Some(
            check_failure(
                a.entities@[idx].fields@[i].validators@[j],
                a.entities@[idx].fields@[i].value,
            ),
        ),
{
    let e = a.entities@[idx];
    lemma_fields_first_failure_at(e.fields@, i, j);
}

/// For an entity without reference fields, started from a fresh
/// execution context: fail-fast validation succeeds exactly when every
/// invocation of every annotated field passes, and complete validation
/// reports exactly the annotated fields' error-map entries.
pub proof fn lemma_entity_ok_iff_all_pass(a: Arena, idx: int)
    requires
        a.wf(),
        0 <= idx < a.entities@.len(),
        a.entities@[idx].members@.len() == 0,
    ensures
        spec_validate_at(a, idx, Seq::empty()) is None <==> (forall|i: int, j: int|
            0 <= i < a.entities@[idx].fields@.len() && 0 <= j < a.entities@[idx].fields@[
                i
            ].validators@.len() ==> check_accepts(
                #[trigger] a.entities@[idx].fields@[i].validators@[j],
                a.entities@[idx].fields@[i].value,
            )),
        spec_complete_at(a, idx, Seq::empty()) == spec_field_entries(a.entities@[idx].fields@),
{
    let e = a.entities@[idx];
    let entered = Seq::<Seq<char>>::empty();
    lemma_guard_enter(a, entered, idx);
    lemma_fields_first_failure_none(e.fields@);
    assert(spec_members_first_failure(a, e.members@, entered.push(e.type_key@)) is None);
    assert(spec_member_entries(a, e.members@, entered.push(e.type_key@)) =~= Seq::<
        (Seq<char>, Seq<ErrorModel>),
    >::empty());
    assert(spec_complete_at(a, idx, entered) =~= spec_field_entries(e.fields@));
}

} // verus!
