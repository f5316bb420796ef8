//! The rule compiler's schema checks.
//!
//! A schema is compiled once, when the arena is assembled; validation
//! calls never re-check it. Compilation walks the entities in order and
//! reports the first authoring error it meets: inside one entity, first
//! an invocation that does not fit its field's value, then a repeated
//! reporting key, then a reference that points outside the arena.

use vstd::prelude::*;

use crate::aggregate::entity_keys;
use crate::aggregate::entity_local_wf;
use crate::aggregate::entity_targets_wf;
use crate::aggregate::field_keys;
use crate::aggregate::member_keys;
use crate::aggregate::Arena;
use crate::aggregate::Entity;
use crate::schema::applies_to;
use crate::schema::field_wf;
use crate::schema::spec_applies_to;
use crate::schema::FieldBinding;
use crate::schema::MemberField;
use crate::schema::SchemaError;
use crate::schema::FieldValue;
use crate::schema::ValidatorInvocation;

verus! {

/// The first invocation at or after `j` that does not fit `value`.
pub open spec fn spec_first_inapplicable_from(
    value: FieldValue,
    checks: Seq<ValidatorInvocation>,
    j: int,
) -> Option<int>
    decreases checks.len() - j,
{
    if j < 0 || j >= checks.len() {
        None
    } else if !spec_applies_to(checks[j], value) {
        Some(j)
    } else {
        spec_first_inapplicable_from(value, checks, j + 1)
    }
}

/// No invocation at or after `j` is inapplicable exactly when they all
/// fit.
pub proof fn lemma_first_inapplicable_none(
    value: FieldValue,
    checks: Seq<ValidatorInvocation>,
    j: int,
)
    requires
        0 <= j <= checks.len(),
    ensures
        spec_first_inapplicable_from(value, checks, j) is None <==> (forall|k: int|
            j <= k < checks.len() ==> spec_applies_to(#[trigger] checks[k], value)),
    decreases checks.len() - j,
{
    if j < checks.len() {
        lemma_first_inapplicable_none(value, checks, j + 1);
    }
}

/// The first field at or after `i` with an inapplicable invocation,
/// together with that invocation's position.
pub open spec fn spec_fields_first_bad_from(fields: Seq<FieldBinding>, i: int) -> Option<
    (int, int),
>
    decreases fields.len() - i,
{
    if i < 0 || i >= fields.len() {
        None
    } else {
        match spec_first_inapplicable_from(fields[i].value, fields[i].validators@, 0) {
            Some(j) => Some((i, j)),
            None => spec_fields_first_bad_from(fields, i + 1),
        }
    }
}

/// No field at or after `i` has an inapplicable invocation exactly when
/// they are all well formed.
pub proof fn lemma_fields_first_bad_none(fields: Seq<FieldBinding>, i: int)
    requires
        0 <= i <= fields.len(),
    ensures
        spec_fields_first_bad_from(fields, i) is None <==> (forall|k: int|
            i <= k < fields.len() ==> field_wf(#[trigger] fields[k])),
    decreases fields.len() - i,
{
    if i < fields.len() {
        lemma_first_inapplicable_none(fields[i].value, fields[i].validators@, 0);
        lemma_fields_first_bad_none(fields, i + 1);
    }
}

/// The first key at or after `j` that repeats an earlier key of the same
/// list.
pub open spec fn spec_dup_from(keys: Seq<Seq<char>>, j: int) -> Option<int>
    decreases keys.len() - j,
{
    if j < 0 || j >= keys.len() {
        None
    } else if exists|i: int| 0 <= i < j && #[trigger] keys[i] == keys[j] {
        Some(j)
    } else {
        spec_dup_from(keys, j + 1)
    }
}

/// No key at or after `j` repeats an earlier one exactly when every pair
/// whose later key sits at or after `j` differs.
pub proof fn lemma_dup_from_none(keys: Seq<Seq<char>>, j: int)
    requires
        0 <= j <= keys.len(),
    ensures
        spec_dup_from(keys, j) is None <==> (forall|p: int, q: int|
            0 <= p < q < keys.len() && j <= q ==> #[trigger] keys[p] != #[trigger] keys[q]),
    decreases keys.len() - j,
{
    if j < keys.len() {
        lemma_dup_from_none(keys, j + 1);
    }
}

/// The first member key at or after `j` that repeats a field key or an
/// earlier member key.
pub open spec fn spec_member_dup_from(fkeys: Seq<Seq<char>>, mkeys: Seq<Seq<char>>, j: int) -> Option<
    int,
>
    decreases mkeys.len() - j,
{
    if j < 0 || j >= mkeys.len() {
        None
    } else if fkeys.contains(mkeys[j]) || (exists|i: int|
        0 <= i < j && #[trigger] mkeys[i] == mkeys[j]) {
        Some(j)
    } else {
        spec_member_dup_from(fkeys, mkeys, j + 1)
    }
}

/// No member key at or after `j` collides exactly when each of them is
/// absent from the field keys and from the member keys before it.
pub proof fn lemma_member_dup_from_none(fkeys: Seq<Seq<char>>, mkeys: Seq<Seq<char>>, j: int)
    requires
        0 <= j <= mkeys.len(),
    ensures
        spec_member_dup_from(fkeys, mkeys, j) is None <==> (forall|q: int|
            j <= q < mkeys.len() ==> !fkeys.contains(#[trigger] mkeys[q]) && (forall|p: int|
                0 <= p < q ==> #[trigger] mkeys[p] != mkeys[q])),
    decreases mkeys.len() - j,
{
    if j < mkeys.len() {
        lemma_member_dup_from_none(fkeys, mkeys, j + 1);
    }
}

/// The two duplicate scans together decide exactly whether an entity's
/// reporting keys are pairwise distinct.
pub proof fn lemma_entity_keys_no_dup(e: Entity)
    ensures
        (spec_dup_from(field_keys(e), 0) is None && spec_member_dup_from(
            field_keys(e),
            member_keys(e),
            0,
        ) is None) <==> entity_keys(e).no_duplicates(),
{
    let fk = field_keys(e);
    let mk = member_keys(e);
    let all = entity_keys(e);
    lemma_dup_from_none(fk, 0);
    lemma_member_dup_from_none(fk, mk, 0);
    if spec_dup_from(fk, 0) is None && spec_member_dup_from(fk, mk, 0) is None {
        assert forall|p: int, q: int|
            0 <= p < all.len() && 0 <= q < all.len() && p != q implies all[p] != all[q] by {
            let lo = if p < q {
                p
            } else {
                q
            };
            let hi = if p < q {
                q
            } else {
                p
            };
            if hi < fk.len() {
                assert(all[lo] == fk[lo] && all[hi] == fk[hi]);
            } else if lo < fk.len() {
                assert(all[lo] == fk[lo] && all[hi] == mk[hi - fk.len()]);
                assert(!fk.contains(mk[hi - fk.len()]));
            } else {
                assert(all[lo] == mk[lo - fk.len()] && all[hi] == mk[hi - fk.len()]);
            }
        }
    }
    if all.no_duplicates() {
        assert forall|p: int, q: int|
            0 <= p < q < fk.len() implies #[trigger] fk[p] != #[trigger] fk[q] by {
            assert(all[p] == fk[p] && all[q] == fk[q]);
        }
        assert forall|q: int| 0 <= q < mk.len() implies !fk.contains(#[trigger] mk[q]) && (
        forall|p: int| 0 <= p < q ==> #[trigger] mk[p] != mk[q]) by {
            assert forall|p: int| 0 <= p < fk.len() implies fk[p] != mk[q] by {
                assert(all[p] == fk[p] && all[fk.len() + q] == mk[q]);
            }
            if fk.contains(mk[q]) {
                let p = choose|p: int| 0 <= p < fk.len() && fk[p] == mk[q];
            }
            assert forall|p: int| 0 <= p < q implies #[trigger] mk[p] != mk[q] by {
                assert(all[fk.len() + p] == mk[p] && all[fk.len() + q] == mk[q]);
            }
        }
    }
}

/// The first out-of-range reference at or after `t`.
pub open spec fn spec_first_oob_from(targets: Seq<usize>, n: int, t: int) -> Option<int>
    decreases targets.len() - t,
{
    if t < 0 || t >= targets.len() {
        None
    } else if targets[t] >= n {
        Some(t)
    } else {
        spec_first_oob_from(targets, n, t + 1)
    }
}

/// No reference at or after `t` is out of range exactly when they all
/// stay under `n`.
pub proof fn lemma_first_oob_none(targets: Seq<usize>, n: int, t: int)
    requires
        0 <= t <= targets.len(),
    ensures
        spec_first_oob_from(targets, n, t) is None <==> (forall|k: int|
            t <= k < targets.len() ==> (#[trigger] targets[k]) < n),
    decreases targets.len() - t,
{
    if t < targets.len() {
        lemma_first_oob_none(targets, n, t + 1);
    }
}

/// The first reference field at or after `j` with an out-of-range
/// reference, together with that reference's position.
pub open spec fn spec_members_first_oob_from(members: Seq<MemberField>, n: int, j: int) -> Option<
    (int, int),
>
    decreases members.len() - j,
{
    if j < 0 || j >= members.len() {
        None
    } else {
        match spec_first_oob_from(members[j].targets@, n, 0) {
            Some(t) => Some((j, t)),
            None => spec_members_first_oob_from(members, n, j + 1),
        }
    }
}

/// No reference field at or after `j` points outside exactly when all of
/// their references stay under `n`.
pub proof fn lemma_members_first_oob_none(members: Seq<MemberField>, n: int, j: int)
    requires
        0 <= j <= members.len(),
    ensures
        spec_members_first_oob_from(members, n, j) is None <==> (forall|k: int, t: int|
            j <= k < members.len() && 0 <= t < members[k].targets@.len() ==> (
            #[trigger] members[k].targets@[t]) < n),
    decreases members.len() - j,
{
    if j < members.len() {
        lemma_first_oob_none(members[j].targets@, n, 0);
        lemma_members_first_oob_none(members, n, j + 1);
    }
}

/// The first authoring error of the entity that would sit at `at` in an
/// arena of `n` entities, or `None` when the entity is well formed.
pub open spec fn spec_entity_violation(e: Entity, at: int, n: int) -> Option<SchemaError> {
    match spec_fields_first_bad_from(e.fields@, 0) {
        Some(ij) => Some(
            SchemaError::InvalidValidator {
                entity: at as usize,
                field: ij.0 as usize,
                validator: ij.1 as usize,
            },
        ),
        None => match spec_dup_from(field_keys(e), 0) {
            Some(k) => Some(SchemaError::DuplicateFieldKey { entity: at as usize, field: k as usize }),
            None => match spec_member_dup_from(field_keys(e), member_keys(e), 0) {
                Some(k) => Some(
                    SchemaError::DuplicateMemberKey { entity: at as usize, member: k as usize },
                ),
                None => match spec_members_first_oob_from(e.members@, n, 0) {
                    Some(mt) => Some(
                        SchemaError::TargetOutOfRange {
                            entity: at as usize,
                            member: mt.0 as usize,
                            target: mt.1 as usize,
                        },
                    ),
                    None => None,
                },
            },
        },
    }
}

/// An entity reports no violation exactly when it is well formed on its
/// own and every reference stays inside an arena of `n` entities.
pub proof fn lemma_entity_violation_none(e: Entity, at: int, n: int)
    ensures
        spec_entity_violation(e, at, n) is None <==> (entity_local_wf(e) && entity_targets_wf(
            e,
            n,
        )),
{
    lemma_fields_first_bad_none(e.fields@, 0);
    lemma_entity_keys_no_dup(e);
    lemma_members_first_oob_none(e.members@, n, 0);
}

/// The first authoring error among the entities at or after `at`, for an
/// arena of all of them.
pub open spec fn spec_schema_violation_from(entities: Seq<Entity>, at: int) -> Option<SchemaError>
    decreases entities.len() - at,
{
    if at < 0 || at >= entities.len() {
        None
    } else {
        match spec_entity_violation(entities[at], at, entities.len() as int) {
            Some(v) => Some(v),
            None => spec_schema_violation_from(entities, at + 1),
        }
    }
}

/// The first authoring error of a whole schema, in entity order.
pub open spec fn spec_schema_violation(entities: Seq<Entity>) -> Option<SchemaError> {
    spec_schema_violation_from(entities, 0)
}

/// No entity at or after `at` reports a violation exactly when they are
/// all well formed.
pub proof fn lemma_schema_violation_none(entities: Seq<Entity>, at: int)
    requires
        0 <= at <= entities.len(),
    ensures
        spec_schema_violation_from(entities, at) is None <==> (forall|k: int|
            at <= k < entities.len() ==> entity_local_wf(#[trigger] entities[k])
                && entity_targets_wf(entities[k], entities.len() as int)),
    decreases entities.len() - at,
{
    if at < entities.len() {
        lemma_entity_violation_none(entities[at], at, entities.len() as int);
        lemma_schema_violation_none(entities, at + 1);
    }
}

/// Find the first authoring error of one entity, as it would sit at `at`
/// in an arena of `n` entities.
#[verifier::loop_isolation(false)]
fn check_entity(e: &Entity, at: usize, n: usize) -> (r: Option<SchemaError>)
    ensures
        r == spec_entity_violation(*e, at as int, n as int),
{
    let nf = e.fields.len();
    let mut i: usize = 0;
    while i < nf
        invariant
            i <= nf,
            spec_fields_first_bad_from(e.fields@, 0) == spec_fields_first_bad_from(
                e.fields@,
                i as int,
            ),
        decreases nf - i,
    {
        let f = &e.fields[i];
        let nv = f.validators.len();
        let mut j: usize = 0;
        while j < nv
            invariant
                i < nf,
                f == e.fields@[i as int],
                j <= nv,
                spec_first_inapplicable_from(f.value, f.validators@, 0)
                    == spec_first_inapplicable_from(f.value, f.validators@, j as int),
            decreases nv - j,
        {
            if !applies_to(&f.validators[j], &f.value) {
                return Some(
                    SchemaError::InvalidValidator { entity: at, field: i, validator: j },
                );
            }
            j = j + 1;
        }
        i = i + 1;
    }

    let ghost fk = field_keys(*e);
    let ghost mk = member_keys(*e);
    let mut k2: usize = 0;
    while k2 < nf
        invariant
            k2 <= nf,
            spec_fields_first_bad_from(e.fields@, 0) is None,
            spec_dup_from(fk, 0) == spec_dup_from(fk, k2 as int),
        decreases nf - k2,
    {
        let mut k1: usize = 0;
        let mut found = false;
        while !found && k1 < k2
            invariant
                k1 <= k2 < nf,
                found ==> exists|i: int| 0 <= i < k2 && #[trigger] fk[i] == fk[k2 as int],
                !found ==> forall|i: int| 0 <= i < k1 ==> #[trigger] fk[i] != fk[k2 as int],
            decreases k2 - k1, (if found {
                0int
            } else {
                1int
            }),
        {
            if e.fields[k1].key == e.fields[k2].key {
                proof {
                    assert(fk[k1 as int] == fk[k2 as int]);
                }
                found = true;
            } else {
                k1 = k1 + 1;
            }
        }
        if found {
            return Some(SchemaError::DuplicateFieldKey { entity: at, field: k2 });
        }
        k2 = k2 + 1;
    }

    let nm = e.members.len();
    let mut m2: usize = 0;
    while m2 < nm
        invariant
            m2 <= nm,
            spec_fields_first_bad_from(e.fields@, 0) is None,
            spec_dup_from(fk, 0) is None,
            spec_member_dup_from(fk, mk, 0) == spec_member_dup_from(fk, mk, m2 as int),
        decreases nm - m2,
    {
        let mut k1: usize = 0;
        let mut found = false;
        while !found && k1 < nf
            invariant
                k1 <= nf,
                m2 < nm,
                found ==> fk.contains(mk[m2 as int]),
                !found ==> forall|i: int| 0 <= i < k1 ==> #[trigger] fk[i] != mk[m2 as int],
            decreases nf - k1, (if found {
                0int
            } else {
                1int
            }),
        {
            if e.fields[k1].key == e.members[m2].key {
                proof {
                    assert(fk[k1 as int] == mk[m2 as int]);
                }
                found = true;
            } else {
                k1 = k1 + 1;
            }
        }
        let mut m1: usize = 0;
        while !found && m1 < m2
            invariant
                m1 <= m2 < nm,
                found ==> fk.contains(mk[m2 as int]) || (exists|i: int|
                    0 <= i < m2 && #[trigger] mk[i] == mk[m2 as int]),
                !found ==> !fk.contains(mk[m2 as int]),
                !found ==> forall|i: int| 0 <= i < m1 ==> #[trigger] mk[i] != mk[m2 as int],
            decreases m2 - m1, (if found {
                0int
            } else {
                1int
            }),
        {
            if e.members[m1].key == e.members[m2].key {
                proof {
                    assert(mk[m1 as int] == mk[m2 as int]);
                }
                found = true;
            } else {
                m1 = m1 + 1;
            }
        }
        if found {
            return Some(SchemaError::DuplicateMemberKey { entity: at, member: m2 });
        }
        proof {
            assert(!fk.contains(mk[m2 as int]));
            assert(forall|i: int| 0 <= i < m2 ==> #[trigger] mk[i] != mk[m2 as int]);
        }
        m2 = m2 + 1;
    }

    let mut j: usize = 0;
    while j < nm
        invariant
            j <= nm,
            spec_fields_first_bad_from(e.fields@, 0) is None,
            spec_dup_from(fk, 0) is None,
            spec_member_dup_from(fk, mk, 0) is None,
            spec_members_first_oob_from(e.members@, n as int, 0)
                == spec_members_first_oob_from(e.members@, n as int, j as int),
        decreases nm - j,
    {
        let member = &e.members[j];
        let nt = member.targets.len();
        let mut t: usize = 0;
        while t < nt
            invariant
                j < nm,
                member == e.members@[j as int],
                t <= nt,
                spec_first_oob_from(member.targets@, n as int, 0) == spec_first_oob_from(
                    member.targets@,
                    n as int,
                    t as int,
                ),
            decreases nt - t,
        {
            if member.targets[t] >= n {
                return Some(SchemaError::TargetOutOfRange { entity: at, member: j, target: t });
            }
            t = t + 1;
        }
        j = j + 1;
    }
    None
}

impl Arena {
    /// Compile a schema: check every entity once, in order, and either
    /// hand back the arena, now known well formed, or report the first
    /// authoring error. Validation calls rely on this check and never
    /// repeat it.
    #[verifier::loop_isolation(false)]
    pub fn compile(entities: Vec<Entity>) -> (r: Result<Arena, SchemaError>)
        ensures
            r matches Ok(a) ==> a.entities@ == entities@ && a.wf(),
            r is Ok <==> spec_schema_violation(entities@) is None,
            r matches Err(v) ==> Some(v) == spec_schema_violation(entities@),
    {
        let n = entities.len();
        let mut at: usize = 0;
        while at < n
            invariant
                at <= n,
                n == entities@.len(),
                spec_schema_violation_from(entities@, 0) == spec_schema_violation_from(
                    entities@,
                    at as int,
                ),
            decreases n - at,
        {
            match check_entity(&entities[at], at, n) {
                Some(v) => {
                    return Err(v);
                },
                None => {
                },
            }
            at = at + 1;
        }
        proof {
            lemma_schema_violation_none(entities@, 0);
        }
        Ok(Arena { entities })
    }
}

} // verus!
