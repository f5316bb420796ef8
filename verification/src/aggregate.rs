//! Self-validating entities, the arena that holds them, the reentrancy
//! guard and the two generated evaluation strategies.
//!
//! Entities reference one another by index into a shared [`Arena`], so a
//! cyclic aggregate graph is expressed without aliasing. A validation call
//! walks an entity's annotated fields in declaration order, then its
//! reference fields in declaration order, recursing into referenced
//! entities. The recursion is kept bounded by an [`ExecutionContext`]: a
//! set of entity type keys currently being validated. A nested call for a
//! type already in the context reports success at once, without looking at
//! the nested instance. The guard is keyed on type identity, not instance
//! identity, on purpose: two distinct instances of one type nested in the
//! same context also short-circuit each other.

use vstd::prelude::*;
use vstd::seq_lib::seq_to_set_is_finite;
use vstd::set_lib::lemma_len_subset;

use crate::engine::error::ErrorModel;
use crate::engine::error::ValidationError;
use crate::schema::collect_field_failures;
use crate::schema::field_wf;
use crate::schema::spec_checks_failures;
use crate::schema::spec_checks_first_failure;
use crate::schema::validate_field;
use crate::schema::FieldBinding;
use crate::schema::MemberField;
use crate::text::str_eq;

verus! {

/// One self-validating entity: its type key (the identity the reentrancy
/// guard is keyed on), its annotated fields and its reference fields.
#[derive(Debug)]
pub struct Entity {
    pub type_key: String,
    pub fields: Vec<FieldBinding>,
    pub members: Vec<MemberField>,
}

/// The shared store of entities; reference fields hold indices into it.
#[derive(Debug)]
pub struct Arena {
    pub entities: Vec<Entity>,
}

/// The execution context a validation call runs in: the set of entity
/// type keys whose validation has been entered and not yet exited. Each
/// context is owned by one caller; independent top-level calls that start
/// from a fresh context cannot see one another.
#[derive(Debug)]
pub struct ExecutionContext {
    pub entered: Vec<String>,
}

impl View for ExecutionContext {
    type V = Seq<Seq<char>>;

    open spec fn view(&self) -> Seq<Seq<char>> {
        self.entered@.map_values(|s: String| s@)
    }
}

impl ExecutionContext {
    /// A fresh context: no type is being validated.
    pub fn new() -> (r: Self)
        ensures
            r@ == Seq::<Seq<char>>::empty(),
    {
        let r = ExecutionContext { entered: Vec::new() };
        proof {
            assert(r@ =~= Seq::<Seq<char>>::empty());
        }
        r
    }

    /// Whether validation of the type named `key` has been entered.
    pub fn is_entered(&self, key: &String) -> (b: bool)
        ensures
            b == self@.contains(key@),
    {
        let n = self.entered.len();
        let mut i: usize = 0;
        while i < n
            invariant
                n == self.entered@.len(),
                i <= n,
                forall|k: int| 0 <= k < i ==> self@[k] != key@,
            decreases n - i,
        {
            if self.entered[i] == *key {
                proof {
                    assert(self@[i as int] == key@);
                }
                return true;
            }
            i = i + 1;
        }
        proof {
            assert(!self@.contains(key@)) by {
                if self@.contains(key@) {
                    let k = choose|k: int| 0 <= k < self@.len() && self@[k] == key@;
                }
            }
        }
        false
    }

    /// Record that validation of the type named `key` has begun.
    pub fn enter(&mut self, key: &String)
        ensures
            final(self)@ == old(self)@.push(key@),
    {
        let ghost before = self@;
        self.entered.push(key.clone());
        proof {
            assert(self@ =~= before.push(key@));
        }
    }

    /// Record that the most recently entered validation has returned.
    pub fn exit(&mut self)
        requires
            old(self)@.len() > 0,
        ensures
            final(self)@ == old(self)@.drop_last(),
    {
        let ghost before = self@;
        let _popped = self.entered.pop();
        proof {
            assert(self@ =~= before.drop_last());
        }
    }
}

/// The reporting keys of an entity's annotated fields, in declaration
/// order.
pub open spec fn field_keys(e: Entity) -> Seq<Seq<char>> {
    e.fields@.map_values(|f: FieldBinding| f.key@)
}

/// The reporting keys of an entity's reference fields, in declaration
/// order.
pub open spec fn member_keys(e: Entity) -> Seq<Seq<char>> {
    e.members@.map_values(|m: MemberField| m.key@)
}

/// The reporting keys of an entity: annotated fields first, reference
/// fields after them, each in declaration order.
pub open spec fn entity_keys(e: Entity) -> Seq<Seq<char>> {
    field_keys(e) + member_keys(e)
}

/// Whether an entity is well formed on its own: every invocation fits its
/// field's value, and no two fields share a reporting key.
pub open spec fn entity_local_wf(e: Entity) -> bool {
    &&& forall|i: int| 0 <= i < e.fields@.len() ==> field_wf(#[trigger] e.fields@[i])
    &&& entity_keys(e).no_duplicates()
}

/// Whether every reference of an entity stays inside an arena of `n`
/// entities.
pub open spec fn entity_targets_wf(e: Entity, n: int) -> bool {
    forall|j: int, t: int|
        0 <= j < e.members@.len() && 0 <= t < e.members@[j].targets@.len() ==> (
        #[trigger] e.members@[j].targets@[t]) < n
}

impl Arena {
    /// The type keys of the entities, in arena order.
    pub open spec fn key_seq(self) -> Seq<Seq<char>> {
        self.entities@.map_values(|e: Entity| e.type_key@)
    }

    /// Whether the whole arena is well formed: each entity on its own,
    /// with every reference in range.
    pub open spec fn wf(self) -> bool {
        forall|i: int|
            0 <= i < self.entities@.len() ==> entity_local_wf(#[trigger] self.entities@[i])
                && entity_targets_wf(self.entities@[i], self.entities@.len() as int)
    }
}

/// Whether a guard state fits an arena: no type key is entered twice, and
/// every entered key is the type key of some entity.
pub open spec fn guard_wf(a: Arena, entered: Seq<Seq<char>>) -> bool {
    &&& entered.no_duplicates()
    &&& forall|i: int| 0 <= i < entered.len() ==> a.key_seq().contains(#[trigger] entered[i])
}

/// A well-formed guard state never holds more keys than the arena holds
/// entities: the keys are distinct and each one occurs in the arena.
pub proof fn lemma_guard_bound(a: Arena, entered: Seq<Seq<char>>)
    requires
        guard_wf(a, entered),
    ensures
        entered.len() <= a.entities@.len(),
{
    entered.unique_seq_to_set();
    let ks = a.key_seq();
    ks.lemma_cardinality_of_set();
    assert(entered.to_set().subset_of(ks.to_set())) by {
        assert forall|x: Seq<char>| entered.to_set().contains(x) implies ks.to_set().contains(
            x,
        ) by {
            let i = choose|i: int| 0 <= i < entered.len() && entered[i] == x;
            assert(ks.contains(entered[i]));
        }
    }
    seq_to_set_is_finite::<Seq<char>>(ks);
    lemma_len_subset(entered.to_set(), ks.to_set());
}

/// Entering a type that is not yet entered keeps the guard well formed,
/// and leaves room: the grown guard still fits the arena.
pub proof fn lemma_guard_enter(a: Arena, entered: Seq<Seq<char>>, idx: int)
    requires
        guard_wf(a, entered),
        0 <= idx < a.entities@.len(),
        !entered.contains(a.entities@[idx].type_key@),
    ensures
        guard_wf(a, entered.push(a.entities@[idx].type_key@)),
        entered.push(a.entities@[idx].type_key@).len() <= a.entities@.len(),
{
    let key = a.entities@[idx].type_key@;
    let p = entered.push(key);
    assert(p.no_duplicates()) by {
        assert forall|i: int, j: int| 0 <= i < p.len() && 0 <= j < p.len() && i != j implies p[i]
            != p[j] by {
            if i < entered.len() && j < entered.len() {
            } else if j == entered.len() {
                if p[i] == p[j] {
                    assert(entered[i] == key);
                }
            } else {
                if p[i] == p[j] {
                    assert(entered[j] == key);
                }
            }
        }
    }
    assert forall|i: int| 0 <= i < p.len() implies a.key_seq().contains(#[trigger] p[i]) by {
        if i == entered.len() {
            assert(a.key_seq()[idx] == key);
        }
    }
    lemma_guard_bound(a, p);
}

/// The first failing invocation across a list of fields, walking fields
/// in declaration order and each field's invocations in declaration
/// order.
pub open spec fn spec_fields_first_failure(fields: Seq<FieldBinding>) -> Option<ErrorModel>
    decreases fields.len(),
{
    if fields.len() == 0 {
        None
    } else {
        match spec_checks_first_failure(fields.first().value, fields.first().validators@) {
            Some(e) => Some(e),
            None => spec_fields_first_failure(fields.drop_first()),
        }
    }
}

/// Fail-fast validation of the entity at `idx`: `None` when it passes,
/// otherwise the first diagnostic, walking annotated fields first, then
/// referenced entities. A type already entered passes at once.
pub open spec fn spec_validate_at(a: Arena, idx: int, entered: Seq<Seq<char>>) -> Option<ErrorModel>
    decreases a.entities@.len() - entered.len(), 0int, 0int,
        when a.wf() && 0 <= idx < a.entities@.len() && guard_wf(a, entered)
        via spec_validate_at_dec
{
    let e = a.entities@[idx];
    if entered.contains(e.type_key@) {
        None
    } else {
        match spec_fields_first_failure(e.fields@) {
            Some(err) => Some(err),
            None => spec_members_first_failure(a, e.members@, entered.push(e.type_key@)),
        }
    }
}

/// The first failing referenced entity's diagnostic across a list of
/// reference fields, in declaration order.
pub open spec fn spec_members_first_failure(
    a: Arena,
    members: Seq<MemberField>,
    entered: Seq<Seq<char>>,
) -> Option<ErrorModel>
    decreases a.entities@.len() - entered.len(), 2int, members.len(),
        when a.wf() && guard_wf(a, entered) && (forall|j: int, t: int|
        0 <= j < members.len() && 0 <= t < members[j].targets@.len() ==> (
        #[trigger] members[j].targets@[t]) < a.entities@.len())
        via spec_members_first_failure_dec
{
    if members.len() == 0 {
        None
    } else {
        match spec_targets_first_failure(a, members.first().targets@, entered) {
            Some(e) => Some(e),
            None => spec_members_first_failure(a, members.drop_first(), entered),
        }
    }
}

/// The first failing entity's diagnostic across a list of referenced
/// entities, in declaration order.
pub open spec fn spec_targets_first_failure(
    a: Arena,
    targets: Seq<usize>,
    entered: Seq<Seq<char>>,
) -> Option<ErrorModel>
    decreases a.entities@.len() - entered.len(), 1int, targets.len(),
        when a.wf() && guard_wf(a, entered) && (forall|t: int|
        0 <= t < targets.len() ==> (#[trigger] targets[t]) < a.entities@.len())
        via spec_targets_first_failure_dec
{
    if targets.len() == 0 {
        None
    } else {
        match spec_validate_at(a, targets.first() as int, entered) {
            Some(e) => Some(e),
            None => spec_targets_first_failure(a, targets.drop_first(), entered),
        }
    }
}

#[via_fn]
proof fn spec_validate_at_dec(a: Arena, idx: int, entered: Seq<Seq<char>>) {
    let e = a.entities@[idx];
    if !entered.contains(e.type_key@) {
        lemma_guard_enter(a, entered, idx);
    }
}

#[via_fn]
proof fn spec_members_first_failure_dec(a: Arena, members: Seq<MemberField>, entered: Seq<
    Seq<char>,
>) {
    lemma_guard_bound(a, entered);
    if members.len() > 0 {
        assert forall|j: int, t: int|
            0 <= j < members.drop_first().len() && 0 <= t
                < members.drop_first()[j].targets@.len() implies (
        #[trigger] members.drop_first()[j].targets@[t]) < a.entities@.len() by {
            assert(members.drop_first()[j] == members[j + 1]);
        }
        assert forall|t: int|
            0 <= t < members.first().targets@.len() implies (#[trigger] members.first().targets@[t])
            < a.entities@.len() by {
            assert(members[0].targets@[t] < a.entities@.len());
        }
    }
}

#[via_fn]
proof fn spec_targets_first_failure_dec(a: Arena, targets: Seq<usize>, entered: Seq<Seq<char>>) {
    lemma_guard_bound(a, entered);
    if targets.len() > 0 {
        assert forall|t: int|
            0 <= t < targets.drop_first().len() implies (#[trigger] targets.drop_first()[t])
            < a.entities@.len() by {
            assert(targets.drop_first()[t] == targets[t + 1]);
        }
    }
}

/// The model of a list of error-map entries: each key with its error
/// list, in the order the entries were appended.
pub open spec fn entries_view(entries: Seq<(String, Vec<ValidationError>)>) -> Seq<
    (Seq<char>, Seq<ErrorModel>),
> {
    entries.map_values(|p: (String, Vec<ValidationError>)| (p.0@, p.1.deep_view()))
}

/// The aggregate failure that complete validation reports: each field
/// that had at least one failing check, with that field's diagnostics in
/// declared order. Entries follow field declaration order, annotated
/// fields first, reference fields after them; a key is present exactly
/// when at least one of its field's checks failed, so no entry has an
/// empty list.
#[derive(Debug)]
pub struct ErrorMap {
    pub entries: Vec<(String, Vec<ValidationError>)>,
}

impl View for ErrorMap {
    type V = Seq<(Seq<char>, Seq<ErrorModel>)>;

    open spec fn view(&self) -> Seq<(Seq<char>, Seq<ErrorModel>)> {
        entries_view(self.entries@)
    }
}

/// The error list of the first entry keyed `key`, if any.
pub open spec fn spec_lookup(entries: Seq<(Seq<char>, Seq<ErrorModel>)>, key: Seq<char>) -> Option<
    Seq<ErrorModel>,
>
    decreases entries.len(),
{
    if entries.len() == 0 {
        None
    } else if entries.first().0 == key {
        Some(entries.first().1)
    } else {
        spec_lookup(entries.drop_first(), key)
    }
}

impl ErrorMap {
    /// How many fields failed.
    pub fn len(&self) -> (n: usize)
        ensures
            n == self@.len(),
    {
        self.entries.len()
    }

    /// Whether no field failed.
    pub fn is_empty(&self) -> (b: bool)
        ensures
            b == (self@.len() == 0),
    {
        self.entries.len() == 0
    }

    /// The errors recorded under `key`: the first entry with that key,
    /// or `None` when the field did not fail.
    #[verifier::loop_isolation(false)]
    pub fn get(&self, key: &str) -> (r: Option<&Vec<ValidationError>>)
        ensures
            r matches Some(v) ==> spec_lookup(self@, key@) == Some(v.deep_view()),
            r is None <==> spec_lookup(self@, key@) is None,
    {
        let n = self.entries.len();
        proof {
            assert(self@.subrange(0, n as int) =~= self@);
        }
        let mut i: usize = 0;
        while i < n
            invariant
                n == self.entries@.len(),
                i <= n,
                spec_lookup(self@, key@) == spec_lookup(
                    self@.subrange(i as int, n as int),
                    key@,
                ),
            decreases n - i,
        {
            let ghost rest = self@.subrange(i as int, n as int);
            proof {
                assert(rest.first() == self@[i as int]);
                assert(rest.drop_first() =~= self@.subrange(i as int + 1, n as int));
            }
            if str_eq(self.entries[i].0.as_str(), key) {
                return Some(&self.entries[i].1);
            }
            i = i + 1;
        }
        proof {
            assert(self@.subrange(n as int, n as int) =~= Seq::<(Seq<char>, Seq<ErrorModel>)>::empty());
        }
        None
    }
}

/// The error-map entries contributed by a list of annotated fields, in
/// declaration order: one entry per field with at least one failing
/// check.
pub open spec fn spec_field_entries(fields: Seq<FieldBinding>) -> Seq<(Seq<char>, Seq<ErrorModel>)>
    decreases fields.len(),
{
    if fields.len() == 0 {
        Seq::empty()
    } else {
        let init = spec_field_entries(fields.drop_last());
        let f = fields.last();
        let errs = spec_checks_failures(f.value, f.validators@);
        if errs.len() > 0 {
            init.push((f.key@, errs))
        } else {
            init
        }
    }
}

/// The diagnostics of the failing entities among `targets`, in order;
/// each referenced entity counts as one fail-fast check.
pub open spec fn spec_target_failures(
    a: Arena,
    targets: Seq<usize>,
    entered: Seq<Seq<char>>,
) -> Seq<ErrorModel>
    decreases targets.len(),
{
    if targets.len() == 0 {
        Seq::empty()
    } else {
        let init = spec_target_failures(a, targets.drop_last(), entered);
        match spec_validate_at(a, targets.last() as int, entered) {
            Some(e) => init.push(e),
            None => init,
        }
    }
}

/// The error-map entries contributed by a list of reference fields, in
/// declaration order: one entry per reference field with at least one
/// failing referenced entity.
pub open spec fn spec_member_entries(
    a: Arena,
    members: Seq<MemberField>,
    entered: Seq<Seq<char>>,
) -> Seq<(Seq<char>, Seq<ErrorModel>)>
    decreases members.len(),
{
    if members.len() == 0 {
        Seq::empty()
    } else {
        let init = spec_member_entries(a, members.drop_last(), entered);
        let m = members.last();
        let errs = spec_target_failures(a, m.targets@, entered);
        if errs.len() > 0 {
            init.push((m.key@, errs))
        } else {
            init
        }
    }
}

/// Complete validation of the entity at `idx`: the error-map entries it
/// reports. A type already entered reports nothing.
pub open spec fn spec_complete_at(a: Arena, idx: int, entered: Seq<Seq<char>>) -> Seq<
    (Seq<char>, Seq<ErrorModel>),
> {
    let e = a.entities@[idx];
    if entered.contains(e.type_key@) {
        Seq::empty()
    } else {
        spec_field_entries(e.fields@) + spec_member_entries(
            a,
            e.members@,
            entered.push(e.type_key@),
        )
    }
}

impl Arena {
    /// Fail-fast validation of the entity at `idx` inside the given
    /// execution context. A nested call for a type already entered in
    /// this context returns `Ok(())` at once, without evaluating any
    /// validator; the context is always restored before returning.
    #[verifier::loop_isolation(false)]
    pub fn validate_at(&self, idx: usize, ctx: &mut ExecutionContext) -> (r: Result<
        (),
        ValidationError,
    >)
        requires
            self.wf(),
            idx < self.entities@.len(),
            guard_wf(*self, old(ctx)@),
        ensures
            final(ctx)@ == old(ctx)@,
            r is Ok <==> spec_validate_at(*self, idx as int, old(ctx)@) is None,
            r matches Err(e) ==> Some(e@) == spec_validate_at(*self, idx as int, old(ctx)@),
        decreases self.entities@.len() - old(ctx)@.len(),
    {
        let entity = &self.entities[idx];
        if ctx.is_entered(&entity.type_key) {
            return Ok(());
        }
        let ghost before = ctx@;
        proof {
            lemma_guard_enter(*self, before, idx as int);
        }
        ctx.enter(&entity.type_key);
        let ghost inside = ctx@;

        let nf = entity.fields.len();
        proof {
            assert(entity.fields@.subrange(0, nf as int) =~= entity.fields@);
        }
        let mut i: usize = 0;
        while i < nf
            invariant
                self.wf(),
                idx < self.entities@.len(),
                entity == self.entities@[idx as int],
                nf == entity.fields@.len(),
                i <= nf,
                ctx@ == inside,
                inside == before.push(entity.type_key@),
                spec_fields_first_failure(entity.fields@) == spec_fields_first_failure(
                    entity.fields@.subrange(i as int, nf as int),
                ),
            decreases nf - i,
        {
            let ghost rest = entity.fields@.subrange(i as int, nf as int);
            proof {
                assert(rest.first() == entity.fields@[i as int]);
                assert(rest.drop_first() =~= entity.fields@.subrange(i as int + 1, nf as int));
            }
            match validate_field(&entity.fields[i]) {
                Err(e) => {
                    ctx.exit();
                    proof {
                        assert(ctx@ =~= before);
                        assert(spec_validate_at(*self, idx as int, before) == Some(e@));
                    }
                    return Err(e);
                },
                Ok(()) => {
                    i = i + 1;
                },
            }
        }
        proof {
            assert(entity.fields@.subrange(nf as int, nf as int) =~= Seq::<FieldBinding>::empty());
            assert(spec_fields_first_failure(entity.fields@) is None);
        }

        let nm = entity.members.len();
        proof {
            assert(entity.members@.subrange(0, nm as int) =~= entity.members@);
        }
        let mut j: usize = 0;
        while j < nm
            invariant
                self.wf(),
                idx < self.entities@.len(),
                entity == self.entities@[idx as int],
                nm == entity.members@.len(),
                j <= nm,
                ctx@ == inside,
                inside == before.push(entity.type_key@),
                guard_wf(*self, inside),
                spec_fields_first_failure(entity.fields@) is None,
                spec_members_first_failure(*self, entity.members@, inside)
                    == spec_members_first_failure(
                    *self,
                    entity.members@.subrange(j as int, nm as int),
                    inside,
                ),
            decreases nm - j,
        {
            let ghost mrest = entity.members@.subrange(j as int, nm as int);
            proof {
                assert(mrest.first() == entity.members@[j as int]);
                assert(mrest.drop_first() =~= entity.members@.subrange(j as int + 1, nm as int));
            }
            let member = &entity.members[j];
            let nt = member.targets.len();
            proof {
                assert(member.targets@.subrange(0, nt as int) =~= member.targets@);
            }
            let mut t: usize = 0;
            while t < nt
                invariant
                    self.wf(),
                    idx < self.entities@.len(),
                    entity == self.entities@[idx as int],
                    j < entity.members@.len(),
                    member == entity.members@[j as int],
                    nt == member.targets@.len(),
                    t <= nt,
                    ctx@ == inside,
                    inside == before.push(entity.type_key@),
                    guard_wf(*self, inside),
                    spec_targets_first_failure(*self, member.targets@, inside)
                        == spec_targets_first_failure(
                        *self,
                        member.targets@.subrange(t as int, nt as int),
                        inside,
                    ),
                decreases nt - t,
            {
                let ghost trest = member.targets@.subrange(t as int, nt as int);
                proof {
                    assert(trest.first() == member.targets@[t as int]);
                    assert(trest.drop_first() =~= member.targets@.subrange(
                        t as int + 1,
                        nt as int,
                    ));
                    assert(member.targets@[t as int] < self.entities@.len());
                    lemma_guard_bound(*self, inside);
                }
                let target = member.targets[t];
                match self.validate_at(target, ctx) {
                    Err(e) => {
                        ctx.exit();
                        proof {
                            assert(ctx@ =~= before);
                            assert(spec_validate_at(*self, idx as int, before) == Some(e@));
                        }
                        return Err(e);
                    },
                    Ok(()) => {
                        t = t + 1;
                    },
                }
            }
            proof {
                assert(member.targets@.subrange(nt as int, nt as int) =~= Seq::<usize>::empty());
                assert(spec_targets_first_failure(*self, member.targets@, inside) is None);
            }
            j = j + 1;
        }
        proof {
            assert(entity.members@.subrange(nm as int, nm as int) =~= Seq::<MemberField>::empty());
            assert(spec_members_first_failure(*self, entity.members@, inside) is None);
        }
        ctx.exit();
        proof {
            assert(ctx@ =~= before);
        }
        Ok(())
    }

    /// Complete validation of the entity at `idx` inside the given
    /// execution context: never stops early, and groups every diagnostic
    /// under the key of the field it came from. A nested call for a type
    /// already entered in this context returns `Ok(())` at once.
    #[verifier::loop_isolation(false)]
    pub fn complete_validate_at(&self, idx: usize, ctx: &mut ExecutionContext) -> (r: Result<
        (),
        ErrorMap,
    >)
        requires
            self.wf(),
            idx < self.entities@.len(),
            guard_wf(*self, old(ctx)@),
        ensures
            final(ctx)@ == old(ctx)@,
            r is Ok <==> spec_complete_at(*self, idx as int, old(ctx)@).len() == 0,
            r matches Err(m) ==> m@ == spec_complete_at(*self, idx as int, old(ctx)@),
    {
        let entity = &self.entities[idx];
        if ctx.is_entered(&entity.type_key) {
            return Ok(());
        }
        let ghost before = ctx@;
        proof {
            lemma_guard_enter(*self, before, idx as int);
        }
        ctx.enter(&entity.type_key);
        let ghost inside = ctx@;

        let mut entries: Vec<(String, Vec<ValidationError>)> = Vec::new();

        let nf = entity.fields.len();
        proof {
            assert(entries_view(entries@) =~= spec_field_entries(entity.fields@.subrange(0, 0)));
        }
        let mut i: usize = 0;
        while i < nf
            invariant
                nf == entity.fields@.len(),
                i <= nf,
                ctx@ == inside,
                entries_view(entries@) == spec_field_entries(
                    entity.fields@.subrange(0, i as int),
                ),
            decreases nf - i,
        {
            let ghost prefix = entity.fields@.subrange(0, i as int + 1);
            proof {
                assert(prefix.last() == entity.fields@[i as int]);
                assert(prefix.drop_last() =~= entity.fields@.subrange(0, i as int));
            }
            let ghost entries_before = entries_view(entries@);
            let errs = collect_field_failures(&entity.fields[i]);
            if errs.len() > 0 {
                let ghost errs_model = errs.deep_view();
                entries.push((entity.fields[i].key.clone(), errs));
                proof {
                    assert(entries_view(entries@) =~= entries_before.push(
                        (entity.fields@[i as int].key@, errs_model),
                    ));
                }
            }
            i = i + 1;
        }
        proof {
            assert(entity.fields@.subrange(0, nf as int) =~= entity.fields@);
        }

        let nm = entity.members.len();
        proof {
            assert(entity.members@.subrange(0, 0) =~= Seq::<MemberField>::empty());
        }
        let mut j: usize = 0;
        while j < nm
            invariant
                nm == entity.members@.len(),
                j <= nm,
                ctx@ == inside,
                entries_view(entries@) == spec_field_entries(entity.fields@)
                    + spec_member_entries(
                    *self,
                    entity.members@.subrange(0, j as int),
                    inside,
                ),
            decreases nm - j,
        {
            let ghost mprefix = entity.members@.subrange(0, j as int + 1);
            proof {
                assert(mprefix.last() == entity.members@[j as int]);
                assert(mprefix.drop_last() =~= entity.members@.subrange(0, j as int));
            }
            let member = &entity.members[j];
            let nt = member.targets.len();
            let mut errs: Vec<ValidationError> = Vec::new();
            proof {
                assert(errs.deep_view() =~= spec_target_failures(
                    *self,
                    member.targets@.subrange(0, 0),
                    inside,
                ));
            }
            let mut t: usize = 0;
            while t < nt
                invariant
                    j < entity.members@.len(),
                    member == entity.members@[j as int],
                    nt == member.targets@.len(),
                    t <= nt,
                    ctx@ == inside,
                    errs.deep_view() == spec_target_failures(
                        *self,
                        member.targets@.subrange(0, t as int),
                        inside,
                    ),
                decreases nt - t,
            {
                let ghost tprefix = member.targets@.subrange(0, t as int + 1);
                proof {
                    assert(tprefix.last() == member.targets@[t as int]);
                    assert(tprefix.drop_last() =~= member.targets@.subrange(0, t as int));
                    assert(member.targets@[t as int] < self.entities@.len());
                }
                let ghost errs_before = errs.deep_view();
                let target = member.targets[t];
                match self.validate_at(target, ctx) {
                    Err(e) => {
                        let ghost em = e@;
                        errs.push(e);
                        proof {
                            assert(errs.deep_view() =~= errs_before.push(em));
                        }
                    },
                    Ok(()) => {
                    },
                }
                t = t + 1;
            }
            proof {
                assert(member.targets@.subrange(0, nt as int) =~= member.targets@);
            }
            let ghost entries_before = entries_view(entries@);
            if errs.len() > 0 {
                let ghost errs_model = errs.deep_view();
                entries.push((member.key.clone(), errs));
                proof {
                    assert(entries_view(entries@) =~= entries_before.push(
                        (entity.members@[j as int].key@, errs_model),
                    ));
                }
            }
            j = j + 1;
        }
        proof {
            assert(entity.members@.subrange(0, nm as int) =~= entity.members@);
        }

        ctx.exit();
        proof {
            assert(ctx@ =~= before);
        }
        if entries.len() == 0 {
            proof {
                assert(spec_complete_at(*self, idx as int, before).len() == 0);
            }
            Ok(())
        } else {
            let m = ErrorMap { entries };
            Err(m)
        }
    }

    /// Complete validation of the entity at `root`, started from a fresh
    /// execution context: walk every field's validators in declaration
    /// order without stopping, collect each failure under its field's
    /// key, and fail exactly when at least one validator failed.
    pub fn complete_validate(&self, root: usize) -> (r: Result<(), ErrorMap>)
        requires
            self.wf(),
            root < self.entities@.len(),
        ensures
            r is Ok <==> spec_complete_at(*self, root as int, Seq::empty()).len() == 0,
            r matches Err(m) ==> m@ == spec_complete_at(*self, root as int, Seq::empty()),
    {
        let mut ctx = ExecutionContext::new();
        self.complete_validate_at(root, &mut ctx)
    }

    /// Fail-fast validation of the entity at `root`, started from a fresh
    /// execution context: walk fields in declaration order, each field's
    /// validators in declaration order, then referenced entities, and
    /// return the first diagnostic encountered; succeed only if every
    /// check passed.
    pub fn validate(&self, root: usize) -> (r: Result<(), ValidationError>)
        requires
            self.wf(),
            root < self.entities@.len(),
        ensures
            r is Ok <==> spec_validate_at(*self, root as int, Seq::empty()) is None,
            r matches Err(e) ==> Some(e@) == spec_validate_at(*self, root as int, Seq::empty()),
    {
        let mut ctx = ExecutionContext::new();
        self.validate_at(root, &mut ctx)
    }
}

} // verus!
