use vstd::prelude::*;
use vstd::string::*;

use crate::upgrades::compat::{
    authorization_views, breaking_view, compatible_view, event_views, has_breaking,
    interface_views, lemma_has_breaking_concat, lemma_has_breaking_push, lemma_records_authorization,
    lemma_records_events, lemma_records_interfaces, lemma_records_nothing, lemma_records_storage, status_view,
    storage_views, warning_view, CompatStatus, CompatibilityResult, MigrationPhase,
    MigrationStep, StorageKeySpec,
};

verus! {

// ---------------------------------------------------------------------------
// Reasons recorded by the validator
// ---------------------------------------------------------------------------

pub open spec fn reason_removed_storage_key() -> Seq<char> {
    "removed storage key"@
}

pub open spec fn reason_new_storage_key() -> Seq<char> {
    "new storage key; verify default value and TTL"@
}

pub open spec fn reason_required_key_removed() -> Seq<char> {
    "required storage key removed"@
}

pub open spec fn reason_optional_key_removed() -> Seq<char> {
    "optional storage key removed; migration must clear or ignore legacy data"@
}

pub open spec fn reason_scope_changed() -> Seq<char> {
    "storage scope changed between instance and persistent"@
}

pub open spec fn reason_type_changed() -> Seq<char> {
    "stored value type changed without migration adapter"@
}

pub open spec fn reason_additive_key() -> Seq<char> {
    "additive storage key; must be lazily initialized or migrated"@
}

pub open spec fn reason_removed_event() -> Seq<char> {
    "removed event observed by indexers"@
}

pub open spec fn reason_new_event() -> Seq<char> {
    "new event; update indexers and monitors"@
}

pub open spec fn reason_removed_function() -> Seq<char> {
    "removed public function"@
}

pub open spec fn reason_new_function() -> Seq<char> {
    "new public function; document auth and pause behavior"@
}

pub open spec fn reason_missing_auth_rule() -> Seq<char> {
    "missing mandatory upgrade authorization rule"@
}

// ---------------------------------------------------------------------------
// Expected checks, as plain values
// ---------------------------------------------------------------------------

pub open spec fn str_views(v: Seq<&str>) -> Seq<Seq<char>> {
    v.map_values(|s: &str| s@)
}

pub open spec fn key_names(v: Seq<StorageKeySpec>) -> Seq<Seq<char>> {
    v.map_values(|k: StorageKeySpec| k.name@)
}

/// The names of `next` that do not occur in `previous`, in the order of `next`.
pub open spec fn added_names(previous: Seq<Seq<char>>, next: Seq<Seq<char>>) -> Seq<Seq<char>>
    decreases next.len(),
{
    if next.len() == 0 {
        Seq::empty()
    } else {
        let rest = added_names(previous, next.drop_last());
        if previous.contains(next.last()) {
            rest
        } else {
            rest.push(next.last())
        }
    }
}

/// One check per name of `expected`: compatible when `present` has it, breaking otherwise.
pub open spec fn presence_views(
    expected: Seq<Seq<char>>,
    present: Seq<Seq<char>>,
    missing_reason: Seq<char>,
) -> Seq<(Seq<char>, (int, Seq<char>))> {
    expected.map_values(
        |k: Seq<char>|
            (
                k,
                if present.contains(k) {
                    compatible_view()
                } else {
                    breaking_view(missing_reason)
                },
            ),
    )
}

/// One warning per name of `next` that `previous` lacks.
pub open spec fn addition_views(
    previous: Seq<Seq<char>>,
    next: Seq<Seq<char>>,
    added_reason: Seq<char>,
) -> Seq<(Seq<char>, (int, Seq<char>))> {
    added_names(previous, next).map_values(|k: Seq<char>| (k, warning_view(added_reason)))
}

/// The checks of a name-list comparison: first every old name, then every new one.
pub open spec fn diff_views(
    v1: Seq<Seq<char>>,
    v2: Seq<Seq<char>>,
    removed_reason: Seq<char>,
    added_reason: Seq<char>,
) -> Seq<(Seq<char>, (int, Seq<char>))> {
    presence_views(v1, v2, removed_reason) + addition_views(v1, v2, added_reason)
}

/// `j` is the first position of `next` whose key has the given name.
pub open spec fn is_first_named(next: Seq<StorageKeySpec>, name: Seq<char>, j: int) -> bool {
    &&& 0 <= j < next.len()
    &&& next[j].name@ == name
    &&& forall|k: int| 0 <= k < j ==> (#[trigger] next[k]).name@ != name
}

/// The status of one previously declared key against the next layout.
pub open spec fn layout_status(old: StorageKeySpec, next: Seq<StorageKeySpec>) -> (int, Seq<char>) {
    if exists|j: int| is_first_named(next, old.name@, j) {
        let j = choose|j: int| is_first_named(next, old.name@, j);
        if next[j].scope != old.scope {
            breaking_view(reason_scope_changed())
        } else if next[j].type_hash@ != old.type_hash@ {
            breaking_view(reason_type_changed())
        } else {
            compatible_view()
        }
    } else if old.required {
        breaking_view(reason_required_key_removed())
    } else {
        warning_view(reason_optional_key_removed())
    }
}

/// The checks of a storage layout comparison.
pub open spec fn layout_views(previous: Seq<StorageKeySpec>, next: Seq<StorageKeySpec>) -> Seq<
    (Seq<char>, (int, Seq<char>)),
> {
    previous.map_values(|o: StorageKeySpec| (o.name@, layout_status(o, next))) + addition_views(
        key_names(previous),
        key_names(next),
        reason_additive_key(),
    )
}

/// A migration step with the given name, phase and reversibility.
pub open spec fn standard_step(step: MigrationStep, name: Seq<char>, phase: MigrationPhase, reversible: bool) -> bool {
    step.name@ == name && step.phase == phase && step.reversible == reversible
}

proof fn lemma_first_named_unique(next: Seq<StorageKeySpec>, name: Seq<char>, j1: int, j2: int)
    requires
        is_first_named(next, name, j1),
        is_first_named(next, name, j2),
    ensures
        j1 == j2,
{
    if j1 < j2 {
        assert(next[j1].name@ != name);
    } else if j2 < j1 {
        assert(next[j2].name@ != name);
    }
}

proof fn lemma_added_names_step(previous: Seq<Seq<char>>, next: Seq<Seq<char>>, i: int)
    requires
        0 <= i < next.len(),
    ensures
        added_names(previous, next.take(i + 1)) == if previous.contains(next[i]) {
            added_names(previous, next.take(i))
        } else {
            added_names(previous, next.take(i)).push(next[i])
        },
{
    assert(next.take(i + 1).drop_last() =~= next.take(i));
}

// ---------------------------------------------------------------------------
// Helpers on names
// ---------------------------------------------------------------------------

fn str_eq(a: &str, b: &str) -> (r: bool)
    ensures
        r == (a@ == b@),
{
    let x = String::from_str(a);
    let y = String::from_str(b);
    x == y
}

fn str_list_contains(v: &[&str], k: &str) -> (r: bool)
    ensures
        r == str_views(v@).contains(k@),
{
    let mut i: usize = 0;
    while i < v.len()
        invariant
            0 <= i <= v.len(),
            forall|j: int| 0 <= j < i ==> v@[j]@ != k@,
        decreases v.len() - i,
    {
        if str_eq(v[i], k) {
            assert(str_views(v@)[i as int] == k@);
            return true;
        }
        i = i + 1;
    }
    proof {
        if str_views(v@).contains(k@) {
            let j = choose|j: int| 0 <= j < str_views(v@).len() && str_views(v@)[j] == k@;
            assert(v@[j]@ == k@);
        }
    }
    false
}

fn find_by_name(next: &[StorageKeySpec], name: &String) -> (r: Option<usize>)
    ensures
        match r {
            Some(j) => is_first_named(next@, name@, j as int),
            None => forall|k: int| 0 <= k < next@.len() ==> (#[trigger] next@[k]).name@ != name@,
        },
{
    let mut j: usize = 0;
    while j < next.len()
        invariant
            0 <= j <= next.len(),
            forall|k: int| 0 <= k < j ==> (#[trigger] next@[k]).name@ != name@,
        decreases next.len() - j,
    {
        if next[j].name == *name {
            return Some(j);
        }
        j = j + 1;
    }
    None
}

fn key_list_contains_name(v: &[StorageKeySpec], name: &String) -> (r: bool)
    ensures
        r == key_names(v@).contains(name@),
{
    let found = find_by_name(v, name);
    proof {
        if key_names(v@).contains(name@) {
            let k = choose|k: int| 0 <= k < key_names(v@).len() && key_names(v@)[k] == name@;
            assert(v@[k].name@ == name@);
        }
        if let Some(j) = found {
            assert(key_names(v@)[j as int] == name@);
        }
    }
    found.is_some()
}

/// Stateless validator for pre-upgrade compatibility gates.
pub struct UpgradeValidator;

impl Default for UpgradeValidator {
    fn default() -> (v: Self)
        ensures
            true,
    {
        Self::new()
    }
}

impl UpgradeValidator {
    pub fn new() -> (v: Self)
        ensures
            true,
    {
        Self
    }

    /// Legacy convenience check: removed storage keys are breaking, additions warn.
    pub fn validate_storage_keys(r: &mut CompatibilityResult, v1: &[&str], v2: &[&str])
        ensures
            storage_views(final(r).storage@) == storage_views(old(r).storage@) + diff_views(
                str_views(v1@),
                str_views(v2@),
                reason_removed_storage_key(),
                reason_new_storage_key(),
            ),
            final(r).is_fully_compatible == (old(r).is_fully_compatible && !has_breaking(
                diff_views(
                    str_views(v1@),
                    str_views(v2@),
                    reason_removed_storage_key(),
                    reason_new_storage_key(),
                ),
            )),
            old(r).wf() ==> final(r).wf(),
            old(r).records(*final(r)),
            final(r).v1_hash == old(r).v1_hash,
            final(r).v2_hash == old(r).v2_hash,
            final(r).events == old(r).events,
            final(r).interfaces == old(r).interfaces,
            final(r).authorization == old(r).authorization,
            final(r).migration == old(r).migration,
    {
        let ghost a = str_views(v1@);
        let ghost b = str_views(v2@);
        let ghost rm = reason_removed_storage_key();
        let ghost ad = reason_new_storage_key();
        let mut i: usize = 0;
        while i < v1.len()
            invariant
                0 <= i <= v1.len(),
                a == str_views(v1@),
                b == str_views(v2@),
                rm == reason_removed_storage_key(),
                storage_views(r.storage@) == storage_views(old(r).storage@) + presence_views(
                    a.take(i as int),
                    b,
                    rm,
                ),
                r.is_fully_compatible == (old(r).is_fully_compatible && !has_breaking(
                    presence_views(a.take(i as int), b, rm),
                )),
                old(r).wf() ==> r.wf(),
                r.v1_hash == old(r).v1_hash,
                r.v2_hash == old(r).v2_hash,
                r.events == old(r).events,
                r.interfaces == old(r).interfaces,
                r.authorization == old(r).authorization,
                r.migration == old(r).migration,
            decreases v1.len() - i,
        {
            let k = v1[i];
            let present = str_list_contains(v2, k);
            let status = if !present {
                CompatStatus::Breaking(String::from_str("removed storage key"))
            } else {
                CompatStatus::Compatible
            };
            let ghost sv = status_view(status);
            r.add_storage(k, status);
            proof {
                assert(a.take(i + 1) =~= a.take(i as int).push(a[i as int]));
                assert(presence_views(a.take(i + 1), b, rm) =~= presence_views(
                    a.take(i as int),
                    b,
                    rm,
                ).push((k@, sv)));
                lemma_has_breaking_push(presence_views(a.take(i as int), b, rm), (k@, sv));
            }
            i = i + 1;
        }
        assert(a.take(v1.len() as int) =~= a);
        let ghost mid = storage_views(r.storage@);
        let ghost ifc = r.is_fully_compatible;
        let mut j: usize = 0;
        while j < v2.len()
            invariant
                0 <= j <= v2.len(),
                a == str_views(v1@),
                b == str_views(v2@),
                ad == reason_new_storage_key(),
                storage_views(r.storage@) == mid + addition_views(a, b.take(j as int), ad),
                r.is_fully_compatible == ifc,
                !has_breaking(addition_views(a, b.take(j as int), ad)),
                old(r).wf() ==> r.wf(),
                r.v1_hash == old(r).v1_hash,
                r.v2_hash == old(r).v2_hash,
                r.events == old(r).events,
                r.interfaces == old(r).interfaces,
                r.authorization == old(r).authorization,
                r.migration == old(r).migration,
            decreases v2.len() - j,
        {
            let k = v2[j];
            let known = str_list_contains(v1, k);
            proof {
                assert(b.take(j as int + 1)[j as int] == b[j as int]);
                lemma_added_names_step(a, b, j as int);
                assert(b.take(j as int + 1).drop_last() =~= b.take(j as int));
            }
            if !known {
                let status = CompatStatus::Warning(
                    String::from_str("new storage key; verify default value and TTL"),
                );
                r.add_storage(k, status);
                proof {
                    assert(addition_views(a, b.take(j + 1), ad) =~= addition_views(
                        a,
                        b.take(j as int),
                        ad,
                    ).push((k@, warning_view(ad))));
                    lemma_has_breaking_push(addition_views(a, b.take(j as int), ad), (k@, warning_view(ad)));
                }
            } else {
                assert(addition_views(a, b.take(j + 1), ad) =~= addition_views(
                    a,
                    b.take(j as int),
                    ad,
                ));
            }
            j = j + 1;
        }
        assert(b.take(v2.len() as int) =~= b);
        proof {
            lemma_has_breaking_concat(presence_views(a, b, rm), addition_views(a, b, ad));
        }
        assert(storage_views(r.storage@) =~= storage_views(old(r).storage@) + diff_views(a, b, rm, ad));
        proof {
            lemma_records_storage(*old(r), *r, diff_views(a, b, rm, ad));
        }
    }

    /// Validate key presence plus scope/type compatibility for state preservation.
    pub fn validate_storage_layout(
        r: &mut CompatibilityResult,
        previous: &[StorageKeySpec],
        next: &[StorageKeySpec],
    )
        ensures
            storage_views(final(r).storage@) == storage_views(old(r).storage@) + layout_views(
                previous@,
                next@,
            ),
            final(r).is_fully_compatible == (old(r).is_fully_compatible && !has_breaking(
                layout_views(previous@, next@),
            )),
            old(r).wf() ==> final(r).wf(),
            old(r).records(*final(r)),
            final(r).v1_hash == old(r).v1_hash,
            final(r).v2_hash == old(r).v2_hash,
            final(r).events == old(r).events,
            final(r).interfaces == old(r).interfaces,
            final(r).authorization == old(r).authorization,
            final(r).migration == old(r).migration,
    {
        let ghost olds = previous@.map_values(|o: StorageKeySpec| (o.name@, layout_status(o, next@)));
        let mut i: usize = 0;
        while i < previous.len()
            invariant
                0 <= i <= previous.len(),
                olds == previous@.map_values(
                    |o: StorageKeySpec| (o.name@, layout_status(o, next@)),
                ),
                storage_views(r.storage@) == storage_views(old(r).storage@) + olds.take(i as int),
                r.is_fully_compatible == (old(r).is_fully_compatible && !has_breaking(
                    olds.take(i as int),
                )),
                old(r).wf() ==> r.wf(),
                r.v1_hash == old(r).v1_hash,
                r.v2_hash == old(r).v2_hash,
                r.events == old(r).events,
                r.interfaces == old(r).interfaces,
                r.authorization == old(r).authorization,
                r.migration == old(r).migration,
            decreases previous.len() - i,
        {
            let old_key = &previous[i];
            let found = find_by_name(next, &old_key.name);
            let status = match found {
                None => {
                    if old_key.required {
                        CompatStatus::Breaking(String::from_str("required storage key removed"))
                    } else {
                        CompatStatus::Warning(
                            String::from_str(
                                "optional storage key removed; migration must clear or ignore legacy data",
                            ),
                        )
                    }
                },
                Some(j) => {
                    let new_key = &next[j];
                    if new_key.scope != old_key.scope {
                        CompatStatus::Breaking(
                            String::from_str("storage scope changed between instance and persistent"),
                        )
                    } else if new_key.type_hash != old_key.type_hash {
                        CompatStatus::Breaking(
                            String::from_str("stored value type changed without migration adapter"),
                        )
                    } else {
                        CompatStatus::Compatible
                    }
                },
            };
            proof {
                match found {
                    Some(j) => {
                        let c = choose|c: int| is_first_named(next@, old_key.name@, c);
                        lemma_first_named_unique(next@, old_key.name@, c, j as int);
                    },
                    None => {
                        if exists|c: int| is_first_named(next@, old_key.name@, c) {
                            let c = choose|c: int| is_first_named(next@, old_key.name@, c);
                            assert(next@[c].name@ != old_key.name@);
                        }
                    },
                }
                assert(status_view(status) == layout_status(previous@[i as int], next@));
            }
            let ghost sv = status_view(status);
            r.add_storage(old_key.name.as_str(), status);
            proof {
                assert(olds.take(i + 1) =~= olds.take(i as int).push(olds[i as int]));
                lemma_has_breaking_push(olds.take(i as int), olds[i as int]);
            }
            i = i + 1;
        }
        assert(olds.take(previous.len() as int) =~= olds);
        let ghost a = key_names(previous@);
        let ghost b = key_names(next@);
        let ghost ad = reason_additive_key();
        let ghost mid = storage_views(r.storage@);
        let ghost ifc = r.is_fully_compatible;
        let mut j: usize = 0;
        while j < next.len()
            invariant
                0 <= j <= next.len(),
                a == key_names(previous@),
                b == key_names(next@),
                ad == reason_additive_key(),
                storage_views(r.storage@) == mid + addition_views(a, b.take(j as int), ad),
                r.is_fully_compatible == ifc,
                !has_breaking(addition_views(a, b.take(j as int), ad)),
                old(r).wf() ==> r.wf(),
                r.v1_hash == old(r).v1_hash,
                r.v2_hash == old(r).v2_hash,
                r.events == old(r).events,
                r.interfaces == old(r).interfaces,
                r.authorization == old(r).authorization,
                r.migration == old(r).migration,
            decreases next.len() - j,
        {
            let new_key = &next[j];
            let known = key_list_contains_name(previous, &new_key.name);
            proof {
                lemma_added_names_step(a, b, j as int);
                assert(b[j as int] == new_key.name@);
            }
            if !known {
                let status = CompatStatus::Warning(
                    String::from_str("additive storage key; must be lazily initialized or migrated"),
                );
                r.add_storage(new_key.name.as_str(), status);
                proof {
                    assert(addition_views(a, b.take(j + 1), ad) =~= addition_views(
                        a,
                        b.take(j as int),
                        ad,
                    ).push((new_key.name@, warning_view(ad))));
                    lemma_has_breaking_push(addition_views(a, b.take(j as int), ad), (new_key.name@, warning_view(ad)));
                }
            } else {
                assert(addition_views(a, b.take(j + 1), ad) =~= addition_views(
                    a,
                    b.take(j as int),
                    ad,
                ));
            }
            j = j + 1;
        }
        assert(b.take(next.len() as int) =~= b);
        proof {
            lemma_has_breaking_concat(olds, addition_views(a, b, ad));
        }
        assert(storage_views(r.storage@) =~= storage_views(old(r).storage@) + layout_views(
            previous@,
            next@,
        ));
        proof {
            lemma_records_storage(*old(r), *r, layout_views(previous@, next@));
        }
    }

    /// Removed events are breaking for indexers; new events warn.
    pub fn validate_events(r: &mut CompatibilityResult, v1: &[&str], v2: &[&str])
        ensures
            event_views(final(r).events@) == event_views(old(r).events@) + diff_views(
                str_views(v1@),
                str_views(v2@),
                reason_removed_event(),
                reason_new_event(),
            ),
            final(r).is_fully_compatible == (old(r).is_fully_compatible && !has_breaking(
                diff_views(
                    str_views(v1@),
                    str_views(v2@),
                    reason_removed_event(),
                    reason_new_event(),
                ),
            )),
            old(r).wf() ==> final(r).wf(),
            old(r).records(*final(r)),
            final(r).v1_hash == old(r).v1_hash,
            final(r).v2_hash == old(r).v2_hash,
            final(r).storage == old(r).storage,
            final(r).interfaces == old(r).interfaces,
            final(r).authorization == old(r).authorization,
            final(r).migration == old(r).migration,
    {
        let ghost a = str_views(v1@);
        let ghost b = str_views(v2@);
        let ghost rm = reason_removed_event();
        let ghost ad = reason_new_event();
        let mut i: usize = 0;
        while i < v1.len()
            invariant
                0 <= i <= v1.len(),
                a == str_views(v1@),
                b == str_views(v2@),
                rm == reason_removed_event(),
                event_views(r.events@) == event_views(old(r).events@) + presence_views(
                    a.take(i as int),
                    b,
                    rm,
                ),
                r.is_fully_compatible == (old(r).is_fully_compatible && !has_breaking(
                    presence_views(a.take(i as int), b, rm),
                )),
                old(r).wf() ==> r.wf(),
                r.v1_hash == old(r).v1_hash,
                r.v2_hash == old(r).v2_hash,
                r.storage == old(r).storage,
                r.interfaces == old(r).interfaces,
                r.authorization == old(r).authorization,
                r.migration == old(r).migration,
            decreases v1.len() - i,
        {
            let k = v1[i];
            let present = str_list_contains(v2, k);
            let status = if !present {
                CompatStatus::Breaking(String::from_str("removed event observed by indexers"))
            } else {
                CompatStatus::Compatible
            };
            let ghost sv = status_view(status);
            r.add_event(k, status);
            proof {
                assert(a.take(i + 1) =~= a.take(i as int).push(a[i as int]));
                assert(presence_views(a.take(i + 1), b, rm) =~= presence_views(
                    a.take(i as int),
                    b,
                    rm,
                ).push((k@, sv)));
                lemma_has_breaking_push(presence_views(a.take(i as int), b, rm), (k@, sv));
            }
            i = i + 1;
        }
        assert(a.take(v1.len() as int) =~= a);
        let ghost mid = event_views(r.events@);
        let ghost ifc = r.is_fully_compatible;
        let mut j: usize = 0;
        while j < v2.len()
            invariant
                0 <= j <= v2.len(),
                a == str_views(v1@),
                b == str_views(v2@),
                ad == reason_new_event(),
                event_views(r.events@) == mid + addition_views(a, b.take(j as int), ad),
                r.is_fully_compatible == ifc,
                !has_breaking(addition_views(a, b.take(j as int), ad)),
                old(r).wf() ==> r.wf(),
                r.v1_hash == old(r).v1_hash,
                r.v2_hash == old(r).v2_hash,
                r.storage == old(r).storage,
                r.interfaces == old(r).interfaces,
                r.authorization == old(r).authorization,
                r.migration == old(r).migration,
            decreases v2.len() - j,
        {
            let k = v2[j];
            let known = str_list_contains(v1, k);
            proof {
                assert(b.take(j as int + 1)[j as int] == b[j as int]);
                lemma_added_names_step(a, b, j as int);
                assert(b.take(j as int + 1).drop_last() =~= b.take(j as int));
            }
            if !known {
                let status = CompatStatus::Warning(
                    String::from_str("new event; update indexers and monitors"),
                );
                r.add_event(k, status);
                proof {
                    assert(addition_views(a, b.take(j + 1), ad) =~= addition_views(
                        a,
                        b.take(j as int),
                        ad,
                    ).push((k@, warning_view(ad))));
                    lemma_has_breaking_push(addition_views(a, b.take(j as int), ad), (k@, warning_view(ad)));
                }
            } else {
                assert(addition_views(a, b.take(j + 1), ad) =~= addition_views(
                    a,
                    b.take(j as int),
                    ad,
                ));
            }
            j = j + 1;
        }
        assert(b.take(v2.len() as int) =~= b);
        proof {
            lemma_has_breaking_concat(presence_views(a, b, rm), addition_views(a, b, ad));
        }
        assert(event_views(r.events@) =~= event_views(old(r).events@) + diff_views(a, b, rm, ad));
        proof {
            lemma_records_events(*old(r), *r, diff_views(a, b, rm, ad));
        }
    }

    /// Removed public functions are breaking; new ones warn.
    pub fn validate_interfaces(r: &mut CompatibilityResult, v1: &[&str], v2: &[&str])
        ensures
            interface_views(final(r).interfaces@) == interface_views(old(r).interfaces@) + diff_views(
                str_views(v1@),
                str_views(v2@),
                reason_removed_function(),
                reason_new_function(),
            ),
            final(r).is_fully_compatible == (old(r).is_fully_compatible && !has_breaking(
                diff_views(
                    str_views(v1@),
                    str_views(v2@),
                    reason_removed_function(),
                    reason_new_function(),
                ),
            )),
            old(r).wf() ==> final(r).wf(),
            old(r).records(*final(r)),
            final(r).v1_hash == old(r).v1_hash,
            final(r).v2_hash == old(r).v2_hash,
            final(r).events == old(r).events,
            final(r).storage == old(r).storage,
            final(r).authorization == old(r).authorization,
            final(r).migration == old(r).migration,
    {
        let ghost a = str_views(v1@);
        let ghost b = str_views(v2@);
        let ghost rm = reason_removed_function();
        let ghost ad = reason_new_function();
        let mut i: usize = 0;
        while i < v1.len()
            invariant
                0 <= i <= v1.len(),
                a == str_views(v1@),
                b == str_views(v2@),
                rm == reason_removed_function(),
                interface_views(r.interfaces@) == interface_views(old(r).interfaces@) + presence_views(
                    a.take(i as int),
                    b,
                    rm,
                ),
                r.is_fully_compatible == (old(r).is_fully_compatible && !has_breaking(
                    presence_views(a.take(i as int), b, rm),
                )),
                old(r).wf() ==> r.wf(),
                r.v1_hash == old(r).v1_hash,
                r.v2_hash == old(r).v2_hash,
                r.events == old(r).events,
                r.storage == old(r).storage,
                r.authorization == old(r).authorization,
                r.migration == old(r).migration,
            decreases v1.len() - i,
        {
            let k = v1[i];
            let present = str_list_contains(v2, k);
            let status = if !present {
                CompatStatus::Breaking(String::from_str("removed public function"))
            } else {
                CompatStatus::Compatible
            };
            let ghost sv = status_view(status);
            r.add_interface(k, status);
            proof {
                assert(a.take(i + 1) =~= a.take(i as int).push(a[i as int]));
                assert(presence_views(a.take(i + 1), b, rm) =~= presence_views(
                    a.take(i as int),
                    b,
                    rm,
                ).push((k@, sv)));
                lemma_has_breaking_push(presence_views(a.take(i as int), b, rm), (k@, sv));
            }
            i = i + 1;
        }
        assert(a.take(v1.len() as int) =~= a);
        let ghost mid = interface_views(r.interfaces@);
        let ghost ifc = r.is_fully_compatible;
        let mut j: usize = 0;
        while j < v2.len()
            invariant
                0 <= j <= v2.len(),
                a == str_views(v1@),
                b == str_views(v2@),
                ad == reason_new_function(),
                interface_views(r.interfaces@) == mid + addition_views(a, b.take(j as int), ad),
                r.is_fully_compatible == ifc,
                !has_breaking(addition_views(a, b.take(j as int), ad)),
                old(r).wf() ==> r.wf(),
                r.v1_hash == old(r).v1_hash,
                r.v2_hash == old(r).v2_hash,
                r.events == old(r).events,
                r.storage == old(r).storage,
                r.authorization == old(r).authorization,
                r.migration == old(r).migration,
            decreases v2.len() - j,
        {
            let k = v2[j];
            let known = str_list_contains(v1, k);
            proof {
                assert(b.take(j as int + 1)[j as int] == b[j as int]);
                lemma_added_names_step(a, b, j as int);
                assert(b.take(j as int + 1).drop_last() =~= b.take(j as int));
            }
            if !known {
                let status = CompatStatus::Warning(
                    String::from_str("new public function; document auth and pause behavior"),
                );
                r.add_interface(k, status);
                proof {
                    assert(addition_views(a, b.take(j + 1), ad) =~= addition_views(
                        a,
                        b.take(j as int),
                        ad,
                    ).push((k@, warning_view(ad))));
                    lemma_has_breaking_push(addition_views(a, b.take(j as int), ad), (k@, warning_view(ad)));
                }
            } else {
                assert(addition_views(a, b.take(j + 1), ad) =~= addition_views(
                    a,
                    b.take(j as int),
                    ad,
                ));
            }
            j = j + 1;
        }
        assert(b.take(v2.len() as int) =~= b);
        proof {
            lemma_has_breaking_concat(presence_views(a, b, rm), addition_views(a, b, ad));
        }
        assert(interface_views(r.interfaces@) =~= interface_views(old(r).interfaces@) + diff_views(a, b, rm, ad));
        proof {
            lemma_records_interfaces(*old(r), *r, diff_views(a, b, rm, ad));
        }
    }

    /// Enforce baseline authorization rules required by the upgrade framework.
    pub fn validate_authorization_rules(
        r: &mut CompatibilityResult,
        rules: &[&str],
        required_rules: &[&str],
    )
        ensures
            authorization_views(final(r).authorization@) == authorization_views(
                old(r).authorization@,
            ) + presence_views(str_views(required_rules@), str_views(rules@), reason_missing_auth_rule()),
            final(r).is_fully_compatible == (old(r).is_fully_compatible && !has_breaking(
                presence_views(str_views(required_rules@), str_views(rules@), reason_missing_auth_rule()),
            )),
            old(r).wf() ==> final(r).wf(),
            old(r).records(*final(r)),
            final(r).v1_hash == old(r).v1_hash,
            final(r).v2_hash == old(r).v2_hash,
            final(r).storage == old(r).storage,
            final(r).events == old(r).events,
            final(r).interfaces == old(r).interfaces,
            final(r).migration == old(r).migration,
    {
        let ghost a = str_views(required_rules@);
        let ghost b = str_views(rules@);
        let ghost rm = reason_missing_auth_rule();
        let mut i: usize = 0;
        while i < required_rules.len()
            invariant
                0 <= i <= required_rules.len(),
                a == str_views(required_rules@),
                b == str_views(rules@),
                rm == reason_missing_auth_rule(),
                authorization_views(r.authorization@) == authorization_views(old(r).authorization@)
                    + presence_views(a.take(i as int), b, rm),
                r.is_fully_compatible == (old(r).is_fully_compatible && !has_breaking(
                    presence_views(a.take(i as int), b, rm),
                )),
                old(r).wf() ==> r.wf(),
                r.v1_hash == old(r).v1_hash,
                r.v2_hash == old(r).v2_hash,
                r.storage == old(r).storage,
                r.events == old(r).events,
                r.interfaces == old(r).interfaces,
                r.migration == old(r).migration,
            decreases required_rules.len() - i,
        {
            let required = required_rules[i];
            let status = if str_list_contains(rules, required) {
                CompatStatus::Compatible
            } else {
                CompatStatus::Breaking(
                    String::from_str("missing mandatory upgrade authorization rule"),
                )
            };
            let ghost sv = status_view(status);
            r.add_authorization(required, status);
            proof {
                assert(a.take(i + 1) =~= a.take(i as int).push(a[i as int]));
                assert(presence_views(a.take(i + 1), b, rm) =~= presence_views(
                    a.take(i as int),
                    b,
                    rm,
                ).push((required@, sv)));
                lemma_has_breaking_push(presence_views(a.take(i as int), b, rm), (required@, sv));
            }
            i = i + 1;
        }
        assert(a.take(required_rules.len() as int) =~= a);
        proof {
            lemma_records_authorization(*old(r), *r, presence_views(str_views(required_rules@), str_views(rules@), reason_missing_auth_rule()));
        }
    }

    /// Record the canonical migration workflow expected by runbooks and tests.
    pub fn attach_standard_migration_workflow(r: &mut CompatibilityResult)
        ensures
            final(r).migration@.len() == old(r).migration@.len() + 5,
            forall|i: int| 0 <= i < old(r).migration@.len() ==> final(r).migration@[i] == old(r).migration@[i],
            standard_step(final(r).migration@[old(r).migration@.len() as int], "proposal-recorded"@, MigrationPhase::Proposed, true),
            standard_step(final(r).migration@[old(r).migration@.len() + 1int], "compatibility-report-approved"@, MigrationPhase::Validated, true),
            standard_step(final(r).migration@[old(r).migration@.len() + 2int], "stored-admin-authorized"@, MigrationPhase::Authorized, false),
            standard_step(final(r).migration@[old(r).migration@.len() + 3int], "wasm-updated-in-place"@, MigrationPhase::Executed, false),
            standard_step(final(r).migration@[old(r).migration@.len() + 4int], "post-upgrade-state-verified"@, MigrationPhase::Verified, false),
            final(r).v1_hash == old(r).v1_hash,
            final(r).v2_hash == old(r).v2_hash,
            final(r).storage == old(r).storage,
            final(r).events == old(r).events,
            final(r).interfaces == old(r).interfaces,
            final(r).authorization == old(r).authorization,
            final(r).is_fully_compatible == old(r).is_fully_compatible,
            old(r).records(*final(r)),
    {
        r.add_migration_step(MigrationStep::new("proposal-recorded", MigrationPhase::Proposed, true));
        r.add_migration_step(
            MigrationStep::new("compatibility-report-approved", MigrationPhase::Validated, true),
        );
        r.add_migration_step(
            MigrationStep::new("stored-admin-authorized", MigrationPhase::Authorized, false),
        );
        r.add_migration_step(MigrationStep::new("wasm-updated-in-place", MigrationPhase::Executed, false));
        r.add_migration_step(
            MigrationStep::new("post-upgrade-state-verified", MigrationPhase::Verified, false),
        );
        proof {
            lemma_records_nothing(*old(r), *r);
        }
    }

}

} // verus!
