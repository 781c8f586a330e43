use vstd::prelude::*;
use vstd::string::*;

verus! {

/// Severity assigned to an upgrade compatibility check.
#[derive(Debug, Clone, PartialEq, Eq)]
pub enum CompatStatus {
    /// The checked item is unchanged or explicitly compatible.
    Compatible,
    /// The checked item is additive or operationally risky, but not blocking.
    Warning(String),
    /// The checked item can strand state or break callers and must block upgrade.
    Breaking(String),
}

/// Numeric severity of a status: 0 compatible, 1 warning, 2 breaking.
pub open spec fn severity(s: CompatStatus) -> int {
    match s {
        CompatStatus::Compatible => 0,
        CompatStatus::Warning(_) => 1,
        CompatStatus::Breaking(_) => 2,
    }
}

/// What a status says, as plain values: its severity and its reason.
pub open spec fn status_view(s: CompatStatus) -> (int, Seq<char>) {
    match s {
        CompatStatus::Compatible => (0, Seq::empty()),
        CompatStatus::Warning(m) => (1, m@),
        CompatStatus::Breaking(m) => (2, m@),
    }
}

pub open spec fn compatible_view() -> (int, Seq<char>) {
    (0, Seq::empty())
}

pub open spec fn warning_view(reason: Seq<char>) -> (int, Seq<char>) {
    (1, reason)
}

pub open spec fn breaking_view(reason: Seq<char>) -> (int, Seq<char>) {
    (2, reason)
}

impl CompatStatus {
    pub fn is_breaking(&self) -> (b: bool)
        ensures
            b == (*self is Breaking),
            b == (severity(*self) == 2),
    {
        match self {
            CompatStatus::Breaking(_) => true,
            _ => false,
        }
    }

    /// Whether the status is a non-blocking warning.
    pub fn is_warning(&self) -> (b: bool)
        ensures
            b == (*self is Warning),
            b == (severity(*self) == 1),
    {
        match self {
            CompatStatus::Warning(_) => true,
            _ => false,
        }
    }
}

/// Expected storage location for a persisted key.
#[derive(Debug, Clone, Copy, PartialEq, Eq, Structural)]
pub enum StorageScope {
    Instance,
    Persistent,
}

/// A versioned storage key declaration used by pre-upgrade validation.
#[derive(Debug, Clone, PartialEq, Eq)]
pub struct StorageKeySpec {
    pub name: String,
    pub scope: StorageScope,
    pub type_hash: String,
    pub required: bool,
}

impl StorageKeySpec {
    pub fn new(name: &str, scope: StorageScope, type_hash: &str, required: bool) -> (s: Self)
        ensures
            s.name@ == name@,
            s.scope == scope,
            s.type_hash@ == type_hash@,
            s.required == required,
    {
        Self { name: String::from_str(name), scope, type_hash: String::from_str(type_hash), required }
    }
}

#[derive(Debug, Clone, PartialEq, Eq)]
pub struct StorageFieldCheck {
    pub name: String,
    pub status: CompatStatus,
}

#[derive(Debug, Clone, PartialEq, Eq)]
pub struct EventCheck {
    pub name: String,
    pub status: CompatStatus,
}

#[derive(Debug, Clone, PartialEq, Eq)]
pub struct InterfaceCheck {
    pub function: String,
    pub status: CompatStatus,
}

#[derive(Debug, Clone, PartialEq, Eq)]
pub struct AuthorizationCheck {
    pub rule: String,
    pub status: CompatStatus,
}

/// Migration phase tracked by upgrade runbooks and tests.
#[derive(Debug, Clone, Copy, PartialEq, Eq, Structural)]
pub enum MigrationPhase {
    Proposed,
    Validated,
    Authorized,
    Executed,
    Verified,
    RolledBack,
}

/// One migration step with enough metadata for audit trails and dry-run tests.
#[derive(Debug, Clone, PartialEq, Eq)]
pub struct MigrationStep {
    pub name: String,
    pub phase: MigrationPhase,
    pub reversible: bool,
}

impl MigrationStep {
    pub fn new(name: &str, phase: MigrationPhase, reversible: bool) -> (s: Self)
        ensures
            s.name@ == name@,
            s.phase == phase,
            s.reversible == reversible,
    {
        Self { name: String::from_str(name), phase, reversible }
    }
}

/// A check seen as plain values: the checked name and the status view.
pub open spec fn storage_views(s: Seq<StorageFieldCheck>) -> Seq<(Seq<char>, (int, Seq<char>))> {
    s.map_values(|c: StorageFieldCheck| (c.name@, status_view(c.status)))
}

pub open spec fn event_views(s: Seq<EventCheck>) -> Seq<(Seq<char>, (int, Seq<char>))> {
    s.map_values(|c: EventCheck| (c.name@, status_view(c.status)))
}

pub open spec fn interface_views(s: Seq<InterfaceCheck>) -> Seq<(Seq<char>, (int, Seq<char>))> {
    s.map_values(|c: InterfaceCheck| (c.function@, status_view(c.status)))
}

pub open spec fn authorization_views(s: Seq<AuthorizationCheck>) -> Seq<(Seq<char>, (int, Seq<char>))> {
    s.map_values(|c: AuthorizationCheck| (c.rule@, status_view(c.status)))
}

/// Number of entries of a view sequence whose severity is `sev`.
pub open spec fn count_severity(s: Seq<(Seq<char>, (int, Seq<char>))>, sev: int) -> nat
    decreases s.len(),
{
    if s.len() == 0 {
        0
    } else {
        count_severity(s.drop_last(), sev) + if s.last().1.0 == sev {
            1nat
        } else {
            0nat
        }
    }
}

/// Whether any entry of a view sequence is breaking.
pub open spec fn has_breaking(s: Seq<(Seq<char>, (int, Seq<char>))>) -> bool {
    exists|i: int| 0 <= i < s.len() && #[trigger] s[i].1.0 == 2
}

pub proof fn lemma_count_push(s: Seq<(Seq<char>, (int, Seq<char>))>, x: (Seq<char>, (int, Seq<char>)), sev: int)
    ensures
        count_severity(s.push(x), sev) == count_severity(s, sev) + if x.1.0 == sev {
            1nat
        } else {
            0nat
        },
{
    assert(s.push(x).drop_last() =~= s);
}

pub proof fn lemma_count_concat(a: Seq<(Seq<char>, (int, Seq<char>))>, b: Seq<(Seq<char>, (int, Seq<char>))>, sev: int)
    ensures
        count_severity(a + b, sev) == count_severity(a, sev) + count_severity(b, sev),
    decreases b.len(),
{
    if b.len() == 0 {
        assert(a + b =~= a);
    } else {
        lemma_count_concat(a, b.drop_last(), sev);
        assert((a + b).drop_last() =~= a + b.drop_last());
    }
}

pub proof fn lemma_count_zero_iff_no_breaking(s: Seq<(Seq<char>, (int, Seq<char>))>)
    ensures
        (count_severity(s, 2) == 0) == !has_breaking(s),
    decreases s.len(),
{
    if s.len() > 0 {
        lemma_count_zero_iff_no_breaking(s.drop_last());
        if has_breaking(s.drop_last()) {
            let i = choose|i: int| 0 <= i < s.drop_last().len() && #[trigger] s.drop_last()[i].1.0 == 2;
            assert(s[i].1.0 == 2);
        }
        if has_breaking(s) && s.last().1.0 != 2 {
            let i = choose|i: int| 0 <= i < s.len() && #[trigger] s[i].1.0 == 2;
            assert(s.drop_last()[i].1.0 == 2);
        }
    }
}

/// A check has one severity, so the breaking checks and the warnings
/// together are never more than the checks.
pub proof fn lemma_counts_within_checks(s: Seq<(Seq<char>, (int, Seq<char>))>)
    ensures
        count_severity(s, 2) + count_severity(s, 1) <= s.len(),
    decreases s.len(),
{
    if s.len() > 0 {
        lemma_counts_within_checks(s.drop_last());
    }
}

/// Whether `b` starts with the checks of `a`.
pub open spec fn extends(a: Seq<(Seq<char>, (int, Seq<char>))>, b: Seq<(Seq<char>, (int, Seq<char>))>) -> bool {
    a.len() <= b.len() && b.subrange(0, a.len() as int) == a
}

/// The checks of `b` after the first `a.len()`.
pub open spec fn added(a: Seq<(Seq<char>, (int, Seq<char>))>, b: Seq<(Seq<char>, (int, Seq<char>))>) -> Seq<(Seq<char>, (int, Seq<char>))> {
    b.subrange(a.len() as int, b.len() as int)
}

proof fn lemma_extends_by(a: Seq<(Seq<char>, (int, Seq<char>))>, d: Seq<(Seq<char>, (int, Seq<char>))>)
    ensures
        extends(a, a + d),
        added(a, a + d) == d,
{
    assert((a + d).subrange(0, a.len() as int) =~= a);
    assert(added(a, a + d) =~= d);
}

proof fn lemma_single_breaking(x: (Seq<char>, (int, Seq<char>)))
    ensures
        has_breaking(seq![x]) == (x.1.0 == 2),
        !has_breaking(Seq::<(Seq<char>, (int, Seq<char>))>::empty()),
{
    if x.1.0 == 2 {
        assert(seq![x][0].1.0 == 2);
    }
}

/// Aggregate result for an upgrade compatibility and migration readiness check.
#[derive(Debug, Clone, PartialEq, Eq)]
pub struct CompatibilityResult {
    pub v1_hash: String,
    pub v2_hash: String,
    pub storage: Vec<StorageFieldCheck>,
    pub events: Vec<EventCheck>,
    pub interfaces: Vec<InterfaceCheck>,
    pub authorization: Vec<AuthorizationCheck>,
    pub migration: Vec<MigrationStep>,
    pub is_fully_compatible: bool,
}

impl CompatibilityResult {
    /// All checks of the result, list by list, in the order they were recorded.
    pub open spec fn all_views(self) -> Seq<(Seq<char>, (int, Seq<char>))> {
        storage_views(self.storage@) + event_views(self.events@) + interface_views(
            self.interfaces@,
        ) + authorization_views(self.authorization@)
    }

    pub open spec fn spec_breaking_count(self) -> nat {
        count_severity(self.all_views(), 2)
    }

    pub open spec fn spec_warning_count(self) -> nat {
        count_severity(self.all_views(), 1)
    }

    /// The verdict agrees with the checks: fully compatible exactly when no check is breaking.
    pub open spec fn wf(self) -> bool {
        self.is_fully_compatible == !has_breaking(self.all_views())
    }

    /// The counters fit in a machine word.
    pub open spec fn counts_fit(self) -> bool {
        self.storage@.len() + self.events@.len() + self.interfaces@.len()
            + self.authorization@.len() <= usize::MAX
    }

    /// `next` is this result with more checks recorded after the ones it
    /// has (its migration steps aside), and its verdict is this verdict
    /// lowered to false exactly when one of the recorded checks is breaking.
    pub open spec fn records(self, next: Self) -> bool {
        &&& extends(storage_views(self.storage@), storage_views(next.storage@))
        &&& extends(event_views(self.events@), event_views(next.events@))
        &&& extends(interface_views(self.interfaces@), interface_views(next.interfaces@))
        &&& extends(authorization_views(self.authorization@), authorization_views(next.authorization@))
        &&& next.is_fully_compatible == (self.is_fully_compatible
            && !has_breaking(added(storage_views(self.storage@), storage_views(next.storage@)))
            && !has_breaking(added(event_views(self.events@), event_views(next.events@)))
            && !has_breaking(added(interface_views(self.interfaces@), interface_views(next.interfaces@)))
            && !has_breaking(added(authorization_views(self.authorization@), authorization_views(next.authorization@))))
    }

    pub fn new(v1: &str, v2: &str) -> (r: Self)
        ensures
            r.v1_hash@ == v1@,
            r.v2_hash@ == v2@,
            r.storage@.len() == 0,
            r.events@.len() == 0,
            r.interfaces@.len() == 0,
            r.authorization@.len() == 0,
            r.migration@.len() == 0,
            r.is_fully_compatible,
            r.wf(),
    {
        let r = Self {
            v1_hash: String::from_str(v1),
            v2_hash: String::from_str(v2),
            storage: Vec::new(),
            events: Vec::new(),
            interfaces: Vec::new(),
            authorization: Vec::new(),
            migration: Vec::new(),
            is_fully_compatible: true,
        };
        assert(r.all_views() =~= Seq::empty());
        r
    }

    pub fn add_storage(&mut self, name: &str, status: CompatStatus)
        ensures
            storage_views(final(self).storage@) == storage_views(old(self).storage@).push(
                (name@, status_view(status)),
            ),
            final(self).is_fully_compatible == (old(self).is_fully_compatible && !(status is Breaking)),
            final(self).v1_hash == old(self).v1_hash,
            final(self).v2_hash == old(self).v2_hash,
            final(self).events == old(self).events,
            final(self).interfaces == old(self).interfaces,
            final(self).authorization == old(self).authorization,
            final(self).migration == old(self).migration,
            old(self).wf() ==> final(self).wf(),
            old(self).records(*final(self)),
    {
        self.record_status(&status);
        self.storage.push(StorageFieldCheck { name: String::from_str(name), status });
        assert(storage_views(self.storage@) =~= storage_views(old(self).storage@).push(
            (name@, status_view(status)),
        ));
        proof {
            lemma_single_breaking((name@, status_view(status)));
            assert(storage_views(old(self).storage@).push((name@, status_view(status))) =~= storage_views(old(self).storage@) + seq![(name@, status_view(status))]);
            lemma_records_by(*old(self), *self, seq![(name@, status_view(status))], Seq::<(Seq<char>, (int, Seq<char>))>::empty(), Seq::<(Seq<char>, (int, Seq<char>))>::empty(), Seq::<(Seq<char>, (int, Seq<char>))>::empty());
            lemma_has_breaking_push(storage_views(old(self).storage@), (name@, status_view(status)));
            lemma_record_keeps_verdict(storage_views(old(self).storage@), event_views(old(self).events@), interface_views(old(self).interfaces@), authorization_views(old(self).authorization@));
            lemma_record_keeps_verdict(storage_views(self.storage@), event_views(self.events@), interface_views(self.interfaces@), authorization_views(self.authorization@));
        }
    }

    pub fn add_event(&mut self, name: &str, status: CompatStatus)
        ensures
            event_views(final(self).events@) == event_views(old(self).events@).push(
                (name@, status_view(status)),
            ),
            final(self).is_fully_compatible == (old(self).is_fully_compatible && !(status is Breaking)),
            final(self).v1_hash == old(self).v1_hash,
            final(self).v2_hash == old(self).v2_hash,
            final(self).storage == old(self).storage,
            final(self).interfaces == old(self).interfaces,
            final(self).authorization == old(self).authorization,
            final(self).migration == old(self).migration,
            old(self).wf() ==> final(self).wf(),
            old(self).records(*final(self)),
    {
        self.record_status(&status);
        self.events.push(EventCheck { name: String::from_str(name), status });
        assert(event_views(self.events@) =~= event_views(old(self).events@).push(
            (name@, status_view(status)),
        ));
        proof {
            lemma_single_breaking((name@, status_view(status)));
            assert(event_views(old(self).events@).push((name@, status_view(status))) =~= event_views(old(self).events@) + seq![(name@, status_view(status))]);
            lemma_records_by(*old(self), *self, Seq::<(Seq<char>, (int, Seq<char>))>::empty(), seq![(name@, status_view(status))], Seq::<(Seq<char>, (int, Seq<char>))>::empty(), Seq::<(Seq<char>, (int, Seq<char>))>::empty());
            lemma_has_breaking_push(event_views(old(self).events@), (name@, status_view(status)));
            lemma_record_keeps_verdict(storage_views(old(self).storage@), event_views(old(self).events@), interface_views(old(self).interfaces@), authorization_views(old(self).authorization@));
            lemma_record_keeps_verdict(storage_views(self.storage@), event_views(self.events@), interface_views(self.interfaces@), authorization_views(self.authorization@));
        }
    }

    pub fn add_interface(&mut self, func: &str, status: CompatStatus)
        ensures
            interface_views(final(self).interfaces@) == interface_views(
                old(self).interfaces@,
            ).push((func@, status_view(status))),
            final(self).is_fully_compatible == (old(self).is_fully_compatible && !(status is Breaking)),
            final(self).v1_hash == old(self).v1_hash,
            final(self).v2_hash == old(self).v2_hash,
            final(self).storage == old(self).storage,
            final(self).events == old(self).events,
            final(self).authorization == old(self).authorization,
            final(self).migration == old(self).migration,
            old(self).wf() ==> final(self).wf(),
            old(self).records(*final(self)),
    {
        self.record_status(&status);
        self.interfaces.push(InterfaceCheck { function: String::from_str(func), status });
        assert(interface_views(self.interfaces@) =~= interface_views(old(self).interfaces@).push(
            (func@, status_view(status)),
        ));
        proof {
            lemma_single_breaking((func@, status_view(status)));
            assert(interface_views(old(self).interfaces@).push((func@, status_view(status))) =~= interface_views(old(self).interfaces@) + seq![(func@, status_view(status))]);
            lemma_records_by(*old(self), *self, Seq::<(Seq<char>, (int, Seq<char>))>::empty(), Seq::<(Seq<char>, (int, Seq<char>))>::empty(), seq![(func@, status_view(status))], Seq::<(Seq<char>, (int, Seq<char>))>::empty());
            lemma_has_breaking_push(interface_views(old(self).interfaces@), (func@, status_view(status)));
            lemma_record_keeps_verdict(storage_views(old(self).storage@), event_views(old(self).events@), interface_views(old(self).interfaces@), authorization_views(old(self).authorization@));
            lemma_record_keeps_verdict(storage_views(self.storage@), event_views(self.events@), interface_views(self.interfaces@), authorization_views(self.authorization@));
        }
    }

    pub fn add_authorization(&mut self, rule: &str, status: CompatStatus)
        ensures
            authorization_views(final(self).authorization@) == authorization_views(
                old(self).authorization@,
            ).push((rule@, status_view(status))),
            final(self).is_fully_compatible == (old(self).is_fully_compatible && !(status is Breaking)),
            final(self).v1_hash == old(self).v1_hash,
            final(self).v2_hash == old(self).v2_hash,
            final(self).storage == old(self).storage,
            final(self).events == old(self).events,
            final(self).interfaces == old(self).interfaces,
            final(self).migration == old(self).migration,
            old(self).wf() ==> final(self).wf(),
            old(self).records(*final(self)),
    {
        self.record_status(&status);
        self.authorization.push(AuthorizationCheck { rule: String::from_str(rule), status });
        assert(authorization_views(self.authorization@) =~= authorization_views(
            old(self).authorization@,
        ).push((rule@, status_view(status))));
        proof {
            lemma_single_breaking((rule@, status_view(status)));
            assert(authorization_views(old(self).authorization@).push((rule@, status_view(status))) =~= authorization_views(old(self).authorization@) + seq![(rule@, status_view(status))]);
            lemma_records_by(*old(self), *self, Seq::<(Seq<char>, (int, Seq<char>))>::empty(), Seq::<(Seq<char>, (int, Seq<char>))>::empty(), Seq::<(Seq<char>, (int, Seq<char>))>::empty(), seq![(rule@, status_view(status))]);
            lemma_has_breaking_push(authorization_views(old(self).authorization@), (rule@, status_view(status)));
            lemma_record_keeps_verdict(storage_views(old(self).storage@), event_views(old(self).events@), interface_views(old(self).interfaces@), authorization_views(old(self).authorization@));
            lemma_record_keeps_verdict(storage_views(self.storage@), event_views(self.events@), interface_views(self.interfaces@), authorization_views(self.authorization@));
        }
    }

    pub fn add_migration_step(&mut self, step: MigrationStep)
        ensures
            final(self).migration@ == old(self).migration@.push(step),
            final(self).v1_hash == old(self).v1_hash,
            final(self).v2_hash == old(self).v2_hash,
            final(self).storage == old(self).storage,
            final(self).events == old(self).events,
            final(self).interfaces == old(self).interfaces,
            final(self).authorization == old(self).authorization,
            final(self).is_fully_compatible == old(self).is_fully_compatible,
            old(self).records(*final(self)),
    {
        self.migration.push(step);
        proof {
            lemma_single_breaking((Seq::empty(), (0, Seq::empty())));
            assert(storage_views(self.storage@) =~= storage_views(old(self).storage@) + Seq::<(Seq<char>, (int, Seq<char>))>::empty());
            assert(event_views(self.events@) =~= event_views(old(self).events@) + Seq::<(Seq<char>, (int, Seq<char>))>::empty());
            assert(interface_views(self.interfaces@) =~= interface_views(old(self).interfaces@) + Seq::<(Seq<char>, (int, Seq<char>))>::empty());
            assert(authorization_views(self.authorization@) =~= authorization_views(old(self).authorization@) + Seq::<(Seq<char>, (int, Seq<char>))>::empty());
            lemma_records_by(*old(self), *self, Seq::<(Seq<char>, (int, Seq<char>))>::empty(), Seq::<(Seq<char>, (int, Seq<char>))>::empty(), Seq::<(Seq<char>, (int, Seq<char>))>::empty(), Seq::<(Seq<char>, (int, Seq<char>))>::empty());
        }
    }

    pub fn breaking_count(&self) -> (n: usize)
        requires
            self.counts_fit(),
        ensures
            n == self.spec_breaking_count(),
            self.wf() ==> (self.is_fully_compatible <==> n == 0),
    {
        let a = count_breaking_storage(&self.storage);
        let b = count_breaking_events(&self.events);
        let c = count_breaking_interfaces(&self.interfaces);
        let d = count_breaking_authorization(&self.authorization);
        proof {
            self.lemma_count_split(2);
            lemma_count_zero_iff_no_breaking(self.all_views());
        }
        a + b + c + d
    }

    pub fn warning_count(&self) -> (n: usize)
        requires
            self.counts_fit(),
        ensures
            n == self.spec_warning_count(),
            n + self.spec_breaking_count() <= self.all_views().len(),
    {
        proof {
            lemma_counts_within_checks(self.all_views());
        }
        let a = count_warning_storage(&self.storage);
        let b = count_warning_events(&self.events);
        let c = count_warning_interfaces(&self.interfaces);
        let d = count_warning_authorization(&self.authorization);
        proof {
            self.lemma_count_split(1);
        }
        a + b + c + d
    }

    proof fn lemma_count_split(self, sev: int)
        ensures
            count_severity(self.all_views(), sev) == count_severity(storage_views(self.storage@), sev)
                + count_severity(event_views(self.events@), sev) + count_severity(
                interface_views(self.interfaces@),
                sev,
            ) + count_severity(authorization_views(self.authorization@), sev),
    {
        let s = storage_views(self.storage@);
        let e = event_views(self.events@);
        let i = interface_views(self.interfaces@);
        let a = authorization_views(self.authorization@);
        lemma_count_concat(s, e, sev);
        lemma_count_concat(s + e, i, sev);
        lemma_count_concat(s + e + i, a, sev);
    }

    fn record_status(&mut self, status: &CompatStatus)
        ensures
            final(self).is_fully_compatible == (old(self).is_fully_compatible && !(*status is Breaking)),
            final(self).v1_hash == old(self).v1_hash,
            final(self).v2_hash == old(self).v2_hash,
            final(self).storage == old(self).storage,
            final(self).events == old(self).events,
            final(self).interfaces == old(self).interfaces,
            final(self).authorization == old(self).authorization,
            final(self).migration == old(self).migration,
    {
        if status.is_breaking() {
            self.is_fully_compatible = false;
        }
    }
}

pub proof fn lemma_has_breaking_concat(a: Seq<(Seq<char>, (int, Seq<char>))>, b: Seq<(Seq<char>, (int, Seq<char>))>)
    ensures
        has_breaking(a + b) == (has_breaking(a) || has_breaking(b)),
{
    if has_breaking(a + b) {
        let i = choose|i: int| 0 <= i < (a + b).len() && #[trigger] (a + b)[i].1.0 == 2;
        if i < a.len() {
            assert(a[i].1.0 == 2);
        } else {
            assert(b[i - a.len()].1.0 == 2);
        }
    }
    if has_breaking(a) {
        let i = choose|i: int| 0 <= i < a.len() && #[trigger] a[i].1.0 == 2;
        assert((a + b)[i].1.0 == 2);
    }
    if has_breaking(b) {
        let i = choose|i: int| 0 <= i < b.len() && #[trigger] b[i].1.0 == 2;
        assert((a + b)[a.len() + i].1.0 == 2);
    }
}

pub proof fn lemma_has_breaking_push(a: Seq<(Seq<char>, (int, Seq<char>))>, x: (Seq<char>, (int, Seq<char>)))
    ensures
        has_breaking(a.push(x)) == (has_breaking(a) || x.1.0 == 2),
{
    lemma_has_breaking_concat(a, seq![x]);
    assert(a + seq![x] =~= a.push(x));
    if x.1.0 == 2 {
        assert(seq![x][0].1.0 == 2);
    }
    if has_breaking(seq![x]) {
        let i = choose|i: int| 0 <= i < seq![x].len() && #[trigger] seq![x][i].1.0 == 2;
    }
}

/// Recording one more check keeps the verdict in agreement with the checks: a
/// result is fully compatible exactly when none of its checks is breaking.
pub proof fn lemma_record_keeps_verdict(
    s: Seq<(Seq<char>, (int, Seq<char>))>,
    e: Seq<(Seq<char>, (int, Seq<char>))>,
    i: Seq<(Seq<char>, (int, Seq<char>))>,
    a: Seq<(Seq<char>, (int, Seq<char>))>,
)
    ensures
        has_breaking(s + e + i + a) == (has_breaking(s) || has_breaking(e) || has_breaking(i)
            || has_breaking(a)),
{
    lemma_has_breaking_concat(s, e);
    lemma_has_breaking_concat(s + e, i);
    lemma_has_breaking_concat(s + e + i, a);
}

/// Recording the checks `ds`, `de`, `di` and `da` after those of `a`, and
/// lowering the verdict for each breaking one, gives a result that `a` records to.
pub proof fn lemma_records_by(
    a: CompatibilityResult,
    b: CompatibilityResult,
    ds: Seq<(Seq<char>, (int, Seq<char>))>,
    de: Seq<(Seq<char>, (int, Seq<char>))>,
    di: Seq<(Seq<char>, (int, Seq<char>))>,
    da: Seq<(Seq<char>, (int, Seq<char>))>,
)
    requires
        storage_views(b.storage@) == storage_views(a.storage@) + ds,
        event_views(b.events@) == event_views(a.events@) + de,
        interface_views(b.interfaces@) == interface_views(a.interfaces@) + di,
        authorization_views(b.authorization@) == authorization_views(a.authorization@) + da,
        b.is_fully_compatible == (a.is_fully_compatible && !has_breaking(ds) && !has_breaking(de)
            && !has_breaking(di) && !has_breaking(da)),
    ensures
        a.records(b),
{
    lemma_extends_by(storage_views(a.storage@), ds);
    lemma_extends_by(event_views(a.events@), de);
    lemma_extends_by(interface_views(a.interfaces@), di);
    lemma_extends_by(authorization_views(a.authorization@), da);
}

/// Recording the checks `d` in the storage list alone, lowering the verdict
/// for each breaking one, is a recording step.
pub proof fn lemma_records_storage(a: CompatibilityResult, b: CompatibilityResult, d: Seq<(Seq<char>, (int, Seq<char>))>)
    requires
        storage_views(b.storage@) == storage_views(a.storage@) + d,
        b.is_fully_compatible == (a.is_fully_compatible && !has_breaking(d)),
        b.events == a.events,
        b.interfaces == a.interfaces,
        b.authorization == a.authorization,
    ensures
        a.records(b),
{
    lemma_single_breaking((Seq::empty(), (0, Seq::empty())));
    assert(event_views(b.events@) =~= event_views(a.events@) + Seq::<(Seq<char>, (int, Seq<char>))>::empty());
    assert(interface_views(b.interfaces@) =~= interface_views(a.interfaces@) + Seq::<(Seq<char>, (int, Seq<char>))>::empty());
    assert(authorization_views(b.authorization@) =~= authorization_views(a.authorization@) + Seq::<(Seq<char>, (int, Seq<char>))>::empty());
    lemma_records_by(a, b, d, Seq::<(Seq<char>, (int, Seq<char>))>::empty(), Seq::<(Seq<char>, (int, Seq<char>))>::empty(), Seq::<(Seq<char>, (int, Seq<char>))>::empty());
}

/// Recording the checks `d` in the events list alone, lowering the verdict
/// for each breaking one, is a recording step.
pub proof fn lemma_records_events(a: CompatibilityResult, b: CompatibilityResult, d: Seq<(Seq<char>, (int, Seq<char>))>)
    requires
        event_views(b.events@) == event_views(a.events@) + d,
        b.is_fully_compatible == (a.is_fully_compatible && !has_breaking(d)),
        b.storage == a.storage,
        b.interfaces == a.interfaces,
        b.authorization == a.authorization,
    ensures
        a.records(b),
{
    lemma_single_breaking((Seq::empty(), (0, Seq::empty())));
    assert(storage_views(b.storage@) =~= storage_views(a.storage@) + Seq::<(Seq<char>, (int, Seq<char>))>::empty());
    assert(interface_views(b.interfaces@) =~= interface_views(a.interfaces@) + Seq::<(Seq<char>, (int, Seq<char>))>::empty());
    assert(authorization_views(b.authorization@) =~= authorization_views(a.authorization@) + Seq::<(Seq<char>, (int, Seq<char>))>::empty());
    lemma_records_by(a, b, Seq::<(Seq<char>, (int, Seq<char>))>::empty(), d, Seq::<(Seq<char>, (int, Seq<char>))>::empty(), Seq::<(Seq<char>, (int, Seq<char>))>::empty());
}

/// Recording the checks `d` in the interfaces list alone, lowering the verdict
/// for each breaking one, is a recording step.
pub proof fn lemma_records_interfaces(a: CompatibilityResult, b: CompatibilityResult, d: Seq<(Seq<char>, (int, Seq<char>))>)
    requires
        interface_views(b.interfaces@) == interface_views(a.interfaces@) + d,
        b.is_fully_compatible == (a.is_fully_compatible && !has_breaking(d)),
        b.storage == a.storage,
        b.events == a.events,
        b.authorization == a.authorization,
    ensures
        a.records(b),
{
    lemma_single_breaking((Seq::empty(), (0, Seq::empty())));
    assert(storage_views(b.storage@) =~= storage_views(a.storage@) + Seq::<(Seq<char>, (int, Seq<char>))>::empty());
    assert(event_views(b.events@) =~= event_views(a.events@) + Seq::<(Seq<char>, (int, Seq<char>))>::empty());
    assert(authorization_views(b.authorization@) =~= authorization_views(a.authorization@) + Seq::<(Seq<char>, (int, Seq<char>))>::empty());
    lemma_records_by(a, b, Seq::<(Seq<char>, (int, Seq<char>))>::empty(), Seq::<(Seq<char>, (int, Seq<char>))>::empty(), d, Seq::<(Seq<char>, (int, Seq<char>))>::empty());
}

/// Recording the checks `d` in the authorization list alone, lowering the verdict
/// for each breaking one, is a recording step.
pub proof fn lemma_records_authorization(a: CompatibilityResult, b: CompatibilityResult, d: Seq<(Seq<char>, (int, Seq<char>))>)
    requires
        authorization_views(b.authorization@) == authorization_views(a.authorization@) + d,
        b.is_fully_compatible == (a.is_fully_compatible && !has_breaking(d)),
        b.storage == a.storage,
        b.events == a.events,
        b.interfaces == a.interfaces,
    ensures
        a.records(b),
{
    lemma_single_breaking((Seq::empty(), (0, Seq::empty())));
    assert(storage_views(b.storage@) =~= storage_views(a.storage@) + Seq::<(Seq<char>, (int, Seq<char>))>::empty());
    assert(event_views(b.events@) =~= event_views(a.events@) + Seq::<(Seq<char>, (int, Seq<char>))>::empty());
    assert(interface_views(b.interfaces@) =~= interface_views(a.interfaces@) + Seq::<(Seq<char>, (int, Seq<char>))>::empty());
    lemma_records_by(a, b, Seq::<(Seq<char>, (int, Seq<char>))>::empty(), Seq::<(Seq<char>, (int, Seq<char>))>::empty(), Seq::<(Seq<char>, (int, Seq<char>))>::empty(), d);
}

/// Recording no check, the verdict unchanged, is a recording step.
pub proof fn lemma_records_nothing(a: CompatibilityResult, b: CompatibilityResult)
    requires
        b.storage == a.storage,
        b.events == a.events,
        b.interfaces == a.interfaces,
        b.authorization == a.authorization,
        b.is_fully_compatible == a.is_fully_compatible,
    ensures
        a.records(b),
{
    lemma_single_breaking((Seq::empty(), (0, Seq::empty())));
    assert(storage_views(b.storage@) =~= storage_views(a.storage@) + Seq::<(Seq<char>, (int, Seq<char>))>::empty());
    assert(event_views(b.events@) =~= event_views(a.events@) + Seq::<(Seq<char>, (int, Seq<char>))>::empty());
    assert(interface_views(b.interfaces@) =~= interface_views(a.interfaces@) + Seq::<(Seq<char>, (int, Seq<char>))>::empty());
    assert(authorization_views(b.authorization@) =~= authorization_views(a.authorization@) + Seq::<(Seq<char>, (int, Seq<char>))>::empty());
    lemma_records_by(a, b, Seq::<(Seq<char>, (int, Seq<char>))>::empty(), Seq::<(Seq<char>, (int, Seq<char>))>::empty(), Seq::<(Seq<char>, (int, Seq<char>))>::empty(), Seq::<(Seq<char>, (int, Seq<char>))>::empty());
}

/// A step of recording keeps the verdict in agreement with the checks.
proof fn lemma_records_keeps_wf(a: CompatibilityResult, b: CompatibilityResult)
    requires
        a.wf(),
        a.records(b),
    ensures
        b.wf(),
{
    let sa = storage_views(a.storage@);
    let sb = storage_views(b.storage@);
    let ea = event_views(a.events@);
    let eb = event_views(b.events@);
    let ia = interface_views(a.interfaces@);
    let ib = interface_views(b.interfaces@);
    let aa = authorization_views(a.authorization@);
    let ab = authorization_views(b.authorization@);
    assert(sb =~= sa + added(sa, sb));
    assert(eb =~= ea + added(ea, eb));
    assert(ib =~= ia + added(ia, ib));
    assert(ab =~= aa + added(aa, ab));
    lemma_has_breaking_concat(sa, added(sa, sb));
    lemma_has_breaking_concat(ea, added(ea, eb));
    lemma_has_breaking_concat(ia, added(ia, ib));
    lemma_has_breaking_concat(aa, added(aa, ab));
    lemma_record_keeps_verdict(sa, ea, ia, aa);
    lemma_record_keeps_verdict(sb, eb, ib, ab);
}

/// A result is fully compatible exactly when its breaking count is zero,
/// for every result reached from a well-formed one (as `new` gives) by a run
/// of recording calls, each of which records to the next (as `add_storage`,
/// `add_event`, `add_interface`, `add_authorization`, `add_migration_step`
/// and the validator's checks state); and once a result of the run is not
/// fully compatible, no later one is.
pub proof fn lemma_recorded_verdict(rs: Seq<CompatibilityResult>)
    requires
        rs.len() > 0,
        rs[0].wf(),
        forall|k: int| 0 <= k < rs.len() - 1 ==> (#[trigger] rs[k]).records(rs[k + 1]),
    ensures
        forall|k: int|
            0 <= k < rs.len() ==> (#[trigger] rs[k]).is_fully_compatible == (rs[k].spec_breaking_count() == 0),
        forall|k: int, l: int|
            0 <= k <= l < rs.len() && !(#[trigger] rs[k]).is_fully_compatible ==> !(#[trigger] rs[l]).is_fully_compatible,
    decreases rs.len(),
{
    if rs.len() > 1 {
        let front = rs.drop_last();
        assert forall|k: int| 0 <= k < front.len() - 1 implies (#[trigger] front[k]).records(front[k + 1]) by {
            assert(front[k] == rs[k] && front[k + 1] == rs[k + 1]);
            assert(rs[k].records(rs[k + 1]));
        }
        lemma_recorded_verdict(front);
        let n = rs.len() - 1;
        assert(front[n - 1] == rs[n - 1]);
        assert(rs[n - 1].records(rs[n]));
        lemma_wf_along(rs, n);
        assert forall|k: int| 0 <= k < rs.len() implies (#[trigger] rs[k]).is_fully_compatible == (
            rs[k].spec_breaking_count() == 0) by {
            if k < n {
                assert(front[k] == rs[k]);
            }
            lemma_wf_along(rs, k);
            lemma_count_zero_iff_no_breaking(rs[k].all_views());
        }
        assert forall|k: int, l: int|
            0 <= k <= l < rs.len() && !(#[trigger] rs[k]).is_fully_compatible implies !(#[trigger] rs[l]).is_fully_compatible by {
            if l < n {
                assert(front[k] == rs[k] && front[l] == rs[l]);
            } else if k < n {
                assert(front[k] == rs[k] && front[n - 1] == rs[n - 1]);
            }
        }
    } else {
        lemma_count_zero_iff_no_breaking(rs[0].all_views());
    }
}

/// Each result of a run of recording calls from a well-formed one is well formed.
proof fn lemma_wf_along(rs: Seq<CompatibilityResult>, k: int)
    requires
        0 <= k < rs.len(),
        rs[0].wf(),
        forall|j: int| 0 <= j < rs.len() - 1 ==> (#[trigger] rs[j]).records(rs[j + 1]),
    ensures
        rs[k].wf(),
    decreases k,
{
    if k > 0 {
        lemma_wf_along(rs, k - 1);
        assert(rs[k - 1].records(rs[k]));
        lemma_records_keeps_wf(rs[k - 1], rs[k]);
    }
}

fn count_breaking_storage(v: &Vec<StorageFieldCheck>) -> (n: usize)
    ensures
        n <= v@.len(),
        n == count_severity(storage_views(v@), 2),
{
    let mut n: usize = 0;
    let mut i: usize = 0;
    while i < v.len()
        invariant
            0 <= i <= v.len(),
            n == count_severity(storage_views(v@.take(i as int)), 2),
            n <= i,
        decreases v.len() - i,
    {
        proof {
            assert(v@.take(i + 1) =~= v@.take(i as int).push(v@[i as int]));
            assert(storage_views(v@.take(i + 1)) =~= storage_views(v@.take(i as int)).push(
                (v@[i as int].name@, status_view(v@[i as int].status)),
            ));
            lemma_count_push(storage_views(v@.take(i as int)), (v@[i as int].name@, status_view(v@[i as int].status)), 2);
        }
        if v[i].status.is_breaking() {
            n = n + 1;
        }
        i = i + 1;
    }
    assert(v@.take(i as int) =~= v@);
    n
}

fn count_warning_storage(v: &Vec<StorageFieldCheck>) -> (n: usize)
    ensures
        n <= v@.len(),
        n == count_severity(storage_views(v@), 1),
{
    let mut n: usize = 0;
    let mut i: usize = 0;
    while i < v.len()
        invariant
            0 <= i <= v.len(),
            n == count_severity(storage_views(v@.take(i as int)), 1),
            n <= i,
        decreases v.len() - i,
    {
        proof {
            assert(v@.take(i + 1) =~= v@.take(i as int).push(v@[i as int]));
            assert(storage_views(v@.take(i + 1)) =~= storage_views(v@.take(i as int)).push(
                (v@[i as int].name@, status_view(v@[i as int].status)),
            ));
            lemma_count_push(storage_views(v@.take(i as int)), (v@[i as int].name@, status_view(v@[i as int].status)), 1);
        }
        if v[i].status.is_warning() {
            n = n + 1;
        }
        i = i + 1;
    }
    assert(v@.take(i as int) =~= v@);
    n
}

fn count_breaking_events(v: &Vec<EventCheck>) -> (n: usize)
    ensures
        n <= v@.len(),
        n == count_severity(event_views(v@), 2),
{
    let mut n: usize = 0;
    let mut i: usize = 0;
    while i < v.len()
        invariant
            0 <= i <= v.len(),
            n == count_severity(event_views(v@.take(i as int)), 2),
            n <= i,
        decreases v.len() - i,
    {
        proof {
            assert(v@.take(i + 1) =~= v@.take(i as int).push(v@[i as int]));
            assert(event_views(v@.take(i + 1)) =~= event_views(v@.take(i as int)).push(
                (v@[i as int].name@, status_view(v@[i as int].status)),
            ));
            lemma_count_push(event_views(v@.take(i as int)), (v@[i as int].name@, status_view(v@[i as int].status)), 2);
        }
        if v[i].status.is_breaking() {
            n = n + 1;
        }
        i = i + 1;
    }
    assert(v@.take(i as int) =~= v@);
    n
}

fn count_warning_events(v: &Vec<EventCheck>) -> (n: usize)
    ensures
        n <= v@.len(),
        n == count_severity(event_views(v@), 1),
{
    let mut n: usize = 0;
    let mut i: usize = 0;
    while i < v.len()
        invariant
            0 <= i <= v.len(),
            n == count_severity(event_views(v@.take(i as int)), 1),
            n <= i,
        decreases v.len() - i,
    {
        proof {
            assert(v@.take(i + 1) =~= v@.take(i as int).push(v@[i as int]));
            assert(event_views(v@.take(i + 1)) =~= event_views(v@.take(i as int)).push(
                (v@[i as int].name@, status_view(v@[i as int].status)),
            ));
            lemma_count_push(event_views(v@.take(i as int)), (v@[i as int].name@, status_view(v@[i as int].status)), 1);
        }
        if v[i].status.is_warning() {
            n = n + 1;
        }
        i = i + 1;
    }
    assert(v@.take(i as int) =~= v@);
    n
}

fn count_breaking_interfaces(v: &Vec<InterfaceCheck>) -> (n: usize)
    ensures
        n <= v@.len(),
        n == count_severity(interface_views(v@), 2),
{
    let mut n: usize = 0;
    let mut i: usize = 0;
    while i < v.len()
        invariant
            0 <= i <= v.len(),
            n == count_severity(interface_views(v@.take(i as int)), 2),
            n <= i,
        decreases v.len() - i,
    {
        proof {
            assert(v@.take(i + 1) =~= v@.take(i as int).push(v@[i as int]));
            assert(interface_views(v@.take(i + 1)) =~= interface_views(v@.take(i as int)).push(
                (v@[i as int].function@, status_view(v@[i as int].status)),
            ));
            lemma_count_push(interface_views(v@.take(i as int)), (v@[i as int].function@, status_view(v@[i as int].status)), 2);
        }
        if v[i].status.is_breaking() {
            n = n + 1;
        }
        i = i + 1;
    }
    assert(v@.take(i as int) =~= v@);
    n
}

fn count_warning_interfaces(v: &Vec<InterfaceCheck>) -> (n: usize)
    ensures
        n <= v@.len(),
        n == count_severity(interface_views(v@), 1),
{
    let mut n: usize = 0;
    let mut i: usize = 0;
    while i < v.len()
        invariant
            0 <= i <= v.len(),
            n == count_severity(interface_views(v@.take(i as int)), 1),
            n <= i,
        decreases v.len() - i,
    {
        proof {
            assert(v@.take(i + 1) =~= v@.take(i as int).push(v@[i as int]));
            assert(interface_views(v@.take(i + 1)) =~= interface_views(v@.take(i as int)).push(
                (v@[i as int].function@, status_view(v@[i as int].status)),
            ));
            lemma_count_push(interface_views(v@.take(i as int)), (v@[i as int].function@, status_view(v@[i as int].status)), 1);
        }
        if v[i].status.is_warning() {
            n = n + 1;
        }
        i = i + 1;
    }
    assert(v@.take(i as int) =~= v@);
    n
}

fn count_breaking_authorization(v: &Vec<AuthorizationCheck>) -> (n: usize)
    ensures
        n <= v@.len(),
        n == count_severity(authorization_views(v@), 2),
{
    let mut n: usize = 0;
    let mut i: usize = 0;
    while i < v.len()
        invariant
            0 <= i <= v.len(),
            n == count_severity(authorization_views(v@.take(i as int)), 2),
            n <= i,
        decreases v.len() - i,
    {
        proof {
            assert(v@.take(i + 1) =~= v@.take(i as int).push(v@[i as int]));
            assert(authorization_views(v@.take(i + 1)) =~= authorization_views(v@.take(i as int)).push(
                (v@[i as int].rule@, status_view(v@[i as int].status)),
            ));
            lemma_count_push(authorization_views(v@.take(i as int)), (v@[i as int].rule@, status_view(v@[i as int].status)), 2);
        }
        if v[i].status.is_breaking() {
            n = n + 1;
        }
        i = i + 1;
    }
    assert(v@.take(i as int) =~= v@);
    n
}

fn count_warning_authorization(v: &Vec<AuthorizationCheck>) -> (n: usize)
    ensures
        n <= v@.len(),
        n == count_severity(authorization_views(v@), 1),
{
    let mut n: usize = 0;
    let mut i: usize = 0;
    while i < v.len()
        invariant
            0 <= i <= v.len(),
            n == count_severity(authorization_views(v@.take(i as int)), 1),
            n <= i,
        decreases v.len() - i,
    {
        proof {
            assert(v@.take(i + 1) =~= v@.take(i as int).push(v@[i as int]));
            assert(authorization_views(v@.take(i + 1)) =~= authorization_views(v@.take(i as int)).push(
                (v@[i as int].rule@, status_view(v@[i as int].status)),
            ));
            lemma_count_push(authorization_views(v@.take(i as int)), (v@[i as int].rule@, status_view(v@[i as int].status)), 1);
        }
        if v[i].status.is_warning() {
            n = n + 1;
        }
        i = i + 1;
    }
    assert(v@.take(i as int) =~= v@);
    n
}

} // verus!
