//! Effect firewall with bounded, opaque capability leases.

use vstd::prelude::*;

use crate::text::{chars_of, contains_text, ends_with, same_text, stands_at, starts_with, texts};

verus! {

/// A class of effects, by its wire token. How classes compare is decided by the
/// protocol that defines them.
#[derive(Debug, PartialEq, Eq)]
pub struct EffectClass {
    pub token: String,
}

impl View for EffectClass {
    type V = Seq<char>;

    open spec fn view(&self) -> Seq<char> {
        self.token@
    }
}

impl Clone for EffectClass {
    fn clone(&self) -> (r: EffectClass)
        ensures
            r@ == self@,
    {
        EffectClass { token: self.token.clone() }
    }
}

/// What an invocation claims to do.
#[derive(Debug, Clone)]
pub struct EffectClaim {
    pub class: EffectClass,
    pub resources: Vec<String>,
    pub expected_effect: String,
}

/// A request to invoke a capability on a device.
#[derive(Debug, Clone)]
pub struct InvocationEnvelope {
    pub run_id: String,
    pub capability_id: String,
    pub device_id: String,
    pub effect_claim: EffectClaim,
    pub lease_id: Option<String>,
    pub cwd: Option<String>,
    pub timeout_ms: u64,
    pub max_output_bytes: usize,
    pub expected_result: Option<String>,
}

/// A bounded permission to invoke capabilities.
#[derive(Debug)]
pub struct CapabilityLease {
    pub id: String,
    pub device_ids: Vec<String>,
    pub resource_prefixes: Vec<String>,
    pub allowed_programs: Vec<String>,
    pub effect_ceiling: EffectClass,
    pub max_calls: u32,
    pub calls_used: u32,
    pub expires_at_ms: i64,
}

/// The model of a lease.
pub struct LeaseModel {
    pub id: Seq<char>,
    pub device_ids: Seq<Seq<char>>,
    pub resource_prefixes: Seq<Seq<char>>,
    pub allowed_programs: Seq<Seq<char>>,
    pub effect_ceiling: Seq<char>,
    pub max_calls: u32,
    pub calls_used: u32,
    pub expires_at_ms: i64,
}

impl View for CapabilityLease {
    type V = LeaseModel;

    open spec fn view(&self) -> LeaseModel {
        LeaseModel {
            id: self.id@,
            device_ids: texts(self.device_ids@),
            resource_prefixes: texts(self.resource_prefixes@),
            allowed_programs: texts(self.allowed_programs@),
            effect_ceiling: self.effect_ceiling@,
            max_calls: self.max_calls,
            calls_used: self.calls_used,
            expires_at_ms: self.expires_at_ms,
        }
    }
}

/// One granted call.
#[derive(Debug)]
pub struct LeaseGrant {
    pub lease_id: String,
    pub call_number: u32,
}

/// A lease boundary that was exceeded or mismatched.
#[derive(Debug, PartialEq, Eq)]
pub enum PolicyError {
    Expired,
    CallBudgetExhausted,
    DeviceDenied(String),
    EffectDenied { ceiling: EffectClass, claimed: EffectClass },
    ProgramDenied(String),
    ResourceDenied(String),
    LeaseMismatch,
}

/// The resource lies in the scope: a scope that ends in `/**` covers its base
/// and everything below it, any other covers itself alone.
pub open spec fn covers(scope: Seq<char>, resource: Seq<char>) -> bool {
    if ends_with(scope, "/**"@) {
        let base = scope.take(scope.len() - "/**"@.len());
        ||| resource == base
        ||| starts_with(resource, base) && resource.len() > base.len() && resource[base.len() as int]
            == '/'
    } else {
        resource == scope
    }
}

/// Whether the resource lies in the scope.
pub fn resource_matches(scope: &str, resource: &str) -> (r: bool)
    ensures
        r == covers(scope@, resource@),
{
    let s = chars_of(scope);
    let t = chars_of(resource);
    let wildcard = chars_of("/**");
    proof {
        reveal_strlit("/**");
    }
    if s.len() >= wildcard.len() {
        let base_len: usize = s.len() - wildcard.len();
        if stands_at(&s, base_len, &wildcard) {
            assert(s@.subrange(base_len as int, s@.len() as int) =~= s@.skip(base_len as int));
            let mut base: Vec<char> = Vec::new();
            let mut i: usize = 0;
            while i < base_len
                invariant
                    s@ == scope@,
                    0 <= i <= base_len <= s@.len(),
                    base@ =~= s@.take(i as int),
                decreases base_len - i,
            {
                base.push(s[i]);
                i += 1;
            }
            if !stands_at(&t, 0, &base) {
                assert(!starts_with(resource@, base@));
                assert(resource@ == base@ ==> resource@.take(base@.len() as int) =~= base@);
                return false;
            }
            assert(t@.take(base_len as int) =~= base@);
            if t.len() == base_len {
                assert(t@ =~= base@);
                return true;
            }
            return t[base_len] == '/';
        }
        assert(s@.subrange(base_len as int, s@.len() as int) =~= s@.skip(base_len as int));
    }
    same_text(resource, scope)
}

/// Some prefix of the lease covers the resource.
pub open spec fn covered(prefixes: Seq<Seq<char>>, resource: Seq<char>) -> bool {
    exists|i: int| 0 <= i < prefixes.len() && covers(#[trigger] prefixes[i], resource)
}

fn is_covered(prefixes: &Vec<String>, resource: &str) -> (r: bool)
    ensures
        r == covered(texts(prefixes@), resource@),
{
    let ghost p = texts(prefixes@);
    let mut i: usize = 0;
    while i < prefixes.len()
        invariant
            p == texts(prefixes@),
            0 <= i <= prefixes@.len(),
            forall|j: int| 0 <= j < i ==> !covers(#[trigger] p[j], resource@),
        decreases prefixes.len() - i,
    {
        if resource_matches(&prefixes[i], resource) {
            assert(covers(p[i as int], resource@));
            return true;
        }
        i += 1;
    }
    false
}

/// The first resource that no prefix covers.
pub open spec fn first_uncovered(
    prefixes: Seq<Seq<char>>,
    resources: Seq<Seq<char>>,
    i: int,
) -> bool {
    &&& 0 <= i < resources.len()
    &&& !covered(prefixes, resources[i])
    &&& forall|j: int| 0 <= j < i ==> covered(prefixes, #[trigger] resources[j])
}

/// Every boundary of the lease admits the invocation.
pub open spec fn within_bounds(
    lease: LeaseModel,
    envelope: InvocationEnvelope,
    program: Seq<char>,
    now_ms: i64,
    effect_permitted: bool,
) -> bool {
    &&& now_ms < lease.expires_at_ms
    &&& lease.calls_used < lease.max_calls
    &&& lease.device_ids.contains(envelope.device_id@)
    &&& effect_permitted
    &&& lease.allowed_programs.contains(program)
    &&& forall|i: int|
        0 <= i < envelope.effect_claim.resources@.len() ==> covered(
            lease.resource_prefixes,
            #[trigger] texts(envelope.effect_claim.resources@)[i],
        )
    &&& envelope.lease_id matches Some(id) && id@ == lease.id
}

/// The result of authorizing an invocation: the first boundary that refuses it
/// decides.
pub open spec fn authorize_outcome(
    lease: LeaseModel,
    envelope: InvocationEnvelope,
    program: Seq<char>,
    now_ms: i64,
    effect_permitted: bool,
    r: Result<LeaseGrant, PolicyError>,
) -> bool {
    let resources = texts(envelope.effect_claim.resources@);
    if now_ms >= lease.expires_at_ms {
        r is Err && r->Err_0 is Expired
    } else if lease.calls_used >= lease.max_calls {
        r is Err && r->Err_0 is CallBudgetExhausted
    } else if !lease.device_ids.contains(envelope.device_id@) {
        r is Err && r->Err_0 is DeviceDenied && r->Err_0->DeviceDenied_0@ == envelope.device_id@
    } else if !effect_permitted {
        &&& r is Err
        &&& r->Err_0 is EffectDenied
        &&& r->Err_0->ceiling@ == lease.effect_ceiling
        &&& r->Err_0->claimed@ == envelope.effect_claim.class@
    } else if !lease.allowed_programs.contains(program) {
        r is Err && r->Err_0 is ProgramDenied && r->Err_0->ProgramDenied_0@ == program
    } else if exists|i: int| #[trigger] first_uncovered(lease.resource_prefixes, resources, i) {
        &&& r is Err
        &&& r->Err_0 is ResourceDenied
        &&& exists|i: int|
            #[trigger] first_uncovered(lease.resource_prefixes, resources, i)
                && r->Err_0->ResourceDenied_0@ == resources[i]
    } else if !(envelope.lease_id matches Some(id) && id@ == lease.id) {
        r is Err && r->Err_0 is LeaseMismatch
    } else {
        r is Ok && r->Ok_0.lease_id@ == lease.id && r->Ok_0.call_number == lease.calls_used + 1
    }
}

/// What becomes of a lease: a granted call is counted, a refused one is not.
pub open spec fn lease_after(before: LeaseModel, after: LeaseModel, granted: bool) -> bool {
    if granted {
        after == LeaseModel { calls_used: (before.calls_used + 1) as u32, ..before }
    } else {
        after == before
    }
}

impl CapabilityLease {
    /// An unused lease with the given boundaries.
    pub fn bounded(
        id: String,
        device_ids: Vec<String>,
        resource_prefixes: Vec<String>,
        allowed_programs: Vec<String>,
        effect_ceiling: EffectClass,
        max_calls: u32,
        expires_at_ms: i64,
    ) -> (r: CapabilityLease)
        ensures
            r@ == (LeaseModel {
                id: id@,
                device_ids: texts(device_ids@),
                resource_prefixes: texts(resource_prefixes@),
                allowed_programs: texts(allowed_programs@),
                effect_ceiling: effect_ceiling@,
                max_calls,
                calls_used: 0,
                expires_at_ms,
            }),
    {
        CapabilityLease {
            id,
            device_ids,
            resource_prefixes,
            allowed_programs,
            effect_ceiling,
            max_calls,
            calls_used: 0,
            expires_at_ms,
        }
    }

    /// Consumes one lease call after every device, effect, program and resource
    /// check passes. `effect_permitted` says whether the lease's ceiling permits
    /// the claimed class of effects.
    pub fn authorize(
        &mut self,
        envelope: &InvocationEnvelope,
        program: &str,
        now_ms: i64,
        effect_permitted: bool,
    ) -> (r: Result<LeaseGrant, PolicyError>)
        ensures
            authorize_outcome(old(self)@, *envelope, program@, now_ms, effect_permitted, r),
            r is Ok == within_bounds(old(self)@, *envelope, program@, now_ms, effect_permitted),
            r is Ok ==> final(self)@ == (LeaseModel {
                calls_used: (old(self)@.calls_used + 1) as u32,
                ..old(self)@
            }),
            r is Err ==> final(self)@ == old(self)@,
            lease_after(old(self)@, final(self)@, r is Ok),
    {
        let ghost lease = self@;
        let ghost resources = texts(envelope.effect_claim.resources@);
        if now_ms >= self.expires_at_ms {
            return Err(PolicyError::Expired);
        }
        if self.calls_used >= self.max_calls {
            return Err(PolicyError::CallBudgetExhausted);
        }
        if !contains_text(&self.device_ids, &envelope.device_id) {
            return Err(PolicyError::DeviceDenied(envelope.device_id.clone()));
        }
        if !effect_permitted {
            return Err(
                PolicyError::EffectDenied {
                    ceiling: self.effect_ceiling.clone(),
                    claimed: envelope.effect_claim.class.clone(),
                },
            );
        }
        if !contains_text(&self.allowed_programs, program) {
            return Err(PolicyError::ProgramDenied(program.to_owned()));
        }
        let mut i: usize = 0;
        while i < envelope.effect_claim.resources.len()
            invariant
                self@ == lease,
                self@ == old(self)@,
                resources == texts(envelope.effect_claim.resources@),
                0 <= i <= envelope.effect_claim.resources@.len(),
                now_ms < lease.expires_at_ms,
                lease.calls_used < lease.max_calls,
                lease.device_ids.contains(envelope.device_id@),
                effect_permitted,
                lease.allowed_programs.contains(program@),
                forall|j: int|
                    0 <= j < i ==> covered(lease.resource_prefixes, #[trigger] resources[j]),
            decreases envelope.effect_claim.resources.len() - i,
        {
            let resource = &envelope.effect_claim.resources[i];
            assert(resources[i as int] == resource@);
            if !is_covered(&self.resource_prefixes, resource) {
                assert(first_uncovered(lease.resource_prefixes, resources, i as int));
                return Err(PolicyError::ResourceDenied(resource.clone()));
            }
            i += 1;
        }
        assert(!(exists|k: int| #[trigger]
            first_uncovered(lease.resource_prefixes, resources, k)));
        let matching = match &envelope.lease_id {
            Some(id) => same_text(id, &self.id),
            None => false,
        };
        if !matching {
            return Err(PolicyError::LeaseMismatch);
        }
        self.calls_used = self.calls_used + 1;
        Ok(LeaseGrant { lease_id: self.id.clone(), call_number: self.calls_used })
    }
}

/// A wildcard scope covers its base and what lies below it, and no sibling that
/// merely begins with the same characters.
pub proof fn wildcard_covers_descendants_only(base: Seq<char>, resource: Seq<char>)
    ensures
        covers(base + "/**"@, resource) <==> resource == base || starts_with(
            resource,
            base + "/"@,
        ),
{
    reveal_strlit("/**");
    reveal_strlit("/");
    let scope = base + "/**"@;
    assert(scope.skip(scope.len() - "/**"@.len()) =~= "/**"@);
    assert(scope.take(scope.len() - "/**"@.len()) =~= base);
    if starts_with(resource, base + "/"@) {
        assert(resource.take(base.len() as int) =~= base) by {
            assert forall|i: int| 0 <= i < base.len() implies resource[i] == base[i] by {
                assert(resource.take(base.len() as int + 1)[i] == (base + "/"@)[i]);
            }
        }
        assert(resource.take(base.len() as int + 1)[base.len() as int] == '/');
    }
    if starts_with(resource, base) && resource.len() > base.len() && resource[base.len() as int]
        == '/' {
        assert(resource.take(base.len() as int + 1) =~= base + "/"@) by {
            assert forall|i: int| 0 <= i < base.len() implies resource[i] == base[i] by {
                assert(resource.take(base.len() as int)[i] == base[i]);
            }
        }
    }
}

/// A lease is spent by its calls alone: after a grant one call fewer is left,
/// the grants are numbered one after the other, and a lease whose calls are
/// used up grants nothing.
pub proof fn calls_are_bounded(
    lease: LeaseModel,
    envelope: InvocationEnvelope,
    program: Seq<char>,
    now_ms: i64,
    effect_permitted: bool,
    r: Result<LeaseGrant, PolicyError>,
)
    requires
        authorize_outcome(lease, envelope, program, now_ms, effect_permitted, r),
    ensures
        r is Ok ==> lease.calls_used < r->Ok_0.call_number <= lease.max_calls,
        lease.calls_used >= lease.max_calls ==> r is Err,
        now_ms >= lease.expires_at_ms ==> r is Err,
{
}

/// A scope that does not end in `/**` covers the resource of its own name and no
/// other: neither what lies below it nor what merely begins or ends like it.
pub proof fn plain_scopes_cover_themselves_alone(scope: Seq<char>, resource: Seq<char>)
    requires
        scope.len() < 3 || scope[scope.len() - 3] != '/' || scope[scope.len() - 2] != '*'
            || scope[scope.len() - 1] != '*',
    ensures
        covers(scope, resource) <==> resource == scope,
{
    reveal_strlit("/**");
    if scope.len() >= 3 && scope.skip(scope.len() - 3) == "/**"@ {
        let tail = scope.skip(scope.len() - 3);
        assert(tail[0] == scope[scope.len() - 3] && tail[1] == scope[scope.len() - 2] && tail[2]
            == scope[scope.len() - 1]);
    }
}

/// A scope that ends in `/**` covers its base, covers every continuation of the
/// base by a slash and anything at all, and covers nothing else: whatever it
/// covers is one of these, and the wildcard itself is not read as a name unless
/// it lies below the base.
pub proof fn wildcard_scopes_cover_the_tree_below(
    base: Seq<char>,
    rest: Seq<char>,
    resource: Seq<char>,
)
    ensures
        covers(base + seq!['/', '*', '*'], base),
        covers(base + seq!['/', '*', '*'], base + seq!['/'] + rest),
        covers(base + seq!['/', '*', '*'], resource) && resource != base ==> {
            let n = base.len() as int;
            &&& resource.len() > n
            &&& resource[n] == '/'
            &&& resource == base + seq!['/'] + resource.skip(n + 1)
        },
        covers(base + seq!['/', '*', '*'], resource) ==> resource.len() >= base.len()
            && resource.take(base.len() as int) == base,
{
    reveal_strlit("/**");
    reveal_strlit("/");
    assert("/**"@ =~= seq!['/', '*', '*']);
    assert("/"@ =~= seq!['/']);
    let below = base + seq!['/'] + rest;
    assert(below.take(base.len() as int + 1) =~= base + "/"@);
    wildcard_covers_descendants_only(base, base);
    wildcard_covers_descendants_only(base, below);
    wildcard_covers_descendants_only(base, resource);
    if resource == base {
        assert(resource.take(base.len() as int) =~= base);
    } else if covers(base + seq!['/', '*', '*'], resource) {
        let n = base.len() as int;
        let head = resource.take(n + 1);
        assert(head == base + "/"@);
        assert(head[n] == '/');
        assert(resource =~= head + resource.skip(n + 1));
        assert(resource.take(n) =~= head.take(n));
        assert(head.take(n) =~= base);
    }
}

/// A call is granted exactly where the lease is still valid and has a call left,
/// names the device and the program, permits the effect, covers every resource `k`
/// by one of its scopes, and is the one that the invocation carries.
pub proof fn grants_stay_within_every_boundary(
    lease: LeaseModel,
    envelope: InvocationEnvelope,
    program: Seq<char>,
    now_ms: i64,
    effect_permitted: bool,
    k: int,
    r: Result<LeaseGrant, PolicyError>,
)
    requires
        authorize_outcome(lease, envelope, program, now_ms, effect_permitted, r),
    ensures
        r is Ok ==> now_ms < lease.expires_at_ms,
        r is Ok ==> lease.calls_used < lease.max_calls,
        r is Ok ==> lease.device_ids.contains(envelope.device_id@),
        r is Ok ==> effect_permitted,
        r is Ok ==> lease.allowed_programs.contains(program),
        r is Ok && 0 <= k < envelope.effect_claim.resources@.len() ==> exists|s: int|
            0 <= s < lease.resource_prefixes.len() && covers(
                #[trigger] lease.resource_prefixes[s],
                envelope.effect_claim.resources@[k]@,
            ),
        r is Ok ==> envelope.lease_id is Some && envelope.lease_id->0@ == lease.id,
        r is Err ==> {
            ||| now_ms >= lease.expires_at_ms
            ||| lease.calls_used >= lease.max_calls
            ||| !lease.device_ids.contains(envelope.device_id@)
            ||| !effect_permitted
            ||| !lease.allowed_programs.contains(program)
            ||| exists|k: int|
                0 <= k < envelope.effect_claim.resources@.len() && forall|s: int|
                    0 <= s < lease.resource_prefixes.len() ==> !covers(
                        #[trigger] lease.resource_prefixes[s],
                        (#[trigger] envelope.effect_claim.resources@[k])@,
                    )
            ||| envelope.lease_id is None
            ||| envelope.lease_id->0@ != lease.id
        },
        r is Ok == within_bounds(lease, envelope, program, now_ms, effect_permitted),
        r is Ok ==> r->Ok_0.lease_id@ == lease.id && r->Ok_0.call_number == lease.calls_used + 1,
{
    let claimed = envelope.effect_claim.resources@;
    let names = texts(claimed);
    let scopes = lease.resource_prefixes;
    if exists|i: int| #[trigger] first_uncovered(scopes, names, i) {
        let i = choose|i: int| #[trigger] first_uncovered(scopes, names, i);
        assert(names[i] == claimed[i]@);
        assert(!covered(scopes, names[i]));
        assert forall|s: int| 0 <= s < scopes.len() implies !covers(
            #[trigger] scopes[s],
            claimed[i]@,
        ) by {}
    } else {
        lemma_all_covered(scopes, names, names.len() as int);
        if 0 <= k < claimed.len() {
            assert(names[k] == claimed[k]@);
            assert(covered(scopes, names[k]));
        }
    }
}

proof fn lemma_all_covered(scopes: Seq<Seq<char>>, names: Seq<Seq<char>>, n: int)
    requires
        0 <= n <= names.len(),
        forall|i: int| !#[trigger] first_uncovered(scopes, names, i),
    ensures
        forall|i: int| 0 <= i < n ==> covered(scopes, #[trigger] names[i]),
    decreases n,
{
    if n > 0 {
        lemma_all_covered(scopes, names, n - 1);
        assert(!first_uncovered(scopes, names, n - 1));
    }
}

/// A refusal tells which boundary it was: a lease that has run out is reported
/// before one whose calls are used up, then the device, the effect, the program,
/// the first resource that no scope covers, and last the lease's own identity.
/// What was refused is named.
pub proof fn refusals_name_the_first_boundary(
    lease: LeaseModel,
    envelope: InvocationEnvelope,
    program: Seq<char>,
    now_ms: i64,
    effect_permitted: bool,
    e: PolicyError,
)
    requires
        authorize_outcome(lease, envelope, program, now_ms, effect_permitted, Err(e)),
    ensures
        now_ms >= lease.expires_at_ms <==> e is Expired,
        e is CallBudgetExhausted <==> now_ms < lease.expires_at_ms && lease.calls_used
            >= lease.max_calls,
        e is DeviceDenied ==> !lease.device_ids.contains(envelope.device_id@) && e->DeviceDenied_0@
            == envelope.device_id@,
        e is EffectDenied ==> !effect_permitted && lease.device_ids.contains(envelope.device_id@)
            && e->ceiling@ == lease.effect_ceiling && e->claimed@ == envelope.effect_claim.class@,
        e is ProgramDenied ==> !lease.allowed_programs.contains(program) && effect_permitted
            && lease.device_ids.contains(envelope.device_id@) && e->ProgramDenied_0@ == program,
        e is ResourceDenied ==> {
            &&& lease.allowed_programs.contains(program)
            &&& effect_permitted
            &&& lease.device_ids.contains(envelope.device_id@)
            &&& forall|s: int|
                0 <= s < lease.resource_prefixes.len() ==> !covers(
                    #[trigger] lease.resource_prefixes[s],
                    e->ResourceDenied_0@,
                )
            &&& exists|k: int|
                0 <= k < envelope.effect_claim.resources@.len() && (
                #[trigger] envelope.effect_claim.resources@[k])@ == e->ResourceDenied_0@
        },
        e is LeaseMismatch ==> {
            &&& lease.allowed_programs.contains(program)
            &&& effect_permitted
            &&& lease.device_ids.contains(envelope.device_id@)
            &&& envelope.lease_id is None || envelope.lease_id->0@ != lease.id
        },
{
    let claimed = envelope.effect_claim.resources@;
    let names = texts(claimed);
    let scopes = lease.resource_prefixes;
    if e is ResourceDenied {
        let i = choose|i: int|
            #[trigger] first_uncovered(scopes, names, i) && e->ResourceDenied_0@ == names[i];
        assert(names[i] == claimed[i]@);
        assert(!covered(scopes, names[i]));
    }
}

/// Authorizing spends a lease one call at a time: a grant leaves one call fewer,
/// a refusal leaves as many as before, and neither changes what the lease allows.
pub proof fn authorizing_spends_calls_only(before: LeaseModel, after: LeaseModel, granted: bool)
    requires
        lease_after(before, after, granted),
        granted ==> before.calls_used < before.max_calls,
    ensures
        after.calls_used - before.calls_used == if granted { 1int } else { 0int },
        after.max_calls == before.max_calls,
        after.expires_at_ms == before.expires_at_ms,
        after.id == before.id,
        after.device_ids == before.device_ids,
        after.resource_prefixes == before.resource_prefixes,
        after.allowed_programs == before.allowed_programs,
        after.effect_ceiling == before.effect_ceiling,
{
}

} // verus!
