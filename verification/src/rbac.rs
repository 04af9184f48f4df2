//! Role-based access control: a fixed set of roles with an inheritance
//! relation, and an ordered rule list matched first-hit against a request's
//! method and path. No matching rule means deny.

use vstd::prelude::*;
use vstd::string::StringSliceAdditionalSpecFns;
use vstd::utf8::encode_utf8;

use crate::strutil::{bytes_eq, lower_bytes, lower_bytes_of};

verus! {

/// A caller's role.
#[derive(Debug, Clone, Copy, PartialEq, Eq, Hash, Structural)]
pub enum Role {
    Owner,
    Admin,
    Member,
    Guest,
}

impl Role {
    /// The display name of the role.
    pub open spec fn spec_str(self) -> Seq<char> {
        match self {
            Role::Owner => "Owner"@,
            Role::Admin => "Admin"@,
            Role::Member => "Member"@,
            Role::Guest => "Guest"@,
        }
    }

    /// The display name of the role.
    pub fn as_str(&self) -> (r: &'static str)
        ensures
            r@ == self.spec_str(),
    {
        match self {
            Role::Owner => "Owner",
            Role::Admin => "Admin",
            Role::Member => "Member",
            Role::Guest => "Guest",
        }
    }
}

/// The role a name denotes, compared ASCII-case-insensitively.
pub open spec fn spec_role_of(name: Seq<u8>) -> Option<Role> {
    let lowered = lower_bytes_of(name);
    if lowered == encode_utf8("owner"@) {
        Some(Role::Owner)
    } else if lowered == encode_utf8("admin"@) {
        Some(Role::Admin)
    } else if lowered == encode_utf8("member"@) {
        Some(Role::Member)
    } else if lowered == encode_utf8("guest"@) {
        Some(Role::Guest)
    } else {
        None
    }
}

/// Parse a role name, ignoring ASCII case.
pub fn parse_role(name: &str) -> (r: Option<Role>)
    ensures
        r == spec_role_of(name.spec_bytes()),
{
    let lowered = lower_bytes(name.as_bytes());
    if bytes_eq(lowered.as_slice(), "owner".as_bytes()) {
        Some(Role::Owner)
    } else if bytes_eq(lowered.as_slice(), "admin".as_bytes()) {
        Some(Role::Admin)
    } else if bytes_eq(lowered.as_slice(), "member".as_bytes()) {
        Some(Role::Member)
    } else if bytes_eq(lowered.as_slice(), "guest".as_bytes()) {
        Some(Role::Guest)
    } else {
        None
    }
}

/// A set of roles.
#[derive(Debug, Clone, Copy, PartialEq, Eq, Structural)]
pub struct RoleSet {
    pub owner: bool,
    pub admin: bool,
    pub member: bool,
    pub guest: bool,
}

impl RoleSet {
    /// The empty set.
    pub fn empty() -> (r: RoleSet)
        ensures
            r == (RoleSet { owner: false, admin: false, member: false, guest: false }),
    {
        RoleSet { owner: false, admin: false, member: false, guest: false }
    }

    /// Whether the set holds the role.
    pub open spec fn spec_has(self, role: Role) -> bool {
        match role {
            Role::Owner => self.owner,
            Role::Admin => self.admin,
            Role::Member => self.member,
            Role::Guest => self.guest,
        }
    }

    /// Whether the set holds the role.
    pub fn has(&self, role: Role) -> (r: bool)
        ensures
            r == self.spec_has(role),
    {
        match role {
            Role::Owner => self.owner,
            Role::Admin => self.admin,
            Role::Member => self.member,
            Role::Guest => self.guest,
        }
    }

    /// This set with the role added.
    pub fn with(self, role: Role) -> (r: RoleSet)
        ensures
            r == self.spec_with(role),
    {
        match role {
            Role::Owner => RoleSet { owner: true, ..self },
            Role::Admin => RoleSet { admin: true, ..self },
            Role::Member => RoleSet { member: true, ..self },
            Role::Guest => RoleSet { guest: true, ..self },
        }
    }

    /// The set with the role added.
    pub open spec fn spec_with(self, role: Role) -> RoleSet {
        match role {
            Role::Owner => RoleSet { owner: true, ..self },
            Role::Admin => RoleSet { admin: true, ..self },
            Role::Member => RoleSet { member: true, ..self },
            Role::Guest => RoleSet { guest: true, ..self },
        }
    }

    /// The set holding exactly one role.
    pub open spec fn spec_single(role: Role) -> RoleSet {
        (RoleSet { owner: false, admin: false, member: false, guest: false }).spec_with(role)
    }

    /// Set union.
    pub open spec fn spec_union(self, other: RoleSet) -> RoleSet {
        RoleSet {
            owner: self.owner || other.owner,
            admin: self.admin || other.admin,
            member: self.member || other.member,
            guest: self.guest || other.guest,
        }
    }

    /// Set union.
    pub fn union(self, other: RoleSet) -> (r: RoleSet)
        ensures
            r == self.spec_union(other),
    {
        RoleSet {
            owner: self.owner || other.owner,
            admin: self.admin || other.admin,
            member: self.member || other.member,
            guest: self.guest || other.guest,
        }
    }

    /// Whether the two sets share a role.
    pub open spec fn spec_intersects(self, other: RoleSet) -> bool {
        (self.owner && other.owner) || (self.admin && other.admin) || (self.member && other.member)
            || (self.guest && other.guest)
    }

    /// Whether the two sets share a role.
    pub fn intersects(&self, other: &RoleSet) -> (r: bool)
        ensures
            r == self.spec_intersects(*other),
    {
        (self.owner && other.owner) || (self.admin && other.admin) || (self.member && other.member)
            || (self.guest && other.guest)
    }

    /// Pointwise containment.
    pub open spec fn spec_subset(self, other: RoleSet) -> bool {
        &&& self.owner ==> other.owner
        &&& self.admin ==> other.admin
        &&& self.member ==> other.member
        &&& self.guest ==> other.guest
    }
}

/// The direct parents of each role in the inheritance relation.
#[derive(Debug, Clone, Copy, PartialEq, Eq, Structural)]
pub struct InheritMap {
    pub owner: RoleSet,
    pub admin: RoleSet,
    pub member: RoleSet,
    pub guest: RoleSet,
}

impl InheritMap {
    /// No inheritance at all.
    pub fn empty() -> (r: InheritMap)
        ensures
            r.owner == RoleSet::spec_none(),
            r.admin == RoleSet::spec_none(),
            r.member == RoleSet::spec_none(),
            r.guest == RoleSet::spec_none(),
    {
        InheritMap {
            owner: RoleSet::empty(),
            admin: RoleSet::empty(),
            member: RoleSet::empty(),
            guest: RoleSet::empty(),
        }
    }

    /// The direct parents of a role.
    pub open spec fn spec_parents(self, role: Role) -> RoleSet {
        match role {
            Role::Owner => self.owner,
            Role::Admin => self.admin,
            Role::Member => self.member,
            Role::Guest => self.guest,
        }
    }

    /// The direct parents of a role.
    pub fn parents(&self, role: Role) -> (r: RoleSet)
        ensures
            r == self.spec_parents(role),
    {
        match role {
            Role::Owner => self.owner,
            Role::Admin => self.admin,
            Role::Member => self.member,
            Role::Guest => self.guest,
        }
    }

    /// This map with the parents of one role replaced.
    pub fn set_parents(self, role: Role, parents: RoleSet) -> (r: InheritMap)
        ensures
            r == self.spec_set_parents(role, parents),
    {
        match role {
            Role::Owner => InheritMap { owner: parents, ..self },
            Role::Admin => InheritMap { admin: parents, ..self },
            Role::Member => InheritMap { member: parents, ..self },
            Role::Guest => InheritMap { guest: parents, ..self },
        }
    }

    /// The map with the parents of one role replaced.
    pub open spec fn spec_set_parents(self, role: Role, parents: RoleSet) -> InheritMap {
        match role {
            Role::Owner => InheritMap { owner: parents, ..self },
            Role::Admin => InheritMap { admin: parents, ..self },
            Role::Member => InheritMap { member: parents, ..self },
            Role::Guest => InheritMap { guest: parents, ..self },
        }
    }

    /// One expansion step: add every member's direct parents.
    pub open spec fn spec_step(self, s: RoleSet) -> RoleSet {
        let with_owner = if s.owner {
            s.spec_union(self.owner)
        } else {
            s
        };
        let with_admin = if s.admin {
            with_owner.spec_union(self.admin)
        } else {
            with_owner
        };
        let with_member = if s.member {
            with_admin.spec_union(self.member)
        } else {
            with_admin
        };
        if s.guest {
            with_member.spec_union(self.guest)
        } else {
            with_member
        }
    }

    /// The effective role set: the transitive closure of one role under the
    /// inheritance relation. Four expansion steps suffice for four roles.
    pub open spec fn spec_effective(self, role: Role) -> RoleSet {
        self.spec_step(
            self.spec_step(self.spec_step(self.spec_step(RoleSet::spec_single(role)))),
        )
    }
}

impl RoleSet {
    /// The empty set, as a value.
    pub open spec fn spec_none() -> RoleSet {
        RoleSet { owner: false, admin: false, member: false, guest: false }
    }
}

/// One ordered rule of the policy.
#[derive(Debug, Clone)]
pub struct RouteRule {
    /// An exact path, or a prefix followed by a trailing `*`.
    pub pattern: String,
    /// The methods this rule applies to, matched byte-exactly.
    pub methods: Vec<String>,
    /// The roles the rule allows.
    pub roles: RoleSet,
    /// An audit action to record when the rule decides.
    pub audit_action: Option<String>,
}

/// Model of a [`RouteRule`]: pattern and methods as byte strings.
pub struct RouteRuleV {
    pub pattern: Seq<u8>,
    pub methods: Seq<Seq<u8>>,
    pub roles: RoleSet,
    pub audit_action: Option<Seq<char>>,
}

impl View for RouteRule {
    type V = RouteRuleV;

    open spec fn view(&self) -> RouteRuleV {
        RouteRuleV {
            pattern: encode_utf8(self.pattern@),
            methods: self.methods@.map_values(|m: String| encode_utf8(m@)),
            roles: self.roles,
            audit_action: match self.audit_action {
                Some(ref a) => Some(a@),
                None => None,
            },
        }
    }
}

/// Whether a pattern matches a path: a pattern ending in `*` matches every
/// path starting with the bytes before the `*`; any other pattern matches
/// only itself.
pub open spec fn spec_pattern_matches(pat: Seq<u8>, path: Seq<u8>) -> bool {
    if pat.len() > 0 && pat[pat.len() - 1] == 42 {
        path.len() >= pat.len() - 1 && path.take(pat.len() - 1) == pat.take(pat.len() - 1)
    } else {
        pat == path
    }
}

/// Match a pattern against a path.
pub fn pattern_matches(pat: &[u8], path: &[u8]) -> (r: bool)
    ensures
        r == spec_pattern_matches(pat@, path@),
{
    if pat.len() > 0 && pat[pat.len() - 1] == 42 {
        let n = pat.len() - 1;
        if path.len() < n {
            return false;
        }
        let r = bytes_eq(&path[0..n], &pat[0..n]);
        assert(path@.subrange(0, n as int) =~= path@.take(n as int));
        assert(pat@.subrange(0, n as int) =~= pat@.take(n as int));
        r
    } else {
        bytes_eq(pat, path)
    }
}

/// Whether a method is among a rule's methods.
pub open spec fn spec_has_method(methods: Seq<Seq<u8>>, m: Seq<u8>) -> bool {
    exists|j: int| 0 <= j < methods.len() && methods[j] == m
}

/// Whether the rule applies to this method and path.
pub open spec fn spec_rule_matches(rule: RouteRuleV, method: Seq<u8>, path: Seq<u8>) -> bool {
    spec_has_method(rule.methods, method) && spec_pattern_matches(rule.pattern, path)
}

/// The decision of the policy for a request.
#[derive(Debug, Clone, PartialEq, Eq)]
pub struct Decision {
    pub allowed: bool,
    pub audit_action: Option<String>,
}

/// Model of a [`Decision`].
pub struct DecisionV {
    pub allowed: bool,
    pub audit_action: Option<Seq<char>>,
}

impl View for Decision {
    type V = DecisionV;

    open spec fn view(&self) -> DecisionV {
        DecisionV {
            allowed: self.allowed,
            audit_action: match self.audit_action {
                Some(ref a) => Some(a@),
                None => None,
            },
        }
    }
}

/// The loaded policy: the ordered rules and the inheritance relation.
#[derive(Debug, Clone)]
pub struct RbacPolicy {
    pub rules: Vec<RouteRule>,
    pub inherit: InheritMap,
}

/// Model of an [`RbacPolicy`].
pub struct RbacPolicyV {
    pub rules: Seq<RouteRuleV>,
    pub inherit: InheritMap,
}

/// The views of a sequence of rules.
pub open spec fn rules_view(rs: Seq<RouteRule>) -> Seq<RouteRuleV> {
    rs.map_values(|r: RouteRule| r@)
}

impl View for RbacPolicy {
    type V = RbacPolicyV;

    open spec fn view(&self) -> RbacPolicyV {
        RbacPolicyV { rules: rules_view(self.rules@), inherit: self.inherit }
    }
}

/// The decision of the first rule (from `k`) that matches method and path;
/// deny with no audit action when none matches.
pub open spec fn spec_authorize_from(
    rules: Seq<RouteRuleV>,
    effective: RoleSet,
    method: Seq<u8>,
    path: Seq<u8>,
    k: int,
) -> DecisionV
    decreases rules.len() - k,
{
    if k < 0 || k >= rules.len() {
        DecisionV { allowed: false, audit_action: None }
    } else if spec_rule_matches(rules[k], method, path) {
        DecisionV {
            allowed: rules[k].roles.spec_intersects(effective),
            audit_action: rules[k].audit_action,
        }
    } else {
        spec_authorize_from(rules, effective, method, path, k + 1)
    }
}

/// The policy's decision for a role, method and path.
pub open spec fn spec_authorize(p: RbacPolicyV, role: Role, method: Seq<u8>, path: Seq<u8>) -> DecisionV {
    spec_authorize_from(p.rules, p.inherit.spec_effective(role), method, path, 0)
}

impl RbacPolicy {
    /// The effective role set of `role`: the transitive closure over the
    /// inheritance relation. Cycles terminate, as each step only grows the
    /// set.
    pub fn expand_roles(&self, role: Role) -> (r: RoleSet)
        ensures
            r == self.inherit.spec_effective(role),
    {
        let mut s = RoleSet::empty().with(role);
        s = self.step(s);
        s = self.step(s);
        s = self.step(s);
        s = self.step(s);
        s
    }

    /// One expansion step of [`RbacPolicy::expand_roles`].
    fn step(&self, s: RoleSet) -> (r: RoleSet)
        ensures
            r == self.inherit.spec_step(s),
    {
        let mut out = s;
        if s.owner {
            out = out.union(self.inherit.owner);
        }
        if s.admin {
            out = out.union(self.inherit.admin);
        }
        if s.member {
            out = out.union(self.inherit.member);
        }
        if s.guest {
            out = out.union(self.inherit.guest);
        }
        out
    }

    /// Decide a request: the first rule whose methods hold `method` and whose
    /// pattern matches `path` decides; it allows exactly when it names a role
    /// in the caller's effective set. With no matching rule the request is
    /// denied with no audit action.
    pub fn authorize(&self, role: Role, method: &str, path: &str) -> (r: Decision)
        ensures
            r@ == spec_authorize(self@, role, method.spec_bytes(), path.spec_bytes()),
    {
        let effective = self.expand_roles(role);
        let mbytes = method.as_bytes();
        let pbytes = path.as_bytes();
        let mut i: usize = 0;
        while i < self.rules.len()
            invariant
                i <= self.rules@.len(),
                effective == self.inherit.spec_effective(role),
                mbytes@ == method.spec_bytes(),
                pbytes@ == path.spec_bytes(),
                spec_authorize_from(rules_view(self.rules@), effective, mbytes@, pbytes@, 0)
                    == spec_authorize_from(
                    rules_view(self.rules@),
                    effective,
                    mbytes@,
                    pbytes@,
                    i as int,
                ),
            decreases self.rules@.len() - i,
        {
            let rule = &self.rules[i];
            assert(rule@ == rules_view(self.rules@)[i as int]);
            if Self::method_in(&rule.methods, mbytes) && pattern_matches(
                rule.pattern.as_str().as_bytes(),
                pbytes,
            ) {
                let audit_action = match &rule.audit_action {
                    Some(a) => Some(a.clone()),
                    None => None,
                };
                return Decision { allowed: rule.roles.intersects(&effective), audit_action };
            }
            i = i + 1;
        }
        Decision { allowed: false, audit_action: None }
    }

    /// Whether `m` is among the rule's methods.
    fn method_in(methods: &Vec<String>, m: &[u8]) -> (r: bool)
        ensures
            r == spec_has_method(methods@.map_values(|s: String| encode_utf8(s@)), m@),
    {
        let ghost mv = methods@.map_values(|s: String| encode_utf8(s@));
        let mut j: usize = 0;
        while j < methods.len()
            invariant
                j <= methods@.len(),
                mv == methods@.map_values(|s: String| encode_utf8(s@)),
                forall|k: int| 0 <= k < j ==> mv[k] != m@,
            decreases methods@.len() - j,
    {
            if bytes_eq(methods[j].as_str().as_bytes(), m) {
                assert(mv[j as int] == m@);
                return true;
            }
            assert(mv[j as int] != m@);
            j = j + 1;
        }
        false
    }
}

/// RBAC first-match: when rule `k` matches the request and no earlier rule
/// does, the policy's decision is rule `k`'s: allowed exactly when rule `k`
/// names a role of the caller's effective set, with rule `k`'s audit action.
pub proof fn lemma_first_match(
    p: RbacPolicyV,
    role: Role,
    method: Seq<u8>,
    path: Seq<u8>,
    k: int,
)
    requires
        0 <= k < p.rules.len(),
        spec_rule_matches(p.rules[k], method, path),
        forall|j: int| 0 <= j < k ==> !spec_rule_matches(#[trigger] p.rules[j], method, path),
    ensures
        spec_authorize(p, role, method, path) == (DecisionV {
            allowed: p.rules[k].roles.spec_intersects(p.inherit.spec_effective(role)),
            audit_action: p.rules[k].audit_action,
        }),
{
    lemma_first_match_from(p.rules, p.inherit.spec_effective(role), method, path, 0, k);
}

proof fn lemma_first_match_from(
    rules: Seq<RouteRuleV>,
    effective: RoleSet,
    method: Seq<u8>,
    path: Seq<u8>,
    i: int,
    k: int,
)
    requires
        0 <= i <= k < rules.len(),
        spec_rule_matches(rules[k], method, path),
        forall|j: int| i <= j < k ==> !spec_rule_matches(#[trigger] rules[j], method, path),
    ensures
        spec_authorize_from(rules, effective, method, path, i) == (DecisionV {
            allowed: rules[k].roles.spec_intersects(effective),
            audit_action: rules[k].audit_action,
        }),
    decreases k - i,
{
    if i < k {
        lemma_first_match_from(rules, effective, method, path, i + 1, k);
    }
}

/// One expansion step is monotone and only grows the set.
proof fn lemma_step_monotone(inh: InheritMap, a: RoleSet, b: RoleSet)
    requires
        a.spec_subset(b),
    ensures
        inh.spec_step(a).spec_subset(inh.spec_step(b)),
        a.spec_subset(inh.spec_step(a)),
{
}

/// With four roles, the fourth expansion step is a fixed point.
proof fn lemma_step_fixed(inh: InheritMap, s: RoleSet)
    ensures
        inh.spec_step(inh.spec_step(inh.spec_step(inh.spec_step(inh.spec_step(s)))))
            == inh.spec_step(inh.spec_step(inh.spec_step(inh.spec_step(s)))),
{
}

/// RBAC inheritance: when role `r` directly inherits role `sub`, every
/// request allowed for `sub` is allowed for `r`, whatever the rules.
pub proof fn lemma_inheritance(p: RbacPolicyV, r: Role, sub: Role, method: Seq<u8>, path: Seq<u8>)
    requires
        p.inherit.spec_parents(r).spec_has(sub),
        spec_authorize(p, sub, method, path).allowed,
    ensures
        spec_authorize(p, r, method, path).allowed,
{
    lemma_effective_contains(p.inherit, r, sub);
    lemma_authorize_monotone(
        p.rules,
        p.inherit.spec_effective(sub),
        p.inherit.spec_effective(r),
        method,
        path,
        0,
    );
}

/// The effective set of a role contains the effective set of each direct
/// parent.
#[verifier::rlimit(100)]
pub proof fn lemma_effective_contains(inh: InheritMap, r: Role, sub: Role)
    requires
        inh.spec_parents(r).spec_has(sub),
    ensures
        inh.spec_effective(sub).spec_subset(inh.spec_effective(r)),
{
    let s0 = RoleSet::spec_single(r);
    let s1 = inh.spec_step(s0);
    // After one step from {r}, sub is a member.
    assert(s1.spec_has(sub));
    assert(RoleSet::spec_single(sub).spec_subset(s1));
    let t0 = RoleSet::spec_single(sub);
    let t1 = inh.spec_step(t0);
    let t2 = inh.spec_step(t1);
    let t3 = inh.spec_step(t2);
    let t4 = inh.spec_step(t3);
    lemma_step_monotone(inh, t0, s1);
    lemma_step_monotone(inh, t1, inh.spec_step(s1));
    lemma_step_monotone(inh, t2, inh.spec_step(inh.spec_step(s1)));
    lemma_step_monotone(inh, t3, inh.spec_step(inh.spec_step(inh.spec_step(s1))));
    // t4 is inside step^4(s1) = step^5(s0), which equals step^4(s0).
    lemma_step_fixed(inh, s0);
}

/// One rule of the policy, summarized for the diagnostics endpoint.
#[derive(Debug, Clone, PartialEq, Eq)]
pub struct RouteSummary {
    pub pattern: String,
    pub methods: Vec<String>,
    pub allowed_roles: Vec<String>,
    pub audit_action: Option<String>,
}

/// The names of a role set, in fixed alphabetical order.
pub open spec fn spec_role_names(roles: RoleSet) -> Seq<Seq<char>> {
    let with_admin: Seq<Seq<char>> = if roles.admin {
        seq!["Admin"@]
    } else {
        Seq::empty()
    };
    let with_guest = if roles.guest {
        with_admin.push("Guest"@)
    } else {
        with_admin
    };
    let with_member = if roles.member {
        with_guest.push("Member"@)
    } else {
        with_guest
    };
    if roles.owner {
        with_member.push("Owner"@)
    } else {
        with_member
    }
}

/// The names of a role set, in fixed alphabetical order.
pub fn role_names(roles: &RoleSet) -> (r: Vec<String>)
    ensures
        r@.map_values(|s: String| s@) == spec_role_names(*roles),
{
    let mut out: Vec<String> = Vec::new();
    if roles.admin {
        out.push(String::from_str("Admin"));
    }
    if roles.guest {
        out.push(String::from_str("Guest"));
    }
    if roles.member {
        out.push(String::from_str("Member"));
    }
    if roles.owner {
        out.push(String::from_str("Owner"));
    }
    assert(out@.map_values(|s: String| s@) =~= spec_role_names(*roles));
    out
}

impl RbacPolicy {
    /// Summaries of the rules, in rule order: pattern, methods, allowed role
    /// names alphabetically, and the audit action.
    pub fn summaries(&self) -> (r: Vec<RouteSummary>)
        ensures
            r@.len() == self.rules@.len(),
            forall|i: int| 0 <= i < r@.len() ==> {
                let s = #[trigger] r@[i];
                let rule = self.rules@[i];
                &&& s.pattern@ == rule.pattern@
                &&& s.methods@.map_values(|m: String| encode_utf8(m@)) == rule@.methods
                &&& s.allowed_roles@.map_values(|n: String| n@) == spec_role_names(rule.roles)
                &&& (match (s.audit_action, rule.audit_action) {
                    (Some(a), Some(b)) => a@ == b@,
                    (None, None) => true,
                    _ => false,
                })
            },
    {
        let mut out: Vec<RouteSummary> = Vec::new();
        let mut i: usize = 0;
        while i < self.rules.len()
            invariant
                i <= self.rules@.len(),
                out@.len() == i,
                forall|j: int| 0 <= j < i ==> {
                    let s = #[trigger] out@[j];
                    let rule = self.rules@[j];
                    &&& s.pattern@ == rule.pattern@
                    &&& s.methods@.map_values(|m: String| encode_utf8(m@)) == rule@.methods
                    &&& s.allowed_roles@.map_values(|n: String| n@) == spec_role_names(rule.roles)
                    &&& (match (s.audit_action, rule.audit_action) {
                        (Some(a), Some(b)) => a@ == b@,
                        (None, None) => true,
                        _ => false,
                    })
                },
            decreases self.rules@.len() - i,
        {
            let rule = &self.rules[i];
            let mut methods: Vec<String> = Vec::new();
            let mut k: usize = 0;
            while k < rule.methods.len()
                invariant
                    k <= rule.methods@.len(),
                    methods@.len() == k,
                    forall|l: int| 0 <= l < k ==> (#[trigger] methods@[l])@ == rule.methods@[l]@,
                decreases rule.methods@.len() - k,
            {
                methods.push(rule.methods[k].clone());
                k = k + 1;
            }
            assert(methods@.map_values(|m: String| encode_utf8(m@)) =~= rule@.methods);
            let audit_action = match &rule.audit_action {
                Some(a) => Some(a.clone()),
                None => None,
            };
            out.push(
                RouteSummary {
                    pattern: rule.pattern.clone(),
                    methods,
                    allowed_roles: role_names(&rule.roles),
                    audit_action,
                },
            );
            i = i + 1;
        }
        out
    }
}

/// Why a policy failed to load.
#[derive(Debug, Clone, PartialEq, Eq)]
pub enum PolicyError {
    /// The policy file could not be read (reported by the I/O layer).
    Io(String),
    /// The policy file could not be parsed (reported by the I/O layer).
    Parse(String),
    /// A role name is not one of the known roles.
    UnknownRole(String),
    /// A method is not a valid HTTP token.
    InvalidMethod(String),
}

/// One role declaration, as read from the policy file.
#[derive(Debug, Clone)]
pub struct RawRoleEntry {
    pub name: String,
    pub inherits: Vec<String>,
}

/// Model of a [`RawRoleEntry`]: names as byte strings.
pub struct RawRoleV {
    pub name: Seq<u8>,
    pub inherits: Seq<Seq<u8>>,
}

impl View for RawRoleEntry {
    type V = RawRoleV;

    open spec fn view(&self) -> RawRoleV {
        RawRoleV { name: encode_utf8(self.name@), inherits: names_view(self.inherits@) }
    }
}

/// The byte strings of a sequence of names.
pub open spec fn names_view(ns: Seq<String>) -> Seq<Seq<u8>> {
    ns.map_values(|n: String| encode_utf8(n@))
}

/// One route declaration, as read from the policy file.
#[derive(Debug, Clone)]
pub struct RawRoute {
    pub pattern: String,
    pub methods: Vec<String>,
    pub roles: Vec<String>,
    pub audit_action: Option<String>,
}

/// Model of a [`RawRoute`].
pub struct RawRouteV {
    pub pattern: Seq<u8>,
    pub methods: Seq<Seq<u8>>,
    pub roles: Seq<Seq<u8>>,
    pub audit_action: Option<Seq<char>>,
}

impl View for RawRoute {
    type V = RawRouteV;

    open spec fn view(&self) -> RawRouteV {
        RawRouteV {
            pattern: encode_utf8(self.pattern@),
            methods: names_view(self.methods@),
            roles: names_view(self.roles@),
            audit_action: match self.audit_action {
                Some(ref a) => Some(a@),
                None => None,
            },
        }
    }
}

/// Why raw policy text is rejected: an unknown role name, or an invalid
/// method, each with the offending bytes.
pub enum PolicyErrV {
    UnknownRole(Seq<u8>),
    InvalidMethod(Seq<u8>),
}

/// Whether an executable error is the one the model names.
pub open spec fn policy_err_matches(e: PolicyErrV, r: PolicyError) -> bool {
    match e {
        PolicyErrV::UnknownRole(n) => r matches PolicyError::UnknownRole(got) && encode_utf8(got@)
            == n,
        PolicyErrV::InvalidMethod(m) => r matches PolicyError::InvalidMethod(got) && encode_utf8(
            got@,
        ) == m,
    }
}

/// A byte an HTTP method token may hold.
pub open spec fn is_token_byte(b: u8) -> bool {
    ||| (48 <= b <= 57)
    ||| (65 <= b <= 90)
    ||| (97 <= b <= 122)
    ||| b == 33
    ||| (35 <= b <= 39)
    ||| b == 42
    ||| b == 43
    ||| b == 45
    ||| b == 46
    ||| b == 94
    ||| b == 95
    ||| b == 96
    ||| b == 124
    ||| b == 126
}

/// A valid HTTP method: a non-empty token.
pub open spec fn spec_valid_method(m: Seq<u8>) -> bool {
    m.len() > 0 && forall|i: int| 0 <= i < m.len() ==> is_token_byte(#[trigger] m[i])
}

/// Executable test for [`spec_valid_method`].
pub fn valid_method(m: &[u8]) -> (r: bool)
    ensures
        r == spec_valid_method(m@),
{
    if m.len() == 0 {
        return false;
    }
    let mut i: usize = 0;
    while i < m.len()
        invariant
            i <= m@.len(),
            forall|j: int| 0 <= j < i ==> is_token_byte(#[trigger] m@[j]),
        decreases m@.len() - i,
    {
        let b = m[i];
        if !((48 <= b && b <= 57) || (65 <= b && b <= 90) || (97 <= b && b <= 122) || b == 33 || (
        35 <= b && b <= 39) || b == 42 || b == 43 || b == 45 || b == 46 || b == 94 || b == 95 || b
            == 96 || b == 124 || b == 126) {
            return false;
        }
        i = i + 1;
    }
    true
}

/// The role set a list of names denotes, or the first unknown name.
pub open spec fn spec_roles_of_names(names: Seq<Seq<u8>>, acc: RoleSet, i: int) -> Result<
    RoleSet,
    Seq<u8>,
>
    decreases names.len() - i,
{
    if i < 0 || i >= names.len() {
        Ok(acc)
    } else {
        match spec_role_of(names[i]) {
            None => Err(names[i]),
            Some(role) => spec_roles_of_names(names, acc.spec_with(role), i + 1),
        }
    }
}

/// The inheritance map a sequence of role declarations denotes, later
/// declarations of the same role replacing earlier ones, or the first
/// unknown name.
pub open spec fn spec_build_inherit(roles: Seq<RawRoleV>, acc: InheritMap, i: int) -> Result<
    InheritMap,
    Seq<u8>,
>
    decreases roles.len() - i,
{
    if i < 0 || i >= roles.len() {
        Ok(acc)
    } else {
        match spec_role_of(roles[i].name) {
            None => Err(roles[i].name),
            Some(role) => match spec_roles_of_names(roles[i].inherits, RoleSet::spec_none(), 0) {
                Err(n) => Err(n),
                Ok(parents) => spec_build_inherit(
                    roles,
                    acc.spec_set_parents(role, parents),
                    i + 1,
                ),
            },
        }
    }
}

/// The rules a sequence of route declarations denotes: an empty method list
/// defaults to `GET`; each method must be a token; each role name must be
/// known.
pub open spec fn spec_build_rules(
    routes: Seq<RawRouteV>,
    acc: Seq<RouteRuleV>,
    i: int,
) -> Result<Seq<RouteRuleV>, PolicyErrV>
    decreases routes.len() - i,
{
    if i < 0 || i >= routes.len() {
        Ok(acc)
    } else {
        let rt = routes[i];
        let methods = if rt.methods.len() == 0 {
            seq![encode_utf8("GET"@)]
        } else {
            rt.methods
        };
        if !all_methods_valid(methods) {
            Err(PolicyErrV::InvalidMethod(first_invalid_method(methods)))
        } else {
            match spec_roles_of_names(rt.roles, RoleSet::spec_none(), 0) {
                Err(n) => Err(PolicyErrV::UnknownRole(n)),
                Ok(roles) => spec_build_rules(
                    routes,
                    acc.push(
                        RouteRuleV {
                            pattern: rt.pattern,
                            methods,
                            roles,
                            audit_action: rt.audit_action,
                        },
                    ),
                    i + 1,
                ),
            }
        }
    }
}

/// Whether every method of the list is a valid token.
pub open spec fn all_methods_valid(methods: Seq<Seq<u8>>) -> bool {
    forall|j: int| 0 <= j < methods.len() ==> spec_valid_method(#[trigger] methods[j])
}

/// The first method of the list that is not a valid token.
pub open spec fn first_invalid_method(methods: Seq<Seq<u8>>) -> Seq<u8>
    decreases methods.len(),
{
    if methods.len() == 0 {
        Seq::empty()
    } else if !spec_valid_method(methods[0]) {
        methods[0]
    } else {
        first_invalid_method(methods.skip(1))
    }
}

/// The views of raw role declarations.
pub open spec fn raw_roles_view(rs: Seq<RawRoleEntry>) -> Seq<RawRoleV> {
    rs.map_values(|r: RawRoleEntry| r@)
}

/// The views of raw route declarations.
pub open spec fn raw_routes_view(rs: Seq<RawRoute>) -> Seq<RawRouteV> {
    rs.map_values(|r: RawRoute| r@)
}

/// The policy raw declarations denote, or the first error.
pub open spec fn spec_from_raw(roles: Seq<RawRoleV>, routes: Seq<RawRouteV>) -> Result<
    RbacPolicyV,
    PolicyErrV,
> {
    match spec_build_inherit(roles, InheritMap::spec_empty(), 0) {
        Err(n) => Err(PolicyErrV::UnknownRole(n)),
        Ok(inherit) => match spec_build_rules(routes, Seq::empty(), 0) {
            Err(e) => Err(e),
            Ok(rules) => Ok(RbacPolicyV { rules, inherit }),
        },
    }
}

impl InheritMap {
    /// The map with no inheritance.
    pub open spec fn spec_empty() -> InheritMap {
        InheritMap {
            owner: RoleSet::spec_none(),
            admin: RoleSet::spec_none(),
            member: RoleSet::spec_none(),
            guest: RoleSet::spec_none(),
        }
    }
}

/// The role set of a list of names.
fn roles_of_names(names: &Vec<String>) -> (r: Result<RoleSet, PolicyError>)
    ensures
        match spec_roles_of_names(names_view(names@), RoleSet::spec_none(), 0) {
            Ok(set) => r matches Ok(got) && got == set,
            Err(n) => r matches Err(PolicyError::UnknownRole(got)) && encode_utf8(got@) == n,
        },
{
    let ghost nv = names_view(names@);
    let mut acc = RoleSet::empty();
    let mut i: usize = 0;
    while i < names.len()
        invariant
            i <= names@.len(),
            nv == names_view(names@),
            spec_roles_of_names(nv, RoleSet::spec_none(), 0) == spec_roles_of_names(
                nv,
                acc,
                i as int,
            ),
        decreases names@.len() - i,
    {
        let name = &names[i];
        assert(encode_utf8(name@) == nv[i as int]);
        match parse_role(name.as_str()) {
            Some(role) => {
                acc = acc.with(role);
            },
            None => {
                return Err(PolicyError::UnknownRole(name.clone()));
            },
        }
        i = i + 1;
    }
    Ok(acc)
}

impl RbacPolicy {
    /// Build a policy from raw declarations: every role name must be known
    /// (later declarations of a role replace earlier ones), every method must
    /// be a valid HTTP token (an empty method list defaults to `GET`), and
    /// rules keep their file order.
    #[verifier::loop_isolation(false)]
    pub fn from_raw(roles: &Vec<RawRoleEntry>, routes: &Vec<RawRoute>) -> (r: Result<
        RbacPolicy,
        PolicyError,
    >)
        ensures
            match spec_from_raw(raw_roles_view(roles@), raw_routes_view(routes@)) {
                Ok(pv) => r matches Ok(p) && p@ == pv,
                Err(e) => r matches Err(got) && policy_err_matches(e, got),
            },
    {
        let ghost rolesv = raw_roles_view(roles@);
        let ghost routesv = raw_routes_view(routes@);

        let mut inherit = InheritMap::empty();
        let mut i: usize = 0;
        while i < roles.len()
            invariant
                i <= roles@.len(),
                rolesv == raw_roles_view(roles@),
                spec_build_inherit(rolesv, InheritMap::spec_empty(), 0) == spec_build_inherit(
                    rolesv,
                    inherit,
                    i as int,
                ),
            decreases roles@.len() - i,
        {
            let entry = &roles[i];
            assert(entry@ == rolesv[i as int]);
            let role = match parse_role(entry.name.as_str()) {
                Some(role) => role,
                None => {
                    return Err(PolicyError::UnknownRole(entry.name.clone()));
                },
            };
            let parents = match roles_of_names(&entry.inherits) {
                Ok(set) => set,
                Err(e) => {
                    return Err(e);
                },
            };
            inherit = inherit.set_parents(role, parents);
            i = i + 1;
        }

        let mut rules: Vec<RouteRule> = Vec::new();
        assert(rules_view(rules@) =~= Seq::<RouteRuleV>::empty());
        let mut j: usize = 0;
        while j < routes.len()
            invariant
                j <= routes@.len(),
                rolesv == raw_roles_view(roles@),
                routesv == raw_routes_view(routes@),
                spec_build_inherit(rolesv, InheritMap::spec_empty(), 0) == Ok::<
                    InheritMap,
                    Seq<u8>,
                >(inherit),
                spec_build_rules(routesv, Seq::empty(), 0) == spec_build_rules(
                    routesv,
                    rules_view(rules@),
                    j as int,
                ),
            decreases routes@.len() - j,
        {
            let rt = &routes[j];
            assert(rt@ == routesv[j as int]);
            let ghost methodsv: Seq<Seq<u8>> = if rt.methods@.len() == 0 {
                seq![encode_utf8("GET"@)]
            } else {
                names_view(rt.methods@)
            };
            let mut methods: Vec<String> = Vec::new();
            if rt.methods.len() == 0 {
                methods.push(String::from_str("GET"));
                proof {
                    reveal_strlit("GET");
                    assert(vstd::utf8::is_ascii_chars("GET"@));
                    vstd::utf8::is_ascii_chars_encode_utf8("GET"@);
                }
                assert(methods@.map_values(|s: String| encode_utf8(s@)) =~= methodsv);
                assert(spec_valid_method(encode_utf8("GET"@)));
                assert(all_methods_valid(methodsv));
            } else {
                let mut k: usize = 0;
                while k < rt.methods.len()
                    invariant
                        k <= rt.methods@.len(),
                        methods@.map_values(|s: String| encode_utf8(s@)) =~= names_view(
                            rt.methods@.take(k as int),
                        ),
                        forall|l: int| 0 <= l < k ==> spec_valid_method(
                            #[trigger] names_view(rt.methods@)[l],
                        ),
                    decreases rt.methods@.len() - k,
                {
                    let m = &rt.methods[k];
                    assert(encode_utf8(m@) == names_view(rt.methods@)[k as int]);
                    if !valid_method(m.as_str().as_bytes()) {
                        proof {
                            lemma_first_invalid(names_view(rt.methods@), k as int);
                            assert(!spec_valid_method(rt@.methods[k as int]));
                            assert(!all_methods_valid(rt@.methods)) by {
                                assert(!spec_valid_method(rt@.methods[k as int]));
                            }
                        }
                        return Err(PolicyError::InvalidMethod(m.clone()));
                    }
                    let cloned = m.clone();
                    assert(cloned@ == rt.methods@[k as int]@);
                    let ghost prior = methods@;
                    methods.push(cloned);
                    assert(methods@ == prior.push(cloned));
                    assert(prior.map_values(|s: String| encode_utf8(s@)).len() == k as int);
                    assert forall|l: int| 0 <= l < k + 1 implies methods@.map_values(
                        |s: String| encode_utf8(s@),
                    )[l] == #[trigger] names_view(rt.methods@.take(k as int + 1))[l] by {
                        if l < k {
                            assert(prior.map_values(|s: String| encode_utf8(s@))[l] == names_view(
                                rt.methods@.take(k as int),
                            )[l]);
                        }
                    }
                    assert(methods@.map_values(|s: String| encode_utf8(s@)) =~= names_view(
                        rt.methods@.take(k as int + 1),
                    ));
                    k = k + 1;
                }
                assert(rt.methods@.take(rt.methods@.len() as int) =~= rt.methods@);
                assert(methods@.map_values(|s: String| encode_utf8(s@)) == methodsv);
                assert(all_methods_valid(methodsv));
            }
            assert(rt@.methods.len() == 0 ==> methodsv =~= seq![encode_utf8("GET"@)]);
            let roleset = match roles_of_names(&rt.roles) {
                Ok(set) => set,
                Err(e) => {
                    return Err(e);
                },
            };
            let audit_action = match &rt.audit_action {
                Some(a) => Some(a.clone()),
                None => None,
            };
            let ghost before = rules_view(rules@);
            rules.push(
                RouteRule { pattern: rt.pattern.clone(), methods, roles: roleset, audit_action },
            );
            assert(rules@[rules@.len() - 1]@ == (RouteRuleV {
                pattern: rt@.pattern,
                methods: methodsv,
                roles: roleset,
                audit_action: rt@.audit_action,
            }));
            assert(rules_view(rules@) =~= before.push(rules@[rules@.len() - 1]@));
            j = j + 1;
        }

        Ok(RbacPolicy { rules, inherit })
    }
}

/// When the method at `k` is invalid and all before it are valid, it is the
/// first invalid method.
proof fn lemma_first_invalid(methods: Seq<Seq<u8>>, k: int)
    requires
        0 <= k < methods.len(),
        !spec_valid_method(methods[k]),
        forall|l: int| 0 <= l < k ==> spec_valid_method(#[trigger] methods[l]),
    ensures
        first_invalid_method(methods) == methods[k],
    decreases k,
{
    if k > 0 {
        lemma_first_invalid(methods.skip(1), k - 1);
        assert(methods.skip(1)[k - 1] == methods[k]);
        assert(forall|l: int| 0 <= l < k - 1 ==> methods.skip(1)[l] == methods[l + 1]);
    }
}

/// A larger effective set never turns an allow into a deny.
proof fn lemma_authorize_monotone(
    rules: Seq<RouteRuleV>,
    small: RoleSet,
    big: RoleSet,
    method: Seq<u8>,
    path: Seq<u8>,
    i: int,
)
    requires
        small.spec_subset(big),
        spec_authorize_from(rules, small, method, path, i).allowed,
    ensures
        spec_authorize_from(rules, big, method, path, i).allowed,
    decreases rules.len() - i,
{
    if 0 <= i < rules.len() && !spec_rule_matches(rules[i], method, path) {
        lemma_authorize_monotone(rules, small, big, method, path, i + 1);
    }
}

} // verus!
