//! The rule engine: declarative rules with interval or event triggers,
//! conditions over a context, and recorded actions. Evaluation is pure:
//! the same rule, context and clock reading always produce the same verdict,
//! trace and action statuses.

use vstd::prelude::*;
use vstd::string::StringSliceAdditionalSpecFns;
use vstd::utf8::encode_utf8;

use crate::checksum::find_byte;
use crate::strutil::bytes_eq;
use crate::value::{field_views, lemma_field_views_index, lemma_field_views_len, value_eq,
    value_view, RuleValue, ValueV};

verus! {

/// The scheduler's fixed cadence in milliseconds.
pub const TICK_INTERVAL_MS: u64 = 500;

/// What starts a rule: a periodic interval, or a bus event subject.
#[derive(Debug)]
pub enum Trigger {
    Interval { seconds: u64 },
    Event { subject: String },
}

/// One side of a condition: a literal value, or a dotted context path.
#[derive(Debug)]
pub enum ValueRef {
    Literal { value: RuleValue },
    Context { path: String },
}

/// Model of a [`ValueRef`].
pub enum ValueRefV {
    Literal(ValueV),
    Context(Seq<u8>),
}

/// The model of a value reference.
pub open spec fn valueref_view(vr: ValueRef) -> ValueRefV {
    match vr {
        ValueRef::Literal { value } => ValueRefV::Literal(value_view(value)),
        ValueRef::Context { path } => ValueRefV::Context(encode_utf8(path@)),
    }
}

/// A condition over two resolved values.
#[derive(Debug)]
pub enum Condition {
    Equals { left: ValueRef, right: ValueRef },
    GreaterThan { left: ValueRef, right: ValueRef },
    LessThan { left: ValueRef, right: ValueRef },
}

/// Model of a [`Condition`].
pub enum ConditionV {
    Equals(ValueRefV, ValueRefV),
    GreaterThan(ValueRefV, ValueRefV),
    LessThan(ValueRefV, ValueRefV),
}

/// The model of a condition.
pub open spec fn condition_view(c: Condition) -> ConditionV {
    match c {
        Condition::Equals { left, right } => ConditionV::Equals(
            valueref_view(left),
            valueref_view(right),
        ),
        Condition::GreaterThan { left, right } => ConditionV::GreaterThan(
            valueref_view(left),
            valueref_view(right),
        ),
        Condition::LessThan { left, right } => ConditionV::LessThan(
            valueref_view(left),
            valueref_view(right),
        ),
    }
}

/// What a fired rule does: emit a bus event, or write a device state.
#[derive(Debug)]
pub enum Action {
    EmitEvent { subject: String, payload: RuleValue },
    SetDeviceState { device_id: String, state: RuleValue },
}

/// Model of an [`Action`].
pub enum ActionV {
    EmitEvent { subject: Seq<u8>, payload: ValueV },
    SetDeviceState { device_id: Seq<u8>, state: ValueV },
}

/// The model of an action.
pub open spec fn action_view(a: Action) -> ActionV {
    match a {
        Action::EmitEvent { subject, payload } => ActionV::EmitEvent {
            subject: encode_utf8(subject@),
            payload: value_view(payload),
        },
        Action::SetDeviceState { device_id, state } => ActionV::SetDeviceState {
            device_id: encode_utf8(device_id@),
            state: value_view(state),
        },
    }
}

impl Action {
    /// A deep copy with the same model.
    pub fn duplicate(&self) -> (r: Action)
        ensures
            action_view(r) == action_view(*self),
    {
        match self {
            Action::EmitEvent { subject, payload } => Action::EmitEvent {
                subject: subject.clone(),
                payload: payload.duplicate(),
            },
            Action::SetDeviceState { device_id, state } => Action::SetDeviceState {
                device_id: device_id.clone(),
                state: state.duplicate(),
            },
        }
    }
}

/// Whether a fired rule's action ran or was skipped.
#[derive(Debug, Clone, Copy, PartialEq, Eq, Structural)]
pub enum ActionStatus {
    Executed,
    Skipped,
}

/// One action with its recorded status.
#[derive(Debug)]
pub struct ActionExecution {
    pub action: Action,
    pub status: ActionStatus,
}

/// A declarative rule.
#[derive(Debug)]
pub struct RuleDefinition {
    pub id: String,
    pub name: Option<String>,
    pub trigger: Trigger,
    pub conditions: Vec<Condition>,
    pub actions: Vec<Action>,
}

/// The context a rule is evaluated against: ordered key-value pairs.
pub type RuleContext = Vec<(String, RuleValue)>;

/// The first value bound to `key`, if any.
pub open spec fn spec_lookup(ctx: Seq<(Seq<u8>, ValueV)>, key: Seq<u8>) -> Option<ValueV>
    decreases ctx.len(),
{
    if ctx.len() == 0 {
        None
    } else if ctx[0].0 == key {
        Some(ctx[0].1)
    } else {
        spec_lookup(ctx.skip(1), key)
    }
}

/// Walk a dotted path through nested objects, starting below a value.
pub open spec fn spec_walk(v: ValueV, rest: Seq<u8>) -> Option<ValueV>
    decreases rest.len(),
    via spec_walk_dec
{
    let k = if find_byte(rest, 46) <= rest.len() {
        find_byte(rest, 46)
    } else {
        rest.len()
    };
    let seg = rest.take(k as int);
    match v {
        ValueV::Obj(fs) => match spec_lookup(fs, seg) {
            None => None,
            Some(v2) => if k >= rest.len() {
                Some(v2)
            } else {
                spec_walk(v2, rest.skip(k as int + 1))
            },
        },
        _ => None,
    }
}

#[via_fn]
proof fn spec_walk_dec(v: ValueV, rest: Seq<u8>) {
    crate::checksum::lemma_find_byte_le(rest, 46);
}

/// Resolve a dotted context path: the whole path as a key first, then the
/// first segment followed by a walk through nested objects.
pub open spec fn spec_resolve_path(ctx: Seq<(Seq<u8>, ValueV)>, path: Seq<u8>) -> Option<ValueV> {
    match spec_lookup(ctx, path) {
        Some(v) => Some(v),
        None => {
            let k = if find_byte(path, 46) <= path.len() {
                find_byte(path, 46)
            } else {
                path.len()
            };
            if k >= path.len() {
                None
            } else {
                match spec_lookup(ctx, path.take(k as int)) {
                    None => None,
                    Some(v) => spec_walk(v, path.skip(k as int + 1)),
                }
            }
        },
    }
}

/// The value a reference denotes: a literal as itself; a context path by
/// resolution, with the special path `now` falling back to the clock reading
/// and anything else falling back to null.
pub open spec fn spec_resolve(
    vr: ValueRefV,
    ctx: Seq<(Seq<u8>, ValueV)>,
    now: Seq<u8>,
) -> ValueV {
    match vr {
        ValueRefV::Literal(v) => v,
        ValueRefV::Context(path) => match spec_resolve_path(ctx, path) {
            Some(v) => v,
            None => if path == encode_utf8("now"@) {
                ValueV::Str(now)
            } else {
                ValueV::Null
            },
        },
    }
}

/// The outcome of one condition: whether it holds, and its trace message.
pub open spec fn spec_condition_outcome(
    c: ConditionV,
    ctx: Seq<(Seq<u8>, ValueV)>,
    now: Seq<u8>,
) -> (bool, Seq<char>) {
    match c {
        ConditionV::Equals(l, r) => if spec_resolve(l, ctx, now) == spec_resolve(r, ctx, now) {
            (true, "equals matched"@)
        } else {
            (false, "equals failed"@)
        },
        ConditionV::GreaterThan(l, r) => spec_numeric_outcome(
            spec_resolve(l, ctx, now).spec_as_int(),
            spec_resolve(r, ctx, now).spec_as_int(),
            true,
        ),
        ConditionV::LessThan(l, r) => spec_numeric_outcome(
            spec_resolve(l, ctx, now).spec_as_int(),
            spec_resolve(r, ctx, now).spec_as_int(),
            false,
        ),
    }
}

/// Numeric comparison outcome: both sides must coerce to integers.
pub open spec fn spec_numeric_outcome(l: Option<i64>, r: Option<i64>, greater: bool) -> (
    bool,
    Seq<char>,
) {
    match (l, r) {
        (Some(a), Some(b)) => {
            let holds = if greater {
                a > b
            } else {
                a < b
            };
            if holds && greater {
                (true, "greater_than matched"@)
            } else if holds {
                (true, "less_than matched"@)
            } else if greater {
                (false, "greater_than failed"@)
            } else {
                (false, "less_than failed"@)
            }
        },
        _ => if greater {
            (false, "greater_than failed: not numeric"@)
        } else {
            (false, "less_than failed: not numeric"@)
        },
    }
}

/// Evaluate conditions in order, short-circuiting on the first failure:
/// whether all held, and the trace messages of the conditions inspected.
pub open spec fn spec_conditions_trace(
    conds: Seq<ConditionV>,
    ctx: Seq<(Seq<u8>, ValueV)>,
    now: Seq<u8>,
) -> (bool, Seq<Seq<char>>)
    decreases conds.len(),
{
    if conds.len() == 0 {
        (true, Seq::empty())
    } else {
        let (ok, msg) = spec_condition_outcome(conds[0], ctx, now);
        if !ok {
            (false, seq![msg])
        } else {
            let (rest_ok, rest_msgs) = spec_conditions_trace(conds.skip(1), ctx, now);
            (rest_ok, seq![msg] + rest_msgs)
        }
    }
}

/// The views of a sequence of conditions.
pub open spec fn conditions_view(cs: Seq<Condition>) -> Seq<ConditionV> {
    cs.map_values(|c: Condition| condition_view(c))
}

/// The views of a sequence of actions.
pub open spec fn actions_view(a_s: Seq<Action>) -> Seq<ActionV> {
    a_s.map_values(|a: Action| action_view(a))
}

/// The result of evaluating a rule.
#[derive(Debug)]
pub struct EvaluationResult {
    pub fired: bool,
    pub trace: Vec<String>,
    pub actions: Vec<ActionExecution>,
}

/// Find the first value bound to `key` in a context.
fn lookup<'a>(ctx: &'a Vec<(String, RuleValue)>, key: &[u8]) -> (r: Option<&'a RuleValue>)
    ensures
        match r {
            Some(v) => spec_lookup(field_views(ctx@), key@) == Some(v@),
            None => spec_lookup(field_views(ctx@), key@) is None,
        },
{
    let ghost cv = field_views(ctx@);
    proof {
        lemma_field_views_len(ctx@);
        assert(cv.skip(0) =~= cv);
    }
    let mut i: usize = 0;
    while i < ctx.len()
        invariant
            i <= ctx@.len(),
            cv == field_views(ctx@),
            spec_lookup(cv, key@) == spec_lookup(cv.skip(i as int), key@),
            cv.len() == ctx@.len(),
        decreases ctx@.len() - i,
    {
        let entry = &ctx[i];
        proof {
            lemma_field_views_index(ctx@, i as int);
            assert(cv.skip(i as int)[0] == cv[i as int]);
            assert(cv.skip(i as int).skip(1) =~= cv.skip(i as int + 1));
        }
        if bytes_eq(entry.0.as_str().as_bytes(), key) {
            return Some(&entry.1);
        }
        i = i + 1;
    }
    assert(cv.skip(i as int) =~= Seq::<(Seq<u8>, ValueV)>::empty());
    None
}

/// Find the first field bound to `key` among an object's fields.
fn lookup_fields<'a>(fs: &'a Vec<(String, RuleValue)>, key: &[u8]) -> (r: Option<&'a RuleValue>)
    ensures
        match r {
            Some(v) => spec_lookup(field_views(fs@), key@) == Some(v@),
            None => spec_lookup(field_views(fs@), key@) is None,
        },
{
    lookup(fs, key)
}

/// Resolve a value reference against a context and the clock reading.
/// Returns an owned value.
pub fn resolve(vr: &ValueRef, ctx: &RuleContext, now: &str) -> (r: RuleValue)
    ensures
        r@ == spec_resolve(valueref_view(*vr), field_views(ctx@), now.spec_bytes()),
{
    match vr {
        ValueRef::Literal { value } => value.duplicate(),
        ValueRef::Context { path } => {
            let pbytes = path.as_str().as_bytes();
            match resolve_path(ctx, pbytes) {
                Some(v) => v.duplicate(),
                None => {
                    if bytes_eq(pbytes, "now".as_bytes()) {
                        RuleValue::Str(now.to_owned())
                    } else {
                        RuleValue::Null
                    }
                },
            }
        },
    }
}

/// Resolve a dotted path against the context.
fn resolve_path<'a>(ctx: &'a RuleContext, path: &[u8]) -> (r: Option<&'a RuleValue>)
    ensures
        match r {
            Some(v) => spec_resolve_path(field_views(ctx@), path@) == Some(v@),
            None => spec_resolve_path(field_views(ctx@), path@) is None,
        },
{
    if let Some(v) = lookup(ctx, path) {
        return Some(v);
    }
    proof {
        crate::checksum::lemma_find_byte_le(path@, 46);
    }
    let k = crate::checksum::find_byte_from(path, 46, 0);
    assert(path@.skip(0) =~= path@);
    if k == path.len() {
        return None;
    }
    let first = &path[0..k];
    assert(first@ =~= path@.take(k as int));
    let v = match lookup(ctx, first) {
        Some(v) => v,
        None => {
            return None;
        },
    };
    let rest = &path[k + 1..path.len()];
    assert(rest@ =~= path@.skip(k as int + 1));
    walk(v, rest)
}

/// Walk the remaining dotted segments through nested objects.
fn walk<'a>(v: &'a RuleValue, rest: &[u8]) -> (r: Option<&'a RuleValue>)
    ensures
        match r {
            Some(got) => spec_walk(v@, rest@) == Some(got@),
            None => spec_walk(v@, rest@) is None,
        },
    decreases rest@.len(),
{
    proof {
        crate::checksum::lemma_find_byte_le(rest@, 46);
    }
    let k = crate::checksum::find_byte_from(rest, 46, 0);
    assert(rest@.skip(0) =~= rest@);
    let seg = &rest[0..k];
    assert(seg@ =~= rest@.take(k as int));
    match v {
        RuleValue::Obj(fs) => {
            let v2 = match lookup_fields(fs, seg) {
                Some(v2) => v2,
                None => {
                    return None;
                },
            };
            if k == rest.len() {
                Some(v2)
            } else {
                let tail = &rest[k + 1..rest.len()];
                assert(tail@ =~= rest@.skip(k as int + 1));
                walk(v2, tail)
            }
        },
        _ => None,
    }
}

/// Evaluate one condition: whether it holds, and its trace message.
pub fn evaluate_condition(c: &Condition, ctx: &RuleContext, now: &str) -> (r: (bool, String))
    ensures
        r.0 == spec_condition_outcome(
            condition_view(*c),
            field_views(ctx@),
            now.spec_bytes(),
        ).0,
        r.1@ == spec_condition_outcome(
            condition_view(*c),
            field_views(ctx@),
            now.spec_bytes(),
        ).1,
{
    match c {
        Condition::Equals { left, right } => {
            let lv = resolve(left, ctx, now);
            let rv = resolve(right, ctx, now);
            if value_eq(&lv, &rv) {
                (true, String::from_str("equals matched"))
            } else {
                (false, String::from_str("equals failed"))
            }
        },
        Condition::GreaterThan { left, right } => {
            let lv = resolve(left, ctx, now);
            let rv = resolve(right, ctx, now);
            match (lv.as_int(), rv.as_int()) {
                (Some(a), Some(b)) => {
                    if a > b {
                        (true, String::from_str("greater_than matched"))
                    } else {
                        (false, String::from_str("greater_than failed"))
                    }
                },
                _ => (false, String::from_str("greater_than failed: not numeric")),
            }
        },
        Condition::LessThan { left, right } => {
            let lv = resolve(left, ctx, now);
            let rv = resolve(right, ctx, now);
            match (lv.as_int(), rv.as_int()) {
                (Some(a), Some(b)) => {
                    if a < b {
                        (true, String::from_str("less_than matched"))
                    } else {
                        (false, String::from_str("less_than failed"))
                    }
                },
                _ => (false, String::from_str("less_than failed: not numeric")),
            }
        },
    }
}

/// The views of a trace.
pub open spec fn trace_view(t: Seq<String>) -> Seq<Seq<char>> {
    t.map_values(|s: String| s@)
}

/// Whether an evaluation result is exactly what evaluating the rule against
/// the context and the clock reading yields: the verdict of the conditions,
/// the full trace, and every action with its status.
pub open spec fn spec_evaluation_ok(
    r: EvaluationResult,
    rule: RuleDefinition,
    ctxv: Seq<(Seq<u8>, ValueV)>,
    nowv: Seq<u8>,
) -> bool {
    let ct = spec_conditions_trace(conditions_view(rule.conditions@), ctxv, nowv);
    &&& r.fired == ct.0
    &&& trace_view(r.trace@) == seq![("evaluating rule "@ + rule.id@)] + ct.1 + seq![
        (if ct.0 {
            "conditions satisfied"@
        } else {
            "conditions failed"@
        }),
    ]
    &&& r.actions@.len() == rule.actions@.len()
    &&& forall|i: int| 0 <= i < r.actions@.len() ==> action_view(#[trigger] r.actions@[i].action)
        == actions_view(rule.actions@)[i] && r.actions@[i].status == (if ct.0 {
        ActionStatus::Executed
    } else {
        ActionStatus::Skipped
    })
}

/// Evaluate a rule against a context: conditions run in order and
/// short-circuit on the first failure; when all pass the rule fires and
/// every action is marked `Executed`, otherwise every action is marked
/// `Skipped`. The trace opens with the rule id, records each inspected
/// condition, and closes with the overall verdict.
pub fn evaluate_rule(rule: &RuleDefinition, ctx: &RuleContext, now: &str) -> (r: EvaluationResult)
    ensures
        r.fired == spec_conditions_trace(
            conditions_view(rule.conditions@),
            field_views(ctx@),
            now.spec_bytes(),
        ).0,
        trace_view(r.trace@) == seq![("evaluating rule "@ + rule.id@)] + spec_conditions_trace(
            conditions_view(rule.conditions@),
            field_views(ctx@),
            now.spec_bytes(),
        ).1 + seq![
            (if spec_conditions_trace(
                conditions_view(rule.conditions@),
                field_views(ctx@),
                now.spec_bytes(),
            ).0 {
                "conditions satisfied"@
            } else {
                "conditions failed"@
            }),
        ],
        r.actions@.len() == rule.actions@.len(),
        forall|i: int| 0 <= i < r.actions@.len() ==> action_view(#[trigger] r.actions@[i].action)
            == actions_view(rule.actions@)[i] && r.actions@[i].status == (if r.fired {
            ActionStatus::Executed
        } else {
            ActionStatus::Skipped
        }),
        spec_evaluation_ok(r, *rule, field_views(ctx@), now.spec_bytes()),
{
    let ghost condsv = conditions_view(rule.conditions@);
    let ghost ctxv = field_views(ctx@);
    let ghost nowv = now.spec_bytes();
    let mut trace: Vec<String> = Vec::new();
    trace.push(String::from_str("evaluating rule ").concat(rule.id.as_str()));

    let mut fired = true;
    let mut i: usize = 0;
    let ghost head = seq![("evaluating rule "@ + rule.id@)];
    proof {
        assert(trace_view(trace@) =~= head);
        assert(condsv.skip(0) =~= condsv);
        let (o, m) = spec_conditions_trace(condsv, ctxv, nowv);
        assert(trace_view(trace@).skip(1) + m =~= m);
    }
    while i < rule.conditions.len() && fired
        invariant
            i <= rule.conditions@.len(),
            condsv == conditions_view(rule.conditions@),
            ctxv == field_views(ctx@),
            nowv == now.spec_bytes(),
            head == seq![("evaluating rule "@ + rule.id@)],
            fired ==> spec_conditions_trace(condsv, ctxv, nowv) == {
                let (rest_ok, rest_msgs) = spec_conditions_trace(
                    condsv.skip(i as int),
                    ctxv,
                    nowv,
                );
                (rest_ok, trace_view(trace@).skip(1) + rest_msgs)
            },
            !fired ==> spec_conditions_trace(condsv, ctxv, nowv) == (
                false,
                trace_view(trace@).skip(1),
            ),
            trace_view(trace@).len() >= 1,
            trace_view(trace@)[0] == head[0],
        decreases rule.conditions@.len() - i,
    {
        let c = &rule.conditions[i];
        assert(condition_view(*c) == condsv[i as int]);
        let (ok, msg) = evaluate_condition(c, ctx, now);
        let ghost tbefore = trace_view(trace@);
        trace.push(msg);
        assert(trace_view(trace@) =~= tbefore.push(msg@));
        proof {
            assert(condsv.skip(i as int)[0] == condsv[i as int]);
            assert(condsv.skip(i as int).skip(1) =~= condsv.skip(i as int + 1));
            assert(trace_view(trace@).skip(1) =~= tbefore.skip(1).push(msg@));
        }
        if !ok {
            fired = false;
            proof {
                let (ro, rm) = spec_conditions_trace(condsv.skip(i as int), ctxv, nowv);
                assert(ro == false && rm =~= seq![msg@]);
                assert(tbefore.skip(1) + seq![msg@] =~= trace_view(trace@).skip(1));
            }
        } else {
            proof {
                let (ro, rm) = spec_conditions_trace(condsv.skip(i as int), ctxv, nowv);
                let (ro2, rm2) = spec_conditions_trace(condsv.skip(i as int + 1), ctxv, nowv);
                assert(rm =~= seq![msg@] + rm2);
                assert(tbefore.skip(1) + rm =~= trace_view(trace@).skip(1) + rm2);
            }
        }
        i = i + 1;
    }
    proof {
        if fired {
            assert(condsv.skip(i as int) =~= Seq::<ConditionV>::empty());
            assert(spec_conditions_trace(condsv.skip(i as int), ctxv, nowv).1
                =~= Seq::<Seq<char>>::empty());
            assert(trace_view(trace@).skip(1) + Seq::<Seq<char>>::empty() =~= trace_view(
                trace@,
            ).skip(1));
        }
    }

    let ghost tfinal_before = trace_view(trace@);
    if fired {
        trace.push(String::from_str("conditions satisfied"));
    } else {
        trace.push(String::from_str("conditions failed"));
    }
    assert(trace_view(trace@) =~= tfinal_before.push(
        if fired {
            "conditions satisfied"@
        } else {
            "conditions failed"@
        },
    ));

    let mut actions: Vec<ActionExecution> = Vec::new();
    let mut j: usize = 0;
    while j < rule.actions.len()
        invariant
            j <= rule.actions@.len(),
            actions@.len() == j,
            forall|k: int| 0 <= k < j ==> action_view(#[trigger] actions@[k].action)
                == actions_view(rule.actions@)[k] && actions@[k].status == (if fired {
                ActionStatus::Executed
            } else {
                ActionStatus::Skipped
            }),
        decreases rule.actions@.len() - j,
    {
        let a = &rule.actions[j];
        assert(action_view(*a) == actions_view(rule.actions@)[j as int]);
        let status = if fired {
            ActionStatus::Executed
        } else {
            ActionStatus::Skipped
        };
        actions.push(ActionExecution { action: a.duplicate(), status });
        j = j + 1;
    }

    proof {
        assert(trace_view(trace@) =~= head + spec_conditions_trace(condsv, ctxv, nowv).1 + seq![
            (if spec_conditions_trace(condsv, ctxv, nowv).0 {
                "conditions satisfied"@
            } else {
                "conditions failed"@
            }),
        ]);
    }
    EvaluationResult { fired, trace, actions }
}

/// Rule determinism: evaluation is a function of the rule, the context and
/// the clock reading alone, so evaluating the same triple twice yields the
/// same verdict, the same trace and the same action statuses.
pub proof fn lemma_rule_determinism(
    conds1: Seq<ConditionV>,
    ctx1: Seq<(Seq<u8>, ValueV)>,
    now1: Seq<u8>,
    conds2: Seq<ConditionV>,
    ctx2: Seq<(Seq<u8>, ValueV)>,
    now2: Seq<u8>,
)
    requires
        conds1 == conds2,
        ctx1 == ctx2,
        now1 == now2,
    ensures
        spec_conditions_trace(conds1, ctx1, now1) == spec_conditions_trace(conds2, ctx2, now2),
{
}

/// When a rule next runs: the tick it fires at, and its period in ticks.
/// Event triggers never fire on the periodic path.
#[derive(Debug, Clone, Copy, PartialEq, Eq, Structural)]
pub struct ScheduleState {
    pub next_tick: u64,
    pub interval_ticks: u64,
}

/// The schedule of a trigger registered at `current_tick`: an interval of
/// `seconds` (at least one) rounds up to whole ticks, saturating at
/// `u64::MAX`; an event trigger never fires periodically.
pub open spec fn spec_schedule(trigger: Trigger, current_tick: u64) -> ScheduleState {
    match trigger {
        Trigger::Interval { seconds } => {
            let secs: int = if seconds >= 1 {
                seconds as int
            } else {
                1int
            };
            let t0: int = (secs * 1000 + (TICK_INTERVAL_MS - 1)) / (TICK_INTERVAL_MS as int);
            let ticks: int = if t0 >= 1 {
                if t0 <= u64::MAX as int {
                    t0
                } else {
                    u64::MAX as int
                }
            } else {
                1int
            };
            let next: int = if current_tick + ticks <= u64::MAX {
                current_tick + ticks
            } else {
                u64::MAX as int
            };
            ScheduleState { next_tick: next as u64, interval_ticks: ticks as u64 }
        },
        Trigger::Event { .. } => ScheduleState { next_tick: u64::MAX, interval_ticks: u64::MAX },
    }
}

impl ScheduleState {
    /// The schedule of a trigger registered at `current_tick`: an interval of
    /// `seconds` (at least one) rounds up to whole ticks; an event trigger
    /// never fires periodically.
    pub fn new(trigger: &Trigger, current_tick: u64) -> (r: ScheduleState)
        ensures
            r == spec_schedule(*trigger, current_tick),
            match trigger {
                Trigger::Interval { seconds } => {
                    let secs: int = if *seconds >= 1 {
                        *seconds as int
                    } else {
                        1int
                    };
                    let ticks: int = (secs * 1000 + (TICK_INTERVAL_MS - 1)) / (
                    TICK_INTERVAL_MS as int);
                    &&& r.interval_ticks == (if ticks >= 1 {
                        if ticks <= u64::MAX as int {
                            ticks
                        } else {
                            u64::MAX as int
                        }
                    } else {
                        1int
                    })
                    &&& r.next_tick == (if current_tick + r.interval_ticks <= u64::MAX {
                        current_tick + r.interval_ticks
                    } else {
                        u64::MAX as int
                    })
                },
                Trigger::Event { .. } => r.next_tick == u64::MAX && r.interval_ticks == u64::MAX,
            },
    {
        match trigger {
            Trigger::Interval { seconds } => {
                let secs: u64 = if *seconds >= 1 {
                    *seconds
                } else {
                    1
                };
                let interval_ms: u128 = (secs as u128) * 1000;
                let ticks_wide: u128 = (interval_ms + ((TICK_INTERVAL_MS - 1) as u128)) / (
                TICK_INTERVAL_MS as u128);
                proof {
                    assert((secs as nat) * 1000 <= (u64::MAX as nat) * 1000) by (nonlinear_arith)
                        requires
                            secs <= u64::MAX,
                    ;
                }
                let ticks: u64 = if ticks_wide >= 1 {
                    if ticks_wide <= u64::MAX as u128 {
                        ticks_wide as u64
                    } else {
                        u64::MAX
                    }
                } else {
                    1
                };
                let next_tick: u64 = if current_tick <= u64::MAX - ticks {
                    current_tick + ticks
                } else {
                    u64::MAX
                };
                ScheduleState { next_tick, interval_ticks: ticks }
            },
            Trigger::Event { .. } => ScheduleState {
                next_tick: u64::MAX,
                interval_ticks: u64::MAX,
            },
        }
    }

    /// Whether the rule is due at this tick.
    pub open spec fn spec_should_fire(self, tick: u64) -> bool {
        tick >= self.next_tick
    }

    /// Whether the rule is due at this tick.
    pub fn should_fire(&self, tick: u64) -> (r: bool)
        ensures
            r == self.spec_should_fire(tick),
    {
        tick >= self.next_tick
    }

    /// The schedule after firing: the next tick advances by one period,
    /// saturating; an event trigger stays parked.
    pub open spec fn spec_advance(self) -> ScheduleState {
        if self.interval_ticks == u64::MAX {
            ScheduleState { next_tick: u64::MAX, ..self }
        } else if self.next_tick + self.interval_ticks <= u64::MAX {
            ScheduleState { next_tick: (self.next_tick + self.interval_ticks) as u64, ..self }
        } else {
            ScheduleState { next_tick: u64::MAX, ..self }
        }
    }

    /// Advance the schedule by one period.
    pub fn advance(&mut self)
        ensures
            *final(self) == old(self).spec_advance(),
    {
        if self.interval_ticks == u64::MAX {
            self.next_tick = u64::MAX;
        } else if self.next_tick <= u64::MAX - self.interval_ticks {
            self.next_tick = self.next_tick + self.interval_ticks;
        } else {
            self.next_tick = u64::MAX;
        }
    }
}

/// The trace ring buffer's fixed capacity.
pub const MAX_TRACE_ENTRIES: usize = 100;

/// One recorded rule execution.
#[derive(Debug)]
pub struct RuleTraceEntry {
    pub timestamp: String,
    pub fired: bool,
    pub duration_ms: u64,
    pub trace: Vec<String>,
    pub actions: Vec<ActionExecution>,
}

/// A bounded ring of the most recent executions of one rule: at capacity,
/// the oldest entry is evicted silently.
#[derive(Debug)]
pub struct TraceBuffer {
    pub entries: Vec<RuleTraceEntry>,
}

impl TraceBuffer {
    /// An empty buffer.
    pub fn new() -> (r: TraceBuffer)
        ensures
            r.entries@.len() == 0,
    {
        TraceBuffer { entries: Vec::new() }
    }

    /// Record one execution, evicting the oldest entry at capacity.
    pub fn record(&mut self, entry: RuleTraceEntry)
        ensures
            old(self).entries@.len() < MAX_TRACE_ENTRIES ==> final(self).entries@ == old(
                self,
            ).entries@.push(entry),
            old(self).entries@.len() >= MAX_TRACE_ENTRIES ==> final(self).entries@ == old(
                self,
            ).entries@.skip(1).push(entry),
            final(self).entries@.len() <= MAX_TRACE_ENTRIES || final(self).entries@.len() == old(
                self,
            ).entries@.len(),
    {
        if self.entries.len() >= MAX_TRACE_ENTRIES {
            let _ = self.entries.remove(0);
            assert(self.entries@ =~= old(self).entries@.skip(1));
        }
        self.entries.push(entry);
    }

    /// The number of recorded executions.
    pub fn len(&self) -> (r: usize)
        ensures
            r == self.entries@.len(),
    {
        self.entries.len()
    }

    /// The `i`-th execution, newest first.
    pub fn get_newest(&self, i: usize) -> (r: &RuleTraceEntry)
        requires
            i < self.entries@.len(),
        ensures
            *r == self.entries@[self.entries@.len() - 1 - i],
    {
        &self.entries[self.entries.len() - 1 - i]
    }
}

/// Trace buffers keyed by rule id, one per registered rule.
#[derive(Debug)]
pub struct TraceStore {
    pub entries: Vec<(String, TraceBuffer)>,
}

/// The index of the buffer for a rule id, if present.
pub open spec fn spec_find_trace(entries: Seq<(String, TraceBuffer)>, id: Seq<char>, k: int) -> Option<
    int,
>
    decreases entries.len() - k,
{
    if k < 0 || k >= entries.len() {
        None
    } else if entries[k].0@ == id {
        Some(k)
    } else {
        spec_find_trace(entries, id, k + 1)
    }
}

impl TraceStore {
    /// An empty store.
    pub fn new() -> (r: TraceStore)
        ensures
            r.entries@.len() == 0,
    {
        TraceStore { entries: Vec::new() }
    }

    fn find(&self, rule_id: &str) -> (r: Option<usize>)
        ensures
            match r {
                Some(k) => spec_find_trace(self.entries@, rule_id@, 0) == Some(k as int) && k
                    < self.entries@.len(),
                None => spec_find_trace(self.entries@, rule_id@, 0) is None,
            },
    {
        let mut i: usize = 0;
        while i < self.entries.len()
            invariant
                i <= self.entries@.len(),
                spec_find_trace(self.entries@, rule_id@, 0) == spec_find_trace(
                    self.entries@,
                    rule_id@,
                    i as int,
                ),
            decreases self.entries@.len() - i,
        {
            let r = crate::strutil::bytes_eq(
                self.entries[i].0.as_str().as_bytes(),
                rule_id.as_bytes(),
            );
            proof {
                vstd::utf8::encode_utf8_decode_utf8(self.entries@[i as int].0@);
                vstd::utf8::encode_utf8_decode_utf8(rule_id@);
            }
            if r {
                return Some(i);
            }
            i = i + 1;
        }
        None
    }

    /// Make sure a rule has a (possibly empty) buffer.
    pub fn init_slot(&mut self, rule_id: &str)
        ensures
            spec_find_trace(old(self).entries@, rule_id@, 0) is Some ==> *final(self) == *old(
                self,
            ),
            spec_find_trace(old(self).entries@, rule_id@, 0) is None ==> {
                &&& final(self).entries@.len() == old(self).entries@.len() + 1
                &&& final(self).entries@.last().0@ == rule_id@
                &&& final(self).entries@.last().1.entries@.len() == 0
            },
    {
        if self.find(rule_id).is_none() {
            self.entries.push((rule_id.to_owned(), TraceBuffer::new()));
        }
    }

    /// Drop a rule's buffer, if it has one.
    pub fn drop_slot(&mut self, rule_id: &str)
        ensures
            match spec_find_trace(old(self).entries@, rule_id@, 0) {
                Some(k) => final(self).entries@ == old(self).entries@.remove(k),
                None => *final(self) == *old(self),
            },
    {
        if let Some(k) = self.find(rule_id) {
            let _ = self.entries.remove(k);
        }
    }

    /// Record one execution under a rule id, creating the buffer if needed:
    /// the rule's buffer receives the entry (evicting its oldest at
    /// capacity), and every other buffer is untouched.
    pub fn record_trace(&mut self, rule_id: &str, entry: RuleTraceEntry)
        ensures
            match spec_find_trace(old(self).entries@, rule_id@, 0) {
                Some(k) => {
                    &&& final(self).entries@.len() == old(self).entries@.len()
                    &&& forall|j: int| 0 <= j < old(self).entries@.len() && j != k ==> final(self).entries@[j] == old(self).entries@[j]
                    &&& final(self).entries@[k].0 == old(self).entries@[k].0
                    &&& (old(self).entries@[k].1.entries@.len() < MAX_TRACE_ENTRIES ==> final(self).entries@[k].1.entries@ == old(self).entries@[k].1.entries@.push(entry))
                    &&& (old(self).entries@[k].1.entries@.len() >= MAX_TRACE_ENTRIES ==> final(self).entries@[k].1.entries@ == old(self).entries@[k].1.entries@.skip(1).push(
                        entry,
                    ))
                },
                None => {
                    &&& final(self).entries@.len() == old(self).entries@.len() + 1
                    &&& forall|j: int| 0 <= j < old(self).entries@.len() ==> final(self).entries@[j]
                        == old(self).entries@[j]
                    &&& final(self).entries@.last().0@ == rule_id@
                    &&& final(self).entries@.last().1.entries@ == seq![entry]
                },
            },
    {
        match self.find(rule_id) {
            Some(k) => {
                let buffer = &mut self.entries[k].1;
                buffer.record(entry);
            },
            None => {
                let mut buffer = TraceBuffer::new();
                buffer.record(entry);
                assert(buffer.entries@ =~= seq![entry]);
                self.entries.push((rule_id.to_owned(), buffer));
            },
        }
    }

    /// The buffer of a rule id, if it has one.
    pub fn traces_for(&self, rule_id: &str) -> (r: Option<&TraceBuffer>)
        ensures
            match r {
                Some(buffer) => spec_find_trace(self.entries@, rule_id@, 0) matches Some(k)
                    && *buffer == self.entries@[k].1,
                None => spec_find_trace(self.entries@, rule_id@, 0) is None,
            },
    {
        match self.find(rule_id) {
            Some(k) => Some(&self.entries[k].1),
            None => None,
        }
    }
}

/// A registered rule with its schedule.
#[derive(Debug)]
pub struct RuleInstance {
    pub definition: RuleDefinition,
    pub schedule: ScheduleState,
}

/// The registered rules, in registration order, each with its schedule.
#[derive(Debug)]
pub struct RuleRegistry {
    pub rules: Vec<RuleInstance>,
}

/// The index of the rule with this id, if present.
pub open spec fn spec_find_rule(rules: Seq<RuleInstance>, id: Seq<char>, k: int) -> Option<int>
    decreases rules.len() - k,
{
    if k < 0 || k >= rules.len() {
        None
    } else if rules[k].definition.id@ == id {
        Some(k)
    } else {
        spec_find_rule(rules, id, k + 1)
    }
}

/// The largest scheduled tick among the registered rules, zero when none.
pub open spec fn spec_max_next_tick(rules: Seq<RuleInstance>) -> u64
    decreases rules.len(),
{
    if rules.len() == 0 {
        0u64
    } else {
        let rest = spec_max_next_tick(rules.drop_last());
        if rules.last().schedule.next_tick > rest {
            rules.last().schedule.next_tick
        } else {
            rest
        }
    }
}

/// The indexes of the rules due at `tick`, from position `k` on, in
/// registry order.
pub open spec fn spec_due_indices(rules: Seq<RuleInstance>, tick: u64, k: int) -> Seq<int>
    decreases rules.len() - k,
{
    if k < 0 || k >= rules.len() {
        Seq::empty()
    } else if rules[k].schedule.spec_should_fire(tick) {
        seq![k] + spec_due_indices(rules, tick, k + 1)
    } else {
        spec_due_indices(rules, tick, k + 1)
    }
}

impl RuleRegistry {
    /// An empty registry.
    pub fn new() -> (r: RuleRegistry)
        ensures
            r.rules@.len() == 0,
    {
        RuleRegistry { rules: Vec::new() }
    }

    fn find(&self, id: &str) -> (r: Option<usize>)
        ensures
            match r {
                Some(k) => spec_find_rule(self.rules@, id@, 0) == Some(k as int) && k
                    < self.rules@.len(),
                None => spec_find_rule(self.rules@, id@, 0) is None,
            },
    {
        let mut i: usize = 0;
        while i < self.rules.len()
            invariant
                i <= self.rules@.len(),
                spec_find_rule(self.rules@, id@, 0) == spec_find_rule(
                    self.rules@,
                    id@,
                    i as int,
                ),
            decreases self.rules@.len() - i,
        {
            let r = crate::strutil::bytes_eq(
                self.rules[i].definition.id.as_str().as_bytes(),
                id.as_bytes(),
            );
            proof {
                vstd::utf8::encode_utf8_decode_utf8(self.rules@[i as int].definition.id@);
                vstd::utf8::encode_utf8_decode_utf8(id@);
            }
            if r {
                return Some(i);
            }
            i = i + 1;
        }
        None
    }

    /// The largest scheduled tick among the registered rules, or zero.
    fn max_next_tick(&self) -> (r: u64)
        ensures
            r == spec_max_next_tick(self.rules@),
            forall|j: int| 0 <= j < self.rules@.len() ==> (#[trigger] self.rules@[j]).schedule.next_tick
                <= r,
    {
        let mut max: u64 = 0;
        let mut i: usize = 0;
        assert(self.rules@.take(0) =~= Seq::<RuleInstance>::empty());
        while i < self.rules.len()
            invariant
                i <= self.rules@.len(),
                max == spec_max_next_tick(self.rules@.take(i as int)),
                forall|j: int| 0 <= j < i ==> (#[trigger] self.rules@[j]).schedule.next_tick
                    <= max,
            decreases self.rules@.len() - i,
        {
            if self.rules[i].schedule.next_tick > max {
                max = self.rules[i].schedule.next_tick;
            }
            proof {
                assert(self.rules@.take(i as int + 1).drop_last() =~= self.rules@.take(i as int));
                assert(self.rules@.take(i as int + 1).last() == self.rules@[i as int]);
            }
            i = i + 1;
        }
        assert(self.rules@.take(self.rules@.len() as int) =~= self.rules@);
        max
    }

    /// Register a rule: its schedule is based at the registry's largest
    /// scheduled tick, and a rule with the same id is replaced.
    pub fn create_rule(&mut self, definition: RuleDefinition)
        ensures
            match spec_find_rule(old(self).rules@, definition.id@, 0) {
                Some(k) => {
                    &&& final(self).rules@.len() == old(self).rules@.len()
                    &&& final(self).rules@[k].definition == definition
                    &&& final(self).rules@[k].schedule == spec_schedule(
                        definition.trigger,
                        spec_max_next_tick(old(self).rules@),
                    )
                    &&& forall|j: int| 0 <= j < old(self).rules@.len() && j != k ==> final(self).rules@[j] == old(self).rules@[j]
                },
                None => {
                    &&& final(self).rules@.len() == old(self).rules@.len() + 1
                    &&& final(self).rules@.last().definition == definition
                    &&& final(self).rules@.last().schedule == spec_schedule(
                        definition.trigger,
                        spec_max_next_tick(old(self).rules@),
                    )
                    &&& forall|j: int| 0 <= j < old(self).rules@.len() ==> final(self).rules@[j]
                        == old(self).rules@[j]
                },
            },
    {
        let base = self.max_next_tick();
        let schedule = ScheduleState::new(&definition.trigger, base);
        match self.find(definition.id.as_str()) {
            Some(k) => {
                self.rules[k] = RuleInstance { definition, schedule };
            },
            None => {
                self.rules.push(RuleInstance { definition, schedule });
            },
        }
    }

    /// Remove a rule; whether it was registered.
    pub fn remove_rule(&mut self, id: &str) -> (r: bool)
        ensures
            match spec_find_rule(old(self).rules@, id@, 0) {
                Some(k) => r && final(self).rules@ == old(self).rules@.remove(k),
                None => !r && *final(self) == *old(self),
            },
    {
        match self.find(id) {
            Some(k) => {
                let _ = self.rules.remove(k);
                true
            },
            None => false,
        }
    }

    /// One scheduler tick: every due rule is evaluated against the context
    /// and advances by one period; each due rule contributes exactly one
    /// result, its full evaluation, and the results come back with the
    /// rules' indexes, in registry order.
    pub fn tick(&mut self, tick: u64, ctx: &RuleContext, now: &str) -> (r: Vec<
        (usize, EvaluationResult),
    >)
        ensures
            final(self).rules@.len() == old(self).rules@.len(),
            forall|j: int| 0 <= j < old(self).rules@.len() ==> {
                let o = #[trigger] old(self).rules@[j];
                let n = final(self).rules@[j];
                &&& n.definition == o.definition
                &&& (o.schedule.spec_should_fire(tick) ==> n.schedule == o.schedule.spec_advance())
                &&& (!o.schedule.spec_should_fire(tick) ==> n.schedule == o.schedule)
            },
            r@.map_values(|p: (usize, EvaluationResult)| p.0 as int) == spec_due_indices(
                old(self).rules@,
                tick,
                0,
            ),
            forall|k: int| 0 <= k < r@.len() ==> (#[trigger] r@[k]).0 < old(self).rules@.len()
                && old(self).rules@[r@[k].0 as int].schedule.spec_should_fire(tick)
                && spec_evaluation_ok(
                r@[k].1,
                old(self).rules@[r@[k].0 as int].definition,
                field_views(ctx@),
                now.spec_bytes(),
            ),
    {
        let ghost ctxv = field_views(ctx@);
        let ghost nowv = now.spec_bytes();
        let mut results: Vec<(usize, EvaluationResult)> = Vec::new();
        let mut i: usize = 0;
        while i < self.rules.len()
            invariant
                i <= self.rules@.len(),
                self.rules@.len() == old(self).rules@.len(),
                ctxv == field_views(ctx@),
                nowv == now.spec_bytes(),
                forall|j: int| i <= j < self.rules@.len() ==> #[trigger] self.rules@[j] == old(
                    self,
                ).rules@[j],
                forall|j: int| 0 <= j < i ==> {
                    let o = #[trigger] old(self).rules@[j];
                    let n = self.rules@[j];
                    &&& n.definition == o.definition
                    &&& (o.schedule.spec_should_fire(tick) ==> n.schedule
                        == o.schedule.spec_advance())
                    &&& (!o.schedule.spec_should_fire(tick) ==> n.schedule == o.schedule)
                },
                spec_due_indices(old(self).rules@, tick, 0) == results@.map_values(
                    |p: (usize, EvaluationResult)| p.0 as int,
                ) + spec_due_indices(old(self).rules@, tick, i as int),
                forall|k: int| 0 <= k < results@.len() ==> (#[trigger] results@[k]).0 < old(
                    self,
                ).rules@.len() && old(self).rules@[results@[k].0 as int].schedule.spec_should_fire(
                    tick,
                ) && spec_evaluation_ok(
                    results@[k].1,
                    old(self).rules@[results@[k].0 as int].definition,
                    ctxv,
                    nowv,
                ),
            decreases self.rules@.len() - i,
    {
            let ghost results_before = results@;
            let inst = &mut self.rules[i];
            if let Some(result) = rule_tick_step(inst, tick, ctx, now) {
                results.push((i, result));
                proof {
                    assert(results@.map_values(|p: (usize, EvaluationResult)| p.0 as int)
                        =~= results_before.map_values(
                        |p: (usize, EvaluationResult)| p.0 as int,
                    ).push(i as int));
                    assert(results_before.map_values(
                        |p: (usize, EvaluationResult)| p.0 as int,
                    ).push(i as int) =~= results_before.map_values(
                        |p: (usize, EvaluationResult)| p.0 as int,
                    ) + seq![i as int]);
                }
            }
            i = i + 1;
        }
        assert(spec_due_indices(old(self).rules@, tick, i as int) =~= Seq::<int>::empty());
        assert(results@.map_values(|p: (usize, EvaluationResult)| p.0 as int) =~= results@.map_values(
            |p: (usize, EvaluationResult)| p.0 as int,
        ) + Seq::<int>::empty());
        results
    }
}

/// One tick of the scheduler over a single rule: when the rule is due, it is
/// evaluated against the context and its schedule advances by one period.
pub fn rule_tick_step(inst: &mut RuleInstance, tick: u64, ctx: &RuleContext, now: &str) -> (r:
    Option<EvaluationResult>)
    ensures
        final(inst).definition == old(inst).definition,
        old(inst).schedule.spec_should_fire(tick) ==> {
            &&& final(inst).schedule == old(inst).schedule.spec_advance()
            &&& r matches Some(res) && res.fired == spec_conditions_trace(
                conditions_view(old(inst).definition.conditions@),
                field_views(ctx@),
                now.spec_bytes(),
            ).0 && spec_evaluation_ok(res, old(inst).definition, field_views(ctx@), now.spec_bytes())
        },
        !old(inst).schedule.spec_should_fire(tick) ==> final(inst).schedule == old(
            inst,
        ).schedule && r is None,
{
    if !inst.schedule.should_fire(tick) {
        return None;
    }
    let result = evaluate_rule(&inst.definition, ctx, now);
    inst.schedule.advance();
    Some(result)
}

} // verus!
