use lokan_hub::rules::{
    evaluate_rule, rule_tick_step, Action, ActionStatus, Condition, RuleDefinition, RuleInstance,
    RuleTraceEntry, ScheduleState, TraceBuffer, Trigger, ValueRef, MAX_TRACE_ENTRIES,
    TICK_INTERVAL_MS,
};
use lokan_hub::value::{value_eq, RuleValue};

fn temperature_rule() -> RuleDefinition {
    RuleDefinition {
        id: "rule-1".to_string(),
        name: None,
        trigger: Trigger::Interval { seconds: 1 },
        conditions: vec![Condition::Equals {
            left: ValueRef::Context { path: "temperature".to_string() },
            right: ValueRef::Literal { value: RuleValue::Int(72) },
        }],
        actions: vec![Action::EmitEvent {
            subject: "hvac.adjust".to_string(),
            payload: RuleValue::Obj(vec![("target".to_string(), RuleValue::Int(70))]),
        }],
    }
}

#[test]
fn evaluate_rule_executes_when_conditions_match() {
    let rule = temperature_rule();

    let context = vec![("temperature".to_string(), RuleValue::Int(72))];
    let result = evaluate_rule(&rule, &context, "2024-01-01T00:00:00Z");
    assert!(result.fired);
    assert!(matches!(result.actions[0].status, ActionStatus::Executed));

    let context = vec![("temperature".to_string(), RuleValue::Int(68))];
    let result = evaluate_rule(&rule, &context, "2024-01-01T00:00:00Z");
    assert!(!result.fired);
    assert!(matches!(result.actions[0].status, ActionStatus::Skipped));
}

#[test]
fn schedule_state_advances_deterministically() {
    let trigger = Trigger::Interval { seconds: 5 };
    let mut schedule = ScheduleState::new(&trigger, 0);
    let trigger_tick = ((5 * 1000 + TICK_INTERVAL_MS - 1) / TICK_INTERVAL_MS).max(1);
    assert!(schedule.should_fire(trigger_tick));
    let next_before = schedule.next_tick;
    schedule.advance();
    assert!(schedule.next_tick > next_before);
}

#[test]
fn evaluation_is_deterministic() {
    let rule = temperature_rule();
    let context = vec![("temperature".to_string(), RuleValue::Int(72))];
    let a = evaluate_rule(&rule, &context, "2024-01-01T00:00:00Z");
    let b = evaluate_rule(&rule, &context, "2024-01-01T00:00:00Z");
    assert_eq!(a.fired, b.fired);
    assert_eq!(a.trace, b.trace);
    assert_eq!(a.actions.len(), b.actions.len());
    for (x, y) in a.actions.iter().zip(b.actions.iter()) {
        assert_eq!(x.status, y.status);
    }
}

#[test]
fn conditions_short_circuit() {
    let rule = RuleDefinition {
        id: "rule-2".to_string(),
        name: None,
        trigger: Trigger::Interval { seconds: 1 },
        conditions: vec![
            Condition::GreaterThan {
                left: ValueRef::Context { path: "temperature".to_string() },
                right: ValueRef::Literal { value: RuleValue::Int(100) },
            },
            Condition::Equals {
                left: ValueRef::Literal { value: RuleValue::Int(1) },
                right: ValueRef::Literal { value: RuleValue::Int(1) },
            },
        ],
        actions: Vec::new(),
    };
    let context = vec![("temperature".to_string(), RuleValue::Int(68))];
    let result = evaluate_rule(&rule, &context, "now");
    assert!(!result.fired);
    // The trace holds the header, the one failed condition and the verdict.
    assert_eq!(result.trace.len(), 3);
    assert_eq!(result.trace[0], "evaluating rule rule-2");
    assert_eq!(result.trace[1], "greater_than failed");
    assert_eq!(result.trace[2], "conditions failed");
}

#[test]
fn dotted_paths_resolve_into_objects() {
    let rule = RuleDefinition {
        id: "rule-3".to_string(),
        name: None,
        trigger: Trigger::Interval { seconds: 1 },
        conditions: vec![Condition::LessThan {
            left: ValueRef::Context { path: "sensor.reading".to_string() },
            right: ValueRef::Literal { value: RuleValue::Int(10) },
        }],
        actions: Vec::new(),
    };
    let context = vec![(
        "sensor".to_string(),
        RuleValue::Obj(vec![("reading".to_string(), RuleValue::Int(5))]),
    )];
    let result = evaluate_rule(&rule, &context, "now");
    assert!(result.fired);
}

#[test]
fn now_path_falls_back_to_the_clock() {
    let rule = RuleDefinition {
        id: "rule-4".to_string(),
        name: None,
        trigger: Trigger::Interval { seconds: 1 },
        conditions: vec![Condition::Equals {
            left: ValueRef::Context { path: "now".to_string() },
            right: ValueRef::Literal {
                value: RuleValue::Str("2024-01-01T00:00:00Z".to_string()),
            },
        }],
        actions: Vec::new(),
    };
    let result = evaluate_rule(&rule, &Vec::new(), "2024-01-01T00:00:00Z");
    assert!(result.fired);
}

#[test]
fn event_triggers_never_fire_periodically() {
    let schedule = ScheduleState::new(
        &Trigger::Event { subject: "bus.subject".to_string() },
        0,
    );
    assert_eq!(schedule.next_tick, u64::MAX);
    assert!(!schedule.should_fire(1_000_000));
}

#[test]
fn tick_step_fires_due_rules_and_advances() {
    let mut inst = RuleInstance {
        definition: temperature_rule(),
        schedule: ScheduleState::new(&Trigger::Interval { seconds: 1 }, 0),
    };
    let context = vec![("temperature".to_string(), RuleValue::Int(72))];
    assert!(rule_tick_step(&mut inst, 1, &context, "now").is_none());
    let fired = rule_tick_step(&mut inst, 2, &context, "now").expect("due at tick 2");
    assert!(fired.fired);
    assert_eq!(inst.schedule.next_tick, 4);
}

#[test]
fn trace_buffer_evicts_oldest() {
    let mut buffer = TraceBuffer::new();
    for i in 0..(MAX_TRACE_ENTRIES + 5) {
        buffer.record(RuleTraceEntry {
            timestamp: format!("t{i}"),
            fired: true,
            duration_ms: 1,
            trace: Vec::new(),
            actions: Vec::new(),
        });
    }
    assert_eq!(buffer.len(), MAX_TRACE_ENTRIES);
    // Newest first: the last write comes back first.
    assert_eq!(buffer.get_newest(0).timestamp, format!("t{}", MAX_TRACE_ENTRIES + 4));
    assert_eq!(buffer.get_newest(MAX_TRACE_ENTRIES - 1).timestamp, "t5");
}

#[test]
fn registry_schedules_and_ticks_rules() {
    let mut registry = lokan_hub::rules::RuleRegistry::new();
    registry.create_rule(temperature_rule());
    assert_eq!(registry.rules.len(), 1);
    // Re-registering the same id replaces the rule.
    registry.create_rule(temperature_rule());
    assert_eq!(registry.rules.len(), 1);

    let context = vec![("temperature".to_string(), RuleValue::Int(72))];
    // Re-registration rebased the schedule at the highest scheduled tick
    // (2), so the one-second interval of two ticks comes due at tick 4.
    assert!(registry.tick(2, &context, "now").is_empty());
    let fired = registry.tick(4, &context, "now");
    assert_eq!(fired.len(), 1);
    assert!(fired[0].1.fired);

    assert!(registry.remove_rule("rule-1"));
    assert!(!registry.remove_rule("rule-1"));
}

#[test]
fn trace_store_is_keyed_by_rule_id() {
    let mut store = lokan_hub::rules::TraceStore::new();
    store.init_slot("rule-1");
    assert_eq!(store.traces_for("rule-1").map(|b| b.len()), Some(0));
    assert!(store.traces_for("rule-2").is_none());
    store.record_trace(
        "rule-1",
        RuleTraceEntry {
            timestamp: "t0".to_string(),
            fired: true,
            duration_ms: 2,
            trace: Vec::new(),
            actions: Vec::new(),
        },
    );
    assert_eq!(store.traces_for("rule-1").map(|b| b.len()), Some(1));
    store.drop_slot("rule-1");
    assert!(store.traces_for("rule-1").is_none());
}

#[test]
fn value_equality_is_structural() {
    let a = RuleValue::Obj(vec![(
        "items".to_string(),
        RuleValue::List(vec![RuleValue::Int(1), RuleValue::Str("x".to_string())]),
    )]);
    let b = a.duplicate();
    assert!(value_eq(&a, &b));
    let c = RuleValue::Obj(vec![(
        "items".to_string(),
        RuleValue::List(vec![RuleValue::Int(2), RuleValue::Str("x".to_string())]),
    )]);
    assert!(!value_eq(&a, &c));
}

#[test]
fn values_render_as_json() {
    let v = RuleValue::Obj(vec![
        ("target".to_string(), RuleValue::Int(70)),
        ("label".to_string(), RuleValue::Str("a\"b".to_string())),
        ("on".to_string(), RuleValue::Bool(true)),
        ("none".to_string(), RuleValue::Null),
        ("xs".to_string(), RuleValue::List(vec![RuleValue::Int(-1), RuleValue::Int(2)])),
    ]);
    let rendered = lokan_hub::value::render_json(&v);
    assert_eq!(
        String::from_utf8(rendered).unwrap(),
        "{\"target\":70,\"label\":\"a\\\"b\",\"on\":true,\"none\":null,\"xs\":[-1,2]}"
    );
}
