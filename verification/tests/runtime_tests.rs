use hyperwasm::HperwasmError;
use hyperwasm::Mailbox;
use hyperwasm::MailboxResult;
use hyperwasm::Process;
use hyperwasm::ProcessConfig;
use hyperwasm::Tag;
use hyperwasm::TagCounter;
use hyperwasm::host::Envelope;
use hyperwasm::host::HostState;
use hyperwasm::serializer::Bincode;
use hyperwasm::serializer::Json;
use hyperwasm::serializer::Serializer;

fn enqueue_tagged(host: &mut HostState, target: u64, tag: i64, value: i64) {
    host.message_create_data(tag);
    <Bincode as Serializer<i64>>::encode(&value, &mut host.outbound).unwrap();
    host.message_send(target);
}

#[test]
fn selective_receive_skips_non_matching_messages_in_place() {
    let mut host = HostState::new();
    let mut counter = TagCounter::new();
    let t1 = Tag::new(&mut counter);
    let t2 = Tag::new(&mut counter);
    enqueue_tagged(&mut host, 0, t1.id(), 10);
    enqueue_tagged(&mut host, 0, t2.id(), 20);
    enqueue_tagged(&mut host, 0, t1.id(), 30);

    let mb: Mailbox<i64, Bincode> = Mailbox::new();
    let second = mb.tag_receive(&mut host, &[t2]);
    assert_eq!(second, 20);

    // Both t1 messages are still queued, in arrival order.
    assert_eq!(host.processes[0].queue.len(), 2);

    let first = mb.receive(&mut host);
    assert_eq!(first, 10);
    let third = mb.receive(&mut host);
    assert_eq!(third, 30);
    assert!(host.processes[0].queue.is_empty());
}

#[test]
fn empty_tag_set_means_any_tag() {
    let mut host = HostState::new();
    enqueue_tagged(&mut host, 0, 777, 5);
    let mb: Mailbox<i64, Bincode> = Mailbox::new();
    let got = mb.tag_receive(&mut host, &[]);
    assert_eq!(got, 5);
}

#[test]
fn receive_timeout_zero_on_empty_queue_times_out() {
    let mut host = HostState::new();
    let mb: Mailbox<i64, Bincode> = Mailbox::new();
    let r = mb.receive_timeout(&mut host, 0);
    assert!(r.is_timed_out());
    assert!(!r.is_message());
    assert!(!r.is_link_died());
}

#[test]
fn try_receive_returns_a_queued_message_within_the_bound() {
    let mut host = HostState::new();
    enqueue_tagged(&mut host, 0, 0, 11);
    let mb: Mailbox<i64, Bincode> = Mailbox::new();
    let r = mb.try_receive(&mut host, 50);
    assert!(r.is_message());
    assert_eq!(r.unwrap(), 11);
}

#[test]
fn tag_receive_timeout_times_out_when_nothing_matches() {
    let mut host = HostState::new();
    enqueue_tagged(&mut host, 0, 500, 1);
    let mb: Mailbox<i64, Bincode> = Mailbox::new();
    let none = Tag::none();
    let r = mb.tag_receive_timeout(&mut host, &[none], 10);
    assert!(r.is_timed_out());
    // The non-matching message is still queued.
    assert_eq!(host.processes[0].queue.len(), 1);
}

#[test]
fn killed_child_reports_link_death_to_catching_parent() {
    let mut host = HostState::new();
    let child: Process<i64, Bincode> =
        Process::<i64, Bincode>::spawn_link(&mut host, (), |_, _, h: HostState| h);
    let parent_mb: Mailbox<i64, Bincode> = Mailbox::new();
    let parent_mb = parent_mb.catch_link_failure(&mut host);
    child.kill(&mut host);
    assert!(!host.processes[child.id() as usize].alive);
    let r = parent_mb.receive(&mut host);
    assert!(r.is_link_died());
    match r {
        MailboxResult::LinkDied(t) => {
            // The parent's first allocated tag is 129.
            assert_eq!(t.id(), 129);
        }
        _ => panic!("expected a link death"),
    }
}

#[test]
fn killed_child_terminates_a_non_catching_parent() {
    let mut host = HostState::new();
    let child: Process<i64, Bincode> =
        Process::<i64, Bincode>::spawn_link(&mut host, (), |_, _, h: HostState| h);
    child.kill(&mut host);
    assert!(!host.processes[child.id() as usize].alive);
    assert!(!host.processes[0].alive);
    // No notification was queued for the terminated parent.
    assert!(host.processes[0].queue.is_empty());
}

#[test]
fn config_settings_are_applied_to_the_spawned_process() {
    let mut host = HostState::new();
    let mut config = ProcessConfig::new(&mut host).unwrap();
    config.set_name(&mut host, "child 1");
    config.set_expected_time(&mut host, 4);
    config.set_relative_ddl(&mut host, 6);
    let child: Process<i64, Bincode> =
        Process::<i64, Bincode>::spawn_config(&mut host, &config, (), |_, _, h: HostState| h);
    let cfg = &host.configs[config.id() as usize];
    assert_eq!(cfg.name, "child 1");
    assert_eq!(cfg.expected_time, 4);
    assert_eq!(cfg.relative_ddl, 6);
    assert_eq!(host.processes[child.id() as usize].config_id, config.id());
}

#[test]
fn a_config_can_be_reused_for_several_spawns() {
    let mut host = HostState::new();
    let mut config = ProcessConfig::new(&mut host).unwrap();
    config.set_name(&mut host, "worker");
    let a: Process<i64, Bincode> =
        Process::<i64, Bincode>::spawn_config(&mut host, &config, (), |_, _, h: HostState| h);
    let b: Process<i64, Bincode> =
        Process::<i64, Bincode>::spawn_config(&mut host, &config, (), |_, _, h: HostState| h);
    assert_ne!(a.id(), b.id());
    assert_eq!(host.processes[a.id() as usize].config_id, config.id());
    assert_eq!(host.processes[b.id() as usize].config_id, config.id());
}

#[test]
fn config_allocation_failure_is_permission_denied() {
    let mut host = HostState::new();
    host.config_allowed = false;
    let r = ProcessConfig::new(&mut host);
    match r {
        Err(e) => assert_eq!(e, HperwasmError::PermissionDenied),
        Ok(_) => panic!("expected a permission failure"),
    }
}

#[test]
fn inherit_is_denoted_by_minus_one() {
    let mut host = HostState::new();
    let child: Process<i64, Bincode> =
        Process::<i64, Bincode>::spawn(&mut host, (), |_, _, h: HostState| h);
    assert_eq!(host.processes[child.id() as usize].config_id, -1);
}

#[test]
fn spawn_refused_by_the_host_reports_the_error_identifier() {
    let mut host = HostState::new();
    host.spawn_error = Some(42);
    let r = host.process_spawn(None, -1);
    assert_eq!(r, Err(42));
    assert_eq!(host.processes.len(), 1);
}

#[test]
fn spawned_child_computes_and_sends_back() {
    let mut host = HostState::new();
    let parent: Process<i64, Bincode> = Process::this(&host);
    let capture = ((3i64, 4i64), parent);
    let _child: Process<i64, Bincode> = Process::<i64, Bincode>::spawn(
        &mut host,
        capture,
        |cap: ((i64, i64), Process<i64, Bincode>), _mb, mut h: HostState| {
            let ((a, b), back) = cap;
            back.send(&mut h, a + b);
            h
        },
    );
    // Control is back with the parent, whose mailbox holds the child's answer.
    assert_eq!(host.current, 0);
    let mb: Mailbox<i64, Bincode> = Mailbox::new();
    let none = Tag::none();
    let r = mb.tag_receive_timeout(&mut host, &[none], 1000);
    assert!(r.is_message());
    assert_eq!(r.unwrap(), 7);
}

#[test]
fn sends_between_processes_arrive_in_order() {
    let mut host = HostState::new();
    let child: Process<i64, Bincode> =
        Process::<i64, Bincode>::spawn(&mut host, (), |_, _, h: HostState| h);
    child.send(&mut host, 1);
    child.send(&mut host, 2);
    child.send(&mut host, 3);
    host.set_current(child.id());
    let mb: Mailbox<i64, Bincode> = Mailbox::new();
    assert_eq!(mb.receive(&mut host), 1);
    assert_eq!(mb.receive(&mut host), 2);
    assert_eq!(mb.receive(&mut host), 3);
}

#[test]
fn sending_to_a_dead_process_is_dropped() {
    let mut host = HostState::new();
    let child: Process<i64, Bincode> =
        Process::<i64, Bincode>::spawn(&mut host, (), |_, _, h: HostState| h);
    child.kill(&mut host);
    child.send(&mut host, 9);
    assert!(host.processes[child.id() as usize].queue.is_empty());
}

#[test]
fn link_then_kill_notifies_the_catching_peer_under_the_no_tag_value() {
    let mut host = HostState::new();
    let child: Process<i64, Bincode> =
        Process::<i64, Bincode>::spawn(&mut host, (), |_, _, h: HostState| h);
    child.link(&mut host);
    let mb: Mailbox<i64, Bincode> = Mailbox::new();
    let mb = mb.catch_link_failure(&mut host);
    child.kill(&mut host);
    let r = mb.receive(&mut host);
    match r {
        MailboxResult::LinkDied(t) => assert_eq!(t.id(), 0),
        _ => panic!("expected a link death"),
    }
}

#[test]
fn unlink_removes_failure_propagation() {
    let mut host = HostState::new();
    let child: Process<i64, Bincode> =
        Process::<i64, Bincode>::spawn(&mut host, (), |_, _, h: HostState| h);
    child.link(&mut host);
    child.unlink(&mut host);
    child.kill(&mut host);
    // The parent neither died nor was notified.
    assert!(host.processes[0].alive);
    assert!(host.processes[0].queue.is_empty());
}

#[test]
fn killing_a_dead_or_unknown_process_changes_nothing() {
    let mut host = HostState::new();
    let child: Process<i64, Bincode> =
        Process::<i64, Bincode>::spawn(&mut host, (), |_, _, h: HostState| h);
    child.kill(&mut host);
    child.kill(&mut host);
    let stranger: Process<i64, Bincode> = Process::this(&host);
    assert!(host.processes[0].alive);
    let _ = stranger;
    assert_eq!(host.processes.len(), 2);
}

#[test]
fn register_publishes_the_name_identifier_and_schema() {
    let mut host = HostState::new();
    let me: Process<i64, Bincode> = Process::this(&host);
    me.register(&mut host, "worker");
    assert_eq!(host.registry.len(), 1);
    assert_eq!(host.registry[0].name, "worker");
    assert_eq!(host.registry[0].id, me.id());
    assert_eq!(host.registry[0].schema, <Bincode as Serializer<i64>>::schema());
}

#[test]
fn same_alias_for_different_types_never_aliases_one_entry() {
    let mut host = HostState::new();
    let as_int: Process<i64, Bincode> = Process::this(&host);
    let as_string: Process<String, Bincode> = Process::this(&host);
    let as_json: Process<i64, Json> = Process::this(&host);
    as_int.register(&mut host, "worker");
    as_string.register(&mut host, "worker");
    as_json.register(&mut host, "worker");
    assert_eq!(host.registry.len(), 3);
    // One alias, three schema discriminators: a lookup made for one message
    // type and encoding can never answer with an entry of another.
    assert_eq!(host.registry[0].schema, <Bincode as Serializer<i64>>::schema());
    assert_eq!(host.registry[1].schema, <Bincode as Serializer<String>>::schema());
    assert_eq!(host.registry[2].schema, <Json as Serializer<i64>>::schema());
    assert_ne!(host.registry[0].schema, host.registry[1].schema);
    assert_ne!(host.registry[0].schema, host.registry[2].schema);
    assert_ne!(host.registry[1].schema, host.registry[2].schema);
}

#[test]
fn equal_handles_hash_alike() {
    let mut host = HostState::new();
    let a: Process<i64, Bincode> = Process::this(&host);
    let b: Process<i64, Bincode> = Process::this(&host);
    let _other: Process<i64, Bincode> =
        Process::<i64, Bincode>::spawn(&mut host, (), |_, _, h: HostState| h);
    let mut seen = std::collections::HashMap::new();
    seen.insert(a, 1);
    seen.insert(b, 2);
    assert_eq!(seen.len(), 1);
}

#[test]
fn handles_compare_by_identifier_and_copy() {
    let mut host = HostState::new();
    let a: Process<i64, Bincode> = Process::this(&host);
    let b = a;
    assert!(a == b);
    assert_eq!(a.id(), 0);
    let child: Process<i64, Bincode> =
        Process::<i64, Bincode>::spawn(&mut host, (), |_, _, h: HostState| h);
    assert!(child != a);
    let mb: Mailbox<i64, Bincode> = Mailbox::new();
    let me = mb.this(&host);
    assert!(me == a);
}

#[test]
fn deserialization_failure_is_surfaced_as_a_result() {
    let mut host = HostState::new();
    // Stage a message whose bytes are not a bincode integer.
    host.message_create_data(0);
    host.outbound.write(&[1, 2, 3]);
    host.message_send(0);
    let mb: Mailbox<i64, Bincode> = Mailbox::new();
    let r = mb.try_receive(&mut host, 10);
    assert!(matches!(r, MailboxResult::DeserializationFailed(_)));
}

#[test]
fn error_descriptions_are_readable() {
    assert_eq!(HperwasmError::PermissionDenied.describe(), "Permission denied");
    assert_eq!(HperwasmError::Error(3).describe(), "host error");
    assert_eq!(HperwasmError::Error(3), HperwasmError::Error(3));
    assert_ne!(HperwasmError::Error(3), HperwasmError::PermissionDenied);
}

#[test]
fn queued_envelopes_keep_their_tags() {
    let mut host = HostState::new();
    enqueue_tagged(&mut host, 0, 200, 1);
    enqueue_tagged(&mut host, 0, 300, 2);
    match &host.processes[0].queue[0] {
        Envelope::Data { tag, .. } => assert_eq!(*tag, 200),
        _ => panic!("expected a data envelope"),
    }
    match &host.processes[0].queue[1] {
        Envelope::Data { tag, .. } => assert_eq!(*tag, 300),
        _ => panic!("expected a data envelope"),
    }
}

#[test]
fn killing_the_parent_notifies_the_linked_child_symmetrically() {
    let mut host = HostState::new();
    let child: Process<i64, Bincode> =
        Process::<i64, Bincode>::spawn_link(&mut host, (), |_, _, mut h: HostState| {
            // The child opts in to observing link failures.
            h.die_when_link_dies(false);
            h
        });
    let parent: Process<i64, Bincode> = Process::this(&host);
    parent.kill(&mut host);
    assert!(!host.processes[0].alive);
    assert!(host.processes[child.id() as usize].alive);
    host.set_current(child.id());
    let mb: Mailbox<i64, Bincode> = Mailbox::new();
    let mb = mb.catch_link_failure(&mut host);
    let r = mb.receive(&mut host);
    match r {
        MailboxResult::LinkDied(t) => assert_eq!(t.id(), 129),
        _ => panic!("expected a link death"),
    }
}
