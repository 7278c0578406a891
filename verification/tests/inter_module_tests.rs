use bitcraft_server::inter_module::{
    add_global_table_update, add_region_table_update, send_inter_module_message, InterModuleAccumulator,
    InterModuleDestination, InterModuleError, Outgoing, OutgoingMessage, PendingWork, SharedTransactionAccumulator,
};

type Acc = SharedTransactionAccumulator<Vec<u32>, &'static str>;

fn recipients(outbox: &[OutgoingMessage<Vec<u32>, &'static str>]) -> Vec<u8> {
    outbox.iter().map(|m| m.to).collect()
}

#[test]
fn new_accumulator_is_inactive() {
    let acc: Acc = SharedTransactionAccumulator::new();
    assert!(matches!(acc.table_updates, InterModuleAccumulator::Inactive));
    assert!(acc.delayed_messages.is_empty());
    assert_eq!(acc.timestamp, 0);
}

#[test]
fn begin_reports_pending_work() {
    let mut acc: Acc = SharedTransactionAccumulator::new();
    let first = acc.begin_shared_transaction(100);
    assert_eq!(first.table_updates, None);
    assert_eq!(first.delayed_messages, None);
    acc.delayed_messages.push(("late", InterModuleDestination::AllOtherRegions));
    let nested = acc.begin_shared_transaction(100);
    assert_eq!(nested.table_updates, Some(PendingWork::NestedSharedReducer));
    assert_eq!(nested.delayed_messages, Some(PendingWork::NestedSharedReducer));
    assert!(acc.delayed_messages.is_empty());
    let abandoned = acc.begin_shared_transaction(200);
    assert_eq!(abandoned.table_updates, Some(PendingWork::Abandoned));
    assert_eq!(abandoned.delayed_messages, None);
    assert_eq!(acc.timestamp, 200);
}

#[test]
fn global_table_updates_are_refused() {
    let result = add_global_table_update(|u: Vec<u32>| u);
    assert_eq!(result, Err(InterModuleError::GlobalModuleSendsToItself));
    assert_eq!(InterModuleError::GlobalModuleSendsToItself.message(), "Global module can't send messages to itself");
}

#[test]
fn region_table_updates_accumulate() {
    let mut acc: Acc = SharedTransactionAccumulator::new();
    acc.begin_shared_transaction(5);
    add_region_table_update(&mut acc, Vec::new(), |mut u: Vec<u32>| {
        u.push(1);
        u
    });
    add_region_table_update(&mut acc, Vec::new(), |mut u: Vec<u32>| {
        u.push(2);
        u
    });
    match &acc.table_updates {
        InterModuleAccumulator::Initialized(u) => assert_eq!(u, &vec![1, 2]),
        _ => panic!("expected collected updates"),
    }
}

#[test]
fn messages_outside_a_transaction_go_out_at_once() {
    let mut acc: Acc = SharedTransactionAccumulator::new();
    let mut outbox = Vec::new();
    send_inter_module_message(&mut acc, "hello", InterModuleDestination::AllOtherRegions, 3, &mut outbox);
    assert_eq!(recipients(&outbox), vec![1, 2, 3]);
    send_inter_module_message(&mut acc, "you", InterModuleDestination::Region(2), 3, &mut outbox);
    assert_eq!(recipients(&outbox), vec![1, 2, 3, 2]);
    assert!(matches!(outbox[3].contents, Outgoing::Message("you")));
}

#[test]
fn messages_inside_a_transaction_wait_for_it() {
    let mut acc: Acc = SharedTransactionAccumulator::new();
    let mut outbox = Vec::new();
    acc.begin_shared_transaction(7);
    send_inter_module_message(&mut acc, "later", InterModuleDestination::Region(3), 3, &mut outbox);
    assert!(outbox.is_empty());
    add_region_table_update(&mut acc, vec![9], |mut u: Vec<u32>| {
        u.push(10);
        u
    });
    acc.send_shared_transaction(2, 3, &mut outbox);
    assert_eq!(recipients(&outbox), vec![1, 3, 3]);
    assert!(matches!(&outbox[0].contents, Outgoing::TableUpdate(u) if u == &vec![9, 10]));
    assert!(matches!(&outbox[1].contents, Outgoing::TableUpdate(u) if u == &vec![9, 10]));
    assert!(matches!(outbox[2].contents, Outgoing::Message("later")));
    assert!(matches!(acc.table_updates, InterModuleAccumulator::Inactive));
    assert!(acc.delayed_messages.is_empty());
    assert_eq!(acc.timestamp, 0);
}

#[test]
fn transaction_without_updates_sends_only_messages() {
    let mut acc: Acc = SharedTransactionAccumulator::new();
    let mut outbox = Vec::new();
    acc.begin_shared_transaction(8);
    send_inter_module_message(&mut acc, "all", InterModuleDestination::AllOtherRegions, 2, &mut outbox);
    acc.send_shared_transaction(1, 2, &mut outbox);
    assert_eq!(recipients(&outbox), vec![1, 2]);
}
