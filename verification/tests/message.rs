use reactive_core::frp::message::EventMessage;

#[test]
fn event_message_value_is_payload() {
    let m = EventMessage(5i32);
    assert_eq!(m.value(), 5);
}
