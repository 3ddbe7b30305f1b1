use lib::qmp::{
    classify_qmp_reply, qmp_capabilities_error, qmp_command_text, qmp_frame, qmp_greeting_error,
    qmp_no_response, QmpReply,
};

#[test]
fn commands_are_one_json_object() {
    assert_eq!(qmp_command_text("stop", None), "{\"execute\":\"stop\"}");
    assert_eq!(
        qmp_command_text("set_link", Some("{\"name\":\"net0\",\"up\":false}")),
        "{\"execute\":\"set_link\",\"arguments\":{\"name\":\"net0\",\"up\":false}}"
    );
    assert_eq!(qmp_command_text("a\"b", None), "{\"execute\":\"a\\\"b\"}");
}

#[test]
fn received_lines_must_be_one_object() {
    assert_eq!(qmp_frame(None), Err("QMP EOF".to_string()));
    assert_eq!(qmp_frame(Some("  \n")), Err("empty QMP line".to_string()));
    assert_eq!(qmp_frame(Some("hello\n")), Err("invalid QMP json frame: hello".to_string()));
    assert_eq!(qmp_frame(Some(" {\"return\":{}}\r\n")), Ok("{\"return\":{}}".to_string()));
}

#[test]
fn replies_are_told_apart() {
    assert_eq!(classify_qmp_reply("stop", "{\"return\":{}}"), QmpReply::Returned);
    assert_eq!(
        classify_qmp_reply("stop", "{\"error\":{\"class\":\"GenericError\"}}"),
        QmpReply::Failed("QMP error for stop: {\"error\":{\"class\":\"GenericError\"}}".to_string())
    );
    assert_eq!(classify_qmp_reply("stop", "{\"event\":\"STOP\"}"), QmpReply::Other);
    assert_eq!(qmp_no_response("cont"), "QMP did not respond for cont");
    assert_eq!(qmp_greeting_error("QMP EOF"), "read QMP greeting: QMP EOF");
    assert_eq!(qmp_capabilities_error("x"), "qmp_capabilities: x");
}
