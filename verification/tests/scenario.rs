use gossip::{Body, Message, Node, NodeKind, Payload, Response, Topology};
use serde_json::Value;

fn text(object: &serde_json::Map<String, Value>, key: &str) -> String {
    object[key].as_str().unwrap().to_string()
}

fn number(object: &serde_json::Map<String, Value>, key: &str) -> Option<usize> {
    object.get(key).map(|value| value.as_u64().unwrap() as usize)
}

fn texts(value: &Value) -> Vec<String> {
    value.as_array().unwrap().iter().map(|item| item.as_str().unwrap().to_string()).collect()
}

fn decode(line: &str) -> Message<Body> {
    let value: Value = serde_json::from_str(line).unwrap();
    let body = value["body"].as_object().unwrap();
    let payload = match body["type"].as_str().unwrap() {
        "init" => Body::Init { node_id: text(body, "node_id"), node_ids: texts(&body["node_ids"]) },
        "echo" => Body::Echo { echo: text(body, "echo") },
        "generate" => Body::Generate,
        "broadcast" => Body::Broadcast { message: number(body, "message").unwrap() },
        "read" => Body::Read,
        "topology" => {
            let mut topology = Topology::new();
            for (node, neighbors) in body["topology"].as_object().unwrap() {
                topology.insert(node.clone(), texts(neighbors));
            }
            Body::Topology { topology }
        }
        other => panic!("no request: {}", other),
    };
    Message {
        src: value["src"].as_str().unwrap().to_string(),
        dest: value["dest"].as_str().unwrap().to_string(),
        body: Payload {
            msg_id: number(body, "msg_id"),
            in_reply_to: number(body, "in_reply_to"),
            payload,
        },
    }
}

fn encode(message: &Message<Body>) -> Value {
    let mut body = serde_json::Map::new();
    let tag = match &message.body.payload {
        Body::InitOk => "init_ok",
        Body::EchoOk { echo } => {
            body.insert("echo".to_string(), Value::from(echo.clone()));
            "echo_ok"
        }
        Body::GenerateOk { id } => {
            body.insert("id".to_string(), Value::from(id.clone()));
            "generate_ok"
        }
        Body::BroadcastOk => "broadcast_ok",
        Body::ReadOk { messages } => {
            body.insert("messages".to_string(), Value::from(messages.clone()));
            "read_ok"
        }
        Body::TopologyOk => "topology_ok",
        other => panic!("no reply: {:?}", other),
    };
    body.insert("type".to_string(), Value::from(tag));
    if let Some(id) = message.body.msg_id {
        body.insert("msg_id".to_string(), Value::from(id));
    }
    if let Some(id) = message.body.in_reply_to {
        body.insert("in_reply_to".to_string(), Value::from(id));
    }
    let mut object = serde_json::Map::new();
    object.insert("src".to_string(), Value::from(message.src.clone()));
    object.insert("dest".to_string(), Value::from(message.dest.clone()));
    object.insert("body".to_string(), Value::Object(body));
    Value::Object(object)
}

fn answer(node: &mut Node, line: &str) -> Value {
    encode(&node.handle(&decode(line)).unwrap().unwrap())
}

fn parsed(line: &str) -> Value {
    serde_json::from_str(line).unwrap()
}

#[test]
fn scenario_init_broadcast_read() {
    let mut node = Node::new(NodeKind::Broadcast);
    assert_eq!(
        answer(
            &mut node,
            r#"{"src":"c1","dest":"n1","body":{"type":"init","msg_id":1,"node_id":"n1","node_ids":["n1"]}}"#
        ),
        parsed(r#"{"src":"n1","dest":"c1","body":{"type":"init_ok","in_reply_to":1}}"#)
    );
    assert_eq!(
        answer(
            &mut node,
            r#"{"src":"c1","dest":"n1","body":{"type":"broadcast","msg_id":2,"message":1000}}"#
        ),
        parsed(r#"{"src":"n1","dest":"c1","body":{"type":"broadcast_ok","in_reply_to":2}}"#)
    );
    assert_eq!(
        answer(&mut node, r#"{"src":"c1","dest":"n1","body":{"type":"read","msg_id":3}}"#),
        parsed(
            r#"{"src":"n1","dest":"c1","body":{"type":"read_ok","in_reply_to":3,"messages":[1000]}}"#
        )
    );
}

#[test]
fn scenario_topology_replaced() {
    let mut node = Node::new(NodeKind::Broadcast);
    assert_eq!(
        answer(
            &mut node,
            r#"{"src":"c1","dest":"n1","body":{"type":"topology","msg_id":1,"topology":{"a":["b"]}}}"#
        ),
        parsed(r#"{"src":"n1","dest":"c1","body":{"type":"topology_ok","in_reply_to":1}}"#)
    );
    assert_eq!(
        answer(
            &mut node,
            r#"{"src":"c1","dest":"n1","body":{"type":"topology","msg_id":2,"topology":{"a":["c"]}}}"#
        ),
        parsed(r#"{"src":"n1","dest":"c1","body":{"type":"topology_ok","in_reply_to":2}}"#)
    );
    assert_eq!(node.topology().get(&"a".to_string()), Some(&vec!["c".to_string()]));
    assert_eq!(node.topology().nodes(), vec!["a".to_string()]);
}

#[test]
fn scenario_echo_and_generate() {
    let mut node = Node::new(NodeKind::Combined);
    answer(
        &mut node,
        r#"{"src":"c1","dest":"n3","body":{"type":"init","msg_id":1,"node_id":"n3","node_ids":["n1","n2","n3"]}}"#,
    );
    assert_eq!(
        answer(
            &mut node,
            r#"{"src":"c1","dest":"n3","body":{"type":"echo","msg_id":2,"echo":"Please echo 35"}}"#
        ),
        parsed(
            r#"{"src":"n3","dest":"c1","body":{"type":"echo_ok","msg_id":3,"in_reply_to":2,"echo":"Please echo 35"}}"#
        )
    );
    assert_eq!(
        answer(&mut node, r#"{"src":"c1","dest":"n3","body":{"type":"generate","msg_id":3}}"#),
        parsed(
            r#"{"src":"n3","dest":"c1","body":{"type":"generate_ok","msg_id":4,"in_reply_to":3,"id":"n3-1"}}"#
        )
    );
}
