//! Frames, the client's side of the protocol, and the MCP bridge.

use ate::client::api::{ClientError, WslClientConfig};
use ate::client::connection::{check_hello, hello, Delivery, WslClient};
use ate::json::{Json, JsonNumber};
use ate::mcp::{
    err, ok, to_mcp_tool, tools_call, tools_list, McpSession, McpStep, RpcMessage, INTERNAL_ERROR,
    MCP_PROTOCOL_VERSION, SERVER_VERSION,
};
use ate::protocol::framing::{encode_frame, FrameError, FrameReader, DEFAULT_MAX_FRAME_SIZE};
use ate::protocol::message::{ClientMessage, ProtocolFailure, ServerMessage, PROTOCOL_VERSION};
use ate::protocol::model::{ExecutionRequest, ExecutionResult, ToolDescriptor};

fn request(id: &str) -> ExecutionRequest {
    ExecutionRequest {
        id: id.to_string(),
        tool: "shell".to_string(),
        arguments: Json::object(vec![]),
    }
}

fn result(id: &str, content: Json) -> ExecutionResult {
    ExecutionResult {
        execution_id: id.to_string(),
        tool: "shell".to_string(),
        content,
        is_error: false,
    }
}

fn descriptor(name: &str) -> ToolDescriptor {
    ToolDescriptor {
        name: name.to_string(),
        description: "d".to_string(),
        input_schema: Json::object(vec![]),
    }
}

#[test]
fn messages_round_trip_through_length_delimited_json() {
    let payload =
        b"{\"type\":\"hello\",\"protocol_version\":2,\"token\":\"test-token\",\"workspace\":\"/home/test/project\"}"
            .to_vec();
    let frame = encode_frame(&payload).unwrap();
    assert_eq!(&frame[..4], &(payload.len() as u32).to_be_bytes());
    let mut reader = FrameReader::new();
    reader.feed(&frame);
    assert_eq!(reader.next(DEFAULT_MAX_FRAME_SIZE), Ok(Some(payload)));
    assert_eq!(reader.next(DEFAULT_MAX_FRAME_SIZE), Ok(None));
    assert_eq!(reader.finish(), Ok(()));
}

#[test]
fn frames_do_not_depend_on_how_they_arrive() {
    let first = encode_frame(&vec![1, 2, 3]).unwrap();
    let second = encode_frame(&vec![]).unwrap();
    assert_eq!(first, [0, 0, 0, 3, 1, 2, 3]);
    assert_eq!(second, [0, 0, 0, 0]);
    let mut bytes = first;
    bytes.extend(second);
    let mut reader = FrameReader::new();
    let mut payloads = vec![];
    for byte in bytes {
        reader.feed(&[byte]);
        while let Some(payload) = reader.next(100).unwrap() {
            payloads.push(payload);
        }
    }
    assert_eq!(payloads, [vec![1, 2, 3], vec![]]);
    assert_eq!(reader.finish(), Ok(()));
}

#[test]
fn oversized_and_cut_frames_are_errors() {
    let mut reader = FrameReader::new();
    reader.feed(&[0, 0, 0, 5, 1]);
    assert_eq!(
        reader.next(4),
        Err(FrameError::TooLarge {
            actual: 5,
            maximum: 4,
        })
    );
    assert_eq!(reader.next(5), Ok(None));
    assert_eq!(
        reader.finish(),
        Err(FrameError::Io("unexpected end of file".to_string()))
    );
    let mut header = FrameReader::new();
    header.feed(&[0, 0]);
    assert!(header.finish().is_err());
    assert_eq!(
        FrameError::Io("x".to_string()).describe(),
        "transport I/O failed: x"
    );
    assert_eq!(
        FrameError::TooLarge {
            actual: 5,
            maximum: 4,
        }
        .describe(),
        "frame length 5 exceeds maximum 4"
    );
    assert_eq!(
        FrameError::Serialization("x".to_string()).describe(),
        "message serialization failed: x"
    );
    assert_eq!(DEFAULT_MAX_FRAME_SIZE, 8 * 1024 * 1024);
}

#[test]
fn the_client_is_configured_for_wsl() {
    let config = WslClientConfig::new("Ubuntu", "/opt/ate-daemon", "/home/me/work");
    assert_eq!(
        config.bootstrap_args(),
        [
            "--distribution",
            "Ubuntu",
            "--exec",
            "/opt/ate-daemon",
            "ensure-running",
        ]
    );
    assert_eq!(config.workspace, "/home/me/work");
    assert_eq!(
        hello("t", "/w"),
        ClientMessage::Hello {
            protocol_version: PROTOCOL_VERSION,
            token: "t".to_string(),
            workspace: "/w".to_string(),
        }
    );
}

#[test]
fn the_greeting_of_the_guest_is_checked() {
    let ack = |version: u32| {
        Some(ServerMessage::HelloAck {
            protocol_version: version,
            workspace: "/w".to_string(),
        })
    };
    assert_eq!(check_hello(ack(PROTOCOL_VERSION), ""), Ok(()));
    assert_eq!(
        check_hello(ack(1), "shown"),
        Err(ClientError::Handshake(
            "unexpected guest response: shown".to_string()
        ))
    );
    assert_eq!(
        check_hello(None, "None"),
        Err(ClientError::Handshake(
            "unexpected guest response: None".to_string()
        ))
    );
    let refused = check_hello(
        Some(ServerMessage::Failed {
            execution_id: None,
            error: ProtocolFailure::new("invalid_workspace", "outside"),
        }),
        "",
    )
    .unwrap_err();
    assert_eq!(
        refused.describe(),
        "guest rejected the request (invalid_workspace): outside"
    );
}

#[test]
fn client_errors_are_described() {
    for (error, sentence) in [
        (
            ClientError::UnsupportedPlatform,
            "this client is only available on Windows",
        ),
        (
            ClientError::Spawn("x".to_string()),
            "failed to start WSL executor: x",
        ),
        (
            ClientError::InvalidWorkspace("x".to_string()),
            "invalid WSL workspace: x",
        ),
        (
            ClientError::Handshake("x".to_string()),
            "protocol handshake failed: x",
        ),
        (ClientError::Disconnected, "transport disconnected"),
        (
            ClientError::DuplicateExecutionId("x".to_string()),
            "execution id `x` is already pending",
        ),
    ] {
        assert_eq!(error.describe(), sentence);
    }
}

#[test]
fn answers_reach_those_who_wait() {
    let mut client: WslClient<u8, u8, u8> = WslClient::new();
    let sent = client.execute(request("a"), Some(1_999_999), 1).unwrap();
    assert_eq!(
        sent,
        ClientMessage::Execute {
            request: request("a"),
            timeout_ms: Some(1),
        }
    );
    client.execute(request("b"), None, 2).unwrap();
    assert_eq!(
        client.execute(request("a"), None, 3),
        Err(ClientError::DuplicateExecutionId("a".to_string()))
    );

    assert_eq!(
        client.receive(ServerMessage::Accepted {
            execution_id: "a".to_string(),
        }),
        Delivery::Nobody
    );
    assert_eq!(
        client.receive(ServerMessage::Completed {
            result: result("a", Json::Null),
        }),
        Delivery::Execution {
            waiting: 1,
            outcome: Ok(result("a", Json::Null)),
        }
    );
    assert_eq!(
        client.receive(ServerMessage::Failed {
            execution_id: Some("b".to_string()),
            error: ProtocolFailure::new("c", "m"),
        }),
        Delivery::Execution {
            waiting: 2,
            outcome: Err(ClientError::Remote {
                code: "c".to_string(),
                message: "m".to_string(),
            }),
        }
    );
    assert_eq!(
        client.receive(ServerMessage::Completed {
            result: result("a", Json::Null),
        }),
        Delivery::Nobody
    );
}

#[test]
fn cancellations_and_listings_are_acknowledged() {
    let mut client: WslClient<u8, u8, u8> = WslClient::new();
    assert_eq!(
        client.cancel("a", 1),
        (
            ClientMessage::Cancel {
                execution_id: "a".to_string(),
            },
            None
        )
    );
    assert_eq!(client.cancel("a", 2).1, Some(1));
    assert_eq!(
        client.receive(ServerMessage::CancelAcknowledged {
            execution_id: "a".to_string(),
            found: true,
        }),
        Delivery::Cancellation {
            waiting: 2,
            found: true,
        }
    );
    let ClientMessage::ListTools { request_id: first } = client.list_tools(3) else {
        panic!("no listing");
    };
    let ClientMessage::ListTools { request_id: second } = client.list_tools(4) else {
        panic!("no listing");
    };
    assert_ne!(first, second);
    assert!(first.starts_with("tools-"));
    assert_eq!(
        client.receive(ServerMessage::Tools {
            request_id: second.clone(),
            tools: vec![descriptor("x")],
        }),
        Delivery::Listing {
            waiting: 4,
            tools: vec![descriptor("x")],
        }
    );
    client.execute(request("e"), None, 5).unwrap();
    client.cancel("e", 6);
    assert_eq!(client.unsent_listing(&first), Some(3));
    assert_eq!(client.unsent_listing(&first), None);
    assert_eq!(client.unsent_execution("e"), Some(5));
    assert_eq!(client.unsent_cancellation("e"), Some(6));
    client.execute(request("e"), None, 7).unwrap();
    client.list_tools(8);
    let (executions, cancellations, listings) = client.disconnected();
    assert_eq!(executions, [("e".to_string(), 7)]);
    assert!(cancellations.is_empty());
    assert_eq!(listings.len(), 1);
    assert_eq!(client.disconnected().0.len(), 0);
}

fn rpc(id: Option<u64>, method: &str, params: Json) -> RpcMessage {
    RpcMessage {
        id: id.map(Json::unsigned),
        method: method.to_string(),
        params,
    }
}

#[test]
fn an_mcp_session_answers_requests() {
    let mut session = McpSession::new();
    let McpStep::Respond(welcome) = session.handle(rpc(Some(1), "initialize", Json::Null)) else {
        panic!("not initialized");
    };
    assert_eq!(welcome.id, Json::unsigned(1));
    let welcome = welcome.result.unwrap();
    assert_eq!(welcome.get_str("protocolVersion"), Some(MCP_PROTOCOL_VERSION));
    assert_eq!(
        welcome.get("serverInfo").unwrap().get_str("version"),
        Some(SERVER_VERSION)
    );
    assert_eq!(
        session.handle(rpc(Some(2), "ping", Json::Null)),
        McpStep::Respond(ok(Json::unsigned(2), Json::object(vec![])))
    );
    assert_eq!(
        session.handle(rpc(None, "notifications/initialized", Json::Null)),
        McpStep::Silent
    );
    assert_eq!(
        session.handle(rpc(None, "ping", Json::Null)),
        McpStep::Silent
    );
    assert_eq!(
        session.handle(rpc(Some(3), "tools/list", Json::Null)),
        McpStep::List {
            id: Json::unsigned(3),
        }
    );
    assert_eq!(
        session.handle(rpc(Some(4), "nope", Json::Null)),
        McpStep::Respond(err(
            Json::unsigned(4),
            INTERNAL_ERROR,
            "method not found: nope"
        ))
    );
    assert_eq!(
        session.handle(rpc(Some(5), "tools/call", Json::Null)),
        McpStep::Respond(err(
            Json::unsigned(5),
            INTERNAL_ERROR,
            "tools/call requires a `name`"
        ))
    );
}

#[test]
fn mcp_calls_are_numbered() {
    let mut session = McpSession::new();
    let mut ids = vec![];
    for _ in 0..2 {
        let params = Json::object(vec![("name".to_string(), Json::text("Read"))]);
        let McpStep::Call { id, request } = session.handle(rpc(Some(9), "tools/call", params))
        else {
            panic!("no call");
        };
        assert_eq!(id, Json::unsigned(9));
        assert_eq!(request.tool, "Read");
        assert_eq!(request.arguments, Json::object(vec![]));
        ids.push(request.id);
    }
    assert_ne!(ids[0], ids[1]);
    assert!(ids[0].starts_with("mcp-"));
}

fn text_of(response: &ate::mcp::RpcResponse) -> String {
    let result = response.result.as_ref().unwrap();
    let Some(Json::Array(items)) = result.get("content") else {
        panic!("no content");
    };
    items[0].get_str("text").unwrap().to_string()
}

#[test]
fn mcp_results_are_texts() {
    let direct = tools_call(Json::unsigned(1), Ok(result("a", Json::text("plain"))));
    assert_eq!(text_of(&direct), "plain");
    let content = Json::object(vec![
        ("n".to_string(), Json::Number(JsonNumber::Negative(-2))),
        ("q".to_string(), Json::text("a\"b")),
        ("z".to_string(), Json::array(vec![Json::Null, Json::Bool(true)])),
    ]);
    let written = tools_call(Json::unsigned(1), Ok(result("a", content)));
    assert_eq!(text_of(&written), "{\"n\":-2,\"q\":\"a\\\"b\",\"z\":[null,true]}");
    assert_eq!(
        written.result.as_ref().unwrap().get("isError"),
        Some(&Json::Bool(false))
    );
    let read = ExecutionResult {
        execution_id: "r".to_string(),
        tool: "Read".to_string(),
        content: Json::object(vec![
            ("path".to_string(), Json::text("/w/f.txt")),
            ("content".to_string(), Json::text("1: one")),
        ]),
        is_error: false,
    };
    assert_eq!(text_of(&tools_call(Json::unsigned(1), Ok(read))), "1: one");
    let lost = tools_call(Json::unsigned(1), Err(ClientError::Disconnected));
    assert!(format!("{lost:?}").contains("transport disconnected"));
}

#[test]
fn mcp_tools_are_listed() {
    let listed = tools_list(Json::unsigned(1), Ok(vec![descriptor("x"), descriptor("y")]));
    let Some(Json::Array(tools)) = listed.result.as_ref().unwrap().get("tools") else {
        panic!("no tools");
    };
    assert_eq!(tools[0], to_mcp_tool(&descriptor("x")));
    assert_eq!(tools[1].get_str("name"), Some("y"));
    assert!(tools[0].get("inputSchema").is_some());
    let failed = tools_list(Json::unsigned(1), Err(ClientError::Disconnected));
    assert_eq!(
        failed,
        err(Json::unsigned(1), INTERNAL_ERROR, "transport disconnected")
    );
}
