use ai_native_engine::camera::{fly_axes, next_camera_mode, orbit_drag_zooms, orbit_turns, CameraButtons, CameraMode, FlyKeys, MoveAxes};
use ai_native_engine::commands::{
    attacker_without_health_message, color_from_lowercase, cube_color, no_health_message, not_found_message,
    parse_command, unknown_command_message, CubeColor, EngineCommand, SCREENSHOT_PENDING,
};
use ai_native_engine::message_log::{MessageLog, MCP_LOG_CAPACITY, SYSTEM_LOG_CAPACITY};
use ai_native_engine::protocol::{
    error_reply, find_tool, method_not_found_message, RpcFailure, RECEIVE_FAILED_MESSAGE, SEND_FAILED_MESSAGE, parse_error_message, route_method, tool_catalog, unknown_tool_message,
    ArgKind, RpcRoute, INTERNAL_ERROR, INVALID_PARAMS, METHOD_NOT_FOUND, PARSE_ERROR,
};

#[test]
fn routes() {
    assert_eq!(route_method("initialize"), RpcRoute::Initialize);
    assert_eq!(route_method("tools/list"), RpcRoute::ListTools);
    assert_eq!(route_method("tools/call"), RpcRoute::CallTool);
    assert_eq!(route_method("tools/delete"), RpcRoute::Unknown);
    assert_eq!(method_not_found_message("ping"), "Method not found: ping");
    assert_eq!(unknown_tool_message("fly"), "Unknown tool: fly");
    assert_eq!(parse_error_message("EOF"), "Parse error: EOF");
    assert_eq!((PARSE_ERROR, METHOD_NOT_FOUND, INVALID_PARAMS, INTERNAL_ERROR), (-32700, -32601, -32602, -32603));
}

#[test]
fn catalog_lists_ten_tools() {
    let tools = tool_catalog();
    assert_eq!(tools.len(), 10);
    let names: Vec<&str> = tools.iter().map(|t| t.name).collect();
    assert_eq!(
        names,
        vec![
            "create_entity", "delete_entity", "set_transform", "rotate_entity", "scale_entity", "create_cube",
            "create_light", "create_camera", "list_entities", "screenshot"
        ]
    );
    for t in &tools {
        let found = find_tool(t.name).expect("every listed tool can be called");
        assert_eq!(found.name, t.name);
        assert_eq!(found.description, t.description);
    }
    assert!(find_tool("teleport").is_none());
}

#[test]
fn tool_arguments_and_defaults() {
    let light = find_tool("create_light").unwrap();
    let keys: Vec<&str> = light.args.iter().map(|a| a.key).collect();
    assert_eq!(keys, vec!["name", "x", "y", "z", "intensity"]);
    match light.args[4].kind {
        ArgKind::Number(d) => assert_eq!(d, 1_000_000),
        ArgKind::Text(_) => panic!("intensity is a number"),
    }
    let scale = find_tool("scale_entity").unwrap();
    match scale.args[1].kind {
        ArgKind::Number(d) => assert_eq!(d, 1),
        ArgKind::Text(_) => panic!("x is a number"),
    }
    let cube = find_tool("create_cube").unwrap();
    match cube.args[4].kind {
        ArgKind::Text(d) => assert_eq!(d, "gray"),
        ArgKind::Number(_) => panic!("color is text"),
    }
    assert!(find_tool("screenshot").unwrap().args.is_empty());
}

#[test]
fn commands_and_messages() {
    assert_eq!(parse_command("create_entity"), EngineCommand::CreateEntity);
    assert_eq!(parse_command("attack"), EngineCommand::Attack);
    assert_eq!(parse_command("heal"), EngineCommand::Heal);
    assert_eq!(parse_command("get_health"), EngineCommand::GetHealth);
    assert_eq!(parse_command("screenshot"), EngineCommand::Screenshot);
    assert_eq!(parse_command("Attack"), EngineCommand::Unknown);
    assert_eq!(unknown_command_message("jump"), "Unknown command: jump");
    assert_eq!(not_found_message("x"), "Entity 'x' not found");
    assert_eq!(no_health_message("x"), "Entity 'x' has no Health component");
    assert_eq!(attacker_without_health_message("x"), "Attacker 'x' has no Health component");
    assert!(SCREENSHOT_PENDING.starts_with("Screenshot functionality is not yet implemented"));
}

#[test]
fn cube_colors_ignore_case() {
    assert_eq!(cube_color("RED"), CubeColor::Red);
    assert_eq!(cube_color("Yellow"), CubeColor::Yellow);
    assert_eq!(cube_color("white"), CubeColor::White);
    assert_eq!(cube_color("purple"), CubeColor::Gray);
    assert_eq!(color_from_lowercase("GREEN"), CubeColor::Gray);
    assert_eq!(color_from_lowercase("blue"), CubeColor::Blue);
}

#[test]
fn log_drops_oldest_when_full() {
    let mut log: MessageLog<u32> = MessageLog::new(3);
    for m in 1..=5 {
        log.push(m);
    }
    assert_eq!(log.len(), 3);
    assert_eq!(log.messages().iter().copied().collect::<Vec<u32>>(), vec![3, 4, 5]);
    assert_eq!(log.max_messages(), 3);
    let mut tiny: MessageLog<u32> = MessageLog::new(0);
    tiny.push(1);
    tiny.push(2);
    assert_eq!(tiny.messages().iter().copied().collect::<Vec<u32>>(), vec![2]);
    assert_eq!((MCP_LOG_CAPACITY, SYSTEM_LOG_CAPACITY), (100, 200));
}

fn buttons(right: bool, middle: bool, left: bool, alt: bool, ctrl: bool) -> CameraButtons {
    CameraButtons { right, middle, left, alt, ctrl, shift: false }
}

#[test]
fn camera_modes() {
    assert_eq!(next_camera_mode(CameraMode::Pan, false, buttons(true, false, false, false, false)), (CameraMode::Fly, true));
    assert_eq!(next_camera_mode(CameraMode::Fly, true, buttons(true, false, false, true, false)), (CameraMode::Orbit, false));
    assert_eq!(next_camera_mode(CameraMode::Orbit, false, buttons(false, true, false, false, false)), (CameraMode::Pan, false));
    assert_eq!(next_camera_mode(CameraMode::Fly, true, buttons(false, false, false, false, false)), (CameraMode::Orbit, false));
    assert!(orbit_turns(buttons(false, false, true, true, false)));
    assert!(!orbit_turns(buttons(false, false, true, false, false)));
    assert!(orbit_drag_zooms(buttons(true, false, false, false, true)));
}

#[test]
fn fly_directions() {
    let keys = FlyKeys { w: true, s: false, a: true, d: false, e: false, space: true, q: false };
    assert_eq!(fly_axes(keys), MoveAxes { forward: 1, right: -1, up: 1 });
    let all = FlyKeys { w: true, s: true, a: true, d: true, e: true, space: true, q: true };
    assert_eq!(fly_axes(all), MoveAxes { forward: 0, right: 0, up: 0 });
}

#[test]
fn error_replies() {
    let r = error_reply(RpcFailure::UnknownMethod, "ping");
    assert_eq!((r.code, r.message.as_str()), (-32601, "Method not found: ping"));
    let r = error_reply(RpcFailure::UnknownTool, "fly");
    assert_eq!((r.code, r.message.as_str()), (-32602, "Unknown tool: fly"));
    let r = error_reply(RpcFailure::Unparsable, "EOF");
    assert_eq!((r.code, r.message.as_str()), (-32700, "Parse error: EOF"));
    let r = error_reply(RpcFailure::SendFailed, "");
    assert_eq!((r.code, r.message.as_str()), (-32603, SEND_FAILED_MESSAGE));
    let r = error_reply(RpcFailure::ReceiveFailed, "");
    assert_eq!((r.code, r.message.as_str()), (-32603, RECEIVE_FAILED_MESSAGE));
}
