use aether_core::Runtime;

#[test]
fn test_python_command() {
    let runtime = Runtime::Python3;
    let (prog, args) = runtime.build_command("app.py");
    assert_eq!(prog, "python3");
    assert_eq!(args, vec!["-u", "app.py"]);
}

#[test]
fn test_nodejs_command() {
    let runtime = Runtime::NodeJS;
    let (prog, args) = runtime.build_command("index.js");
    assert_eq!(prog, "node");
    assert_eq!(args, vec!["index.js"]);
}

#[test]
fn test_native_command() {
    let runtime = Runtime::Native;
    let (prog, args) = runtime.build_command("./binary");
    assert_eq!(prog, "./binary");
    assert!(args.is_empty());
}

#[test]
fn test_remote_api_command() {
    let runtime = Runtime::RemoteApi {
        endpoint: "http://localhost".to_string(),
        method: "POST".to_string(),
    };
    let (prog, _args) = runtime.build_command("");
    assert_eq!(prog, "network_call");
}

#[test]
fn remote_api_command_has_no_arguments() {
    let runtime = Runtime::RemoteApi {
        endpoint: "http://localhost".to_string(),
        method: "POST".to_string(),
    };
    let (prog, args) = runtime.build_command("agent.py");
    assert_eq!(prog, "network_call");
    assert!(args.is_empty());
}
