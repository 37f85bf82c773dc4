use aio_idea::outside::UrlParts;
use aio_idea::runtime::server::process::{
    accept_instance, accept_response, check_endpoint, ensure_response_size, health, load_pages,
    parse_address, process_url, request, response_text, take_chars, validate_endpoint, EndpointFault, ProcessInstance,
    ProcessResponse, ProcessUrlFault, SupervisorRequest,
};

#[test]
fn accepts_only_private_fixed_port_endpoints() {
    validate_endpoint("http://172.29.0.2:8080").expect("a private endpoint");
    assert!(validate_endpoint("https://172.29.0.2:8080").is_err());
    assert!(validate_endpoint("http://127.0.0.1:8080").is_err());
    assert!(validate_endpoint("http://172.29.0.2:80").is_err());
    assert!(validate_endpoint("http://example.com:8080").is_err());
}

#[test]
fn preserves_only_explicit_proxy_path_and_query() {
    let url = process_url("http://172.29.0.2:8080", "/echo", Some("value=1")).expect("a URL");
    assert_eq!(url, "http://172.29.0.2:8080/echo?value=1");
    assert!(process_url("http://172.29.0.2:8080", "//other", None).is_err());
}

fn parts(host: Option<&str>) -> Result<UrlParts, String> {
    Ok(UrlParts {
        scheme: "http".to_owned(),
        username: String::new(),
        password: None,
        host: host.map(str::to_owned),
        port: Some(8080),
        path: "/".to_owned(),
        query: None,
        fragment: None,
    })
}

#[test]
fn every_endpoint_fault_has_its_input() {
    assert_eq!(validate_endpoint("::").unwrap_err(), EndpointFault::Unparsable("relative URL without a base".to_owned()));
    assert_eq!(validate_endpoint("http://10.0.0.1:8080/x").unwrap_err(), EndpointFault::OutOfBounds);
    assert_eq!(
        validate_endpoint("http://u@10.0.0.1:8080").unwrap_err(),
        EndpointFault::OutOfBounds
    );
    assert_eq!(
        validate_endpoint("http://example.com:8080").unwrap_err(),
        EndpointFault::NotAnAddress
    );
    assert_eq!(validate_endpoint("http://8.8.8.8:8080").unwrap_err(), EndpointFault::NotPrivate);
    assert_eq!(check_endpoint(parts(None)).unwrap_err(), EndpointFault::HostMissing);
    assert_eq!(check_endpoint(Err("told".to_owned())).unwrap_err(), EndpointFault::Unparsable("told".to_owned()));
    assert!(check_endpoint(parts(Some("192.168.7.9"))).is_ok());
    assert_eq!(
        process_url("http://10.0.0.1:8080", "echo", None).unwrap_err(),
        ProcessUrlFault::InvalidPath
    );
    assert_eq!(
        process_url("http://8.8.8.8:8080", "/echo", None).unwrap_err(),
        ProcessUrlFault::Endpoint(EndpointFault::NotPrivate)
    );
}

#[test]
fn private_networks_have_exact_bounds() {
    for host in ["10.0.0.0", "10.255.255.255", "172.16.0.0", "172.31.255.255", "192.168.0.1"] {
        assert!(check_endpoint(parts(Some(host))).is_ok(), "{host}");
    }
    for host in ["9.255.255.255", "11.0.0.0", "172.15.0.1", "172.32.0.1", "192.167.0.1"] {
        assert_eq!(check_endpoint(parts(Some(host))).unwrap_err(), EndpointFault::NotPrivate);
    }
}

#[test]
fn addresses_are_four_plain_octets() {
    assert_eq!(parse_address("172.29.0.255"), Some((172, 29, 0, 255)));
    for host in ["1.2.3", "1.2.3.4.5", "01.2.3.4", "256.0.0.1", "1.2.3.", "a.b.c.d", ""] {
        assert_eq!(parse_address(host), None, "{host}");
    }
}

#[test]
fn instances_are_accepted_with_their_endpoints() {
    let instance = |endpoint: &str| ProcessInstance {
        instance_id: "i".to_owned(),
        endpoint: endpoint.to_owned(),
        created: true,
    };
    assert_eq!(
        accept_instance(instance("http://10.1.2.3:8080")).expect("an instance").instance_id,
        "i"
    );
    assert!(accept_instance(instance("http://1.1.1.1:8080")).is_err());
}

#[test]
fn answers_keep_to_their_quota() {
    assert!(ensure_response_size(None).is_ok());
    assert!(ensure_response_size(Some(4194304)).is_ok());
    assert_eq!(
        ensure_response_size(Some(4194305)).unwrap_err(),
        "process 插件响应超过 4 MiB 配额"
    );
    assert!(load_pages(true, Some(4194304)).is_ok());
    assert!(load_pages(true, Some(4194305)).is_err());
    assert_eq!(load_pages(false, None).unwrap_err(), "process 插件页面定义返回失败状态");
    assert!(health(true).is_ok());
    assert_eq!(health(false).unwrap_err(), "process 插件监督器未就绪");
    let answer =
        |length: usize| ProcessResponse { status: 200, content_type: None, body: vec![0; length] };
    assert!(accept_response(answer(4194304)).is_ok());
    assert!(accept_response(answer(4194305)).is_err());
}

#[test]
fn failures_are_told_briefly() {
    assert_eq!(take_chars("字符串", 2), "字符");
    assert_eq!(take_chars("ab", 5), "ab");
    let told = response_text("500 Internal Server Error", &"x".repeat(5000));
    assert_eq!(told, format!("HTTP 500 Internal Server Error: {}", "x".repeat(4096)));
    assert!(SupervisorRequest::Start.outcome(true, "200", "").is_ok());
    assert_eq!(
        SupervisorRequest::Start.outcome(false, "400", "b").unwrap_err(),
        "启动 process 插件失败: HTTP 400: b"
    );
    assert_eq!(
        SupervisorRequest::Stop.outcome(false, "400", "b").unwrap_err(),
        "停止 process 插件失败: HTTP 400: b"
    );
    assert_eq!(
        SupervisorRequest::Reconcile.outcome(false, "400", "b").unwrap_err(),
        "清理孤立 process 插件失败: HTTP 400: b"
    );
}

#[test]
fn processes_are_told_for_whom_they_work() {
    let headers = request("tenant", "user", Some("application/json"));
    let pairs: Vec<(&str, &str)> =
        headers.iter().map(|header| (header.name.as_str(), header.value.as_str())).collect();
    assert_eq!(
        pairs,
        [
            ("x-aio-tenant-id", "tenant"),
            ("x-aio-user-id", "user"),
            ("content-type", "application/json")
        ]
    );
    assert_eq!(request("tenant", "user", None).len(), 2);
}
