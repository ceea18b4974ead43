use dlna::soap::{fault, fault_for, parse_soap_action, unknown_message, SoapCall};

const NS: &str = "urn:schemas-upnp-org:service:ContentDirectory:1#";

fn fault_string(header: Option<&str>) -> Option<String> {
    fault_for(&parse_soap_action(header)).map(|f| {
        assert_eq!(f.faultcode, "SOAP-ENV:Client");
        f.faultstring
    })
}

#[test]
fn browse_is_recognised() {
    let quoted = format!("\"{}Browse\"", NS);
    let bare = format!("{}Browse", NS);
    let many = format!("\"\"\"{}Browse\"\"", NS);
    assert!(matches!(parse_soap_action(Some(&quoted)), SoapCall::Browse));
    assert!(matches!(parse_soap_action(Some(&bare)), SoapCall::Browse));
    assert!(matches!(parse_soap_action(Some(&many)), SoapCall::Browse));
    assert_eq!(fault_string(Some(&quoted)), None);
}

#[test]
fn unknown_action_is_named_in_the_fault() {
    let header = format!("\"{}Search\"", NS);
    match parse_soap_action(Some(&header)) {
        SoapCall::UnknownAction(name) => assert_eq!(name, "Search"),
        _ => panic!("not served"),
    }
    assert_eq!(fault_string(Some(&header)), Some("Unknown action \"Search\"".to_string()));
    let header = format!("{}GetSystemUpdateID", NS);
    assert_eq!(
        fault_string(Some(&header)),
        Some("Unknown action \"GetSystemUpdateID\"".to_string())
    );
}

#[test]
fn action_names_are_compared_exactly() {
    for name in vec!["browse", "Browse ", "BrowseX", "Brows", ""] {
        let header = format!("\"{}{}\"", NS, name);
        match parse_soap_action(Some(&header)) {
            SoapCall::UnknownAction(n) => assert_eq!(n, name),
            _ => panic!("not served"),
        }
        assert_eq!(fault_string(Some(&header)), Some(format!("Unknown action {:?}", name)));
    }
}

#[test]
fn missing_header_has_a_fixed_fault() {
    assert!(matches!(parse_soap_action(None), SoapCall::NoHeader));
    assert_eq!(fault_string(None), Some("No Soapaction header.".to_string()));
}

#[test]
fn other_namespaces_are_refused() {
    let header = "\"urn:schemas-upnp-org:service:ConnectionManager:1#GetProtocolInfo\"";
    match parse_soap_action(Some(header)) {
        SoapCall::UnknownNamespace(action) => {
            assert_eq!(action, "urn:schemas-upnp-org:service:ConnectionManager:1#GetProtocolInfo")
        },
        _ => panic!("another service"),
    }
    assert_eq!(
        fault_string(Some(header)),
        Some(
            "Unknown action namespace: \"urn:schemas-upnp-org:service:ConnectionManager:1#GetProtocolInfo\""
                .to_string()
        )
    );
    assert_eq!(fault_string(Some("")), Some("Unknown action namespace: \"\"".to_string()));
    assert_eq!(fault_string(Some("\"\"\"")), Some("Unknown action namespace: \"\"".to_string()));
    assert_eq!(
        fault_string(Some("urn:schemas-upnp-org:service:ContentDirectory:1")),
        Some("Unknown action namespace: \"urn:schemas-upnp-org:service:ContentDirectory:1\"".to_string())
    );
}

#[test]
fn only_outer_quotes_are_dropped() {
    let header = format!("\"{}Se\"arch\"", NS);
    match parse_soap_action(Some(&header)) {
        SoapCall::UnknownAction(name) => assert_eq!(name, "Se\"arch"),
        _ => panic!("not served"),
    }
    // the name is quoted with its special characters escaped
    assert_eq!(fault_string(Some(&header)), Some("Unknown action \"Se\\\"arch\"".to_string()));
    let header = format!("{}a\\b\n", NS);
    assert_eq!(fault_string(Some(&header)), Some("Unknown action \"a\\\\b\\n\"".to_string()));
    let header = format!("{}é\u{7f}", NS);
    assert_eq!(fault_string(Some(&header)), Some("Unknown action \"é\\u{7f}\"".to_string()));
}

#[test]
fn fault_parts() {
    let f = fault("something".to_string());
    assert_eq!(f.faultcode, "SOAP-ENV:Client");
    assert_eq!(f.faultstring, "something");
    assert_eq!(unknown_message("Unknown action ", "\"x\""), "Unknown action \"x\"");
    assert_eq!(unknown_message("", ""), "");
}
