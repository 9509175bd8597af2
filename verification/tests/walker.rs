use tr064_bindgen::api_desc::{
    Action, ActionList, AllowedValueList, ApiDesc, Argument, ArgumentList, ServiceStateTable,
    StateVariable,
};
use tr064_bindgen::api_desc_dir::{
    service_name_token, ApiDescDir, Device, DeviceList, IconList, Service, ServiceList,
    SpecVersion, SystemVersion,
};
use tr064_bindgen::error::GenError;

fn service(service_type: &str, control_url: &str, scpd_url: &str) -> Service {
    Service {
        service_type: service_type.to_string(),
        service_id: String::new(),
        control_url: control_url.to_string(),
        event_sub_url: String::new(),
        scpd_url: scpd_url.to_string(),
    }
}

fn device(services: Vec<Service>, children: Vec<Device>) -> Device {
    Device {
        device_type: String::new(),
        friendly_name: String::new(),
        manufacturer: String::new(),
        manufacturer_url: String::new(),
        model_description: String::new(),
        model_name: String::new(),
        model_number: String::new(),
        model_url: String::new(),
        udn: String::new(),
        upc: String::new(),
        icon_list: IconList { icon: vec![] },
        service_list: ServiceList { service: services },
        device_list: DeviceList { device: children },
        presentation_url: String::new(),
    }
}

fn dir(root: Device) -> ApiDescDir {
    ApiDescDir {
        spec_version: SpecVersion { major: 1, minor: 0 },
        system_version: SystemVersion {
            hw: 0,
            major: 0,
            minor: 0,
            patch: 0,
            buildnumber: 0,
            display: String::new(),
        },
        device: root,
    }
}

fn schema_with_one_boolean_action(action_name: &str) -> ApiDesc {
    ApiDesc {
        spec_version: SpecVersion { major: 1, minor: 0 },
        action_list: ActionList {
            action: vec![Action {
                name: action_name.to_string(),
                argument_list: ArgumentList {
                    argument: vec![Argument {
                        name: "NewEnable".to_string(),
                        direction: "out".to_string(),
                        related_state_variable: "Enable".to_string(),
                    }],
                },
            }],
        },
        service_state_table: ServiceStateTable {
            state_variable: vec![StateVariable {
                name: "Enable".to_string(),
                data_type: "boolean".to_string(),
                default_value: String::new(),
                allowed_value_list: AllowedValueList { allowed_value: vec![] },
            }],
        },
    }
}

#[test]
fn service_name_token_takes_the_fourth_segment() {
    assert_eq!(
        service_name_token("urn:dslforum-org:service:WLANConfiguration:1"),
        Some("WLANConfiguration".to_string())
    );
    assert_eq!(service_name_token("a:b:c:d"), Some("d".to_string()));
}

#[test]
fn service_name_token_rejects_short_tokens() {
    assert_eq!(service_name_token("a:b:c"), None);
    assert_eq!(service_name_token("plain"), None);
    assert_eq!(service_name_token(""), None);
}

#[test]
fn collect_services_walks_the_tree_in_preorder() {
    let grandchild = device(vec![service("urn:x:service:C:1", "/c", "/cS.xml")], vec![]);
    let child_one = device(
        vec![service("urn:x:service:B:1", "/b", "/bS.xml")],
        vec![grandchild],
    );
    let child_two = device(vec![service("urn:x:service:D:1", "/d", "/dS.xml")], vec![]);
    let root = device(
        vec![service("urn:x:service:A:1", "/a", "/aS.xml")],
        vec![child_one, child_two],
    );
    let all = root.collect_services();
    let types: Vec<&str> = all.iter().map(|s| s.service_type.as_str()).collect();
    assert_eq!(
        types,
        vec![
            "urn:x:service:A:1",
            "urn:x:service:B:1",
            "urn:x:service:C:1",
            "urn:x:service:D:1",
        ]
    );
}

#[test]
fn generate_files_builds_the_whole_aggregate() {
    let root = device(
        vec![service(
            "urn:dslforum-org:service:WLANConfiguration:1",
            "/upnp/control/wlanconfig1",
            "/wlanconfigSCPD.xml",
        )],
        vec![],
    );
    let d = dir(root);
    let schemas = vec![schema_with_one_boolean_action("GetInfo")];
    let out = d
        .generate_files(
            &schemas,
            "responses".to_string(),
            "requests".to_string(),
            Some("tr064".to_string()),
        )
        .unwrap();
    assert_eq!(out.prefix, "tr064_");
    assert_eq!(out.response_output_folder, "output/tr064_responses");
    assert_eq!(out.request_output_folder, "output/tr064_requests");
    assert_eq!(out.annotation_string, vec!["GetInfo".to_string()]);
    assert_eq!(out.response_files.len(), 1);
    assert_eq!(out.response_files[0].name, "wlan_configuration");
    assert_eq!(out.response_files[0].actions[0].name, "GetInfoResponse");
    assert_eq!(out.response_files[0].actions[0].fields[0].name, "new_enable");
    assert_eq!(out.response_files[0].actions[0].fields[0].target_type, "bool");
    assert_eq!(out.request_files.len(), 1);
    let f = &out.request_files[0].request_functions[0];
    assert_eq!(f.name_rusty, "get_info");
    assert_eq!(f.service_type, "urn:dslforum-org:service:WLANConfiguration:1");
    assert_eq!(f.control_url, "/upnp/control/wlanconfig1");
    assert_eq!(
        out.response_manifest(),
        vec!["tr064_multi_use".to_string(), "tr064_wlan_configuration".to_string()]
    );
    assert_eq!(out.request_manifest(), vec!["tr064_wlan_configuration".to_string()]);
    assert_eq!(out.envelope_aliases(), vec!["GetInfo".to_string()]);
}

#[test]
fn generate_files_without_prefix_uses_bare_folder_names() {
    let root = device(vec![], vec![]);
    let d = dir(root);
    let schemas: Vec<ApiDesc> = vec![];
    let out = d
        .generate_files(&schemas, "responses".to_string(), "requests".to_string(), None)
        .unwrap();
    assert_eq!(out.prefix, "");
    assert_eq!(out.response_output_folder, "output/responses");
    assert_eq!(out.request_output_folder, "output/requests");
    assert!(out.annotation_string.is_empty());
}

#[test]
fn generate_files_rejects_a_malformed_service_type() {
    let root = device(vec![service("bad-token", "/ctl", "/s.xml")], vec![]);
    let d = dir(root);
    let schemas = vec![schema_with_one_boolean_action("GetInfo")];
    let r = d.generate_files(
        &schemas,
        "responses".to_string(),
        "requests".to_string(),
        None,
    );
    assert_eq!(r.unwrap_err(), GenError::ParseError("bad-token".to_string()));
}

#[test]
fn generate_files_propagates_a_schema_failure() {
    let root = device(
        vec![service("urn:x:service:Svc:1", "/ctl", "/s.xml")],
        vec![],
    );
    let d = dir(root);
    let mut schema = schema_with_one_boolean_action("GetInfo");
    schema.action_list.action[0].argument_list.argument[0].related_state_variable =
        "Missing".to_string();
    let r = d.generate_files(
        &vec![schema],
        "responses".to_string(),
        "requests".to_string(),
        None,
    );
    assert_eq!(r.unwrap_err(), GenError::UnknownStateVariable("Missing".to_string()));
}
