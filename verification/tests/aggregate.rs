use tr064_bindgen::model::{
    OutputFiles, ParameterAndType, RequestFile, RequestFunction, ResponseFile,
};

fn response_file(name: &str) -> ResponseFile {
    ResponseFile { name: name.to_string(), actions: vec![] }
}

fn request_file(name: &str) -> RequestFile {
    RequestFile { name: name.to_string(), request_functions: vec![] }
}

#[test]
fn new_aggregate_is_empty_with_default_folders() {
    let out = OutputFiles::new();
    assert!(out.annotation_string.is_empty());
    assert!(out.response_files.is_empty());
    assert!(out.request_files.is_empty());
    assert_eq!(out.response_output_folder, "response_output");
    assert_eq!(out.request_output_folder, "request_output");
    assert_eq!(out.prefix, "");
}

#[test]
fn empty_unit_constructors_start_blank() {
    let rf = ResponseFile::new();
    assert_eq!(rf.name, "");
    assert!(rf.actions.is_empty());
    let qf = RequestFile::new();
    assert_eq!(qf.name, "");
    assert!(qf.request_functions.is_empty());
    let p = ParameterAndType::new();
    assert_eq!(p.parameter_name, "");
    assert_eq!(p.parameter_name_rusty, "");
    assert_eq!(p.target_type, "");
}

#[test]
fn request_function_constructor_normalizes_the_name() {
    let f = RequestFunction::new(
        "GetDNSServers".to_string(),
        "urn:x:service:Cfg:1".to_string(),
        "/ctl".to_string(),
    );
    assert_eq!(f.name, "GetDNSServers");
    assert_eq!(f.name_rusty, "get_dns_servers");
    assert_eq!(f.action_name, "GetDNSServers");
    assert_eq!(f.service_type, "urn:x:service:Cfg:1");
    assert_eq!(f.control_url, "/ctl");
    assert!(f.parameter.is_empty());
}

#[test]
fn colliding_module_names_leave_one_manifest_entry() {
    let mut out = OutputFiles::new();
    out.prefix = "tr064_".to_string();
    out.response_files.push(response_file("wan_config"));
    out.response_files.push(response_file("wan_config"));
    let manifest = out.response_manifest();
    assert_eq!(
        manifest,
        vec!["tr064_multi_use".to_string(), "tr064_wan_config".to_string()]
    );
}

#[test]
fn response_manifest_is_sorted_ascending() {
    let mut out = OutputFiles::new();
    out.prefix = "p_".to_string();
    out.response_files.push(response_file("zeta"));
    out.response_files.push(response_file("alpha"));
    out.response_files.push(response_file("midway"));
    let manifest = out.response_manifest();
    assert_eq!(
        manifest,
        vec![
            "p_alpha".to_string(),
            "p_midway".to_string(),
            "p_multi_use".to_string(),
            "p_zeta".to_string(),
        ]
    );
}

#[test]
fn aggregation_twice_gives_the_same_manifest() {
    let mut out = OutputFiles::new();
    out.prefix = "igd_".to_string();
    out.request_files.push(request_file("wan"));
    out.request_files.push(request_file("lan"));
    out.request_files.push(request_file("wan"));
    let first = out.request_manifest();
    let second = out.request_manifest();
    assert_eq!(first, second);
    assert_eq!(first, vec!["igd_lan".to_string(), "igd_wan".to_string()]);
}

#[test]
fn request_manifest_has_no_envelope_entry() {
    let mut out = OutputFiles::new();
    out.request_files.push(request_file("svc"));
    let manifest = out.request_manifest();
    assert_eq!(manifest, vec!["svc".to_string()]);
}

#[test]
fn envelope_aliases_are_sorted_and_distinct() {
    let mut out = OutputFiles::new();
    out.annotation_string.push("GetInfo".to_string());
    out.annotation_string.push("AddEntry".to_string());
    out.annotation_string.push("GetInfo".to_string());
    let aliases = out.envelope_aliases();
    assert_eq!(aliases, vec!["AddEntry".to_string(), "GetInfo".to_string()]);
}
