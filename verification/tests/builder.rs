use tr064_bindgen::api_desc::{
    response_type_name, Action, ActionList, ApiDesc, Argument, ArgumentList, ServiceStateTable,
    StateVariable,
};
use tr064_bindgen::api_desc::AllowedValueList;
use tr064_bindgen::api_desc_dir::SpecVersion;
use tr064_bindgen::error::GenError;
use tr064_bindgen::model::OutputFiles;

fn state_variable(name: &str, data_type: &str) -> StateVariable {
    StateVariable {
        name: name.to_string(),
        data_type: data_type.to_string(),
        default_value: String::new(),
        allowed_value_list: AllowedValueList { allowed_value: vec![] },
    }
}

fn argument(name: &str, direction: &str, related: &str) -> Argument {
    Argument {
        name: name.to_string(),
        direction: direction.to_string(),
        related_state_variable: related.to_string(),
    }
}

fn schema(actions: Vec<Action>, variables: Vec<StateVariable>) -> ApiDesc {
    ApiDesc {
        spec_version: SpecVersion { major: 1, minor: 0 },
        action_list: ActionList { action: actions },
        service_state_table: ServiceStateTable { state_variable: variables },
    }
}

#[test]
fn response_type_name_strips_separators_and_appends_suffix() {
    assert_eq!(response_type_name("GetInfo"), "GetInfoResponse");
    assert_eq!(response_type_name("X_AVM-DE_GetInfo"), "XAVMDEGetInfoResponse");
}

#[test]
fn search_finds_the_variable_and_renders_its_type() {
    let desc = schema(vec![], vec![
        state_variable("Enable", "boolean"),
        state_variable("Port", "ui2"),
        state_variable("Name", "string"),
    ]);
    assert_eq!(desc.search_state_variable_type("Enable"), Ok("bool".to_string()));
    assert_eq!(desc.search_state_variable_type("Port"), Ok("u32".to_string()));
    assert_eq!(desc.search_state_variable_type("Name"), Ok("String".to_string()));
}

#[test]
fn search_reports_a_missing_variable() {
    let desc = schema(vec![], vec![state_variable("Enable", "boolean")]);
    assert_eq!(
        desc.search_state_variable_type("Missing"),
        Err(GenError::UnknownStateVariable("Missing".to_string()))
    );
}

#[test]
fn search_reports_an_unrecognized_type_tag() {
    let desc = schema(vec![], vec![state_variable("Rate", "float")]);
    assert_eq!(
        desc.search_state_variable_type("Rate"),
        Err(GenError::UnmappedType("float".to_string()))
    );
}

#[test]
fn one_out_argument_becomes_one_response_field() {
    let desc = schema(
        vec![Action {
            name: "GetInfo".to_string(),
            argument_list: ArgumentList {
                argument: vec![argument("NewEnable", "out", "Enable")],
            },
        }],
        vec![state_variable("Enable", "boolean")],
    );
    let mut out = OutputFiles::new();
    let r = desc.fill_output_files(&mut out, "WLANConfiguration", "/ctl", "urn:x:service:W:1");
    assert!(r.is_ok());
    assert_eq!(out.annotation_string, vec!["GetInfo".to_string()]);
    assert_eq!(out.response_files.len(), 1);
    let rf = &out.response_files[0];
    assert_eq!(rf.name, "wlan_configuration");
    assert_eq!(rf.actions.len(), 1);
    assert_eq!(rf.actions[0].name, "GetInfoResponse");
    assert_eq!(rf.actions[0].fields.len(), 1);
    assert_eq!(rf.actions[0].fields[0].name, "new_enable");
    assert_eq!(rf.actions[0].fields[0].xml_name, "NewEnable");
    assert_eq!(rf.actions[0].fields[0].target_type, "bool");
    assert_eq!(out.request_files.len(), 1);
    let qf = &out.request_files[0];
    assert_eq!(qf.name, "wlan_configuration");
    assert_eq!(qf.request_functions.len(), 1);
    assert_eq!(qf.request_functions[0].name, "GetInfo");
    assert_eq!(qf.request_functions[0].name_rusty, "get_info");
    assert_eq!(qf.request_functions[0].action_name, "GetInfo");
    assert_eq!(qf.request_functions[0].service_type, "urn:x:service:W:1");
    assert_eq!(qf.request_functions[0].control_url, "/ctl");
    assert!(qf.request_functions[0].parameter.is_empty());
}

#[test]
fn action_without_in_arguments_takes_no_parameters() {
    let desc = schema(
        vec![Action {
            name: "GetStatus".to_string(),
            argument_list: ArgumentList {
                argument: vec![
                    argument("NewStatus", "out", "Status"),
                    argument("NewUptime", "out", "Uptime"),
                ],
            },
        }],
        vec![
            state_variable("Status", "string"),
            state_variable("Uptime", "ui4"),
        ],
    );
    let mut out = OutputFiles::new();
    desc.fill_output_files(&mut out, "Info", "/ctl", "urn:x:service:Info:1").unwrap();
    assert!(out.request_files[0].request_functions[0].parameter.is_empty());
    assert_eq!(out.response_files[0].actions[0].fields.len(), 2);
}

#[test]
fn in_arguments_become_parameters_in_source_order() {
    let desc = schema(
        vec![Action {
            name: "SetConfig".to_string(),
            argument_list: ArgumentList {
                argument: vec![
                    argument("NewEnable", "in", "Enable"),
                    argument("NewName", "in", "Name"),
                ],
            },
        }],
        vec![
            state_variable("Enable", "boolean"),
            state_variable("Name", "string"),
        ],
    );
    let mut out = OutputFiles::new();
    desc.fill_output_files(&mut out, "Cfg", "/ctl", "urn:x:service:Cfg:1").unwrap();
    let ps = &out.request_files[0].request_functions[0].parameter;
    assert_eq!(ps.len(), 2);
    assert_eq!(ps[0].parameter_name, "NewEnable");
    assert_eq!(ps[0].parameter_name_rusty, "new_enable");
    assert_eq!(ps[0].target_type, "bool");
    assert_eq!(ps[1].parameter_name, "NewName");
    assert_eq!(ps[1].target_type, "String");
    // in-arguments never show up among the response fields
    assert!(out.response_files[0].actions[0].fields.is_empty());
}

#[test]
fn out_arguments_keep_their_source_order() {
    let desc = schema(
        vec![Action {
            name: "GetAll".to_string(),
            argument_list: ArgumentList {
                argument: vec![
                    argument("B", "out", "V"),
                    argument("A", "out", "V"),
                    argument("C", "out", "V"),
                ],
            },
        }],
        vec![state_variable("V", "string")],
    );
    let mut out = OutputFiles::new();
    desc.fill_output_files(&mut out, "Svc", "/ctl", "urn:x:service:Svc:1").unwrap();
    let fields = &out.response_files[0].actions[0].fields;
    assert_eq!(fields.len(), 3);
    assert_eq!(fields[0].xml_name, "B");
    assert_eq!(fields[1].xml_name, "A");
    assert_eq!(fields[2].xml_name, "C");
}

#[test]
fn unknown_state_variable_aborts_without_partial_output() {
    let desc = schema(
        vec![Action {
            name: "GetInfo".to_string(),
            argument_list: ArgumentList {
                argument: vec![
                    argument("NewEnable", "out", "Enable"),
                    argument("NewGhost", "out", "Missing"),
                ],
            },
        }],
        vec![state_variable("Enable", "boolean")],
    );
    let mut out = OutputFiles::new();
    let r = desc.fill_output_files(&mut out, "Svc", "/ctl", "urn:x:service:Svc:1");
    assert_eq!(r, Err(GenError::UnknownStateVariable("Missing".to_string())));
    assert!(out.annotation_string.is_empty());
    assert!(out.response_files.is_empty());
    assert!(out.request_files.is_empty());
}

#[test]
fn unmapped_type_aborts_the_service() {
    let desc = schema(
        vec![Action {
            name: "GetRate".to_string(),
            argument_list: ArgumentList {
                argument: vec![argument("NewRate", "out", "Rate")],
            },
        }],
        vec![state_variable("Rate", "float")],
    );
    let mut out = OutputFiles::new();
    let r = desc.fill_output_files(&mut out, "Svc", "/ctl", "urn:x:service:Svc:1");
    assert_eq!(r, Err(GenError::UnmappedType("float".to_string())));
    assert!(out.response_files.is_empty());
}

#[test]
fn arguments_with_other_directions_are_skipped() {
    let desc = schema(
        vec![Action {
            name: "GetInfo".to_string(),
            argument_list: ArgumentList {
                // the related variable does not even exist: a skipped
                // argument is never resolved
                argument: vec![argument("NewOther", "sideways", "Nowhere")],
            },
        }],
        vec![],
    );
    let mut out = OutputFiles::new();
    desc.fill_output_files(&mut out, "Svc", "/ctl", "urn:x:service:Svc:1").unwrap();
    assert!(out.response_files[0].actions[0].fields.is_empty());
    assert!(out.request_files[0].request_functions[0].parameter.is_empty());
}
