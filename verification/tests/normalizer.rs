use tr064_bindgen::helper::rustify_string;

#[test]
fn plain_camel_case_becomes_snake_case() {
    assert_eq!(rustify_string("GetInfo"), "get_info");
    assert_eq!(rustify_string("NewEnable"), "new_enable");
    assert_eq!(rustify_string("SetConfig"), "set_config");
}

#[test]
fn known_acronyms_fold_as_one_word() {
    assert_eq!(rustify_string("GetNATRSIPStatus"), "get_nat_rsip_status");
    assert_eq!(rustify_string("WLANConfiguration"), "wlan_configuration");
    assert_eq!(rustify_string("GetDNSServers"), "get_dns_servers");
    assert_eq!(rustify_string("NewMACAddress"), "new_mac_address");
}

#[test]
fn vendor_extension_prefix_folds_before_case_split() {
    assert_eq!(rustify_string("NewX_AVM-DE_Foo"), "new_x_avm_de_foo");
    assert_eq!(rustify_string("X_AVM-DE_GetInfo"), "x_avm_de_get_info");
}

#[test]
fn underscores_are_stripped() {
    assert_eq!(rustify_string("New_Enable"), "new_enable");
}

#[test]
fn empty_input_stays_empty() {
    assert_eq!(rustify_string(""), "");
}

#[test]
fn already_lowercase_input_passes_through() {
    assert_eq!(rustify_string("status"), "status");
}

#[test]
fn normalization_is_stable_across_calls() {
    let a = rustify_string("NewX_AVM-DE_GetWLANConnectionInfo");
    let b = rustify_string("NewX_AVM-DE_GetWLANConnectionInfo");
    assert_eq!(a, b);
    // re-normalizing its own output never raises and is itself stable
    let c = rustify_string(&a);
    let d = rustify_string(&a);
    assert_eq!(c, d);
}
