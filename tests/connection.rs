use nwrfc::builder::RfcConnectionBuilder;
use nwrfc::connection::RfcConnection;
use nwrfc::error::{
    check_handle, check_rc, is_rc_ok, ErrorKind, RfcError, RfcErrorInfo,
    GROUP_COMMUNICATION_FAILURE, GROUP_LOGON_FAILURE, RFC_COMMUNICATION_FAILURE, RFC_LOGON_FAILURE,
    RFC_OK,
};
use nwrfc::uc::{from_str, to_string};

fn info(code: u32, group: u32, key: &str, message: &str) -> RfcErrorInfo {
    RfcErrorInfo { code, group, key: key.to_string(), message: message.to_string() }
}

fn decoded_params(b: RfcConnectionBuilder) -> Vec<(String, String)> {
    b.into_params()
        .iter()
        .map(|p| (to_string(&p.name).unwrap(), to_string(&p.value).unwrap()))
        .collect()
}

#[test]
fn new_builder_is_empty() {
    assert!(RfcConnectionBuilder::new().into_params().is_empty());
    assert!(RfcConnection::builder().into_params().is_empty());
    assert!(RfcConnectionBuilder::default().into_params().is_empty());
}

#[test]
fn last_write_wins() {
    let b = RfcConnection::builder().set_param("dest", "A").set_param("dest", "B");
    assert_eq!(decoded_params(b), vec![("dest".to_string(), "B".to_string())]);
}

#[test]
fn last_write_wins_keeps_other_names() {
    let b = RfcConnection::builder()
        .set_param("dest", "A")
        .set_param("client", "100")
        .set_param("dest", "B");
    let mut got = decoded_params(b);
    got.sort();
    assert_eq!(
        got,
        vec![("client".to_string(), "100".to_string()), ("dest".to_string(), "B".to_string())]
    );
}

#[test]
fn params_are_encoded_null_terminated() {
    let p = RfcConnection::builder().set_param("dest", "TEST").into_params();
    assert_eq!(p.len(), 1);
    assert_eq!(p[0].name, from_str("dest"));
    assert_eq!(p[0].value, vec![84u16, 69, 83, 84, 0]);
}

#[test]
fn numeric_value_is_its_decimal_string() {
    let p = RfcConnection::builder().set_param("client", &100.to_string()).into_params();
    assert_eq!(p[0].value, from_str("100"));
}

#[test]
fn dest_params_hold_only_dest() {
    let p = RfcConnection::dest_params("TEST");
    assert_eq!(p.len(), 1);
    assert_eq!(to_string(&p[0].name).unwrap(), "dest");
    assert_eq!(to_string(&p[0].value).unwrap(), "TEST");
}

#[test]
fn rc_classification() {
    assert!(is_rc_ok(RFC_OK));
    assert!(!is_rc_ok(RFC_COMMUNICATION_FAILURE));
    assert!(!is_rc_ok(RFC_LOGON_FAILURE));
    assert!(check_rc(RFC_OK, RfcErrorInfo::new(), ErrorKind::PingFailure).is_ok());
}

#[test]
fn null_handle_is_promoted() {
    let e = check_handle(0, info(RFC_LOGON_FAILURE, GROUP_LOGON_FAILURE, "K", "m"), ErrorKind::LookupFailure)
        .unwrap_err();
    assert_eq!(e.kind(), ErrorKind::LookupFailure);
    assert_eq!(check_handle(7, RfcErrorInfo::new(), ErrorKind::LookupFailure).unwrap(), 7);
}

#[test]
fn open_with_null_handle_fails() {
    let params = RfcConnection::builder().set_param("dest", "INVALID").into_params();
    assert_eq!(params.len(), 1);
    let e = RfcConnection::opened(0, info(RFC_LOGON_FAILURE, GROUP_LOGON_FAILURE, "RFC_ERROR_LOGON_FAILURE", "no such destination"))
        .unwrap_err();
    assert_eq!(e.kind(), ErrorKind::ConnectFailure);
    match e {
        RfcError::Native(_, i) => {
            assert_eq!(i.code, RFC_LOGON_FAILURE);
            assert_eq!(i.group, GROUP_LOGON_FAILURE);
            assert_eq!(i.key, "RFC_ERROR_LOGON_FAILURE");
            assert_eq!(i.message, "no such destination");
        }
        RfcError::Encoding => panic!("expected a native failure"),
    }
}

#[test]
fn open_network_failure_is_communication_failure() {
    let e = RfcConnection::opened(0, info(RFC_COMMUNICATION_FAILURE, GROUP_COMMUNICATION_FAILURE, "K", "down"))
        .unwrap_err();
    assert_eq!(e.kind(), ErrorKind::CommunicationFailure);
}

#[test]
fn open_ping_and_get_function() {
    let conn = RfcConnection::opened(0x1000, RfcErrorInfo::new()).unwrap();
    assert!(conn.is_open());
    assert_eq!(conn.handle(), 0x1000);
    assert!(conn.ping_result(RFC_OK, RfcErrorInfo::new()).is_ok());
    assert!(conn.ping_result(RFC_OK, RfcErrorInfo::new()).is_ok());
    assert_eq!(conn.handle(), 0x1000);
    let desc = conn.function_desc(0x2000, RfcErrorInfo::new()).unwrap();
    let f = conn.get_function(desc, 0x3000, RfcErrorInfo::new()).unwrap();
    assert_eq!(f.desc_handle(), 0x2000);
    assert_eq!(f.func_handle(), 0x3000);
    assert_eq!(f.connection().handle(), 0x1000);
}

#[test]
fn failed_ping_is_ping_failure() {
    let conn = RfcConnection::opened(0x1000, RfcErrorInfo::new()).unwrap();
    let e = conn.ping_result(RFC_LOGON_FAILURE, info(RFC_LOGON_FAILURE, GROUP_LOGON_FAILURE, "K", "m")).unwrap_err();
    assert_eq!(e.kind(), ErrorKind::PingFailure);
    let e = conn.ping_result(RFC_COMMUNICATION_FAILURE, info(RFC_COMMUNICATION_FAILURE, GROUP_COMMUNICATION_FAILURE, "K", "m")).unwrap_err();
    assert_eq!(e.kind(), ErrorKind::CommunicationFailure);
}

#[test]
fn unknown_function_is_lookup_failure() {
    let conn = RfcConnection::opened(0x1000, RfcErrorInfo::new()).unwrap();
    let e = conn.function_desc(0, info(17, 5, "FU_NOT_FOUND", "unknown")).unwrap_err();
    assert_eq!(e.kind(), ErrorKind::LookupFailure);
}

#[test]
fn failed_instance_is_instantiation_failure() {
    let conn = RfcConnection::opened(0x1000, RfcErrorInfo::new()).unwrap();
    let e = conn.get_function(0x2000, 0, info(9, 5, "K", "no memory")).unwrap_err();
    assert_eq!(e.kind(), ErrorKind::InstantiationFailure);
}

#[test]
fn release_hands_back_handle_once() {
    let mut conn = RfcConnection::opened(0x1000, RfcErrorInfo::new()).unwrap();
    assert_eq!(conn.release(), Some(0x1000));
    assert!(!conn.is_open());
    assert_eq!(conn.release(), None);
    assert_eq!(conn.release(), None);
}

#[test]
fn empty_error_info() {
    let i = RfcErrorInfo::new();
    assert_eq!(i.code, RFC_OK);
    assert!(i.key.is_empty());
    assert!(i.message.is_empty());
}
