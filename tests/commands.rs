use vtg::command::{
    ccc_command_spec, command_result, factory_init, generic_runner, get_ccc_output_integer,
    panorama_cli_handler, serial_query_spec, CommandOutcome, CommandSpec, DispatchError,
    GenericAction,
};

fn args_of(c: &CommandSpec) -> Vec<&str> {
    c.args.iter().map(|a| a.as_str()).collect()
}

#[test]
fn ccc_line_names_the_configured_executable() {
    let c = ccc_command_spec("  ccc  set   mode  2 ");
    assert_eq!(c.program, "./ccc.exe");
    assert_eq!(args_of(&c), vec!["set", "mode", "2"]);
}

#[test]
fn ccc_glued_suffix_stays_in_program_token() {
    let c = ccc_command_spec("cccx get");
    assert_eq!(c.program, "./ccc.exex");
    assert_eq!(args_of(&c), vec!["get"]);
}

#[test]
fn panorama_line_runs_the_provisioning_tool() {
    let c = panorama_cli_handler("panorama profile_a");
    assert_eq!(c.program, "./panorama_cli.exe");
    assert_eq!(args_of(&c), vec!["run", "-t", "profile_a"]);
}

#[test]
fn exit_status_decides_success() {
    assert_eq!(command_result(CommandOutcome::Exited(Some(0))), Ok(()));
    assert_eq!(
        command_result(CommandOutcome::Exited(Some(3))),
        Err(DispatchError::ExternalCommandFailed(Some(3)))
    );
    assert_eq!(
        command_result(CommandOutcome::Exited(None)),
        Err(DispatchError::ExternalCommandFailed(None))
    );
    assert_eq!(command_result(CommandOutcome::Missing), Err(DispatchError::NotFound));
    assert_eq!(command_result(CommandOutcome::SpawnFailed), Err(DispatchError::SpawnFailed));
    assert!(DispatchError::NotFound.is_configuration_error());
    assert!(DispatchError::ExternalCommandFailed(Some(1)).is_external_command_error());
    assert!(!DispatchError::SpawnFailed.is_configuration_error());
}

#[test]
fn serial_number_is_read_between_brackets() {
    assert_eq!(get_ccc_output_integer("serial_number: [ 12345 ]\n"), Ok(12345));
    assert_eq!(get_ccc_output_integer("value [-7] units"), Ok(-7));
    assert_eq!(get_ccc_output_integer("[+2147483647"), Ok(2147483647));
    assert_eq!(get_ccc_output_integer("[-2147483648]"), Ok(-2147483648));
    assert_eq!(get_ccc_output_integer("x ]42["), Ok(42));
}

#[test]
fn serial_number_errors() {
    assert_eq!(get_ccc_output_integer("no brackets"), Err(DispatchError::MalformedOutput));
    assert_eq!(get_ccc_output_integer("[abc]"), Err(DispatchError::MalformedOutput));
    assert_eq!(get_ccc_output_integer("[]"), Err(DispatchError::MalformedOutput));
    assert_eq!(get_ccc_output_integer("[2147483648]"), Err(DispatchError::MalformedOutput));
}

#[test]
fn factory_init_command_carries_the_serial() {
    let c = factory_init(-12);
    assert_eq!(c.program, "./ccc.exe");
    assert_eq!(
        args_of(&c),
        vec!["factory-init", "--sku", "0", "--serial-number", "-12", "ultra.cepbin"]
    );
    let d = factory_init(907);
    assert_eq!(d.args[4], "907");
    let q = serial_query_spec();
    assert_eq!(q.program, "./ccc.exe");
    assert_eq!(args_of(&q), vec!["get", "serial_number"]);
}

#[test]
fn generic_instructions() {
    assert_eq!(generic_runner("wait_s 5"), Ok(GenericAction::Sleep(5)));
    assert_eq!(generic_runner("wait_s +7 extra"), Ok(GenericAction::Sleep(7)));
    assert_eq!(generic_runner("wait_s"), Err(DispatchError::InvalidArguments));
    assert_eq!(generic_runner("wait_s -1"), Err(DispatchError::InvalidArguments));
    assert_eq!(generic_runner("wait_e"), Ok(GenericAction::WaitKeypress));
    assert_eq!(
        generic_runner("dhcp_server 192.168.32.61"),
        Ok(GenericAction::StartDhcpServer(Some("192.168.32.61".to_string())))
    );
    assert_eq!(generic_runner("dhcp_server"), Ok(GenericAction::StartDhcpServer(None)));
    assert_eq!(generic_runner("reboot now"), Ok(GenericAction::Nothing));
}
