use vtg::classify::{
    check_for_auto_commands, classify_instruction, select_run_mode, InstructionKind, RunMode,
};

#[test]
fn semi_auto_directive_selects_semi_auto() {
    assert_eq!(check_for_auto_commands("## SEMI_AUTO ##"), Some(RunMode::SemiAuto));
}

#[test]
fn full_auto_directive_selects_full_auto() {
    assert_eq!(check_for_auto_commands("## FULL_AUTO ##"), Some(RunMode::FullAuto));
}

#[test]
fn keyword_inside_other_text_selects_nothing() {
    assert_eq!(check_for_auto_commands("## run this FULL_AUTO please ##"), None);
    assert_eq!(check_for_auto_commands("## FULL_AUTOMATION ##"), None);
    assert_eq!(check_for_auto_commands("# the FULL_AUTO mode is off"), None);
}

#[test]
fn bare_keyword_and_padding_still_select() {
    assert_eq!(check_for_auto_commands("FULL_AUTO"), Some(RunMode::FullAuto));
    assert_eq!(check_for_auto_commands("   ##   SEMI_AUTO   ##  ## "), Some(RunMode::SemiAuto));
    assert_eq!(check_for_auto_commands(""), None);
    assert_eq!(check_for_auto_commands("## ##"), None);
}

#[test]
fn first_directive_governs_the_list() {
    let lines: Vec<String> = vec![
        "# intro".to_string(),
        "## FULL_AUTO ##".to_string(),
        "ccc reboot".to_string(),
        "## SEMI_AUTO ##".to_string(),
    ];
    assert_eq!(select_run_mode(&lines), RunMode::FullAuto);
}

#[test]
fn no_directive_means_interactive() {
    let lines: Vec<String> = vec!["# intro".to_string(), "ccc reboot FULL_AUTO".to_string()];
    assert_eq!(select_run_mode(&lines), RunMode::Interactive);
    assert_eq!(select_run_mode(&Vec::new()), RunMode::Interactive);
}

#[test]
fn instruction_kinds() {
    assert_eq!(classify_instruction("   "), InstructionKind::Blank);
    assert_eq!(classify_instruction("# note"), InstructionKind::Comment);
    assert_eq!(classify_instruction("## note ##"), InstructionKind::Comment);
    assert_eq!(
        classify_instruction("## FULL_AUTO ##"),
        InstructionKind::DirectiveMarker(RunMode::FullAuto)
    );
    assert_eq!(classify_instruction("  ccc get x"), InstructionKind::CccInvocation);
    assert_eq!(classify_instruction("event_timed 10 3 ccc x"), InstructionKind::TimedEvent);
    assert_eq!(classify_instruction("factory_init"), InstructionKind::FactoryInit);
    assert_eq!(classify_instruction("panorama flash"), InstructionKind::PanoramaInvocation);
    assert_eq!(classify_instruction("wait_s 4"), InstructionKind::GenericWait);
    assert_eq!(classify_instruction("wait_e"), InstructionKind::GenericKeypress);
    assert_eq!(classify_instruction("dhcp_server 192.168.32.61"), InstructionKind::DhcpControl);
    assert_eq!(classify_instruction("wait_sx 4"), InstructionKind::Unrecognized);
}
