use vtg::reports::{
    excel_gen, report_csv_name, generate_email_attachments, get_config_dump, group_tests_id, group_tests_priority,
    is_config_dump_file, parse_group_spec, report_sheet_test_id_fail, report_sheet_test_id_pass,
    select_tests, Test,
};

fn test(id: &str, priority: &str) -> Test {
    Test {
        test_id: id.to_string(),
        test_group: "G".to_string(),
        test_priority: priority.to_string(),
        test_description: String::new(),
        pass_condition: String::new(),
        instructions: Vec::new(),
        test_authors_and_contact_persons: Vec::new(),
    }
}

fn strs(v: &[String]) -> Vec<&str> {
    v.iter().map(|s| s.as_str()).collect()
}

#[test]
fn group_spec_splits_label_and_ids() {
    let g = parse_group_spec("HEAT:1.1,,1.2,1.3,");
    assert_eq!(g.label, "HEAT");
    assert_eq!(strs(&g.ids), vec!["1.1", "1.2", "1.3"]);
    let bare = parse_group_spec("VOLT");
    assert_eq!(bare.label, "VOLT");
    assert!(bare.ids.is_empty());
    let colons = parse_group_spec("A:1:2,3");
    assert_eq!(colons.label, "A");
    assert_eq!(strs(&colons.ids), vec!["1:2", "3"]);
}

#[test]
fn selection_by_ids_and_priority() {
    let tests = vec![test("1.1", "HIGH"), test("1.2", "low"), test("2.1", "High")];
    let picked = select_tests(tests, &vec!["1.1".to_string(), "2.1".to_string()], &Some("high".to_string()));
    let ids: Vec<&str> = picked.iter().map(|t| t.test_id.as_str()).collect();
    assert_eq!(ids, vec!["1.1", "2.1"]);
    let tests = vec![test("1.1", "HIGH"), test("1.2", "low")];
    let all = select_tests(tests, &Vec::new(), &None);
    assert_eq!(all.len(), 2);
    let tests = vec![test("1.1", "HIGH"), test("1.2", "low")];
    let none = select_tests(tests, &vec!["9.9".to_string()], &None);
    assert!(none.is_empty());
}

#[test]
fn grouping_plans() {
    let plan = group_tests_id(
        &vec!["A:1.1,1.2".to_string(), "B:5.1".to_string()],
        &Some("HIGH".to_string()),
        &None,
        &Some("my_list".to_string()),
    );
    assert_eq!(plan.input, "base_tests_list.toml");
    assert_eq!(plan.output_toml, "my_list.toml");
    assert_eq!(plan.output_csv, "my_list.csv");
    assert_eq!(plan.groups.len(), 2);
    assert_eq!(plan.groups[1].label, "B");
    assert_eq!(plan.priority, Some("HIGH".to_string()));
    let by_prio = group_tests_priority(&"LOW".to_string(), &Some("in.toml".to_string()), &None);
    assert_eq!(by_prio.input, "in.toml");
    assert_eq!(by_prio.output_toml, "validation_test_instructions.toml");
    assert_eq!(by_prio.output_csv, "validation_test_report.csv");
    assert_eq!(by_prio.groups.len(), 1);
    assert_eq!(by_prio.groups[0].label, "LOW");
    let blank = group_tests_priority(&"   ".to_string(), &None, &None);
    assert!(blank.groups.is_empty());
    assert_eq!(blank.priority, None);
}

#[test]
fn sheet_status_updates() {
    let pass = report_sheet_test_id_pass("fmt.py", "r.xlsx", "1.1", Some("ok"));
    assert_eq!(pass.program, "python");
    assert_eq!(strs(&pass.args), vec!["fmt.py", "update", "r.xlsx", "1.1", "Pass", "ok"]);
    let fail = report_sheet_test_id_fail("fmt.py", "r.xlsx", "1.2", None);
    assert_eq!(strs(&fail.args), vec!["fmt.py", "update", "r.xlsx", "1.2", "Fail"]);
}

#[test]
fn configuration_dump_command() {
    let c = get_config_dump("dumps", "[01_02_2025]_[10hr_05min]");
    assert_eq!(c.program, "./ccc.exe");
    assert_eq!(
        strs(&c.args),
        vec![
            "get-all",
            "-o",
            "dumps/sensor_config_dump_[01_02_2025]_[10hr_05min].txt",
            "-d",
            "ultra_config.toml"
        ]
    );
    let e = generate_email_attachments("T");
    assert_eq!(e.args[2], "./email_attachments//sensor_config_dump_T.txt");
    assert!(is_config_dump_file("sensor_config_dump_x.txt"));
    assert!(!is_config_dump_file("config.txt"));
}

#[test]
fn report_is_named_after_the_instruction_file() {
    assert_eq!(report_csv_name(Some("suite")), "suite_report.csv");
    assert_eq!(report_csv_name(None), "report.csv");
    let plan = excel_gen(&Some("lists/suite_a.toml".to_string()));
    assert_eq!(plan.input, "lists/suite_a.toml");
    assert_eq!(plan.csv, "suite_a_report.csv");
    let default = excel_gen(&None);
    assert_eq!(default.input, "validation_test_instructions.toml");
    assert_eq!(default.csv, "validation_test_instructions_report.csv");
}
