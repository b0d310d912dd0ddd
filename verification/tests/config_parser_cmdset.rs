use tdcore::cmdset::{cmdstep_from_row, step_rows, NewCmdSet, NewCmdStep, StepOnError};
use tdcore::configset::{
    parse_config_file_spec, read_exists_answer, read_hash_answer, resolve_remote_dest,
    shell_quote, should_apply_config, ConfigFileWhen, NewConfigFile, NewConfigSet,
};
use tdcore::error::CoreError;
use tdcore::parser::{parse_output, ParsedOutput, ParserDefinition, ParserSpec, ParserType};
use tdcore::profile::{parse_danger, parse_profile_type};

#[test]
fn inserts_cmdset_with_steps() {
    let input = NewCmdSet {
        cmdset_id: Some("linux-basic-check".to_string()),
        name: "Linux basic check".to_string(),
        vars: None,
        steps: vec![
            NewCmdStep {
                cmd: "uname -a".to_string(),
                timeout_ms: Some(10_000),
                on_error: StepOnError::Continue,
                parser_spec: ParserSpec::Raw,
            },
            NewCmdStep {
                cmd: "uptime".to_string(),
                timeout_ms: Some(10_000),
                on_error: StepOnError::Continue,
                parser_spec: ParserSpec::Raw,
            },
        ],
    };
    assert_eq!(input.checked_id().unwrap(), "linux-basic-check");
    let rows = step_rows(&input.steps);
    assert_eq!(rows.len(), 2);
    assert_eq!(rows[0].ord, 1);
    assert_eq!(rows[1].ord, 2);
    assert_eq!(rows[0].parser_spec, "raw");
    let back = cmdstep_from_row(
        1,
        "linux-basic-check".to_string(),
        rows[0].ord,
        rows[0].cmd.clone(),
        rows[0].timeout_ms,
        &rows[0].on_error,
        &rows[0].parser_spec,
    )
    .unwrap();
    assert_eq!(back.parser_spec, ParserSpec::Raw);
    assert_eq!(back.on_error, StepOnError::Continue);
    assert_eq!(back.timeout_ms, Some(10_000));
}

#[test]
fn rejects_empty_cmdset() {
    let input = NewCmdSet {
        cmdset_id: Some("empty-set".to_string()),
        name: "Empty".to_string(),
        vars: None,
        steps: Vec::new(),
    };
    let err = input.checked_id().unwrap_err();
    assert!(matches!(err, CoreError::InvalidCommandSpec(_)));
}

#[test]
fn loads_cmdset_steps_and_parser() {
    let step = cmdstep_from_row(
        1,
        "c_main".to_string(),
        1,
        "echo 200".to_string(),
        Some(5000),
        "stop",
        "regex:r_status",
    )
    .unwrap();
    assert_eq!(step.cmd, "echo 200");
    assert_eq!(step.timeout_ms, Some(5000));
    assert_eq!(step.on_error, StepOnError::Stop);
    assert_eq!(step.parser_spec, ParserSpec::Regex("r_status".to_string()));
    assert_eq!(ParserType::parse("regex").unwrap(), ParserType::Regex);
}

#[test]
fn parser_specs_parse_and_print() {
    assert_eq!(ParserSpec::parse("json").unwrap(), ParserSpec::Json);
    assert_eq!(
        ParserSpec::parse("regex:").unwrap_err(),
        CoreError::InvalidCommandSpec("regex parser spec missing id".to_string())
    );
    assert_eq!(
        ParserSpec::parse("yaml").unwrap_err(),
        CoreError::InvalidCommandSpec("unknown parser spec: yaml".to_string())
    );
    assert_eq!(ParserSpec::Regex("r".to_string()).to_text(), "regex:r");
}

#[test]
fn regex_output_gives_named_and_numbered_groups() {
    let parser = ParserDefinition {
        parser_id: "r_status".to_string(),
        parser_type: ParserType::Regex,
        definition: r"(?P<code>\d+) (\w+)".to_string(),
    };
    let out = parse_output(
        &ParserSpec::Regex("r_status".to_string()),
        "200 ok\n404 missing",
        Some(&parser),
    )
    .unwrap();
    assert_eq!(
        out,
        ParsedOutput::Matches(vec![
            vec![
                ("code".to_string(), "200".to_string()),
                ("2".to_string(), "ok".to_string())
            ],
            vec![
                ("code".to_string(), "404".to_string()),
                ("2".to_string(), "missing".to_string())
            ],
        ])
    );
    let missing = parse_output(&ParserSpec::Regex("other".to_string()), "", Some(&parser));
    assert_eq!(missing.unwrap_err(), CoreError::ParserNotFound("other".to_string()));
    let bad = ParserDefinition { definition: "(".to_string(), ..parser };
    assert!(matches!(
        parse_output(&ParserSpec::Regex("r_status".to_string()), "x", Some(&bad)),
        Err(CoreError::Regex(_))
    ));
}

#[test]
fn json_output_is_kept_or_emptied() {
    assert_eq!(
        parse_output(&ParserSpec::Json, "{ \"a\": 1 }", None).unwrap(),
        ParsedOutput::Json("{\"a\":1}".to_string())
    );
    assert_eq!(parse_output(&ParserSpec::Json, "not json", None).unwrap(), ParsedOutput::Empty);
    assert_eq!(parse_output(&ParserSpec::Raw, "x", None).unwrap(), ParsedOutput::Empty);
}

#[test]
fn stores_and_loads_configset() {
    let input = NewConfigSet {
        config_id: Some("cfg_dotfiles".to_string()),
        name: "Dotfiles".to_string(),
        hooks_cmdset_id: None,
        files: vec![NewConfigFile {
            src: "./.bashrc".to_string(),
            dest: "~/.bashrc".to_string(),
            mode: Some("644".to_string()),
            when: ConfigFileWhen::Changed,
        }],
    };
    assert_eq!(input.normalize_id().unwrap(), "cfg_dotfiles");
    assert_eq!(
        ConfigFileWhen::parse(input.files[0].when.as_str()).unwrap(),
        ConfigFileWhen::Changed
    );
}

#[test]
fn file_specs_are_read_with_defaults_and_errors() {
    let f = parse_config_file_spec("src=./a, dest = ~/a ,when=Missing").unwrap();
    assert_eq!(f.src, "./a");
    assert_eq!(f.dest, "~/a");
    assert_eq!(f.mode, None);
    assert_eq!(f.when, ConfigFileWhen::Missing);
    assert_eq!(
        parse_config_file_spec("src=./a").unwrap_err(),
        "file spec missing dest: src=./a"
    );
    assert_eq!(
        parse_config_file_spec("src").unwrap_err(),
        "invalid file spec (missing '='): src"
    );
    assert_eq!(
        parse_config_file_spec("src=a,dest=b,owner=x").unwrap_err(),
        "unknown file spec key: owner"
    );
    assert_eq!(
        parse_config_file_spec("src=a,dest=b,when=never").unwrap_err(),
        "invalid command spec: invalid config when: never"
    );
}

#[test]
fn remote_destinations_and_quoting() {
    assert_eq!(resolve_remote_dest("~/x", Some("/home/a")).unwrap(), "/home/a/x");
    assert_eq!(resolve_remote_dest("~/~/x", Some("/h")).unwrap(), "/h/x");
    assert_eq!(resolve_remote_dest("/etc/x", None).unwrap(), "/etc/x");
    assert_eq!(resolve_remote_dest("~/x", None).unwrap_err(), "remote home not resolved");
    assert_eq!(shell_quote("it's"), "'it'\\''s'");
}

#[test]
fn apply_decisions_follow_the_condition() {
    assert_eq!(should_apply_config(ConfigFileWhen::Always, true, None, None), (true, "always"));
    assert_eq!(should_apply_config(ConfigFileWhen::Missing, true, None, None), (false, "exists"));
    assert_eq!(
        should_apply_config(ConfigFileWhen::Changed, true, Some("a"), Some("a")),
        (false, "unchanged")
    );
    assert_eq!(
        should_apply_config(ConfigFileWhen::Changed, true, Some("a"), Some("b")),
        (true, "changed")
    );
    assert_eq!(should_apply_config(ConfigFileWhen::Changed, true, None, Some("b")), (true, "unknown"));
    assert_eq!(should_apply_config(ConfigFileWhen::Changed, false, None, None), (true, "missing"));
}

#[test]
fn remote_answers_are_read() {
    assert_eq!(read_exists_answer("EXISTS\n"), Ok(true));
    assert_eq!(read_exists_answer("MISSING"), Ok(false));
    assert_eq!(
        read_exists_answer("huh"),
        Err("unexpected exists response: huh".to_string())
    );
    let status = read_hash_answer(" abc \n");
    assert!(status.exists);
    assert_eq!(status.sha256.as_deref(), Some("abc"));
    assert!(!read_hash_answer("MISSING").exists);
}

#[test]
fn parse_helpers_validate_known_values() {
    assert!(parse_profile_type("ssh").is_ok());
    assert!(parse_profile_type("bogus").is_err());
    assert!(parse_danger("critical").is_ok());
    assert!(parse_danger("unknown").is_err());
}
