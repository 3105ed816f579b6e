use snowchains::config::{
    parse_secs, secs_text, find_language, init_config_text, switch_replacements, switch_report, switched_yaml, Compile,
    Config, ConfigError, Console, Download, Dropbox, DropboxRepr, Judge, Language, Run,
    ServiceConfig, Session, SuiteFileExtension, SwitchedYaml, Transpile,
};
use snowchains::template::{CommandBuilder, ShellEntry, TemplateBuilder};
use snowchains::ServiceName;

fn tb(s: &str) -> TemplateBuilder {
    TemplateBuilder { text: s.to_owned() }
}

fn args(a: &[&str]) -> CommandBuilder {
    CommandBuilder::Args(a.iter().map(|s| tb(s)).collect())
}

fn cpp() -> Language {
    Language {
        src: tb("cpp/{kebab}.cpp"),
        transpile: None,
        compile: Some(Compile {
            bin: tb("cpp/build/{kebab}"),
            command: args(&["g++", "-o", "$bin", "$src"]),
            working_directory: tb("cpp"),
        }),
        run: Run { command: args(&["$bin"]), working_directory: tb("cpp"), crlf_to_lf: false },
        language_ids: vec![(ServiceName::AtCoder, "3003".to_owned())],
    }
}

fn java() -> Language {
    Language {
        src: tb("java/src/main/java/{Pascal}.java"),
        transpile: Some(Transpile {
            transpiled: tb("java/build/replaced/{lower}/src/Main.java"),
            command: CommandBuilder::Shell { shell: "bash".to_owned(), script: tb("cat \"$SRC\" > \"$TRANSPILED\"") },
            working_directory: tb("java"),
        }),
        compile: Some(Compile {
            bin: tb("java/build/replaced/{lower}/classes/Main.class"),
            command: args(&["javac", "$transpiled"]),
            working_directory: tb("java"),
        }),
        run: Run { command: args(&["java", "Main"]), working_directory: tb("java"), crlf_to_lf: true },
        language_ids: vec![(ServiceName::AtCoder, "3016".to_owned())],
    }
}

fn python3() -> Language {
    Language {
        src: tb("py/{kebab}.py"),
        transpile: None,
        compile: None,
        run: Run { command: args(&["python3", "$src"]), working_directory: tb("py"), crlf_to_lf: false },
        language_ids: vec![],
    }
}

fn config(language: Option<&str>) -> Config {
    Config {
        service: ServiceName::AtCoder,
        contest: "arc100".to_owned(),
        language: language.map(|s| s.to_owned()),
        console: Console::default(),
        testfile_path: tb("tests/$service/$contest/{snake}.$extension"),
        session: Session {
            timeout: Some(60),
            silent: false,
            cookies: tb("~/.local/share/snowchains/$service"),
            dropbox: Dropbox::default(),
            download: Download { extension: SuiteFileExtension::Yaml, text_file_dir: tb("tests/$service/$contest/{snake}") },
        },
        judge: Judge {
            jobs: 4,
            testfile_extensions: vec![SuiteFileExtension::Json, SuiteFileExtension::Yaml],
            shell: vec![ShellEntry { name: "bash".to_owned(), args: vec![tb("/bin/bash"), tb("-c"), tb("$command")] }],
        },
        services: vec![
            (
                ServiceName::AtCoder,
                ServiceConfig {
                    language: None,
                    variables: vec![("rust_version".to_owned(), "1.15.1".to_owned())],
                },
            ),
            (
                ServiceName::HackerRank,
                ServiceConfig { language: Some("python3".to_owned()), variables: vec![] },
            ),
        ],
        interactive: vec![("python3".to_owned(), python3()), ("java".to_owned(), java())],
        languages: vec![("c++".to_owned(), cpp()), ("java".to_owned(), java()), ("python3".to_owned(), python3())],
        base_dir: "/home/user/contests".to_owned(),
    }
}

fn pairs(v: &[(String, String)]) -> Vec<(&str, &str)> {
    v.iter().map(|(a, b)| (a.as_str(), b.as_str())).collect()
}

#[test]
fn load_replaces_service_and_contest() {
    let c = Config::load(Some(ServiceName::HackerRank), None, config(Some("c++")), "/work".to_owned());
    assert_eq!(c.service(), ServiceName::HackerRank);
    assert_eq!(c.contest(), "arc100");
    assert_eq!(c.base_dir, "/work");
    assert_eq!(c.judge_jobs(), 4);
    assert_eq!(c.session_timeout(), Some(60));
    assert!(!c.session_silent());
    assert!(!c.console().cjk);
}

#[test]
fn language_name_falls_back_to_service_then_top_level() {
    let c = config(Some("c++"));
    assert_eq!(c.lang_name(Some("java")).ok(), Some("java"));
    assert_eq!(c.lang_name(None).ok(), Some("c++"));
    let mut h = config(Some("c++"));
    h.service = ServiceName::HackerRank;
    assert_eq!(h.lang_name(None).ok(), Some("python3"));
    match config(None).lang_name(None) {
        Err(ConfigError::PropertyNotSet(p)) => assert_eq!(p, "language"),
        _ => panic!("expected PropertyNotSet"),
    }
}

#[test]
fn find_language_errors() {
    let c = config(None);
    assert!(matches!(find_language(&c.languages, None), Err(ConfigError::LanguageNotSpecified)));
    match find_language(&c.languages, Some("cobol")) {
        Err(ConfigError::NoSuchLanguage(n)) => assert_eq!(n, "cobol"),
        _ => panic!("expected NoSuchLanguage"),
    }
    assert_eq!(find_language(&c.languages, Some("java")).ok().map(|l| l.src.text.as_str()), Some("java/src/main/java/{Pascal}.java"));
}

#[test]
fn variables_of_languages() {
    let c = config(Some("c++"));
    assert_eq!(
        pairs(&c.vars_for_langs(None)),
        vec![("service", "atcoder"), ("contest", "arc100"), ("rust_version", "1.15.1")]
    );
    assert_eq!(pairs(&c.vars_for_langs(Some(ServiceName::AtCoderBeta))), vec![("service", "atcoder"), ("contest", "arc100")]);
}

#[test]
fn templates_of_the_session_and_downloads() {
    let c = config(Some("c++"));
    let t = c.session_cookies();
    assert_eq!(t.builder.text, "~/.local/share/snowchains/$service");
    assert_eq!(t.base_dir, "/home/user/contests");
    assert_eq!(pairs(&t.strings), vec![("service", "atcoder")]);
    assert!(c.session_dropbox_auth().is_none());
    let d = c.download_destinations(None);
    assert_eq!(d.extension, SuiteFileExtension::Yaml);
    assert_eq!(pairs(&d.scraped.strings), vec![("service", "atcoder"), ("contest", "arc100")]);
    assert_eq!(d.text_file_dir.builder.text, "tests/$service/$contest/{snake}");
    assert_eq!(c.download_destinations(Some(SuiteFileExtension::Json)).extension, SuiteFileExtension::Json);
}

#[test]
fn source_to_submit_is_the_transpiled_file_where_there_is_one() {
    let c = config(Some("c++"));
    assert_eq!(c.src_to_submit(None).ok().map(|t| t.builder.text.clone()), Some("cpp/{kebab}.cpp".to_owned()));
    assert_eq!(
        c.src_to_submit(Some("java")).ok().map(|t| t.builder.text.clone()),
        Some("java/build/replaced/{lower}/src/Main.java".to_owned())
    );
    assert_eq!(c.lang_id(ServiceName::AtCoder, Some("java")), Some("3016"));
    assert_eq!(c.lang_id(ServiceName::HackerRank, Some("java")), None);
    assert_eq!(c.lang_id(ServiceName::AtCoder, Some("cobol")), None);
}

#[test]
fn commands_of_solvers() {
    let c = config(Some("java"));
    let comp = c.solver_compilation(None).ok().unwrap().unwrap();
    assert_eq!(comp.requirements.bin.text, "java/build/replaced/{lower}/classes/Main.class");
    assert_eq!(comp.requirements.transpiled.map(|t| t.text.as_str()), Some("java/build/replaced/{lower}/src/Main.java"));
    assert_eq!(comp.requirements.shell.len(), 1);
    let run = c.solver(None).ok().unwrap();
    assert!(run.requirements.crlf_to_lf);
    assert_eq!(run.requirements.working_dir.text, "java");
    assert!(c.solver_transpilation(None).ok().unwrap().is_some());
    assert!(c.solver_transpilation(Some("c++")).ok().unwrap().is_none());
    assert!(c.solver_compilation(Some("python3")).ok().unwrap().is_none());
    assert!(c.solver(Some("cobol")).is_err());
}

#[test]
fn interactive_testers_and_loader() {
    let c = config(Some("c++"));
    let l = c.testcase_loader();
    assert_eq!(l.tester_transpilations.len(), 1);
    assert_eq!(l.tester_transpilations[0].0, "java");
    assert_eq!(l.tester_compilations.len(), 1);
    assert_eq!(l.testers.len(), 2);
    assert_eq!(l.testers[0].0, "python3");
    assert_eq!(l.extensions.len(), 2);
    let paths = c.src_paths();
    assert_eq!(paths.iter().map(|(id, t)| (*id, t.builder.text.as_str())).collect::<Vec<_>>(),
        vec![("3003", "cpp/{kebab}.cpp"), ("3016", "java/src/main/java/{Pascal}.java")]);
}

#[test]
fn dropbox_is_read_from_false_or_an_auth_path() {
    assert!(matches!(Dropbox::from_repr(DropboxRepr::Bool(false)), Ok(Dropbox::Disabled)));
    match Dropbox::from_repr(DropboxRepr::Bool(true)) {
        Err(m) => assert_eq!(m, "expected `false` or `{ auth: <string> }`"),
        Ok(_) => panic!("`true` accepted"),
    }
    match Dropbox::from_repr(Dropbox::Enabled { auth: tb("~/dropbox.json") }.to_repr()) {
        Ok(Dropbox::Enabled { auth }) => assert_eq!(auth.text, "~/dropbox.json"),
        _ => panic!("round trip failed"),
    }
}

#[test]
fn init_writes_the_default_configuration() {
    let text = init_config_text("~/cookies/$service", "~/dropbox.json", false, false);
    assert!(text.starts_with("---\nservice: atcoder\ncontest: arc100\nlanguage: c++\n"));
    assert!(text.contains("\n  dropbox : false\n  # dropbox:\n  #   auth: "));
    assert!(text.contains("\n  download:\n    extension: yaml\n"));
    assert!(text.contains("      bin: cpp/build/{kebab}\n"));
    assert!(text.ends_with("      working_directory: txt\n"));
    let enabled = init_config_text("~/cookies/$service", "~/dropbox.json", true, false);
    assert!(enabled.contains("\n  dropbox:\n    auth: "));
    assert!(!enabled.contains("dropbox : false"));
}

#[test]
fn switch_replaces_given_scalars() {
    let m = switch_replacements(Some(ServiceName::HackerRank), &Some("abc".to_owned()), &Some("rust".to_owned()), false);
    assert_eq!(pairs(&m), vec![("service", "hackerrank"), ("contest", "abc")]);
    let yaml = "---\nservice: atcoder\ncontest: arc100\n";
    match switched_yaml(yaml, false, None, &Some("abc001".to_owned()), &Some("rust".to_owned())) {
        SwitchedYaml::Replaced { yaml } => assert_eq!(yaml, "---\nlanguage: rust\nservice: atcoder\ncontest: abc001"),
        SwitchedYaml::Warning { warning, .. } => panic!("{}", warning),
    }
    match switched_yaml("service: atcoder\n", true, None, &None, &Some("rust".to_owned())) {
        SwitchedYaml::Warning { warning, yaml } => {
            assert_eq!(warning, "could not find `language` at the top level");
            assert_eq!(yaml, "service: atcoder\n");
        }
        SwitchedYaml::Replaced { .. } => panic!("replaced a missing key"),
    }
}

#[test]
fn switch_applies_given_values() {
    let mut c = config(Some("c++"));
    c.apply_switch(None, Some("abc001".to_owned()), None);
    assert_eq!(c.contest, "abc001");
    assert_eq!(c.service, ServiceName::AtCoder);
    assert_eq!(c.language.as_deref(), Some("c++"));
    c.apply_switch(Some(ServiceName::HackerRank), None, Some("rust".to_owned()));
    assert_eq!(c.service, ServiceName::HackerRank);
    assert_eq!(c.language.as_deref(), Some("rust"));
}

#[test]
fn switch_reports_changes() {
    assert_eq!(
        switch_report(ServiceName::AtCoder, "arc100", None, ServiceName::AtCoder, "abc001", Some("rust")),
        "service:  \"atcoder\" -> \"atcoder\"\ncontest:  \"arc100\"  -> \"abc001\"\nlanguage: ~         -> \"rust\"\n"
    );
}

#[test]
fn timeouts_are_seconds() {
    assert_eq!(parse_secs("60s"), Some(60));
    assert_eq!(parse_secs("+5s"), Some(5));
    assert_eq!(parse_secs("60"), None);
    assert_eq!(parse_secs("s"), None);
    assert_eq!(parse_secs("1.5s"), None);
    assert_eq!(secs_text(60), "60s");
    for n in [0u64, 1, 59, 3600, u64::MAX] {
        assert_eq!(parse_secs(&secs_text(n)), Some(n));
    }
}

#[test]
fn report_arrows_line_up() {
    let r = switch_report(ServiceName::HackerRank, "a", Some("c++"), ServiceName::AtCoder, "b", None);
    let cols: Vec<usize> = r.lines().map(|l| l.find(" -> ").unwrap()).collect();
    assert_eq!(cols.len(), 3);
    assert!(cols.iter().all(|c| *c == cols[0]));
    assert!(r.ends_with("language: \"c++\"        -> ~\n"));
}

#[test]
fn switch_report_pads_by_bytes() {
    assert_eq!(
        switch_report(ServiceName::AtCoder, "é", None, ServiceName::AtCoder, "x", None),
        "service:  \"atcoder\" -> \"atcoder\"\ncontest:  \"é\"      -> \"x\"\nlanguage: ~         -> ~\n"
    );
}

#[test]
fn init_writes_the_windows_configuration() {
    let text = init_config_text("~/cookies/$service", "~/dropbox.json", false, true);
    assert!(text.starts_with("---\nservice: atcoder\ncontest: arc100\nlanguage: c++\n\nconsole:\n  cjk: false\n  # alt_width: 100\n\ntestfile_path: "));
    assert!(text.contains("  shell:\n    cmd: ['C:\\Windows\\cmd.exe', /C, $command]\n    ps: [powershell, -Command, $command]\n"));
    assert!(text.contains("      bin: cpp/build/{kebab}.exe\n"));
    assert!(text.contains("      command: [./venv/Scripts/python.exe, $src]\n"));
    assert!(text.contains("      command: [csc, /o+, '/r:System.Numerics', '/out:$bin', $src]\n"));
    assert!(text.ends_with("      working_directory: txt\n      # crlf_to_lf: false\n"));
}

#[test]
fn service_names_parse_in_capitals() {
    assert_eq!("ATCODER".parse::<ServiceName>().ok(), Some(ServiceName::AtCoder));
    assert_eq!("ATCODERBETA".parse::<ServiceName>().ok(), Some(ServiceName::AtCoderBeta));
    assert_eq!("HACKERRANK".parse::<ServiceName>().ok(), Some(ServiceName::HackerRank));
}
