//! The configuration file: its model, the text `init` writes, the edits
//! `switch` makes, and the templates and commands built from it.
use vstd::prelude::*;
use vstd::string::StringExecFns;
use vstd::string::StrSliceExecFns;
use vstd::utf8::{encode_scalar, encode_utf8, is_ascii_chars, is_ascii_chars_encode_utf8};
use crate::{service_str, ServiceName};
use crate::text::{opt_view, pairs_view, chars_eq, chars_of, debug_str, debug_text, extend_chars, extend_str, string_of};
use crate::yaml::{
    escape_string, escaped, escaped_values, insert_language_line, keys_of, replace_error, replace_scalars,
    replaced_text, values_of, with_language_line,
};
use crate::template::{
    append_pairs, CommandBuilder, CommandTemplate, CompilationRequirements,
    JudgingRequirements, ShellEntry, Template, TemplateBuilder, TranspilationRequirements,
};

verus! {

/// The extension of a test suite file.
#[derive(Clone, Copy, Debug, PartialEq, Eq, Structural)]
pub enum SuiteFileExtension {
    Json,
    Toml,
    Yaml,
    Yml,
}

/// Settings of the terminal.
pub struct Console {
    pub cjk: bool,
    pub alt_width: Option<usize>,
}

impl Default for Console {
    fn default() -> (r: Console)
        ensures
            r.cjk == false,
            r.alt_width is None,
    {
        Console { cjk: false, alt_width: None }
    }
}

/// Where the Dropbox access token is, if Dropbox is used.
pub enum Dropbox {
    Disabled,
    Enabled { auth: TemplateBuilder },
}

impl Default for Dropbox {
    fn default() -> (r: Dropbox)
        ensures
            r is Disabled,
    {
        Dropbox::Disabled
    }
}

/// Where downloaded test cases go.
pub struct Download {
    pub extension: SuiteFileExtension,
    pub text_file_dir: TemplateBuilder,
}

/// Settings of the HTTP session.
pub struct Session {
    /// The timeout in seconds.
    pub timeout: Option<u64>,
    pub silent: bool,
    pub cookies: TemplateBuilder,
    pub dropbox: Dropbox,
    pub download: Download,
}

/// Settings of judging.
pub struct Judge {
    /// The number of jobs, never 0.
    pub jobs: usize,
    pub testfile_extensions: Vec<SuiteFileExtension>,
    pub shell: Vec<ShellEntry>,
}

/// Settings for one service.
pub struct ServiceConfig {
    pub language: Option<String>,
    pub variables: Vec<(String, String)>,
}

/// How a source file is transpiled.
pub struct Transpile {
    pub transpiled: TemplateBuilder,
    pub command: CommandBuilder,
    pub working_directory: TemplateBuilder,
}

/// How a source file is compiled.
pub struct Compile {
    pub bin: TemplateBuilder,
    pub command: CommandBuilder,
    pub working_directory: TemplateBuilder,
}

/// How a solution or tester runs.
pub struct Run {
    pub command: CommandBuilder,
    pub working_directory: TemplateBuilder,
    pub crlf_to_lf: bool,
}

/// A language of solutions or testers.
pub struct Language {
    pub src: TemplateBuilder,
    pub transpile: Option<Transpile>,
    pub compile: Option<Compile>,
    pub run: Run,
    pub language_ids: Vec<(ServiceName, String)>,
}

/// The contents of `snowchains.yaml`, with the directory it was found in.
pub struct Config {
    pub service: ServiceName,
    pub contest: String,
    pub language: Option<String>,
    pub console: Console,
    pub testfile_path: TemplateBuilder,
    pub session: Session,
    pub judge: Judge,
    pub services: Vec<(ServiceName, ServiceConfig)>,
    pub interactive: Vec<(String, Language)>,
    pub languages: Vec<(String, Language)>,
    pub base_dir: String,
}

/// Errors in what the configuration says.
#[derive(Debug)]
pub enum ConfigError {
    PropertyNotSet(String),
    LanguageNotSpecified,
    NoSuchLanguage(String),
}

/// The value of the first entry named `name`.
pub open spec fn lookup_named<V>(entries: Seq<(String, V)>, name: Seq<char>) -> Option<V>
    decreases entries.len(),
{
    if entries.len() == 0 {
        None
    } else if entries[0].0@ == name {
        Some(entries[0].1)
    } else {
        lookup_named(entries.drop_first(), name)
    }
}

/// The value of the first entry for the service `s`.
pub open spec fn lookup_service<V>(entries: Seq<(ServiceName, V)>, s: ServiceName) -> Option<V>
    decreases entries.len(),
{
    if entries.len() == 0 {
        None
    } else if entries[0].0 == s {
        Some(entries[0].1)
    } else {
        lookup_service(entries.drop_first(), s)
    }
}

/// No two entries have the same name, as in the map the file is read into.
pub open spec fn names_distinct<V>(entries: Seq<(String, V)>) -> bool {
    forall|i: int, j: int| 0 <= i < entries.len() && 0 <= j < entries.len() && i != j ==> (#[trigger] entries[i]).0@ != (#[trigger] entries[j]).0@
}

/// No two entries are for the same service, as in the map the file is read into.
pub open spec fn services_distinct<V>(entries: Seq<(ServiceName, V)>) -> bool {
    forall|i: int, j: int| 0 <= i < entries.len() && 0 <= j < entries.len() && i != j ==> (#[trigger] entries[i]).0 != (#[trigger] entries[j]).0
}

/// Where names are distinct, the value found for the name of an entry is
/// the value of that entry, wherever it stands.
pub proof fn lemma_lookup_named_unique<V>(entries: Seq<(String, V)>, i: int)
    requires
        names_distinct(entries),
        0 <= i < entries.len(),
    ensures
        lookup_named(entries, entries[i].0@) == Some(entries[i].1),
    decreases entries.len(),
{
    if i > 0 {
        let rest = entries.drop_first();
        assert(entries[0].0@ != entries[i].0@);
        assert forall|a: int, b: int| 0 <= a < rest.len() && 0 <= b < rest.len() && a != b implies (#[trigger] rest[a]).0@ != (#[trigger] rest[b]).0@ by {
            assert(rest[a] == entries[a + 1] && rest[b] == entries[b + 1]);
        }
        lemma_lookup_named_unique(rest, i - 1);
        assert(rest[i - 1] == entries[i]);
    }
}

/// Where services are distinct, the value found for the service of an entry
/// is the value of that entry, wherever it stands.
pub proof fn lemma_lookup_service_unique<V>(entries: Seq<(ServiceName, V)>, i: int)
    requires
        services_distinct(entries),
        0 <= i < entries.len(),
    ensures
        lookup_service(entries, entries[i].0) == Some(entries[i].1),
    decreases entries.len(),
{
    if i > 0 {
        let rest = entries.drop_first();
        assert(entries[0].0 != entries[i].0);
        assert forall|a: int, b: int| 0 <= a < rest.len() && 0 <= b < rest.len() && a != b implies (#[trigger] rest[a]).0 != (#[trigger] rest[b]).0 by {
            assert(rest[a] == entries[a + 1] && rest[b] == entries[b + 1]);
        }
        lemma_lookup_service_unique(rest, i - 1);
        assert(rest[i - 1] == entries[i]);
    }
}

/// Replacing the first entry named like `e` by `e`: `e`'s name now finds
/// `e`'s value, and every other name finds what it found before.
pub proof fn lemma_lookup_update_first<V>(entries: Seq<(String, V)>, k: int, e: (String, V), h: Seq<char>)
    requires
        0 <= k < entries.len(),
        entries[k].0@ == e.0@,
        forall|j: int| 0 <= j < k ==> (#[trigger] entries[j]).0@ != e.0@,
    ensures
        lookup_named(entries.update(k, e), h) == if h == e.0@ {
            Some(e.1)
        } else {
            lookup_named(entries, h)
        },
    decreases k,
{
    let u = entries.update(k, e);
    if k > 0 {
        assert(entries[0].0@ != e.0@);
        assert(u[0] == entries[0]);
        assert(u.drop_first() =~= entries.drop_first().update(k - 1, e));
        assert forall|j: int| 0 <= j < k - 1 implies (#[trigger] entries.drop_first()[j]).0@ != e.0@ by {
            assert(entries.drop_first()[j] == entries[j + 1]);
        }
        lemma_lookup_update_first(entries.drop_first(), k - 1, e, h);
    } else {
        assert(u.drop_first() =~= entries.drop_first());
    }
}

/// Appending an entry whose name no entry has: its name now finds its
/// value, and every other name finds what it found before.
pub proof fn lemma_lookup_push_absent<V>(entries: Seq<(String, V)>, e: (String, V), h: Seq<char>)
    requires
        forall|j: int| 0 <= j < entries.len() ==> (#[trigger] entries[j]).0@ != e.0@,
    ensures
        lookup_named(entries.push(e), h) == if h == e.0@ {
            Some(e.1)
        } else {
            lookup_named(entries, h)
        },
    decreases entries.len(),
{
    let p = entries.push(e);
    if entries.len() > 0 {
        assert(entries[0].0@ != e.0@);
        assert(p[0] == entries[0]);
        assert(p.drop_first() =~= entries.drop_first().push(e));
        assert forall|j: int| 0 <= j < entries.drop_first().len() implies (#[trigger] entries.drop_first()[j]).0@ != e.0@ by {
            assert(entries.drop_first()[j] == entries[j + 1]);
        }
        lemma_lookup_push_absent(entries.drop_first(), e, h);
    } else {
        assert(p.drop_first() =~= Seq::<(String, V)>::empty());
        assert(lookup_named(p.drop_first(), h) is None);
        assert(lookup_named(entries, h) is None);
        assert(p[0] == e);
    }
}

/// The index of the first entry named `name`.
pub fn first_named_index<V>(entries: &Vec<(String, V)>, name: &str) -> (r: Option<usize>)
    ensures
        match r {
            Some(k) => k < entries@.len() && entries@[k as int].0@ == name@
                && forall|j: int| 0 <= j < k ==> (#[trigger] entries@[j]).0@ != name@,
            None => forall|j: int| 0 <= j < entries@.len() ==> (#[trigger] entries@[j]).0@ != name@,
        },
{
    let n = chars_of(name);
    let mut i: usize = 0;
    while i < entries.len()
        invariant
            i <= entries.len(),
            n@ == name@,
            forall|j: int| 0 <= j < i ==> (#[trigger] entries@[j]).0@ != name@,
        decreases entries.len() - i,
    {
        if chars_eq(&chars_of(entries[i].0.as_str()), &n) {
            return Some(i);
        }
        i = i + 1;
    }
    None
}

/// The value of the first entry named `name`.
pub fn find_named<'a, V>(entries: &'a Vec<(String, V)>, name: &str) -> (r: Option<&'a V>)
    ensures
        match r {
            Some(v) => lookup_named(entries@, name@) == Some(*v),
            None => lookup_named(entries@, name@) is None,
        },
{
    let n = chars_of(name);
    let mut i: usize = 0;
    assert(entries@.skip(0) =~= entries@);
    while i < entries.len()
        invariant
            i <= entries.len(),
            n@ == name@,
            lookup_named(entries@, name@) == lookup_named(entries@.skip(i as int), name@),
        decreases entries.len() - i,
    {
        assert(entries@.skip(i as int).drop_first() =~= entries@.skip(i as int + 1));
        if chars_eq(&chars_of(entries[i].0.as_str()), &n) {
            return Some(&entries[i].1);
        }
        i = i + 1;
    }
    None
}

/// The value of the first entry for the service `s`.
pub fn find_service<'a, V>(entries: &'a Vec<(ServiceName, V)>, s: ServiceName) -> (r: Option<&'a V>)
    ensures
        match r {
            Some(v) => lookup_service(entries@, s) == Some(*v),
            None => lookup_service(entries@, s) is None,
        },
{
    let mut i: usize = 0;
    assert(entries@.skip(0) =~= entries@);
    while i < entries.len()
        invariant
            i <= entries.len(),
            lookup_service(entries@, s) == lookup_service(entries@.skip(i as int), s),
        decreases entries.len() - i,
    {
        assert(entries@.skip(i as int).drop_first() =~= entries@.skip(i as int + 1));
        if entries[i].0 == s {
            return Some(&entries[i].1);
        }
        i = i + 1;
    }
    None
}

/// The characters of an optional string slice.
pub open spec fn opt_str(o: Option<&str>) -> Option<Seq<char>> {
    match o {
        Some(t) => Some(t@),
        None => None,
    }
}

/// The language named `default_lang` among `langs`.
pub fn find_language<'a>(langs: &'a Vec<(String, Language)>, default_lang: Option<&str>) -> (r: Result<&'a Language, ConfigError>)
    ensures
        match default_lang {
            None => r matches Err(ConfigError::LanguageNotSpecified),
            Some(name) => match lookup_named(langs@, name@) {
                Some(l) => r matches Ok(x) && *x == l,
                None => r matches Err(ConfigError::NoSuchLanguage(n)) && n@ == name@,
            },
        },
{
    let name = match default_lang {
        Some(name) => name,
        None => return Err(ConfigError::LanguageNotSpecified),
    };
    match find_named(langs, name) {
        Some(l) => Ok(l),
        None => Err(ConfigError::NoSuchLanguage(String::from_str(name))),
    }
}


/// The language set for the current service, if any.
pub open spec fn service_language(c: Config) -> Option<Seq<char>> {
    match lookup_service(c.services@, c.service) {
        Some(sc) => match sc.language {
            Some(l) => Some(l@),
            None => None,
        },
        None => None,
    }
}

/// The name of the language to use: the one given, or else the one set for
/// the current service, or else the one set at the top level.
pub open spec fn lang_name_spec(c: Config, name: Option<Seq<char>>) -> Option<Seq<char>> {
    if name is Some {
        name
    } else if service_language(c) is Some {
        service_language(c)
    } else {
        match c.language {
            Some(l) => Some(l@),
            None => None,
        }
    }
}

/// The language to use, where there is one.
pub open spec fn chosen_language(c: Config, name: Option<Seq<char>>) -> Option<Language> {
    match lang_name_spec(c, name) {
        Some(n) => lookup_named(c.languages@, n),
        None => None,
    }
}

/// `e` is the error for a language that cannot be chosen: no name is set, or
/// no language has the name.
pub open spec fn language_error(c: Config, name: Option<Seq<char>>, e: ConfigError) -> bool {
    match lang_name_spec(c, name) {
        None => e matches ConfigError::PropertyNotSet(p) && p@ == "language"@,
        Some(n) => e matches ConfigError::NoSuchLanguage(m) && m@ == n,
    }
}

/// The variables that language templates are filled with: `service` and
/// `contest`, then those set for the service `s`, a later one overriding an
/// earlier one.
pub open spec fn lang_vars(c: Config, s: ServiceName) -> Seq<(Seq<char>, Seq<char>)> {
    seq![("service"@, service_str(c.service)), ("contest"@, c.contest@)] + match lookup_service(c.services@, s) {
        Some(sc) => pairs_view(sc.variables@),
        None => Seq::empty(),
    }
}

/// The variables `service` and `contest`.
pub open spec fn service_contest_vars(c: Config) -> Seq<(Seq<char>, Seq<char>)> {
    seq![("service"@, service_str(c.service)), ("contest"@, c.contest@)]
}

/// The variable `service`.
pub open spec fn service_vars(c: Config) -> Seq<(Seq<char>, Seq<char>)> {
    seq![("service"@, service_str(c.service))]
}

/// `t` is the template `b` resolved against the base directory of `c` and
/// filled with `vars`.
pub open spec fn is_template(c: Config, b: TemplateBuilder, vars: Seq<(Seq<char>, Seq<char>)>, t: Template) -> bool {
    &&& *t.builder == b
    &&& t.base_dir@ == c.base_dir@
    &&& pairs_view(t.strings@) == vars
}

/// `t` is the transpilation command of `lang`, which has one.
pub open spec fn is_transpilation(c: Config, lang: Language, t: CommandTemplate<TranspilationRequirements>) -> bool {
    &&& lang.transpile is Some
    &&& *t.command == lang.transpile->0.command
    &&& t.requirements.base_dir@ == c.base_dir@
    &&& *t.requirements.shell == c.judge.shell
    &&& *t.requirements.working_dir == lang.transpile->0.working_directory
    &&& *t.requirements.src == lang.src
    &&& *t.requirements.transpiled == lang.transpile->0.transpiled
    &&& pairs_view(t.strings@) == lang_vars(c, c.service)
}

/// `t` is the compilation command of `lang`, which has one.
pub open spec fn is_compilation(c: Config, lang: Language, t: CommandTemplate<CompilationRequirements>) -> bool {
    &&& lang.compile is Some
    &&& *t.command == lang.compile->0.command
    &&& t.requirements.base_dir@ == c.base_dir@
    &&& *t.requirements.shell == c.judge.shell
    &&& *t.requirements.working_dir == lang.compile->0.working_directory
    &&& *t.requirements.src == lang.src
    &&& match t.requirements.transpiled {
        Some(x) => lang.transpile is Some && *x == lang.transpile->0.transpiled,
        None => lang.transpile is None,
    }
    &&& *t.requirements.bin == lang.compile->0.bin
    &&& pairs_view(t.strings@) == lang_vars(c, c.service)
}

/// `t` is the command that runs `lang`.
pub open spec fn is_judge_command(c: Config, lang: Language, t: CommandTemplate<JudgingRequirements>) -> bool {
    &&& *t.command == lang.run.command
    &&& t.requirements.base_dir@ == c.base_dir@
    &&& *t.requirements.shell == c.judge.shell
    &&& *t.requirements.working_dir == lang.run.working_directory
    &&& *t.requirements.src == lang.src
    &&& match t.requirements.bin {
        Some(x) => lang.compile is Some && *x == lang.compile->0.bin,
        None => lang.compile is None,
    }
    &&& match t.requirements.transpiled {
        Some(x) => lang.transpile is Some && *x == lang.transpile->0.transpiled,
        None => lang.transpile is None,
    }
    &&& t.requirements.crlf_to_lf == lang.run.crlf_to_lf
    &&& pairs_view(t.strings@) == lang_vars(c, c.service)
}

/// The command that runs a language carries what the language is built
/// into: the bin of its compile section exactly where it has one, the
/// transpiled file of its transpile section exactly where it has one, its
/// source, its run command and working directory, and its `crlf_to_lf`.
pub proof fn lemma_judge_command_carries_build(c: Config, lang: Language, t: CommandTemplate<JudgingRequirements>)
    requires
        is_judge_command(c, lang, t),
    ensures
        match lang.compile {
            Some(comp) => t.requirements.bin matches Some(b) && *b == comp.bin,
            None => t.requirements.bin is None,
        },
        match lang.transpile {
            Some(tr) => t.requirements.transpiled matches Some(x) && *x == tr.transpiled,
            None => t.requirements.transpiled is None,
        },
        *t.requirements.src == lang.src,
        *t.command == lang.run.command,
        *t.requirements.working_dir == lang.run.working_directory,
        t.requirements.crlf_to_lf == lang.run.crlf_to_lf,
        *t.requirements.shell == c.judge.shell,
{
}

/// The compilation command of a language carries its compile section's bin
/// and command, and the transpiled file exactly where the language is
/// transpiled.
pub proof fn lemma_compilation_carries_build(c: Config, lang: Language, t: CommandTemplate<CompilationRequirements>)
    requires
        is_compilation(c, lang, t),
    ensures
        lang.compile matches Some(comp) && *t.requirements.bin == comp.bin && *t.command == comp.command
            && *t.requirements.working_dir == comp.working_directory,
        match lang.transpile {
            Some(tr) => t.requirements.transpiled matches Some(x) && *x == tr.transpiled,
            None => t.requirements.transpiled is None,
        },
        *t.requirements.src == lang.src,
{
}

/// The transpilation command of a language carries its transpile section's
/// command and transpiled file.
pub proof fn lemma_transpilation_carries_build(c: Config, lang: Language, t: CommandTemplate<TranspilationRequirements>)
    requires
        is_transpilation(c, lang, t),
    ensures
        lang.transpile matches Some(tr) && *t.requirements.transpiled == tr.transpiled && *t.command == tr.command
            && *t.requirements.working_dir == tr.working_directory,
        *t.requirements.src == lang.src,
{
}

/// Where downloaded test cases are written.
pub struct DownloadDestinations<'a> {
    pub scraped: Template<'a>,
    pub text_file_dir: Template<'a>,
    pub extension: SuiteFileExtension,
}

/// Where test cases are read from, and the commands of interactive testers.
pub struct TestCaseLoader<'a> {
    pub path: Template<'a>,
    pub extensions: &'a Vec<SuiteFileExtension>,
    pub tester_transpilations: Vec<(String, CommandTemplate<'a, TranspilationRequirements<'a>>)>,
    pub tester_compilations: Vec<(String, CommandTemplate<'a, CompilationRequirements<'a>>)>,
    pub testers: Vec<(String, CommandTemplate<'a, JudgingRequirements<'a>>)>,
}

/// The entries of `entries` whose language has a transpilation.
pub open spec fn with_transpile(entries: Seq<(String, Language)>) -> Seq<(String, Language)>
    decreases entries.len(),
{
    if entries.len() == 0 {
        entries
    } else if entries.last().1.transpile is Some {
        with_transpile(entries.drop_last()).push(entries.last())
    } else {
        with_transpile(entries.drop_last())
    }
}

/// The entries of `entries` whose language has a compilation.
pub open spec fn with_compile(entries: Seq<(String, Language)>) -> Seq<(String, Language)>
    decreases entries.len(),
{
    if entries.len() == 0 {
        entries
    } else if entries.last().1.compile is Some {
        with_compile(entries.drop_last()).push(entries.last())
    } else {
        with_compile(entries.drop_last())
    }
}

/// The languages of `entries` with an id on AtCoder, each with that id.
pub open spec fn with_atcoder_id(entries: Seq<(String, Language)>) -> Seq<(Seq<char>, Language)>
    decreases entries.len(),
{
    if entries.len() == 0 {
        Seq::empty()
    } else {
        let rest = with_atcoder_id(entries.drop_last());
        match lookup_service(entries.last().1.language_ids@, ServiceName::AtCoder) {
            Some(id) => rest.push((id@, entries.last().1)),
            None => rest,
        }
    }
}

impl ServiceConfig {
    /// No variable is set twice.
    pub open spec fn wf(&self) -> bool {
        names_distinct(self.variables@)
    }
}

impl Language {
    /// No service has two language ids.
    pub open spec fn wf(&self) -> bool {
        services_distinct(self.language_ids@)
    }
}

impl Config {
    /// Every table of the configuration holds each key once, as the maps
    /// the file is read into do.
    pub open spec fn wf(&self) -> bool {
        &&& services_distinct(self.services@)
        &&& names_distinct(self.interactive@)
        &&& names_distinct(self.languages@)
        &&& forall|i: int| 0 <= i < self.services@.len() ==> (#[trigger] self.services@[i]).1.wf()
        &&& forall|i: int| 0 <= i < self.interactive@.len() ==> (#[trigger] self.interactive@[i]).1.wf()
        &&& forall|i: int| 0 <= i < self.languages@.len() ==> (#[trigger] self.languages@[i]).1.wf()
    }

    /// The configuration read from the file found in `base_dir`, with the
    /// service and the contest replaced by those given.
    pub fn load(service: Option<ServiceName>, contest: Option<String>, config: Config, base_dir: String) -> (r: Config)
        ensures
            r.service == (match service {
                Some(s) => s,
                None => config.service,
            }),
            r.contest == (match contest {
                Some(c) => c,
                None => config.contest,
            }),
            r.base_dir == base_dir,
            config.wf() ==> r.wf(),
            r.language == config.language,
            r.console == config.console,
            r.testfile_path == config.testfile_path,
            r.session == config.session,
            r.judge == config.judge,
            r.services == config.services,
            r.interactive == config.interactive,
            r.languages == config.languages,
    {
        let mut config = config;
        config.base_dir = base_dir;
        if let Some(s) = service {
            config.service = s;
        }
        if let Some(c) = contest {
            config.contest = c;
        }
        config
    }

    /// The service.
    pub fn service(&self) -> (r: ServiceName)
        ensures
            r == self.service,
    {
        self.service
    }

    /// The contest.
    pub fn contest(&self) -> (r: &str)
        ensures
            r@ == self.contest@,
    {
        self.contest.as_str()
    }

    /// The settings of the terminal.
    pub fn console(&self) -> (r: &Console)
        ensures
            *r == self.console,
    {
        &self.console
    }

    /// `session.timeout`, in seconds.
    pub fn session_timeout(&self) -> (r: Option<u64>)
        ensures
            r == self.session.timeout,
    {
        self.session.timeout
    }

    /// `session.silent`.
    pub fn session_silent(&self) -> (r: bool)
        ensures
            r == self.session.silent,
    {
        self.session.silent
    }

    /// `judge.jobs`.
    pub fn judge_jobs(&self) -> (r: usize)
        ensures
            r == self.judge.jobs,
    {
        self.judge.jobs
    }

    /// A template of `builder` resolved against the base directory.
    fn template<'a>(&self, builder: &'a TemplateBuilder, strings: Vec<(String, String)>) -> (r: Template<'a>)
        ensures
            is_template(*self, *builder, pairs_view(strings@), r),
    {
        Template { builder, base_dir: self.base_dir.clone(), strings }
    }

    /// The variable `service`.
    fn service_strings(&self) -> (r: Vec<(String, String)>)
        ensures
            pairs_view(r@) == service_vars(*self),
    {
        let mut v: Vec<(String, String)> = Vec::new();
        v.push((String::from_str("service"), self.service.to_string()));
        assert(pairs_view(v@) =~= service_vars(*self));
        v
    }

    /// The variables `service` and `contest`.
    fn service_contest_strings(&self) -> (r: Vec<(String, String)>)
        ensures
            pairs_view(r@) == service_contest_vars(*self),
    {
        let mut v: Vec<(String, String)> = Vec::new();
        v.push((String::from_str("service"), String::from_str(self.service.as_str())));
        v.push((String::from_str("contest"), self.contest.clone()));
        assert(pairs_view(v@) =~= service_contest_vars(*self));
        v
    }

    /// `session.cookies`, filled with the service.
    pub fn session_cookies(&self) -> (r: Template<'_>)
        ensures
            is_template(*self, self.session.cookies, service_vars(*self), r),
    {
        self.template(&self.session.cookies, self.service_strings())
    }

    /// `session.dropbox.auth`, filled with the service, where Dropbox is used.
    pub fn session_dropbox_auth(&self) -> (r: Option<Template<'_>>)
        ensures
            match self.session.dropbox {
                Dropbox::Disabled => r is None,
                Dropbox::Enabled { auth } => r matches Some(t) && is_template(*self, auth, service_vars(*self), t),
            },
    {
        match &self.session.dropbox {
            Dropbox::Disabled => None,
            Dropbox::Enabled { auth } => Some(self.template(auth, self.service_strings())),
        }
    }

    /// Where downloaded test cases go: the test file path and the directory
    /// of text files, filled with the service and the contest, and the
    /// extension given or else the one set.
    pub fn download_destinations(&self, ext: Option<SuiteFileExtension>) -> (r: DownloadDestinations<'_>)
        ensures
            is_template(*self, self.testfile_path, service_contest_vars(*self), r.scraped),
            is_template(*self, self.session.download.text_file_dir, service_contest_vars(*self), r.text_file_dir),
            r.extension == (match ext {
                Some(e) => e,
                None => self.session.download.extension,
            }),
    {
        let scraped = self.template(&self.testfile_path, self.service_contest_strings());
        let text_file_dir = self.template(&self.session.download.text_file_dir, self.service_contest_strings());
        let extension = match ext {
            Some(e) => e,
            None => self.session.download.extension,
        };
        DownloadDestinations { scraped, text_file_dir, extension }
    }

    /// The variables that language templates are filled with.
    pub fn vars_for_langs(&self, service: Option<ServiceName>) -> (r: Vec<(String, String)>)
        ensures
            pairs_view(r@) == lang_vars(*self, match service {
                Some(s) => s,
                None => self.service,
            }),
    {
        let s = match service {
            Some(s) => s,
            None => self.service,
        };
        let mut v = self.service_contest_strings();
        match find_service(&self.services, s) {
            Some(sc) => {
                append_pairs(&mut v, &sc.variables);
            },
            None => {
                assert(pairs_view(v@) =~= lang_vars(*self, s));
            },
        }
        v
    }

    /// The name of the language to use.
    pub fn lang_name<'a>(&'a self, name: Option<&'a str>) -> (r: Result<&'a str, ConfigError>)
        ensures
            match lang_name_spec(*self, opt_str(name)) {
                Some(n) => r matches Ok(x) && x@ == n,
                None => r matches Err(e) && language_error(*self, opt_str(name), e),
            },
    {
        if let Some(n) = name {
            return Ok(n);
        }
        if let Some(sc) = find_service(&self.services, self.service) {
            if let Some(l) = &sc.language {
                return Ok(l.as_str());
            }
        }
        match &self.language {
            Some(l) => Ok(l.as_str()),
            None => Err(ConfigError::PropertyNotSet(String::from_str("language"))),
        }
    }

    /// The language to use.
    fn chosen_language<'a>(&'a self, lang: Option<&'a str>) -> (r: Result<&'a Language, ConfigError>)
        ensures
            match chosen_language(*self, opt_str(lang)) {
                Some(l) => r matches Ok(x) && *x == l,
                None => r matches Err(e) && language_error(*self, opt_str(lang), e),
            },
    {
        let name = self.lang_name(lang)?;
        find_language(&self.languages, Some(name))
    }

    /// The transpilation command of `lang`, if it has one.
    pub fn transpilation_command<'a>(&'a self, lang: &'a Language) -> (r: Option<CommandTemplate<'a, TranspilationRequirements<'a>>>)
        ensures
            match r {
                Some(t) => is_transpilation(*self, *lang, t),
                None => lang.transpile is None,
            },
    {
        match &lang.transpile {
            None => None,
            Some(transpile) => Some(CommandTemplate {
                command: &transpile.command,
                requirements: TranspilationRequirements {
                    base_dir: self.base_dir.clone(),
                    shell: &self.judge.shell,
                    working_dir: &transpile.working_directory,
                    src: &lang.src,
                    transpiled: &transpile.transpiled,
                },
                strings: self.vars_for_langs(None),
            }),
        }
    }

    /// The compilation command of `lang`, if it has one.
    pub fn compilation_command<'a>(&'a self, lang: &'a Language) -> (r: Option<CommandTemplate<'a, CompilationRequirements<'a>>>)
        ensures
            match r {
                Some(t) => is_compilation(*self, *lang, t),
                None => lang.compile is None,
            },
    {
        match &lang.compile {
            None => None,
            Some(compile) => Some(CommandTemplate {
                command: &compile.command,
                requirements: CompilationRequirements {
                    base_dir: self.base_dir.clone(),
                    shell: &self.judge.shell,
                    working_dir: &compile.working_directory,
                    src: &lang.src,
                    transpiled: match &lang.transpile {
                        Some(t) => Some(&t.transpiled),
                        None => None,
                    },
                    bin: &compile.bin,
                },
                strings: self.vars_for_langs(None),
            }),
        }
    }

    /// The command that runs `lang`.
    pub fn judge_command<'a>(&'a self, lang: &'a Language) -> (r: CommandTemplate<'a, JudgingRequirements<'a>>)
        ensures
            is_judge_command(*self, *lang, r),
    {
        CommandTemplate {
            command: &lang.run.command,
            requirements: JudgingRequirements {
                base_dir: self.base_dir.clone(),
                shell: &self.judge.shell,
                working_dir: &lang.run.working_directory,
                src: &lang.src,
                bin: match &lang.compile {
                    Some(c) => Some(&c.bin),
                    None => None,
                },
                transpiled: match &lang.transpile {
                    Some(t) => Some(&t.transpiled),
                    None => None,
                },
                crlf_to_lf: lang.run.crlf_to_lf,
            },
            strings: self.vars_for_langs(None),
        }
    }

    /// The source file to submit: the transpiled file where the language is
    /// transpiled, else the source file, filled with the language variables.
    pub fn src_to_submit<'a>(&'a self, lang: Option<&'a str>) -> (r: Result<Template<'a>, ConfigError>)
        ensures
            match chosen_language(*self, opt_str(lang)) {
                Some(l) => r matches Ok(t) && is_template(*self, match l.transpile {
                    Some(tr) => tr.transpiled,
                    None => l.src,
                }, lang_vars(*self, self.service), t),
                None => r matches Err(e) && language_error(*self, opt_str(lang), e),
            },
    {
        let l = self.chosen_language(lang)?;
        let builder = match &l.transpile {
            None => &l.src,
            Some(transpile) => &transpile.transpiled,
        };
        Ok(self.template(builder, self.vars_for_langs(None)))
    }

    /// The id of the language to use on the service `service`.
    pub fn lang_id<'a>(&'a self, service: ServiceName, lang: Option<&'a str>) -> (r: Option<&'a str>)
        ensures
            match chosen_language(*self, opt_str(lang)) {
                Some(l) => match lookup_service(l.language_ids@, service) {
                    Some(id) => r matches Some(x) && x@ == id@,
                    None => r is None,
                },
                None => r is None,
            },
    {
        let l = match self.chosen_language(lang) {
            Ok(l) => l,
            Err(_) => return None,
        };
        match find_service(&l.language_ids, service) {
            Some(id) => Some(id.as_str()),
            None => None,
        }
    }

    /// The compilation command of the language to use, if it has one.
    pub fn solver_compilation<'a>(&'a self, lang: Option<&'a str>) -> (r: Result<Option<CommandTemplate<'a, CompilationRequirements<'a>>>, ConfigError>)
        ensures
            match chosen_language(*self, opt_str(lang)) {
                Some(l) => r matches Ok(o) && match o {
                    Some(t) => is_compilation(*self, l, t),
                    None => l.compile is None,
                },
                None => r matches Err(e) && language_error(*self, opt_str(lang), e),
            },
    {
        let l = self.chosen_language(lang)?;
        Ok(self.compilation_command(l))
    }

    /// The transpilation command of the language to use, if it has one.
    pub fn solver_transpilation<'a>(&'a self, lang: Option<&'a str>) -> (r: Result<Option<CommandTemplate<'a, TranspilationRequirements<'a>>>, ConfigError>)
        ensures
            match chosen_language(*self, opt_str(lang)) {
                Some(l) => r matches Ok(o) && match o {
                    Some(t) => is_transpilation(*self, l, t),
                    None => l.transpile is None,
                },
                None => r matches Err(e) && language_error(*self, opt_str(lang), e),
            },
    {
        let l = self.chosen_language(lang)?;
        Ok(self.transpilation_command(l))
    }

    /// The command that runs the language to use.
    pub fn solver<'a>(&'a self, lang: Option<&'a str>) -> (r: Result<CommandTemplate<'a, JudgingRequirements<'a>>, ConfigError>)
        ensures
            match chosen_language(*self, opt_str(lang)) {
                Some(l) => r matches Ok(t) && is_judge_command(*self, l, t),
                None => r matches Err(e) && language_error(*self, opt_str(lang), e),
            },
    {
        let l = self.chosen_language(lang)?;
        Ok(self.judge_command(l))
    }

    /// The transpilation commands of the interactive testers that have one,
    /// each with the tester's name, in the order of the configuration.
    pub fn interactive_tester_transpilations(&self) -> (r: Vec<(String, CommandTemplate<'_, TranspilationRequirements<'_>>)>)
        ensures
            r@.len() == with_transpile(self.interactive@).len(),
            forall|k: int| 0 <= k < r@.len() ==> {
                &&& (#[trigger] r@[k]).0@ == with_transpile(self.interactive@)[k].0@
                &&& is_transpilation(*self, with_transpile(self.interactive@)[k].1, r@[k].1)
            },
    {
        let mut r: Vec<(String, CommandTemplate<'_, TranspilationRequirements<'_>>)> = Vec::new();
        let mut i: usize = 0;
        while i < self.interactive.len()
            invariant
                i <= self.interactive.len(),
                r@.len() == with_transpile(self.interactive@.take(i as int)).len(),
                forall|k: int| 0 <= k < r@.len() ==> {
                    &&& (#[trigger] r@[k]).0@ == with_transpile(self.interactive@.take(i as int))[k].0@
                    &&& is_transpilation(*self, with_transpile(self.interactive@.take(i as int))[k].1, r@[k].1)
                },
            decreases self.interactive.len() - i,
        {
            let ghost before = self.interactive@.take(i as int);
            assert(self.interactive@.take(i as int + 1).drop_last() =~= before);
            let (name, lang) = (&self.interactive[i].0, &self.interactive[i].1);
            if let Some(t) = self.transpilation_command(lang) {
                r.push((name.clone(), t));
            }
            i = i + 1;
        }
        assert(self.interactive@.take(self.interactive.len() as int) =~= self.interactive@);
        r
    }

    /// The compilation commands of the interactive testers that have one,
    /// each with the tester's name, in the order of the configuration.
    pub fn interactive_tester_compilations(&self) -> (r: Vec<(String, CommandTemplate<'_, CompilationRequirements<'_>>)>)
        ensures
            r@.len() == with_compile(self.interactive@).len(),
            forall|k: int| 0 <= k < r@.len() ==> {
                &&& (#[trigger] r@[k]).0@ == with_compile(self.interactive@)[k].0@
                &&& is_compilation(*self, with_compile(self.interactive@)[k].1, r@[k].1)
            },
    {
        let mut r: Vec<(String, CommandTemplate<'_, CompilationRequirements<'_>>)> = Vec::new();
        let mut i: usize = 0;
        while i < self.interactive.len()
            invariant
                i <= self.interactive.len(),
                r@.len() == with_compile(self.interactive@.take(i as int)).len(),
                forall|k: int| 0 <= k < r@.len() ==> {
                    &&& (#[trigger] r@[k]).0@ == with_compile(self.interactive@.take(i as int))[k].0@
                    &&& is_compilation(*self, with_compile(self.interactive@.take(i as int))[k].1, r@[k].1)
                },
            decreases self.interactive.len() - i,
        {
            let ghost before = self.interactive@.take(i as int);
            assert(self.interactive@.take(i as int + 1).drop_last() =~= before);
            let (name, lang) = (&self.interactive[i].0, &self.interactive[i].1);
            if let Some(t) = self.compilation_command(lang) {
                r.push((name.clone(), t));
            }
            i = i + 1;
        }
        assert(self.interactive@.take(self.interactive.len() as int) =~= self.interactive@);
        r
    }

    /// The commands that run the interactive testers, each with the
    /// tester's name, in the order of the configuration.
    pub fn interactive_testers(&self) -> (r: Vec<(String, CommandTemplate<'_, JudgingRequirements<'_>>)>)
        ensures
            r@.len() == self.interactive@.len(),
            forall|k: int| 0 <= k < r@.len() ==> {
                &&& (#[trigger] r@[k]).0@ == self.interactive@[k].0@
                &&& is_judge_command(*self, self.interactive@[k].1, r@[k].1)
            },
    {
        let mut r: Vec<(String, CommandTemplate<'_, JudgingRequirements<'_>>)> = Vec::new();
        let mut i: usize = 0;
        while i < self.interactive.len()
            invariant
                i <= self.interactive.len(),
                r@.len() == i,
                forall|k: int| 0 <= k < r@.len() ==> {
                    &&& (#[trigger] r@[k]).0@ == self.interactive@[k].0@
                    &&& is_judge_command(*self, self.interactive@[k].1, r@[k].1)
                },
            decreases self.interactive.len() - i,
        {
            let (name, lang) = (&self.interactive[i].0, &self.interactive[i].1);
            r.push((name.clone(), self.judge_command(lang)));
            i = i + 1;
        }
        r
    }

    /// Where test cases are read from (the test file path filled with the
    /// service and the contest), the extensions of test files, and the
    /// commands of the interactive testers.
    pub fn testcase_loader(&self) -> (r: TestCaseLoader<'_>)
        ensures
            is_template(*self, self.testfile_path, service_contest_vars(*self), r.path),
            *r.extensions == self.judge.testfile_extensions,
            r.tester_transpilations@.len() == with_transpile(self.interactive@).len(),
            forall|k: int| 0 <= k < r.tester_transpilations@.len() ==> {
                &&& (#[trigger] r.tester_transpilations@[k]).0@ == with_transpile(self.interactive@)[k].0@
                &&& is_transpilation(*self, with_transpile(self.interactive@)[k].1, r.tester_transpilations@[k].1)
            },
            r.tester_compilations@.len() == with_compile(self.interactive@).len(),
            forall|k: int| 0 <= k < r.tester_compilations@.len() ==> {
                &&& (#[trigger] r.tester_compilations@[k]).0@ == with_compile(self.interactive@)[k].0@
                &&& is_compilation(*self, with_compile(self.interactive@)[k].1, r.tester_compilations@[k].1)
            },
            r.testers@.len() == self.interactive@.len(),
            forall|k: int| 0 <= k < r.testers@.len() ==> {
                &&& (#[trigger] r.testers@[k]).0@ == self.interactive@[k].0@
                &&& is_judge_command(*self, self.interactive@[k].1, r.testers@[k].1)
            },
    {
        TestCaseLoader {
            path: self.template(&self.testfile_path, self.service_contest_strings()),
            extensions: &self.judge.testfile_extensions,
            tester_transpilations: self.interactive_tester_transpilations(),
            tester_compilations: self.interactive_tester_compilations(),
            testers: self.interactive_testers(),
        }
    }

    /// The source file templates of the languages with an id on AtCoder,
    /// each with that id, filled with the language variables, in the order
    /// of the configuration.
    pub fn src_paths(&self) -> (r: Vec<(&str, Template<'_>)>)
        ensures
            r@.len() == with_atcoder_id(self.languages@).len(),
            forall|k: int| 0 <= k < r@.len() ==> {
                &&& (#[trigger] r@[k]).0@ == with_atcoder_id(self.languages@)[k].0
                &&& is_template(*self, with_atcoder_id(self.languages@)[k].1.src, lang_vars(*self, self.service), r@[k].1)
            },
    {
        let mut r: Vec<(&str, Template<'_>)> = Vec::new();
        let mut i: usize = 0;
        while i < self.languages.len()
            invariant
                i <= self.languages.len(),
                r@.len() == with_atcoder_id(self.languages@.take(i as int)).len(),
                forall|k: int| 0 <= k < r@.len() ==> {
                    &&& (#[trigger] r@[k]).0@ == with_atcoder_id(self.languages@.take(i as int))[k].0
                    &&& is_template(*self, with_atcoder_id(self.languages@.take(i as int))[k].1.src, lang_vars(*self, self.service), r@[k].1)
                },
            decreases self.languages.len() - i,
        {
            let ghost before = self.languages@.take(i as int);
            assert(self.languages@.take(i as int + 1).drop_last() =~= before);
            let lang = &self.languages[i].1;
            if let Some(id) = find_service(&lang.language_ids, ServiceName::AtCoder) {
                let t = self.template(&lang.src, self.vars_for_langs(None));
                r.push((id.as_str(), t));
            }
            i = i + 1;
        }
        assert(self.languages@.take(self.languages.len() as int) =~= self.languages@);
        r
    }
}

/// The text of `snowchains.yaml` that `init` writes, up to the console settings.
pub const CONFIG_HEAD: &'static str = r#"---
service: atcoder
contest: arc100
language: c++

console:
  cjk: false"#;

/// The console setting that `init` writes, commented out, on Windows.
pub const CONSOLE_ALT_WIDTH_WINDOWS: &'static str = "\n  # alt_width: 100";

/// The text of `snowchains.yaml` that `init` writes, from the console
/// settings up to the line of the cookies path.
pub const CONFIG_SESSION_HEAD: &'static str = r#"

testfile_path: tests/$service/$contest/{snake}.$extension

session:
  timeout: 60s
  silent: false
"#;


/// The text of `snowchains.yaml` that `init` writes, from the line after the
/// Dropbox settings.
pub const CONFIG_TAIL: &'static str = r#"  download:
    extension: yaml
    text_file_dir: tests/$service/$contest/{snake}

judge:
  jobs: 4
  testfile_extensions: [json, toml, yaml, yml]
  shell:
    bash: [/bin/bash, -c, $command]

services:
  atcoder:
    # language: c++
    variables:
      rust_version: 1.15.1
  hackerrank:
    # language: c++
    variables:
      rust_version: 1.29.1
  yukicoder:
    # language: c++
    variables:
      rust_version: 1.30.1
  other:
    # language: c++
    variables:
      rust_version: stable

interactive:
  python3:
    src: testers/py/test-{kebab}.py
    run:
      command: [./venv/bin/python3, $src, $1, $2, $3, $4, $5, $6, $7, $8, $9]
      working_directory: testers/py
  haskell:
    src: testers/hs/app/Test{Pascal}.hs
    compile:
      bin: testers/hs/target/Test{Pascal}
      command: [stack, ghc, --, -O2, -o, $bin, $src]
      working_directory: testers/hs
    run:
      command: [$bin, $1, $2, $3, $4, $5, $6, $7, $8, $9]
      working_directory: testers/hs

languages:
  c++:
    src: cpp/{kebab}.cpp     # source file to test and to submit
    compile:                 # optional
      bin: cpp/build/{kebab}
      command: [g++, -std=c++14, -Wall, -Wextra, -g, -fsanitize=undefined, -D_GLIBCXX_DEBUG, -o, $bin, $src]
      working_directory: cpp # default: "."
    run:
      command: [$bin]
      working_directory: cpp # default: "."
    language_ids:            # optional
      atcoder: 3003          # "C++14 (GCC x.x.x)"
      yukicoder: cpp14       # "C++14 (gcc x.x.x)"
  rust:
    src: rs/src/bin/{kebab}.rs
    compile:
      bin: rs/target/manually/{kebab}
      command: [rustc, +$rust_version, -o, $bin, $src]
      working_directory: rs
    run:
      command: [$bin]
      working_directory: rs
    # language_ids:
    #   atcoder: 3504   # "Rust (x.x.x)"
    #   yukicoder: rust # "Rust (x.x.x)"
  go:
    src: go/{kebab}.go
    compile:
      bin: go/{kebab}
      command: [go, build, -o, $bin, $src]
      working_directory: go
    run:
      command: [$bin]
      working_directory: go
    # language_ids:
    #   atcoder: 3013 # "Go (x.x)"
    #   yukicoder: go # "Go (x.x.x)"
  haskell:
    src: hs/app/{Pascal}.hs
    compile:
      bin: hs/target/{Pascal}
      command: [stack, ghc, --, -O2, -o, $bin, $src]
      working_directory: hs
    run:
      command: [$bin]
      working_directory: hs
    # language_ids:
    #   atcoder: 3014      # "Haskell (GHC x.x.x)"
    #   yukicoder: haskell # "Haskell (x.x.x)"
  bash:
    src: bash/{kebab}.bash
    run:
      command: [bash, $src]
      working_directory: bash
    # language_ids:
    #   atcoder: 3001 # "Bash (GNU Bash vx.x.x)"
    #   yukicoder: sh # "Bash (Bash x.x.x)"
  python3:
    src: py/{kebab}.py
    run:
      command: [./venv/bin/python3, $src]
      working_directory: py
    language_ids:
      atcoder: 3023      # "Python3 (3.x.x)"
      yukicoder: python3 # "Python3 (3.x.x + numpy x.x.x + scipy x.x.x)"
  java:
    src: java/src/main/java/{Pascal}.java
    transpile:
      transpiled: java/build/replaced/{lower}/src/Main.java
      command:
        bash: cat "$SRC" | sed -r "s/class\s+$PROBLEM_PASCAL/class Main/g" > "$TRANSPILED"
      working_directory: java
    compile:
      bin: java/build/replaced/{lower}/classes/Main.class
      command: [javac, -d, './build/replaced/{lower}/classes', $transpiled]
      working_directory: java
    run:
      command: [java, -classpath, './build/replaced/{lower}/classes', Main]
      working_directory: java
    language_ids:
      atcoder: 3016      # "Java8 (OpenJDK 1.8.x)"
      # yukicoder: java8 # "Java8 (openjdk 1.8.x.x)"
  scala:
    src: scala/src/main/scala/{Pascal}.scala
    transpile:
      transpiled: scala/target/replaced/{lower}/src/Main.scala
      command:
        bash: cat "$SRC" | sed -r "s/object\s+$PROBLEM_PASCAL/object Main/g" > "$TRANSPILED"
      working_directory: scala
    compile:
      bin: scala/target/replaced/{lower}/classes/Main.class
      command: [scalac, -optimise, -d, './target/replaced/{lower}/classes', $transpiled]
      working_directory: scala
    run:
      command: [scala, -classpath, './target/replaced/{lower}/classes', Main]
      working_directory: scala
    # language_ids:
    #   atcoder: 3016    # "Scala (x.x.x)"
    #   yukicoder: scala # "Scala(Beta) (x.x.x)"
  c#:
    src: cs/{Pascal}/{Pascal}.cs
    compile:
      bin: cs/{Pascal}/bin/Release/{Pascal}.exe
      command: [mcs, -o+, '-r:System.Numerics', '-out:$bin', $src]
      working_directory: cs
    run:
      command: [mono, $bin]
      working_directory: cs
    language_ids:
      # atcoder: 3006        # "C# (Mono x.x.x.x)"
      yukicoder: csharp_mono # "C#(mono) (mono x.x.x.x)"
  text:
    src: txt/{snake}.txt
    run:
      command: [cat, $src]
      working_directory: txt
"#;

/// The text of `snowchains.yaml` that `init` writes on Windows, from the line
/// after the Dropbox settings.
pub const CONFIG_TAIL_WINDOWS: &'static str = r#"  download:
    extension: yaml
    text_file_dir: tests/$service/$contest/{snake}

judge:
  jobs: 4
  testfile_extensions: [json, toml, yaml, yml]
  shell:
    cmd: ['C:\Windows\cmd.exe', /C, $command]
    ps: [powershell, -Command, $command]

services:
  atcoder:
    # language: c++
    variables:
      rust_version: 1.15.1
  hackerrank:
    # language: c++
    variables:
      rust_version: 1.29.1
  yukicoder:
    # language: c++
    variables:
      rust_version: 1.30.1
  other:
    # language: c++
    variables:
      rust_version: stable

interactive:
  python3:
    src: testers/py/test-{kebab}.py
    run:
      command: [./venv/Scripts/python.exe, $src, $1, $2, $3, $4, $5, $6, $7, $8, $9]
      working_directory: testers/py
      crlf_to_lf: true
  haskell:
    src: testers/hs/app/Test{Pascal}.hs
    compile:
      bin: testers/hs/target/Test{Pascal}
      command: [stack, ghc, --, -O2, -o, $bin, $src]
      working_directory: testers/hs
    run:
      command: [$bin, $1, $2, $3, $4, $5, $6, $7, $8, $9]
      working_directory: testers/hs
      # crlf_to_lf: false

languages:
  c++:
    src: cpp/{kebab}.cpp     # source file to test and to submit
    compile:                 # optional
      bin: cpp/build/{kebab}.exe
      command: [g++, -std=c++14, -Wall, -Wextra, -g, -fsanitize=undefined, -D_GLIBCXX_DEBUG, -o, $bin, $src]
      working_directory: cpp # default: "."
    run:
      command: [$bin]
      working_directory: cpp # default: "."
      crlf_to_lf: true
    language_ids:            # optional
      atcoder: 3003          # "C++14 (GCC x.x.x)"
      yukicoder: cpp14       # "C++14 (gcc x.x.x)"
  rust:
    src: rs/src/bin/{kebab}.rs
    compile:
      bin: rs/target/manually/{kebab}.exe
      command: [rustc, +$rust_version, -o, $bin, $src]
      working_directory: rs
    run:
      command: [$bin]
      working_directory: rs
      # crlf_to_lf: false
    # language_ids:
    #   atcoder: 3504   # "Rust (x.x.x)"
    #   yukicoder: rust # "Rust (x.x.x)"
  go:
    src: go/{kebab}.go
    compile:
      bin: go/{kebab}.exe
      command: [go, build, -o, $bin, $src]
      working_directory: go
    run:
      command: [$bin]
      working_directory: go
      # crlf_to_lf: false
    # language_ids:
    #   atcoder: 3013 # "Go (x.x)"
    #   yukicoder: go # "Go (x.x.x)"
  haskell:
    src: hs/app/{Pascal}.hs
    compile:
      bin: hs/target/{Pascal}.exe
      command: [stack, ghc, --, -O2, -o, $bin, $src]
      working_directory: hs
    run:
      command: [$bin]
      working_directory: hs
      # crlf_to_lf: false
    # language_ids:
    #   atcoder: 3014      # "Haskell (GHC x.x.x)"
    #   yukicoder: haskell # "Haskell (x.x.x)"
  bash:
    src: bash/{kebab}.bash
    run:
      command: [bash, $src]
      working_directory: bash
      # crlf_to_lf: false
    # language_ids:
    #   atcoder: 3001 # "Bash (GNU Bash vx.x.x)"
    #   yukicoder: sh # "Bash (Bash x.x.x)"
  python3:
    src: py/{kebab}.py
    run:
      command: [./venv/Scripts/python.exe, $src]
      working_directory: py
      crlf_to_lf: true
    language_ids:
      atcoder: 3023      # "Python3 (3.x.x)"
      yukicoder: python3 # "Python3 (3.x.x + numpy x.x.x + scipy x.x.x)"
  java:
    src: java/src/main/java/{Pascal}.java
    transpile:
      transpiled: java/build/replaced/{lower}/src/Main.java
      command:
        ps: cat ${env:SRC} | % { $_ -replace "class\s+${env:PROBLEM_PASCAL}", "class Main" } | sc ${env:TRANSPILED}
      working_directory: java
    compile:
      bin: java/build/replaced/{lower}/classes/Main.class
      command: [javac, -d, './build/replaced/{lower}/classes', $transpiled]
      working_directory: java
    run:
      command: [java, -classpath, './build/replaced/{lower}/classes', Main]
      working_directory: java
      crlf_to_lf: true
    language_ids:
      atcoder: 3016      # "Java8 (OpenJDK 1.8.x)"
      # yukicoder: java8 # "Java8 (openjdk 1.8.x.x)"
  scala:
    src: scala/src/main/scala/{Pascal}.scala
    transpile:
      transpiled: scala/target/replaced/{lower}/src/Main.scala
      command:
        ps: cat ${env:SRC} | % { $_ -replace "object\s+${env:PROBLEM_PASCAL}", "object Main" } | sc ${env:TRANSPILED}
      working_directory: scala
    compile:
      bin: scala/target/replaced/{lower}/classes/Main.class
      command: [scalac, -optimise, -d, './target/replaced/{lower}/classes', $transpiled]
      working_directory: scala
    run:
      command: [scala, -classpath, './target/replaced/{lower}/classes', Main]
      working_directory: scala
      crlf_to_lf: true
    # language_ids:
    #   atcoder: 3016    # "Scala (x.x.x)"
    #   yukicoder: scala # "Scala(Beta) (x.x.x)"
  c#:
    src: cs/{Pascal}/{Pascal}.cs
    compile:
      bin: cs/{Pascal}/bin/Release/{Pascal}.exe
      command: [csc, /o+, '/r:System.Numerics', '/out:$bin', $src]
      working_directory: cs
    run:
      command: [$bin]
      working_directory: cs
      crlf_to_lf: true
    language_ids:
      # atcoder: 3006   # "C# (Mono x.x.x.x)"
      yukicoder: csharp # "C# (csc x.x.x.x)"
  text:
    src: txt/{snake}.txt
    run:
      command: [cat, $src]
      working_directory: txt
      # crlf_to_lf: false
"#;

/// The Dropbox settings that `init` writes: commented out and disabled,
/// unless Dropbox is enabled.
pub open spec fn dropbox_settings(enable: bool, escaped_auth: Seq<char>) -> Seq<char> {
    (if enable { Seq::<char>::empty() } else { "dropbox : false\n  "@ })
        + (if enable { Seq::<char>::empty() } else { "# "@ })
        + "dropbox:\n  "@
        + (if enable { Seq::<char>::empty() } else { "# "@ })
        + "  auth: "@
        + escaped_auth
}

/// The text of `snowchains.yaml` that `init` writes, on Windows or elsewhere.
pub open spec fn config_text(escaped_cookies: Seq<char>, enable_dropbox: bool, escaped_auth: Seq<char>, windows: bool) -> Seq<char> {
    CONFIG_HEAD@ + (if windows { CONSOLE_ALT_WIDTH_WINDOWS@ } else { Seq::<char>::empty() }) + CONFIG_SESSION_HEAD@
        + "  cookies: "@ + escaped_cookies + "\n  "@ + dropbox_settings(enable_dropbox, escaped_auth) + "\n"@
        + (if windows { CONFIG_TAIL_WINDOWS@ } else { CONFIG_TAIL@ })
}

/// The text of the `snowchains.yaml` that `init` creates, with the cookies
/// path and the Dropbox access token path written as YAML scalars; the
/// Windows text where `windows` holds.
pub fn init_config_text(session_cookies: &str, session_dropbox_auth: &str, enable_session_dropbox: bool, windows: bool) -> (r: String)
    ensures
        r@ == config_text(escaped(session_cookies@), enable_session_dropbox, escaped(session_dropbox_auth@), windows),
{
    let cookies = escape_string(session_cookies);
    let auth = escape_string(session_dropbox_auth);
    let mut v: Vec<char> = Vec::new();
    extend_str(&mut v, CONFIG_HEAD);
    if windows {
        extend_str(&mut v, CONSOLE_ALT_WIDTH_WINDOWS);
    }
    extend_str(&mut v, CONFIG_SESSION_HEAD);
    extend_str(&mut v, "  cookies: ");
    extend_str(&mut v, cookies.as_str());
    extend_str(&mut v, "\n  ");
    if !enable_session_dropbox {
        extend_str(&mut v, "dropbox : false\n  ");
        extend_str(&mut v, "# ");
    }
    extend_str(&mut v, "dropbox:\n  ");
    if !enable_session_dropbox {
        extend_str(&mut v, "# ");
    }
    extend_str(&mut v, "  auth: ");
    extend_str(&mut v, auth.as_str());
    extend_str(&mut v, "\n");
    if windows {
        extend_str(&mut v, CONFIG_TAIL_WINDOWS);
    } else {
        extend_str(&mut v, CONFIG_TAIL);
    }
    assert(v@ =~= config_text(cookies@, enable_session_dropbox, auth@, windows));
    string_of(&v)
}

/// Whether `piece` stands in `text` at position `k`.
pub open spec fn occurs_at(text: Seq<char>, piece: Seq<char>, k: int) -> bool {
    0 <= k && k + piece.len() <= text.len() && text.subrange(k, k + piece.len()) == piece
}

/// The text that `init` writes holds a line `  cookies: ` with the escaped
/// cookies path, and a Dropbox `auth: ` line (commented out unless Dropbox is
/// enabled) with the escaped path of the Dropbox access token, whatever the
/// two paths are.
pub proof fn lemma_init_text_paths(escaped_cookies: Seq<char>, enable_dropbox: bool, escaped_auth: Seq<char>, windows: bool)
    ensures
        exists|k: int| #[trigger] occurs_at(config_text(escaped_cookies, enable_dropbox, escaped_auth, windows), "\n  cookies: "@ + escaped_cookies + "\n"@, k),
        enable_dropbox ==> exists|k: int| #[trigger] occurs_at(config_text(escaped_cookies, enable_dropbox, escaped_auth, windows),
            "\n    auth: "@ + escaped_auth + "\n"@, k),
        !enable_dropbox ==> exists|k: int| #[trigger] occurs_at(config_text(escaped_cookies, enable_dropbox, escaped_auth, windows),
            "\n  #   auth: "@ + escaped_auth + "\n"@, k),
{
    reveal_strlit("  cookies: ");
    reveal_strlit("\n  cookies: ");
    reveal_strlit("\n  ");
    reveal_strlit("\n");
    reveal_strlit("  auth: ");
    reveal_strlit("\n    auth: ");
    reveal_strlit("\n  #   auth: ");
    reveal_strlit("# ");
    reveal_strlit("dropbox:\n  ");
    reveal_strlit("dropbox : false\n  ");
    let t = config_text(escaped_cookies, enable_dropbox, escaped_auth, windows);
    let pre = CONFIG_HEAD@ + (if windows { CONSOLE_ALT_WIDTH_WINDOWS@ } else { Seq::<char>::empty() }) + CONFIG_SESSION_HEAD@;
    let tail = if windows { CONFIG_TAIL_WINDOWS@ } else { CONFIG_TAIL@ };
    let d = dropbox_settings(enable_dropbox, escaped_auth);
    // The session head ends with a line feed.
    assert(CONFIG_SESSION_HEAD@.len() > 0 && CONFIG_SESSION_HEAD@.last() == '\n') by {
        reveal_strlit("\n\ntestfile_path: tests/$service/$contest/{snake}.$extension\n\nsession:\n  timeout: 60s\n  silent: false\n");
    }
    assert(pre.len() > 0 && pre.last() == '\n');
    let c_piece = "\n  cookies: "@ + escaped_cookies + "\n"@;
    let k1 = pre.len() - 1;
    let rest = "  cookies: "@ + escaped_cookies + ("\n  "@ + d + "\n"@ + tail);
    assert(t =~= pre + rest);
    reveal_strlit("  ");
    assert("\n  "@ =~= "\n"@ + "  "@);
    assert(rest =~= ("  cookies: "@ + escaped_cookies + "\n"@) + ("  "@ + d + "\n"@ + tail));
    assert(c_piece =~= "\n"@ + ("  cookies: "@ + escaped_cookies + "\n"@));
    assert(t.subrange(k1, k1 + c_piece.len()) =~= c_piece) by {
        assert forall|j: int| 0 <= j < c_piece.len() implies #[trigger] t.subrange(k1, k1 + c_piece.len())[j] == c_piece[j] by {
            if j == 0 {
                assert(t[k1] == pre[k1]);
            } else {
                assert(t[k1 + j] == rest[j - 1]);
            }
        }
    }
    assert(occurs_at(t, c_piece, k1));
    let a_piece = (if enable_dropbox { "\n    auth: "@ } else { "\n  #   auth: "@ }) + escaped_auth + "\n"@;
    let before_d = pre + "  cookies: "@ + escaped_cookies;
    let dhead = if enable_dropbox { "\n  dropbox:"@ } else { "\n  dropbox : false\n  # dropbox:"@ };
    reveal_strlit("\n  dropbox:");
    reveal_strlit("\n  dropbox : false\n  # dropbox:");
    let mid = if enable_dropbox { "\n    auth: "@ } else { "\n  #   auth: "@ };
    assert("\n  "@ + d =~= dhead + mid + escaped_auth);
    assert(t =~= before_d + ("\n  "@ + d) + "\n"@ + tail);
    assert(t =~= (before_d + dhead) + a_piece + tail);
    let k2 = (before_d + dhead).len() as int;
    assert(t.subrange(k2, k2 + a_piece.len()) =~= a_piece);
    assert(occurs_at(t, a_piece, k2));
}

/// The scalars that `switch` replaces: the service, the contest and, where
/// the configuration already sets a language, the language, each where given.
pub open spec fn switch_pairs(
    service: Option<ServiceName>,
    contest: Option<Seq<char>>,
    language: Option<Seq<char>>,
    old_has_language: bool,
) -> Seq<(Seq<char>, Seq<char>)> {
    (match service {
        Some(s) => seq![("service"@, service_str(s))],
        None => Seq::empty(),
    }) + (match contest {
        Some(c) => seq![("contest"@, c)],
        None => Seq::empty(),
    }) + (match language {
        Some(l) => if old_has_language {
            seq![("language"@, l)]
        } else {
            Seq::empty()
        },
        None => Seq::empty(),
    })
}

/// The scalars that `switch` replaces.
pub fn switch_replacements(
    service: Option<ServiceName>,
    contest: &Option<String>,
    language: &Option<String>,
    old_has_language: bool,
) -> (r: Vec<(String, String)>)
    ensures
        pairs_view(r@) == switch_pairs(service, opt_view(*contest), opt_view(*language), old_has_language),
{
    let mut m: Vec<(String, String)> = Vec::new();
    if let Some(s) = service {
        m.push((String::from_str("service"), String::from_str(s.as_str())));
    }
    if let Some(c) = contest {
        m.push((String::from_str("contest"), c.clone()));
    }
    if let Some(l) = language {
        if old_has_language {
            m.push((String::from_str("language"), l.clone()));
        }
    }
    assert(pairs_view(m@) =~= switch_pairs(service, opt_view(*contest), opt_view(*language), old_has_language));
    m
}

/// The new YAML text of the configuration, or the text that the
/// configuration is to be read from again with a warning of why the
/// scalars could not be replaced in it.
#[derive(Debug)]
pub enum SwitchedYaml {
    Replaced { yaml: String },
    Warning { warning: String, yaml: String },
}

/// The text with a `language` line inserted where a language is given and
/// the configuration sets none.
pub open spec fn language_inserted(old_yaml: Seq<char>, old_has_language: bool, language: Option<Seq<char>>) -> Seq<char> {
    match language {
        Some(l) => if old_has_language {
            old_yaml
        } else {
            with_language_line(old_yaml, escaped(l))
        },
        None => old_yaml,
    }
}

/// The edit of the YAML text that `switch` makes: a `language` line is
/// inserted where needed, then the given scalars are replaced.  Where a
/// scalar cannot be replaced, the text (with the line inserted) is handed
/// back with a warning.
pub fn switched_yaml(
    old_yaml: &str,
    old_has_language: bool,
    service: Option<ServiceName>,
    contest: &Option<String>,
    language: &Option<String>,
) -> (r: SwitchedYaml)
    ensures
        ({
            let pairs = switch_pairs(service, opt_view(*contest), opt_view(*language), old_has_language);
            let y = language_inserted(old_yaml@, old_has_language, opt_view(*language));
            match replace_error(y, keys_of(pairs), values_of(pairs), 0) {
                Some(w) => r matches SwitchedYaml::Warning { warning, yaml } && yaml@ == y && warning@ == w,
                None => r matches SwitchedYaml::Replaced { yaml } && yaml@ == replaced_text(y, keys_of(pairs), escaped_values(pairs)),
            }
        }),
{
    let mut yaml = String::from_str(old_yaml);
    if let Some(l) = language {
        if !old_has_language {
            yaml = insert_language_line(old_yaml, l.as_str());
        }
    }
    let m = switch_replacements(service, contest, language, old_has_language);
    match replace_scalars(yaml.as_str(), &m) {
        Ok(y) => SwitchedYaml::Replaced { yaml: y },
        Err(w) => SwitchedYaml::Warning { warning: w, yaml },
    }
}

impl Config {
    /// Sets the service, the contest and the language that are given; the
    /// fallback of `switch` where the scalars cannot be replaced in the text.
    pub fn apply_switch(&mut self, service: Option<ServiceName>, contest: Option<String>, language: Option<String>)
        ensures
            final(self).service == (match service {
                Some(s) => s,
                None => old(self).service,
            }),
            final(self).contest == (match contest {
                Some(c) => c,
                None => old(self).contest,
            }),
            final(self).language == (match language {
                Some(l) => Some(l),
                None => old(self).language,
            }),
            final(self).console == old(self).console,
            final(self).testfile_path == old(self).testfile_path,
            final(self).session == old(self).session,
            final(self).judge == old(self).judge,
            final(self).services == old(self).services,
            final(self).interactive == old(self).interactive,
            final(self).languages == old(self).languages,
            final(self).base_dir == old(self).base_dir,
            old(self).wf() ==> final(self).wf(),
    {
        if let Some(s) = service {
            self.service = s;
        }
        if let Some(c) = contest {
            self.contest = c;
        }
        if let Some(l) = language {
            self.language = Some(l);
        }
    }
}

/// A value, or `~` where there is none.
pub open spec fn or_tilde(o: Option<Seq<char>>) -> Seq<char> {
    match o {
        Some(t) => t,
        None => "~"@,
    }
}

/// `n` spaces.
pub open spec fn spaces(n: int) -> Seq<char> {
    Seq::new(if n < 0 { 0 } else { n as nat }, |i: int| ' ')
}

/// The number of bytes of the UTF-8 encoding of a text, as `str::len` counts them.
pub open spec fn byte_len(t: Seq<char>) -> int {
    encode_utf8(t).len() as int
}

/// One line of the report of `switch`: the title, the old value padded with
/// spaces to `width` bytes, an arrow and the new value.
pub open spec fn change_line(title: Seq<char>, width: int, prev: Option<Seq<char>>, new: Option<Seq<char>>) -> Seq<char> {
    title + or_tilde(prev) + spaces(width - byte_len(or_tilde(prev))) + " -> "@ + or_tilde(new) + "\n"@
}

/// The width, in bytes, of a value in the report, where `~` stands for no value.
pub open spec fn report_width(o: Option<Seq<char>>) -> int {
    match o {
        Some(t) => byte_len(t),
        None => 1,
    }
}

/// The largest of three numbers.
pub open spec fn max3(a: int, b: int, c: int) -> int {
    if a >= b && a >= c {
        a
    } else if b >= c {
        b
    } else {
        c
    }
}

/// An optional string as `{:?}` writes it.
pub open spec fn opt_debug(o: Option<Seq<char>>) -> Option<Seq<char>> {
    match o {
        Some(t) => Some(debug_text(t)),
        None => None,
    }
}

/// The report of `switch`: the old and the new service, contest and
/// language, each written with `{:?}`, the old values padded to the widest.
pub open spec fn switch_report_spec(
    old_service: ServiceName,
    old_contest: Seq<char>,
    old_language: Option<Seq<char>>,
    new_service: ServiceName,
    new_contest: Seq<char>,
    new_language: Option<Seq<char>>,
) -> Seq<char> {
    let s1 = debug_text(service_str(old_service));
    let s2 = debug_text(service_str(new_service));
    let c1 = debug_text(old_contest);
    let c2 = debug_text(new_contest);
    let l1 = opt_debug(old_language);
    let l2 = opt_debug(new_language);
    let w = max3(byte_len(s1), byte_len(c1), report_width(l1));
    change_line("service:  "@, w, Some(s1), Some(s2)) + change_line("contest:  "@, w, Some(c1), Some(c2))
        + change_line("language: "@, w, l1, l2)
}

/// `line` is a line of the report of `switch`: it starts with `title` and
/// the old value, and ends with an arrow, the new value and a line feed.
pub open spec fn reports_change(line: Seq<char>, title: Seq<char>, prev: Seq<char>, new: Seq<char>) -> bool {
    &&& (title + prev).is_prefix_of(line)
    &&& (" -> "@ + new + "\n"@).is_suffix_of(line)
}

/// The report of `switch` is three lines: the service, the contest and the
/// language, each with its old value (`{:?}` of it, or `~` for no language)
/// on the left of the arrow and its new value on the right.
pub proof fn lemma_switch_report_lines(
    old_service: ServiceName,
    old_contest: Seq<char>,
    old_language: Option<Seq<char>>,
    new_service: ServiceName,
    new_contest: Seq<char>,
    new_language: Option<Seq<char>>,
) -> (lines: (Seq<char>, Seq<char>, Seq<char>))
    ensures
        switch_report_spec(old_service, old_contest, old_language, new_service, new_contest, new_language)
            == lines.0 + lines.1 + lines.2,
        reports_change(lines.0, "service:  "@, debug_text(service_str(old_service)), debug_text(service_str(new_service))),
        reports_change(lines.1, "contest:  "@, debug_text(old_contest), debug_text(new_contest)),
        reports_change(lines.2, "language: "@, or_tilde(opt_debug(old_language)), or_tilde(opt_debug(new_language))),
{
    let s1 = debug_text(service_str(old_service));
    let s2 = debug_text(service_str(new_service));
    let c1 = debug_text(old_contest);
    let c2 = debug_text(new_contest);
    let l1 = opt_debug(old_language);
    let l2 = opt_debug(new_language);
    let w = max3(byte_len(s1), byte_len(c1), report_width(l1));
    let a = change_line("service:  "@, w, Some(s1), Some(s2));
    let b = change_line("contest:  "@, w, Some(c1), Some(c2));
    let c = change_line("language: "@, w, l1, l2);
    lemma_change_line_reports("service:  "@, w, Some(s1), Some(s2));
    lemma_change_line_reports("contest:  "@, w, Some(c1), Some(c2));
    lemma_change_line_reports("language: "@, w, l1, l2);
    (a, b, c)
}

/// A line of the report starts with the title and the old value, and ends
/// with the arrow, the new value and a line feed.
proof fn lemma_change_line_reports(title: Seq<char>, width: int, prev: Option<Seq<char>>, new: Option<Seq<char>>)
    ensures
        reports_change(change_line(title, width, prev, new), title, or_tilde(prev), or_tilde(new)),
{
    let p = or_tilde(prev);
    let n = or_tilde(new);
    let head = title + p;
    let sp = spaces(width - byte_len(p));
    let tail = " -> "@ + n + "\n"@;
    let line = change_line(title, width, prev, new);
    assert(line =~= head + (sp + tail));
    assert(head =~= line.subrange(0, head.len() as int));
    assert(line =~= (head + sp) + tail);
    assert(tail =~= line.subrange((line.len() - tail.len()) as int, line.len() as int));
}

/// Appends one line of the report of `switch` to `out`; `prev_bytes` is
/// the number of bytes of the old value as written.
fn push_change_line(
    out: &mut Vec<char>,
    title: &str,
    width: u128,
    prev: &Option<Vec<char>>,
    prev_bytes: u128,
    new: &Option<Vec<char>>,
)
    requires
        prev_bytes == report_width(match prev {
            Some(p) => Some(p@),
            None => None,
        }),
        prev_bytes <= width,
    ensures
        final(out)@ == old(out)@ + change_line(title@, width as int, match prev {
            Some(p) => Some(p@),
            None => None,
        }, match new {
            Some(p) => Some(p@),
            None => None,
        }),
{
    let tilde = chars_of("~");
    proof {
        lemma_tilde_one_byte();
    }
    let p = match prev {
        Some(p) => p,
        None => &tilde,
    };
    let n = match new {
        Some(n) => n,
        None => &tilde,
    };
    let ghost o = out@;
    extend_str(out, title);
    extend_chars(out, p);
    let mut k: u128 = prev_bytes;
    let ghost before_spaces = out@;
    while k < width
        invariant
            prev_bytes <= k <= width,
            out@ == before_spaces + spaces(k - prev_bytes),
        decreases width - k,
    {
        out.push(' ');
        k = k + 1;
        assert(out@ =~= before_spaces + spaces(k - prev_bytes));
    }
    extend_str(out, " -> ");
    extend_chars(out, n);
    extend_str(out, "\n");
    assert(out@ =~= o + change_line(title@, width as int, match prev {
        Some(p) => Some(p@),
        None => None,
    }, match new {
        Some(p) => Some(p@),
        None => None,
    }));
}

/// `~` takes one byte.
proof fn lemma_tilde_one_byte()
    ensures
        "~"@ == seq!['~'],
        byte_len("~"@) == 1,
{
    reveal_strlit("~");
    assert("~"@ =~= seq!['~']);
    assert(is_ascii_chars("~"@));
    is_ascii_chars_encode_utf8("~"@);
}

/// The number of bytes of the UTF-8 encoding of one character.
fn char_bytes(c: char) -> (n: u128)
    ensures
        n == encode_utf8(seq![c]).len(),
        1 <= n <= 4,
{
    let v = c as u32;
    assert(encode_utf8(seq![c]) =~= encode_scalar(c as u32) + encode_utf8(seq![c].drop_first()));
    assert(encode_utf8(seq![c].drop_first()) =~= Seq::<u8>::empty());
    if v < 0x80 {
        1
    } else if v < 0x800 {
        2
    } else if v < 0x10000 {
        3
    } else {
        4
    }
}

/// The number of bytes of the UTF-8 encoding of `t`.
fn byte_count(t: &Vec<char>) -> (n: u128)
    ensures
        n == byte_len(t@),
{
    let mut n: u128 = 0;
    let mut i: usize = 0;
    assert(t@.take(0) =~= Seq::<char>::empty());
    while i < t.len()
        invariant
            i <= t.len(),
            n == byte_len(t@.take(i as int)),
            n <= 4 * i,
        decreases t.len() - i,
    {
        let b = char_bytes(t[i]);
        proof {
            assert(t@.take(i as int + 1) =~= t@.take(i as int) + seq![t@[i as int]]);
            lemma_encode_concat(t@.take(i as int), seq![t@[i as int]]);
        }
        n = n + b;
        i = i + 1;
    }
    assert(t@.take(t.len() as int) =~= t@);
    n
}

/// A string as `{:?}` writes it, with its number of bytes.
fn debug_chars(s: &str) -> (r: (Vec<char>, u128))
    ensures
        r.0@ == debug_text(s@),
        r.1 == byte_len(debug_text(s@)),
{
    let v = chars_of(debug_str(s).as_str());
    let n = byte_count(&v);
    (v, n)
}

/// An optional string as `{:?}` writes it, with its number of bytes (1 for
/// the `~` that stands for no value).
fn opt_debug_chars(o: Option<&str>) -> (r: (Option<Vec<char>>, u128))
    ensures
        match r.0 {
            Some(v) => opt_debug(opt_str(o)) == Some(v@),
            None => opt_debug(opt_str(o)) is None,
        },
        r.1 == report_width(opt_debug(opt_str(o))),
{
    match o {
        Some(s) => {
            let (v, n) = debug_chars(s);
            (Some(v), n)
        },
        None => (None, 1),
    }
}

/// The report of `switch` on the old and the new service, contest and language.
pub fn switch_report(
    old_service: ServiceName,
    old_contest: &str,
    old_language: Option<&str>,
    new_service: ServiceName,
    new_contest: &str,
    new_language: Option<&str>,
) -> (r: String)
    ensures
        r@ == switch_report_spec(old_service, old_contest@, opt_str(old_language), new_service, new_contest@, opt_str(new_language)),
{
    let (s1, s1b) = debug_chars(old_service.as_str());
    let (s2, _) = debug_chars(new_service.as_str());
    let (c1, c1b) = debug_chars(old_contest);
    let (c2, _) = debug_chars(new_contest);
    let (l1, l1b) = opt_debug_chars(old_language);
    let (l2, _) = opt_debug_chars(new_language);
    let mut w: u128 = s1b;
    if c1b > w {
        w = c1b;
    }
    if l1b > w {
        w = l1b;
    }
    assert(w as int == max3(byte_len(s1@), byte_len(c1@), report_width(opt_debug(opt_str(old_language)))));
    let mut out: Vec<char> = Vec::new();
    push_change_line(&mut out, "service:  ", w, &Some(s1), s1b, &Some(s2));
    push_change_line(&mut out, "contest:  ", w, &Some(c1), c1b, &Some(c2));
    push_change_line(&mut out, "language: ", w, &l1, l1b, &l2);
    assert(out@ =~= switch_report_spec(old_service, old_contest@, opt_str(old_language), new_service, new_contest@, opt_str(new_language)));
    string_of(&out)
}

/// How the Dropbox settings are written in the file: `false`, or `{ auth: <path> }`.
pub enum DropboxRepr {
    Bool(bool),
    Auth { auth: TemplateBuilder },
}

/// The Dropbox settings a written form stands for; `true` is refused.
pub open spec fn dropbox_of_repr(r: DropboxRepr) -> Option<Dropbox> {
    match r {
        DropboxRepr::Bool(true) => None,
        DropboxRepr::Bool(false) => Some(Dropbox::Disabled),
        DropboxRepr::Auth { auth } => Some(Dropbox::Enabled { auth }),
    }
}

/// The written form of Dropbox settings.
pub open spec fn repr_of_dropbox(d: Dropbox) -> DropboxRepr {
    match d {
        Dropbox::Disabled => DropboxRepr::Bool(false),
        Dropbox::Enabled { auth } => DropboxRepr::Auth { auth },
    }
}

impl Dropbox {
    /// The Dropbox settings read from their written form.
    pub fn from_repr(r: DropboxRepr) -> (d: Result<Dropbox, String>)
        ensures
            match dropbox_of_repr(r) {
                Some(x) => d == Ok::<Dropbox, String>(x),
                None => d matches Err(m) && m@ == "expected `false` or `{ auth: <string> }`"@,
            },
    {
        match r {
            DropboxRepr::Bool(true) => Err(String::from_str("expected `false` or `{ auth: <string> }`")),
            DropboxRepr::Bool(false) => Ok(Dropbox::Disabled),
            DropboxRepr::Auth { auth } => Ok(Dropbox::Enabled { auth }),
        }
    }

    /// The written form of the Dropbox settings.
    pub fn to_repr(self) -> (r: DropboxRepr)
        ensures
            r == repr_of_dropbox(self),
    {
        match self {
            Dropbox::Disabled => DropboxRepr::Bool(false),
            Dropbox::Enabled { auth } => DropboxRepr::Auth { auth },
        }
    }
}

/// Reading the written form of Dropbox settings gives them back.
pub proof fn lemma_dropbox_round_trip(d: Dropbox)
    ensures
        dropbox_of_repr(repr_of_dropbox(d)) == Some(d),
{
}

/// The number of seconds a duration such as `60s` is written with: a
/// `u64` followed by `s`.
pub open spec fn secs_of(s: Seq<char>) -> Option<u64> {
    if s.len() > 0 && s.last() == 's' {
        crate::testcases::parse_u64_spec(s.drop_last())
    } else {
        None
    }
}

/// Reads a duration written as a number of seconds followed by `s`.
pub fn parse_secs(s: &str) -> (r: Option<u64>)
    ensures
        r == secs_of(s@),
{
    let v = chars_of(s);
    if v.len() == 0 || v[v.len() - 1] != 's' {
        return None;
    }
    let mut d = v;
    d.pop();
    crate::testcases::parse_u64(string_of(&d).as_str())
}

/// A duration written as a number of seconds followed by `s`.
pub fn secs_text(secs: u64) -> (r: String)
    ensures
        r@ == crate::session::decimal(secs as nat) + "s"@,
{
    let mut v = crate::session::decimal_chars(secs);
    extend_str(&mut v, "s");
    string_of(&v)
}

/// Writing a number of seconds and reading it back gives the number.
pub proof fn lemma_secs_round_trip(secs: u64)
    ensures
        secs_of(crate::session::decimal(secs as nat) + "s"@) == Some(secs),
{
    reveal_strlit("s");
    let t = crate::session::decimal(secs as nat) + "s"@;
    assert(t.drop_last() =~= crate::session::decimal(secs as nat));
    crate::testcases::lemma_decimal_parses_back(secs);
}

/// The UTF-8 encoding of two texts one after the other is their encodings
/// one after the other.
pub proof fn lemma_encode_concat(a: Seq<char>, b: Seq<char>)
    ensures
        encode_utf8(a + b) == encode_utf8(a) + encode_utf8(b),
    decreases a.len(),
{
    if a.len() == 0 {
        assert(a + b =~= b);
        assert(encode_utf8(a) =~= Seq::<u8>::empty());
        assert(encode_utf8(a) + encode_utf8(b) =~= encode_utf8(b));
    } else {
        assert((a + b)[0] == a[0]);
        assert((a + b).drop_first() =~= a.drop_first() + b);
        lemma_encode_concat(a.drop_first(), b);
        assert(encode_utf8(a + b) =~= encode_utf8(a) + encode_utf8(b));
    }
}

/// `n` spaces take `n` bytes.
proof fn lemma_spaces_bytes(n: int)
    requires
        n >= 0,
    ensures
        byte_len(spaces(n)) == n,
{
    assert(is_ascii_chars(spaces(n)));
    is_ascii_chars_encode_utf8(spaces(n));
}

/// Every line of the report of `switch` puts its arrow at the same byte
/// offset: after the title and the old value padded to the widest old value.
pub proof fn lemma_report_arrows_aligned(title: Seq<char>, width: int, prev: Option<Seq<char>>, new: Option<Seq<char>>)
    requires
        report_width(prev) <= width,
    ensures
        encode_utf8(change_line(title, width, prev, new)).subrange(byte_len(title) + width, byte_len(title) + width + 4)
            == encode_utf8(" -> "@),
{
    lemma_tilde_one_byte();
    reveal_strlit(" -> ");
    let p = or_tilde(prev);
    assert(byte_len(p) == report_width(prev));
    let sp = spaces(width - byte_len(p));
    lemma_spaces_bytes(width - byte_len(p));
    let head = title + p + sp;
    lemma_encode_concat(title, p);
    lemma_encode_concat(title + p, sp);
    assert(byte_len(head) == byte_len(title) + width);
    let tail = or_tilde(new) + "\n"@;
    let line = change_line(title, width, prev, new);
    assert(line =~= head + (" -> "@ + tail));
    lemma_encode_concat(head, " -> "@ + tail);
    lemma_encode_concat(" -> "@, tail);
    assert(is_ascii_chars(" -> "@));
    is_ascii_chars_encode_utf8(" -> "@);
    let e = encode_utf8(line);
    assert(e =~= encode_utf8(head) + (encode_utf8(" -> "@) + encode_utf8(tail)));
    assert(e.subrange(byte_len(title) + width, byte_len(title) + width + 4) =~= encode_utf8(" -> "@));
}

} // verus!
