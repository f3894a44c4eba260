//! Configuration: files, precedence, and what is in effect.

use vstd::prelude::*;

use crate::cli::args::{Binding, Cli};
use crate::cli::reference;
use crate::cli::reference::{CardReference, CardReferenceView};
use crate::protocol::VERSION;
use crate::table::Table;
use crate::text;

verus! {

/// Where the value of a setting came from, highest precedence first.
#[derive(Debug, Clone, Copy, PartialEq, Eq, Structural)]
pub enum ConfigSource {
    Flag,
    EnvVar,
    LocalFile,
    GlobalFile,
    Default,
}

impl DeepView for ConfigSource {
    type V = ConfigSource;

    open spec fn deep_view(&self) -> ConfigSource {
        *self
    }
}

impl ConfigSource {
    /// The source in words.
    pub open spec fn spec_label(self) -> Seq<char> {
        match self {
            ConfigSource::Flag => "flag"@,
            ConfigSource::EnvVar => "environment variable"@,
            ConfigSource::LocalFile => "local .env file"@,
            ConfigSource::GlobalFile => "global .env file"@,
            ConfigSource::Default => "built-in default"@,
        }
    }

    /// The source in words.
    pub fn label(self) -> (r: &'static str)
        ensures
            r@ == self.spec_label(),
    {
        match self {
            ConfigSource::Flag => "flag",
            ConfigSource::EnvVar => "environment variable",
            ConfigSource::LocalFile => "local .env file",
            ConfigSource::GlobalFile => "global .env file",
            ConfigSource::Default => "built-in default",
        }
    }
}

/// `s` without `quote` on both sides, if it has it there.
pub open spec fn unquoted(s: Seq<char>, quote: Seq<char>) -> Option<Seq<char>> {
    match text::without_prefix(s, quote) {
        Some(rest) => text::without_suffix(rest, quote),
        None => None,
    }
}

/// A value without one layer of quotes.
pub open spec fn bare_value(s: Seq<char>) -> Seq<char> {
    match unquoted(s, "\""@) {
        Some(inner) => inner,
        None => match unquoted(s, "'"@) {
            Some(inner) => inner,
            None => s,
        },
    }
}

/// The key and the value that a line sets. Blank lines, comments and lines
/// without `=` set none; a leading `export` changes nothing.
pub open spec fn dotenv_line(line: Seq<char>) -> Option<(Seq<char>, Seq<char>)> {
    let trimmed = text::trimmed(line);
    if trimmed.len() == 0 || trimmed[0] == '#' {
        None
    } else {
        let body = match text::without_prefix(trimmed, "export "@) {
            Some(rest) => rest,
            None => trimmed,
        };
        match text::cut(body, "="@) {
            Some((key, value)) => Some((text::trimmed(key), bare_value(text::trimmed(value)))),
            None => None,
        }
    }
}

/// What a list of lines sets, in order.
pub open spec fn dotenv_lines(lines: Seq<Seq<char>>) -> Seq<(Seq<char>, Seq<char>)>
    decreases lines.len(),
{
    if lines.len() == 0 {
        Seq::empty()
    } else {
        match dotenv_line(lines.last()) {
            Some(entry) => dotenv_lines(lines.drop_last()).push(entry),
            None => dotenv_lines(lines.drop_last()),
        }
    }
}

fn strip_quotes(s: &str, quote: &str) -> (r: Option<String>)
    ensures
        r.deep_view() == unquoted(s@, quote@),
{
    match text::strip_prefix(s, quote) {
        Some(rest) => text::strip_suffix(rest.as_str(), quote),
        None => None,
    }
}

fn parse_dotenv_line(line: &str) -> (r: Option<(String, String)>)
    ensures
        r.deep_view() == dotenv_line(line@),
{
    let trimmed = text::trim(line);
    let chars = text::chars_of(trimmed.as_str());
    if chars.len() == 0 || chars[0] == '#' {
        return None;
    }
    let body = match text::strip_prefix(trimmed.as_str(), "export ") {
        Some(rest) => rest,
        None => trimmed,
    };
    match text::split_once(body.as_str(), "=") {
        Some((key, value)) => {
            let value = text::trim(value.as_str());
            let bare = match strip_quotes(value.as_str(), "\"") {
                Some(inner) => inner,
                None => match strip_quotes(value.as_str(), "'") {
                    Some(inner) => inner,
                    None => value,
                },
            };
            Some((text::trim(key.as_str()), bare))
        },
        None => None,
    }
}

/// Reads the text of a configuration file.
pub fn parse_dotenv(contents: &str) -> (r: Vec<(String, String)>)
    ensures
        r.deep_view() == dotenv_lines(text::lines_of(contents@)),
{
    let lines = text::lines(contents);
    let ghost all = lines.deep_view();
    let mut out: Vec<(String, String)> = Vec::new();
    let mut i: usize = 0;
    assert(all.take(0) =~= Seq::<Seq<char>>::empty());
    assert(out.deep_view() =~= Seq::<(Seq<char>, Seq<char>)>::empty());
    while i < lines.len()
        invariant
            i <= lines@.len(),
            all == lines.deep_view(),
            out.deep_view() == dotenv_lines(all.take(i as int)),
        decreases lines@.len() - i,
    {
        assert(all.take(i + 1).drop_last() =~= all.take(i as int));
        assert(all.take(i + 1).last() == lines@[i as int]@);
        if let Some(entry) = parse_dotenv_line(lines[i].as_str()) {
            let ghost before = out.deep_view();
            let ghost view = entry.deep_view();
            out.push(entry);
            assert(out.deep_view() =~= before.push(view));
        }
        i += 1;
    }
    assert(all.take(i as int) =~= all);
    out
}

/// The value of `flag` in unparsed arguments: in the argument behind it, or
/// behind its `=`. An argument that is not text counts as absent.
pub open spec fn flag_value(args: Seq<Option<Seq<char>>>, flag: Seq<char>) -> Option<Seq<char>>
    decreases args.len(),
{
    if args.len() == 0 {
        None
    } else {
        match args[0] {
            None => flag_value(args.drop_first(), flag),
            Some(arg) => if arg == flag {
                if args.len() > 1 {
                    args[1]
                } else {
                    None
                }
            } else {
                match text::without_prefix(arg, flag + "="@) {
                    Some(value) => Some(value),
                    None => flag_value(args.drop_first(), flag),
                }
            },
        }
    }
}

/// Finds the value of `flag` before the arguments are parsed.
pub fn find_flag_value(args: &Vec<Option<String>>, flag: &str) -> (r: Option<String>)
    ensures
        r.deep_view() == flag_value(args.deep_view(), flag@),
{
    let mut prefix = flag.to_string();
    prefix.append("=");
    let ghost all = args.deep_view();
    let mut i: usize = 0;
    assert(all.skip(0) =~= all);
    while i < args.len()
        invariant
            i <= args@.len(),
            all == args.deep_view(),
            prefix@ == flag@ + "="@,
            flag_value(all, flag@) == flag_value(all.skip(i as int), flag@),
        decreases args@.len() - i,
    {
        let ghost rest = all.skip(i as int);
        proof {
            assert(rest[0] == args@[i as int].deep_view());
            assert(rest.drop_first() =~= all.skip(i + 1));
            if i + 1 < args@.len() {
                assert(rest[1] == args@[i + 1].deep_view());
            }
        }
        if let Some(arg) = &args[i] {
            if text::same(arg.as_str(), flag) {
                if i + 1 < args.len() {
                    return match &args[i + 1] {
                        Some(value) => Some(value.clone()),
                        None => None,
                    };
                }
                return None;
            }
            if let Some(value) = text::strip_prefix(arg.as_str(), prefix.as_str()) {
                return Some(value);
            }
        }
        i += 1;
    }
    assert(all.skip(i as int) =~= Seq::<Option<Seq<char>>>::empty());
    None
}

/// Whether a file may set `key`: it is one of this program's, and no taken
/// environment variable has it.
pub open spec fn may_set(key: Seq<char>, taken: Seq<Seq<char>>) -> bool {
    "A2ACLI_"@.is_prefix_of(key) && !taken.contains(key)
}

/// The entries of a file that take effect.
pub open spec fn effective_entries(
    entries: Seq<(Seq<char>, Seq<char>)>,
    taken: Seq<Seq<char>>,
) -> Seq<(Seq<char>, Seq<char>)>
    decreases entries.len(),
{
    if entries.len() == 0 {
        entries
    } else if may_set(entries.last().0, taken) {
        effective_entries(entries.drop_last(), taken).push(entries.last())
    } else {
        effective_entries(entries.drop_last(), taken)
    }
}

/// `provenance` after `entries` were set from `source`.
pub open spec fn with_provenance(
    provenance: Map<Seq<char>, ConfigSource>,
    entries: Seq<(Seq<char>, Seq<char>)>,
    source: ConfigSource,
) -> Map<Seq<char>, ConfigSource>
    decreases entries.len(),
{
    if entries.len() == 0 {
        provenance
    } else {
        with_provenance(provenance, entries.drop_last(), source).insert(entries.last().0, source)
    }
}

fn contains_text(list: &Vec<String>, key: &str) -> (r: bool)
    ensures
        r == list.deep_view().contains(key@),
{
    let mut i: usize = 0;
    while i < list.len()
        invariant
            i <= list@.len(),
            forall|k: int| 0 <= k < i ==> (#[trigger] list.deep_view()[k]) != key@,
        decreases list@.len() - i,
    {
        if text::same(list[i].as_str(), key) {
            assert(list.deep_view()[i as int] == key@);
            return true;
        }
        i += 1;
    }
    false
}

/// Takes over the entries of a file: gives the variables to set, in order,
/// and notes where each came from.
pub fn apply_dotenv_file(
    contents: &str,
    source: ConfigSource,
    real_env_keys: &Vec<String>,
    provenance: &mut Table<ConfigSource>,
) -> (r: Vec<(String, String)>)
    ensures
        r.deep_view() == effective_entries(
            dotenv_lines(text::lines_of(contents@)),
            real_env_keys.deep_view(),
        ),
        final(provenance)@ == with_provenance(old(provenance)@, r.deep_view(), source),
{
    let entries = parse_dotenv(contents);
    let ghost all = entries.deep_view();
    let ghost taken = real_env_keys.deep_view();
    let ghost start = provenance@;
    let mut out: Vec<(String, String)> = Vec::new();
    let mut i: usize = 0;
    assert(all.take(0) =~= Seq::<(Seq<char>, Seq<char>)>::empty());
    assert(out.deep_view() =~= Seq::<(Seq<char>, Seq<char>)>::empty());
    while i < entries.len()
        invariant
            i <= entries@.len(),
            all == entries.deep_view(),
            taken == real_env_keys.deep_view(),
            out.deep_view() == effective_entries(all.take(i as int), taken),
            provenance@ == with_provenance(start, out.deep_view(), source),
        decreases entries@.len() - i,
    {
        assert(all.take(i + 1).drop_last() =~= all.take(i as int));
        assert(all.take(i + 1).last() == entries@[i as int].deep_view());
        let key = entries[i].0.clone();
        if text::starts_with(key.as_str(), "A2ACLI_") && !contains_text(
            real_env_keys,
            key.as_str(),
        ) {
            let ghost before = out.deep_view();
            let ghost view = (key@, entries@[i as int].1@);
            let copy = key.clone();
            out.push((key, entries[i].1.clone()));
            provenance.insert(copy, source);
            proof {
                assert(out.deep_view() =~= before.push(view));
                assert(out.deep_view().drop_last() =~= before);
            }
        }
        i += 1;
    }
    assert(all.take(i as int) =~= all);
    out
}

/// The entries of a file that take effect; a file that could not be read has
/// none.
pub open spec fn file_entries(contents: Option<Seq<char>>, taken: Seq<Seq<char>>) -> Seq<
    (Seq<char>, Seq<char>),
> {
    match contents {
        Some(text) => effective_entries(dotenv_lines(text::lines_of(text)), taken),
        None => Seq::empty(),
    }
}

/// Loads the configuration files: gives the variables to set, in order, and
/// where each came from. `real_env_keys` are the variables that are set
/// already.
pub fn load_dotenv_config(
    real_env_keys: &Vec<String>,
    global: Option<&str>,
    local: Option<&str>,
) -> (r: (Vec<(String, String)>, Table<ConfigSource>))
    ensures
        ({
            let taken = real_env_keys.deep_view();
            let below = file_entries(global.deep_view(), taken);
            let above = file_entries(local.deep_view(), taken);
            &&& r.0.deep_view() == below + above
            &&& r.1@ == with_provenance(
                with_provenance(Map::empty(), below, ConfigSource::GlobalFile),
                above,
                ConfigSource::LocalFile,
            )
        }),
{
    let mut provenance: Table<ConfigSource> = Table::new();
    let mut assignments: Vec<(String, String)> = match global {
        Some(contents) => apply_dotenv_file(
            contents,
            ConfigSource::GlobalFile,
            real_env_keys,
            &mut provenance,
        ),
        None => Vec::new(),
    };
    let ghost below = assignments.deep_view();
    assert(global is None ==> below =~= Seq::<(Seq<char>, Seq<char>)>::empty());
    let mut rest: Vec<(String, String)> = match local {
        Some(contents) => apply_dotenv_file(
            contents,
            ConfigSource::LocalFile,
            real_env_keys,
            &mut provenance,
        ),
        None => Vec::new(),
    };
    let ghost above = rest.deep_view();
    assert(local is None ==> above =~= Seq::<(Seq<char>, Seq<char>)>::empty());
    assignments.append(&mut rest);
    assert(assignments.deep_view() =~= below + above);
    (assignments, provenance)
}

/// Where the global configuration is kept.
#[derive(Debug, PartialEq, Eq)]
pub enum ConfigHome {
    /// Below the directory for configuration.
    Config(String),
    /// Below the home directory.
    Home(String),
}

/// Finds where the global configuration is kept: a directory for
/// configuration that is not empty comes first, then the home directory.
pub fn global_config_path(
    config_home: Option<String>,
    home: Option<String>,
    user_profile: Option<String>,
) -> (r: Option<ConfigHome>)
    ensures
        match config_home {
            Some(dir) => dir@.len() > 0 ==> r == Some(ConfigHome::Config(dir)),
            None => true,
        },
        config_home is None || config_home->0@.len() == 0 ==> r == match (home, user_profile) {
            (Some(dir), _) => Some(ConfigHome::Home(dir)),
            (None, Some(dir)) => Some(ConfigHome::Home(dir)),
            (None, None) => None,
        },
{
    if let Some(dir) = config_home {
        if dir.as_str().unicode_len() > 0 {
            return Some(ConfigHome::Config(dir));
        }
    }
    match home {
        Some(dir) => Some(ConfigHome::Home(dir)),
        None => match user_profile {
            Some(dir) => Some(ConfigHome::Home(dir)),
            None => None,
        },
    }
}

/// The octal spelling of a number.
pub open spec fn octal(n: nat) -> Seq<char>
    decreases n,
{
    if n < 8 {
        seq![text::digit(n)]
    } else {
        octal(n / 8).push(text::digit(n % 8))
    }
}

fn to_octal(n: u32) -> (r: String)
    ensures
        r@ == octal(n as nat),
    decreases n,
{
    if n < 8 {
        let mut out = String::new();
        out.push((48 + n as u8) as char);
        assert(out@ =~= octal(n as nat));
        out
    } else {
        let mut out = to_octal(n / 8);
        out.push((48 + (n % 8) as u8) as char);
        out
    }
}

/// The warning about a configuration file that others can read, if its
/// permission bits `mode` let them.
pub fn warn_if_world_readable(path: &str, mode: u32) -> (r: Option<String>)
    ensures
        r.deep_view() == (if mode % 64 != 0 {
            Some(
                path@ + " is readable by other users (mode "@ + octal((mode % 512) as nat)
                    + "); it may contain credentials \u{2014} consider `chmod 600 "@ + path@ + "`"@,
            )
        } else {
            None
        }),
{
    if mode % 64 != 0 {
        let mut out = path.to_string();
        out.append(" is readable by other users (mode ");
        let spelled = to_octal(mode % 512);
        out.append(spelled.as_str());
        out.append("); it may contain credentials \u{2014} consider `chmod 600 ");
        out.append(path);
        out.append("`");
        Some(out)
    } else {
        None
    }
}

/// A setting, its value and where that came from, in words.
#[derive(Debug, PartialEq, Eq)]
pub struct ConfigSetting {
    pub name: String,
    pub value: String,
    pub source: String,
}

/// What a [`ConfigSetting`] stands for.
#[verifier::ext_equal]
pub struct ConfigSettingView {
    pub name: Seq<char>,
    pub value: Seq<char>,
    pub source: Seq<char>,
}

impl DeepView for ConfigSetting {
    type V = ConfigSettingView;

    open spec fn deep_view(&self) -> ConfigSettingView {
        ConfigSettingView { name: self.name@, value: self.value@, source: self.source@ }
    }
}

/// Every setting.
#[derive(Debug, PartialEq, Eq)]
pub struct ConfigSettings {
    pub settings: Vec<ConfigSetting>,
}

/// How the argument parser came by a value.
#[derive(Debug, Clone, Copy, PartialEq, Eq, Structural)]
pub enum ValueSource {
    CommandLine,
    EnvVariable,
    DefaultValue,
}

impl DeepView for ValueSource {
    type V = ValueSource;

    open spec fn deep_view(&self) -> ValueSource {
        *self
    }
}

/// A value, or words for its absence.
pub open spec fn or_words(value: Option<Seq<char>>, words: Seq<char>) -> Seq<char> {
    match value {
        Some(value) => value,
        None => words,
    }
}

/// All that is shown of a secret: whether it is set.
pub open spec fn redacted(is_set: bool) -> Seq<char> {
    if is_set {
        "(set, redacted)"@
    } else {
        "(not set)"@
    }
}

/// All that is shown of a secret: whether it is set.
pub fn redact_secret(value: &Option<String>) -> (r: String)
    ensures
        r@ == redacted(value is Some),
{
    match value {
        Some(_) => "(set, redacted)".to_string(),
        None => "(not set)".to_string(),
    }
}

/// `true` or `false`.
pub open spec fn bool_text(value: bool) -> Seq<char> {
    if value {
        "true"@
    } else {
        "false"@
    }
}

fn bool_to_text(value: bool) -> (r: String)
    ensures
        r@ == bool_text(value),
{
    if value {
        "true".to_string()
    } else {
        "false".to_string()
    }
}

/// The names of the bindings, with commas between them.
pub open spec fn transport_text(transport: Seq<Binding>) -> Seq<char> {
    if transport.len() == 0 {
        "(agent card's own order)"@
    } else {
        text::joined(transport.map_values(|b: Binding| b.spec_name()), ","@)
    }
}

fn transport_to_text(transport: &Vec<Binding>) -> (r: String)
    ensures
        r@ == transport_text(transport@),
{
    if transport.len() == 0 {
        return "(agent card's own order)".to_string();
    }
    let mut names: Vec<String> = Vec::new();
    let mut i: usize = 0;
    while i < transport.len()
        invariant
            i <= transport@.len(),
            names@.len() == i,
            forall|k: int| 0 <= k < i ==> (#[trigger] names@[k])@ == transport@[k].spec_name(),
        decreases transport@.len() - i,
    {
        names.push(transport[i].name().to_string());
        i += 1;
    }
    assert(names.deep_view() =~= transport@.map_values(|b: Binding| b.spec_name()));
    text::join(&names, ",")
}

/// Where the value of a setting came from. What the argument parser found in
/// the environment may have come there from a file.
pub open spec fn source_of_setting(
    id: Seq<char>,
    env_key: Seq<char>,
    sources: Map<Seq<char>, ValueSource>,
    provenance: Map<Seq<char>, ConfigSource>,
) -> ConfigSource {
    if !sources.contains_key(id) {
        ConfigSource::Default
    } else {
        match sources[id] {
            ValueSource::CommandLine => ConfigSource::Flag,
            ValueSource::EnvVariable => if provenance.contains_key(env_key) {
                provenance[env_key]
            } else {
                ConfigSource::EnvVar
            },
            ValueSource::DefaultValue => ConfigSource::Default,
        }
    }
}

/// A setting with its value and where that came from.
pub open spec fn shown_setting(
    id: Seq<char>,
    name: Seq<char>,
    value: Seq<char>,
    env_key: Seq<char>,
    sources: Map<Seq<char>, ValueSource>,
    provenance: Map<Seq<char>, ConfigSource>,
) -> ConfigSettingView {
    ConfigSettingView {
        name,
        value,
        source: source_of_setting(id, env_key, sources, provenance).spec_label(),
    }
}

/// Where the agent card is fetched from, in words.
pub open spec fn resolved_card(cli: Cli, exists: bool) -> Seq<char> {
    match cli.endpoint {
        Some(endpoint) => "(none; --endpoint "@ + endpoint@ + ")"@,
        None => match reference::card_location(
            or_words(cli.agent_card.deep_view(), cli.base_url@),
            exists,
        ) {
            CardReferenceView::File(path) => "file://"@ + path,
            CardReferenceView::Url(url) => url,
        },
    }
}

/// Every setting that is in effect.
pub open spec fn effective_settings(
    cli: Cli,
    sources: Map<Seq<char>, ValueSource>,
    provenance: Map<Seq<char>, ConfigSource>,
    exists: bool,
) -> Seq<ConfigSettingView> {
    let shown = |id: Seq<char>, name: Seq<char>, value: Seq<char>, env_key: Seq<char>|
        shown_setting(id, name, value, env_key, sources, provenance);
    let not_set = "(not set)"@;
    seq![
        shown("agent_card"@, "agent-card"@, or_words(cli.agent_card.deep_view(), not_set), "A2ACLI_AGENT_CARD"@),
        shown("endpoint"@, "endpoint"@, or_words(cli.endpoint.deep_view(), not_set), "A2ACLI_ENDPOINT"@),
        shown("base_url"@, "base-url"@, cli.base_url@, "A2ACLI_BASE_URL"@),
        shown("transport"@, "transport"@, transport_text(cli.transport@), "A2ACLI_TRANSPORT"@),
        shown(
            "a2a_version"@,
            "a2a-version"@,
            or_words(
                cli.a2a_version.deep_view(),
                "(negotiated from the agent card; a2acli supports "@ + VERSION@ + ")"@,
            ),
            "A2ACLI_A2A_VERSION"@,
        ),
        shown("bearer"@, "bearer"@, redacted(cli.bearer is Some), "A2ACLI_BEARER"@),
        shown("api_key"@, "api-key"@, redacted(cli.api_key is Some), "A2ACLI_API_KEY"@),
        shown("insecure"@, "insecure"@, bool_text(cli.insecure), "A2ACLI_INSECURE"@),
        shown("debug"@, "debug"@, bool_text(cli.debug), "A2ACLI_DEBUG"@),
        shown("tenant"@, "tenant"@, or_words(cli.tenant.deep_view(), not_set), "A2ACLI_TENANT"@),
        shown("output"@, "output"@, cli.output.spec_name(), "A2ACLI_OUTPUT"@),
        shown("compact"@, "compact"@, bool_text(cli.compact), "A2ACLI_COMPACT"@),
        shown("async_mode"@, "async"@, bool_text(cli.async_mode), "A2ACLI_ASYNC"@),
        shown("wait"@, "wait"@, bool_text(cli.wait), "A2ACLI_WAIT"@),
        shown("poll_interval"@, "poll-interval"@, cli.poll_interval.text(), "A2ACLI_POLL_INTERVAL"@),
        shown("timeout"@, "timeout"@, cli.timeout.text(), "A2ACLI_TIMEOUT"@),
        ConfigSettingView {
            name: "resolved-card"@,
            value: resolved_card(cli, exists),
            source: "derived"@,
        },
    ]
}

fn or_text(value: &Option<String>, words: &str) -> (r: String)
    ensures
        r@ == or_words(value.deep_view(), words@),
{
    match value {
        Some(value) => value.clone(),
        None => words.to_string(),
    }
}

fn setting(
    id: &str,
    name: &str,
    value: String,
    env_key: &str,
    sources: &Table<ValueSource>,
    provenance: &Table<ConfigSource>,
) -> (r: ConfigSetting)
    ensures
        r.deep_view() == shown_setting(id@, name@, value@, env_key@, sources@, provenance@),
{
    let source = match sources.get(id) {
        Some(ValueSource::CommandLine) => ConfigSource::Flag,
        Some(ValueSource::EnvVariable) => match provenance.get(env_key) {
            Some(source) => *source,
            None => ConfigSource::EnvVar,
        },
        Some(ValueSource::DefaultValue) => ConfigSource::Default,
        None => ConfigSource::Default,
    };
    ConfigSetting { name: name.to_string(), value, source: source.label().to_string() }
}

fn show_resolved_card(cli: &Cli, exists: bool) -> (r: String)
    ensures
        r@ == resolved_card(*cli, exists),
{
    match &cli.endpoint {
        Some(endpoint) => {
            let mut out = "(none; --endpoint ".to_string();
            out.append(endpoint.as_str());
            out.append(")");
            out
        },
        None => {
            let named = or_text(&cli.agent_card, cli.base_url.as_str());
            match reference::normalize_card_reference(named.as_str(), exists) {
                CardReference::File(path) => {
                    let mut out = "file://".to_string();
                    out.append(path.as_str());
                    out
                },
                CardReference::Url(url) => url,
            }
        },
    }
}

/// Enumerates every setting with its value and where that came from. `exists`
/// says whether the reference to the agent card names something on disk.
pub fn effective_config_settings(
    cli: &Cli,
    sources: &Table<ValueSource>,
    dotenv_provenance: &Table<ConfigSource>,
    exists: bool,
) -> (r: ConfigSettings)
    requires
        cli.well_formed(),
    ensures
        r.settings.deep_view() == effective_settings(*cli, sources@, dotenv_provenance@, exists),
{
    let p = dotenv_provenance;
    let mut negotiated = "(negotiated from the agent card; a2acli supports ".to_string();
    negotiated.append(VERSION);
    negotiated.append(")");
    let s0 = setting("agent_card", "agent-card", or_text(&cli.agent_card, "(not set)"), "A2ACLI_AGENT_CARD", sources, p);
    let s1 = setting("endpoint", "endpoint", or_text(&cli.endpoint, "(not set)"), "A2ACLI_ENDPOINT", sources, p);
    let s2 = setting("base_url", "base-url", cli.base_url.clone(), "A2ACLI_BASE_URL", sources, p);
    let s3 = setting("transport", "transport", transport_to_text(&cli.transport), "A2ACLI_TRANSPORT", sources, p);
    let s4 = setting("a2a_version", "a2a-version", or_text(&cli.a2a_version, negotiated.as_str()), "A2ACLI_A2A_VERSION", sources, p);
    let s5 = setting("bearer", "bearer", redact_secret(&cli.bearer), "A2ACLI_BEARER", sources, p);
    let s6 = setting("api_key", "api-key", redact_secret(&cli.api_key), "A2ACLI_API_KEY", sources, p);
    let s7 = setting("insecure", "insecure", bool_to_text(cli.insecure), "A2ACLI_INSECURE", sources, p);
    let s8 = setting("debug", "debug", bool_to_text(cli.debug), "A2ACLI_DEBUG", sources, p);
    let s9 = setting("tenant", "tenant", or_text(&cli.tenant, "(not set)"), "A2ACLI_TENANT", sources, p);
    let s10 = setting("output", "output", cli.output.name().to_string(), "A2ACLI_OUTPUT", sources, p);
    let s11 = setting("compact", "compact", bool_to_text(cli.compact), "A2ACLI_COMPACT", sources, p);
    let s12 = setting("async_mode", "async", bool_to_text(cli.async_mode), "A2ACLI_ASYNC", sources, p);
    let s13 = setting("wait", "wait", bool_to_text(cli.wait), "A2ACLI_WAIT", sources, p);
    let s14 = setting("poll_interval", "poll-interval", cli.poll_interval.to_text(), "A2ACLI_POLL_INTERVAL", sources, p);
    let s15 = setting("timeout", "timeout", cli.timeout.to_text(), "A2ACLI_TIMEOUT", sources, p);
    let s16 = ConfigSetting {
        name: "resolved-card".to_string(),
        value: show_resolved_card(cli, exists),
        source: "derived".to_string(),
    };
    let settings = vec![s0, s1, s2, s3, s4, s5, s6, s7, s8, s9, s10, s11, s12, s13, s14, s15, s16];
    assert(settings.deep_view() =~= effective_settings(
        *cli,
        sources@,
        dotenv_provenance@,
        exists,
    ));
    ConfigSettings { settings }
}

/// What is shown of the settings does not depend on what the secrets are,
/// only on whether there are any.
pub proof fn shown_settings_hold_no_secrets(
    a: Cli,
    b: Cli,
    sources: Map<Seq<char>, ValueSource>,
    provenance: Map<Seq<char>, ConfigSource>,
    exists: bool,
)
    requires
        a.bearer is Some == b.bearer is Some,
        a.api_key is Some == b.api_key is Some,
        (Cli { bearer: None, api_key: None, ..a }) == (Cli { bearer: None, api_key: None, ..b }),
    ensures
        effective_settings(a, sources, provenance, exists) == effective_settings(
            b,
            sources,
            provenance,
            exists,
        ),
{
    let x = Cli { bearer: None, api_key: None, ..a };
    let y = Cli { bearer: None, api_key: None, ..b };
    assert(x.agent_card == y.agent_card && x.endpoint == y.endpoint && x.base_url == y.base_url);
    assert(x.transport == y.transport && x.a2a_version == y.a2a_version);
}

/// The value that `key` has after `entries` were set in order.
pub open spec fn assigned(entries: Seq<(Seq<char>, Seq<char>)>, key: Seq<char>) -> Option<Seq<char>>
    decreases entries.len(),
{
    if entries.len() == 0 {
        None
    } else if entries.last().0 == key {
        Some(entries.last().1)
    } else {
        assigned(entries.drop_last(), key)
    }
}

/// A variable that is set already is never changed by a file.
proof fn lemma_effective_entries_leave_alone(
    entries: Seq<(Seq<char>, Seq<char>)>,
    taken: Seq<Seq<char>>,
    key: Seq<char>,
)
    ensures
        !may_set(key, taken) ==> assigned(effective_entries(entries, taken), key) is None,
        may_set(key, taken) ==> assigned(effective_entries(entries, taken), key) == assigned(
            entries,
            key,
        ),
    decreases entries.len(),
{
    if entries.len() > 0 {
        lemma_effective_entries_leave_alone(entries.drop_last(), taken, key);
        if may_set(entries.last().0, taken) {
            let rest = effective_entries(entries.drop_last(), taken);
            assert(rest.push(entries.last()).drop_last() =~= rest);
        }
    }
}

proof fn lemma_provenance(
    provenance: Map<Seq<char>, ConfigSource>,
    entries: Seq<(Seq<char>, Seq<char>)>,
    source: ConfigSource,
    key: Seq<char>,
)
    ensures
        assigned(entries, key) is Some ==> {
            &&& with_provenance(provenance, entries, source).contains_key(key)
            &&& with_provenance(provenance, entries, source)[key] == source
        },
        assigned(entries, key) is None ==> {
            &&& with_provenance(provenance, entries, source).contains_key(key)
                == provenance.contains_key(key)
            &&& with_provenance(provenance, entries, source)[key] == provenance[key]
        },
    decreases entries.len(),
{
    if entries.len() > 0 {
        lemma_provenance(provenance, entries.drop_last(), source, key);
    }
}

proof fn lemma_assigned_later(
    a: Seq<(Seq<char>, Seq<char>)>,
    b: Seq<(Seq<char>, Seq<char>)>,
    key: Seq<char>,
)
    ensures
        assigned(a + b, key) == (match assigned(b, key) {
            Some(value) => Some(value),
            None => assigned(a, key),
        }),
    decreases b.len(),
{
    if b.len() == 0 {
        assert(a + b =~= a);
    } else {
        lemma_assigned_later(a, b.drop_last(), key);
        assert((a + b).drop_last() =~= a + b.drop_last());
    }
}

/// An actual environment variable always wins over either file, and the local
/// file wins over the global one. Variables of other programs are left alone.
pub proof fn files_rank_below_the_environment(
    global: Option<Seq<char>>,
    local: Option<Seq<char>>,
    taken: Seq<Seq<char>>,
    key: Seq<char>,
)
    ensures
        ({
            let below = file_entries(global, taken);
            let above = file_entries(local, taken);
            let provenance = with_provenance(
                with_provenance(Map::empty(), below, ConfigSource::GlobalFile),
                above,
                ConfigSource::LocalFile,
            );
            let in_global = match global {
                Some(text) => assigned(dotenv_lines(text::lines_of(text)), key),
                None => None,
            };
            let in_local = match local {
                Some(text) => assigned(dotenv_lines(text::lines_of(text)), key),
                None => None,
            };
            if !may_set(key, taken) {
                &&& assigned(below + above, key) is None
                &&& !provenance.contains_key(key)
            } else if in_local is Some {
                &&& assigned(below + above, key) == in_local
                &&& provenance.contains_key(key)
                &&& provenance[key] == ConfigSource::LocalFile
            } else if in_global is Some {
                &&& assigned(below + above, key) == in_global
                &&& provenance.contains_key(key)
                &&& provenance[key] == ConfigSource::GlobalFile
            } else {
                &&& assigned(below + above, key) is None
                &&& !provenance.contains_key(key)
            }
        }),
{
    let below = file_entries(global, taken);
    let above = file_entries(local, taken);
    if let Some(text) = global {
        lemma_effective_entries_leave_alone(dotenv_lines(text::lines_of(text)), taken, key);
    }
    if let Some(text) = local {
        lemma_effective_entries_leave_alone(dotenv_lines(text::lines_of(text)), taken, key);
    }
    lemma_assigned_later(below, above, key);
    lemma_provenance(Map::empty(), below, ConfigSource::GlobalFile, key);
    lemma_provenance(
        with_provenance(Map::empty(), below, ConfigSource::GlobalFile),
        above,
        ConfigSource::LocalFile,
        key,
    );
}

proof fn lemma_quotes(s: Seq<char>, quote: Seq<char>, c: char)
    requires
        quote == seq![c],
    ensures
        unquoted(s, quote) is Some <==> s.len() >= 2 && s[0] == c && s.last() == c,
        unquoted(s, quote) matches Some(inner) ==> inner == s.subrange(1, s.len() - 1),
{
    if s.len() > 0 {
        let rest = s.skip(1);
        assert(s.subrange(0, 1)[0] == s[0]);
        if s[0] == c {
            assert(s.subrange(0, 1) =~= quote);
        }
        if rest.len() > 0 {
            let end = rest.subrange(rest.len() - 1, rest.len() as int);
            assert(end[0] == rest.last());
            assert(rest.last() == s.last());
            if s.last() == c {
                assert(end =~= quote);
            }
            assert(rest.take(rest.len() - 1) =~= s.subrange(1, s.len() - 1));
        }
    }
}

/// A value loses one layer of quotes, double or single, where it has the same
/// quote at both ends; any other value is taken as it is.
pub proof fn one_layer_of_quotes_is_taken_off(s: Seq<char>)
    ensures
        ({
            let quoted = s.len() >= 2 && s[0] == s.last() && (s[0] == '"' || s[0] == '\'');
            &&& quoted ==> bare_value(s) == s.subrange(1, s.len() - 1)
            &&& !quoted ==> bare_value(s) == s
        }),
{
    reveal_strlit("\"");
    reveal_strlit("'");
    assert("\""@ =~= seq!['"']);
    assert("'"@ =~= seq!['\'']);
    lemma_quotes(s, "\""@, '"');
    lemma_quotes(s, "'"@, '\'');
}

/// A line sets the key before its first `=` to what follows it, without one
/// layer of quotes, with or without a leading `export`.
pub proof fn lines_set_a_key_to_a_value(key: Seq<char>, value: Seq<char>)
    requires
        key.len() > 0,
        !text::is_space(key[0]),
        !text::is_space(key.last()),
        key[0] != '#',
        !key.contains('='),
        !"export "@.is_prefix_of(key),
        value.len() > 0 ==> !text::is_space(value[0]) && !text::is_space(value.last()),
    ensures
        dotenv_line(key + seq!['='] + value) == Some((key, bare_value(value))),
        dotenv_line("export "@ + key + seq!['='] + value) == Some((key, bare_value(value))),
{
    reveal_strlit("export ");
    reveal_strlit("=");
    assert("="@ =~= seq!['=']);
    let n = key.len() as int;
    let line = key + seq!['='] + value;
    let full = "export "@ + key + seq!['='] + value;
    assert(line[0] == key[0]);
    assert(line.last() == if value.len() > 0 {
        value.last()
    } else {
        '='
    });
    assert(full.last() == line.last());
    assert(full[0] == 'e');
    assert(text::trimmed(line) == line);
    assert(text::trimmed(full) == full);
    assert(text::trimmed(key) == key);
    assert(text::trimmed(value) == value);
    if "export "@.is_prefix_of(line) {
        let lead = line.subrange(0, 7);
        assert(lead =~= "export "@);
        if n >= 7 {
            assert(key.subrange(0, 7) =~= "export "@);
        } else {
            assert(lead[n] == '=');
            assert("export "@[n] == '=');
        }
    }
    assert(full.subrange(0, 7) =~= "export "@);
    assert("export "@.is_prefix_of(full));
    assert(full.skip(7) =~= line);
    text::cuts_are_at_the_first_place(line, "="@);
    assert(line.skip(n).subrange(0, 1) =~= "="@);
    assert("="@.is_prefix_of(line.skip(n)));
    if let Some((before, after)) = text::cut(line, "="@) {
        assert(line[before.len() as int] == '=');
        if before.len() < n {
            assert(key[before.len() as int] == '=');
            assert(key.contains('='));
        }
        if before.len() > n {
            assert(!"="@.is_prefix_of(line.skip(n)));
        }
        assert(before =~= line.take(n));
        assert(key =~= line.take(n));
        assert(after =~= line.skip(n + 1));
        assert(value =~= line.skip(n + 1));
    }
}

/// Blank lines and comments set nothing, and neither do lines without `=`.
pub proof fn other_lines_set_nothing(line: Seq<char>)
    ensures
        text::trimmed(line).len() == 0 ==> dotenv_line(line) is None,
        text::trimmed(line).len() > 0 && text::trimmed(line)[0] == '#' ==> dotenv_line(line) is None,
        !line.contains('=') ==> dotenv_line(line) is None,
{
    reveal_strlit("=");
    reveal_strlit("export ");
    let trimmed = text::trimmed(line);
    text::trimming_takes_off_white_space_alone(line);
    let (i, j) = choose|i: int, j: int|
        0 <= i <= j <= line.len() && trimmed == #[trigger] line.subrange(i, j) && (forall|k: int|
            (0 <= k < i || j <= k < line.len()) ==> text::is_space(#[trigger] line[k]));
    if !line.contains('=') && trimmed.len() > 0 && trimmed[0] != '#' {
        let body = match text::without_prefix(trimmed, "export "@) {
            Some(rest) => rest,
            None => trimmed,
        };
        text::cuts_are_at_the_first_place(body, "="@);
        if let Some((before, after)) = text::cut(body, "="@) {
            let k = before.len() as int;
            assert(body[k] == '=');
            if "export "@.is_prefix_of(trimmed) {
                assert(body[k] == trimmed[k + 7]);
                assert(trimmed[k + 7] == line[i + k + 7]);
            } else {
                assert(trimmed[k] == line[i + k]);
            }
            assert(line.contains('='));
        }
    }
}

/// What two runs of lines set is what the first sets and then what the second
/// sets.
pub proof fn lines_are_read_in_order(a: Seq<Seq<char>>, b: Seq<Seq<char>>)
    ensures
        dotenv_lines(a + b) == dotenv_lines(a) + dotenv_lines(b),
        a.len() == 1 ==> dotenv_lines(a) == match dotenv_line(a[0]) {
            Some(entry) => seq![entry],
            None => Seq::empty(),
        },
    decreases b.len(),
{
    if a.len() == 1 {
        assert(a.drop_last() =~= Seq::<Seq<char>>::empty());
        assert(a.last() == a[0]);
        assert(dotenv_lines(a.drop_last()) == Seq::<(Seq<char>, Seq<char>)>::empty());
        if let Some(entry) = dotenv_line(a[0]) {
            assert(Seq::<(Seq<char>, Seq<char>)>::empty().push(entry) =~= seq![entry]);
        }
    }
    if b.len() == 0 {
        assert(a + b =~= a);
        assert(dotenv_lines(a) + dotenv_lines(b) =~= dotenv_lines(a));
    } else {
        lines_are_read_in_order(a, b.drop_last());
        assert((a + b).drop_last() =~= a + b.drop_last());
        assert(dotenv_lines(a + b) =~= dotenv_lines(a) + dotenv_lines(b));
    }
}

/// The value of a flag is the argument behind its first occurrence, or what
/// follows its `=`; a flag at the end has none, and a flag that does not occur
/// has none.
pub proof fn flags_are_followed_by_their_value(
    args: Seq<Option<Seq<char>>>,
    flag: Seq<char>,
    i: int,
)
    requires
        0 <= i <= args.len(),
        forall|k: int|
            0 <= k < i ==> ((#[trigger] args[k]) matches Some(arg) ==> arg != flag && !(flag
                + "="@).is_prefix_of(arg)),
    ensures
        i == args.len() ==> flag_value(args, flag) is None,
        i < args.len() && args[i] == Some(flag) ==> flag_value(args, flag) == if i + 1 < args.len() {
            args[i + 1]
        } else {
            None
        },
        i < args.len() ==> (args[i] matches Some(arg) ==> (arg != flag && (flag
            + "="@).is_prefix_of(arg) ==> flag_value(args, flag) == Some(
            arg.skip(flag.len() as int + 1),
        ))),
    decreases i,
{
    reveal_strlit("=");
    if i > 0 {
        let rest = args.drop_first();
        assert forall|k: int| 0 <= k < i - 1 implies ((#[trigger] rest[k]) matches Some(arg) ==> arg
            != flag && !(flag + "="@).is_prefix_of(arg)) by {
            assert(rest[k] == args[k + 1]);
        }
        flags_are_followed_by_their_value(rest, flag, i - 1);
        assert(args[0] matches Some(arg) ==> arg != flag && !(flag + "="@).is_prefix_of(arg));
        assert(i < args.len() ==> rest[i - 1] == args[i]);
        assert(i + 1 < args.len() ==> rest[i] == args[i + 1]);
    }
}

/// A file may set a variable exactly where its name starts with `A2ACLI_` and
/// it is not set already.
pub proof fn files_set_only_what_is_free(key: Seq<char>, taken: Seq<Seq<char>>)
    ensures
        may_set(key, taken) <==> key.len() >= 7 && key.take(7) == "A2ACLI_"@ && forall|i: int|
            0 <= i < taken.len() ==> #[trigger] taken[i] != key,
{
    reveal_strlit("A2ACLI_");
    if key.len() >= 7 {
        assert(key.take(7) =~= key.subrange(0, 7));
    }
    if taken.contains(key) {
        let i = choose|i: int| 0 <= i < taken.len() && taken[i] == key;
        assert(taken[i] == key);
    }
}

/// Where a setting came from: from a flag where it was given on the command
/// line; from the file that set its variable, or else from the environment,
/// where the parser found it there; and it is the default otherwise.
pub proof fn sources_tell_where_a_setting_came_from(
    id: Seq<char>,
    env_key: Seq<char>,
    sources: Map<Seq<char>, ValueSource>,
    provenance: Map<Seq<char>, ConfigSource>,
)
    ensures
        ({
            let source = source_of_setting(id, env_key, sources, provenance);
            let given = sources.contains_key(id);
            &&& given && sources[id] == ValueSource::CommandLine ==> source == ConfigSource::Flag
            &&& given && sources[id] == ValueSource::EnvVariable && provenance.contains_key(env_key)
                ==> source == provenance[env_key]
            &&& given && sources[id] == ValueSource::EnvVariable && !provenance.contains_key(
                env_key,
            ) ==> source == ConfigSource::EnvVar
            &&& given && sources[id] == ValueSource::DefaultValue ==> source
                == ConfigSource::Default
            &&& !given ==> source == ConfigSource::Default
        }),
{
}

/// What is shown as a value is the value that is in effect, for every setting;
/// an absent one is shown as words, and a secret only as set or not.
pub proof fn shown_values_are_in_effect(
    cli: Cli,
    sources: Table<ValueSource>,
    provenance: Table<ConfigSource>,
    exists: bool,
    r: ConfigSettings,
)
    requires
        call_ensures(effective_config_settings, (&cli, &sources, &provenance, exists), r),
    ensures
        ({
            let s = r.settings.deep_view();
            let not_set = "(not set)"@;
            &&& s.len() == 17
            &&& s[0].name == "agent-card"@
            &&& s[0].value == or_words(cli.agent_card.deep_view(), not_set)
            &&& s[1].name == "endpoint"@
            &&& s[1].value == or_words(cli.endpoint.deep_view(), not_set)
            &&& s[2].name == "base-url"@
            &&& s[2].value == cli.base_url@
            &&& s[3].name == "transport"@
            &&& s[3].value == transport_text(cli.transport@)
            &&& s[4].name == "a2a-version"@
            &&& cli.a2a_version matches Some(version) ==> s[4].value == version@
            &&& s[5].name == "bearer"@
            &&& s[5].value == redacted(cli.bearer is Some)
            &&& s[6].name == "api-key"@
            &&& s[6].value == redacted(cli.api_key is Some)
            &&& s[7].name == "insecure"@
            &&& s[7].value == bool_text(cli.insecure)
            &&& s[8].name == "debug"@
            &&& s[8].value == bool_text(cli.debug)
            &&& s[9].name == "tenant"@
            &&& s[9].value == or_words(cli.tenant.deep_view(), not_set)
            &&& s[10].name == "output"@
            &&& s[10].value == cli.output.spec_name()
            &&& s[11].name == "compact"@
            &&& s[11].value == bool_text(cli.compact)
            &&& s[12].name == "async"@
            &&& s[12].value == bool_text(cli.async_mode)
            &&& s[13].name == "wait"@
            &&& s[13].value == bool_text(cli.wait)
            &&& s[14].name == "poll-interval"@
            &&& s[14].value == cli.poll_interval.text()
            &&& s[15].name == "timeout"@
            &&& s[15].value == cli.timeout.text()
        }),
{
    let s = r.settings.deep_view();
    assert(s == effective_settings(cli, sources@, provenance@, exists));
}

/// Of every setting the source is told that belongs to its own flag and its
/// own variable.
pub proof fn shown_sources_are_those_of_the_setting(
    cli: Cli,
    sources: Map<Seq<char>, ValueSource>,
    provenance: Map<Seq<char>, ConfigSource>,
    exists: bool,
)
    ensures
        ({
            let s = effective_settings(cli, sources, provenance, exists);
            let told = |id: Seq<char>, env_key: Seq<char>|
                source_of_setting(id, env_key, sources, provenance).spec_label();
            &&& s[0].source == told("agent_card"@, "A2ACLI_AGENT_CARD"@)
            &&& s[1].source == told("endpoint"@, "A2ACLI_ENDPOINT"@)
            &&& s[2].source == told("base_url"@, "A2ACLI_BASE_URL"@)
            &&& s[3].source == told("transport"@, "A2ACLI_TRANSPORT"@)
            &&& s[4].source == told("a2a_version"@, "A2ACLI_A2A_VERSION"@)
            &&& s[5].source == told("bearer"@, "A2ACLI_BEARER"@)
            &&& s[6].source == told("api_key"@, "A2ACLI_API_KEY"@)
            &&& s[7].source == told("insecure"@, "A2ACLI_INSECURE"@)
            &&& s[8].source == told("debug"@, "A2ACLI_DEBUG"@)
            &&& s[9].source == told("tenant"@, "A2ACLI_TENANT"@)
            &&& s[10].source == told("output"@, "A2ACLI_OUTPUT"@)
            &&& s[11].source == told("compact"@, "A2ACLI_COMPACT"@)
            &&& s[12].source == told("async_mode"@, "A2ACLI_ASYNC"@)
            &&& s[13].source == told("wait"@, "A2ACLI_WAIT"@)
            &&& s[14].source == told("poll_interval"@, "A2ACLI_POLL_INTERVAL"@)
            &&& s[15].source == told("timeout"@, "A2ACLI_TIMEOUT"@)
        }),
{
}

/// The card that is shown as resolved is the one that a command would use: none
/// where an endpoint is named, else the one of the named card, and of the base
/// URL only without one.
pub proof fn shown_cards_are_the_ones_used(cli: Cli, exists: bool)
    ensures
        cli.endpoint is None && cli.agent_card is None ==> resolved_card(cli, exists)
            == match reference::card_location(cli.base_url@, exists) {
            CardReferenceView::File(path) => "file://"@ + path,
            CardReferenceView::Url(url) => url,
        },
        cli.endpoint is None ==> (cli.agent_card matches Some(card) ==> resolved_card(cli, exists)
            == match reference::card_location(card@, exists) {
            CardReferenceView::File(path) => "file://"@ + path,
            CardReferenceView::Url(url) => url,
        }),
        cli.endpoint matches Some(endpoint) ==> resolved_card(cli, exists)
            == "(none; --endpoint "@ + endpoint@ + ")"@,
{
}

/// The permission bits of a file are spelled by three digits, one for its
/// owner, one for its group and one for everybody else; it is warned about
/// exactly where one of the last two is not zero.
pub proof fn files_that_others_can_read_are_warned_about(
    path: &str,
    mode: u32,
    owner: nat,
    group: nat,
    others: nat,
    r: Option<String>,
)
    requires
        call_ensures(warn_if_world_readable, (path, mode), r),
        owner < 8,
        group < 8,
        others < 8,
        mode % 512 == owner * 64 + group * 8 + others,
    ensures
        r is Some <==> group != 0 || others != 0,
        owner > 0 ==> octal((mode % 512) as nat) == seq![
            text::digit(owner),
            text::digit(group),
            text::digit(others),
        ],
{
    let bits: nat = (mode % 512) as nat;
    assert(mode % 64 == group * 8 + others) by (nonlinear_arith)
        requires
            mode % 512 == owner * 64 + group * 8 + others,
            group < 8,
            others < 8,
    ;
    if owner > 0 {
        assert(bits % 8 == others && bits / 8 == owner * 8 + group);
        assert((owner * 8 + group) % 8 == group && (owner * 8 + group) / 8 == owner);
        reveal_with_fuel(octal, 4);
        assert(octal(bits) =~= seq![
            text::digit(owner),
            text::digit(group),
            text::digit(others),
        ]);
    }
}

/// The global configuration is below the directory for configuration where
/// that is set and not empty, and otherwise below the home directory, or the
/// profile of the user where there is none.
pub proof fn global_configuration_has_one_place(
    config_home: Option<String>,
    home: Option<String>,
    user_profile: Option<String>,
    r: Option<ConfigHome>,
)
    requires
        call_ensures(global_config_path, (config_home, home, user_profile), r),
    ensures
        ({
            let set = config_home is Some && config_home->0@.len() > 0;
            &&& set ==> (r matches Some(ConfigHome::Config(dir)) && dir@ == config_home->0@)
            &&& !set && home is Some ==> (r matches Some(ConfigHome::Home(dir)) && dir@ == home->0@)
            &&& !set && home is None && user_profile is Some ==> (r matches Some(
                ConfigHome::Home(dir),
            ) && dir@ == user_profile->0@)
            &&& !set && home is None && user_profile is None ==> r is None
        }),
{
}

/// Of a secret only whether it is set is shown; a switch is shown as true or
/// false; and bindings by their names, with commas between them, or as the
/// card's own order where none was given.
pub proof fn values_are_shown_in_words(value: Option<String>, r: String, transport: Seq<Binding>)
    requires
        call_ensures(redact_secret, (&value,), r),
    ensures
        value is Some ==> r@ == "(set, redacted)"@,
        value is None ==> r@ == "(not set)"@,
        bool_text(true) == "true"@,
        bool_text(false) == "false"@,
        transport_text(Seq::empty()) == "(agent card's own order)"@,
        transport_text(seq![Binding::Jsonrpc]) == "jsonrpc"@,
        transport_text(seq![Binding::Rest]) == "rest"@,
        transport.len() > 0 ==> transport_text(transport.push(Binding::Rest)) == transport_text(
            transport,
        ) + ","@ + "rest"@,
        transport.len() > 0 ==> transport_text(transport.push(Binding::Jsonrpc)) == transport_text(
            transport,
        ) + ","@ + "jsonrpc"@,
{
    let name = |b: Binding| b.spec_name();
    assert(seq![Binding::Jsonrpc].map_values(name) =~= seq!["jsonrpc"@]);
    assert(seq![Binding::Rest].map_values(name) =~= seq!["rest"@]);
    if transport.len() > 0 {
        assert(transport.push(Binding::Rest).map_values(name) =~= transport.map_values(name).push(
            "rest"@,
        ));
        assert(transport.push(Binding::Jsonrpc).map_values(name) =~= transport.map_values(
            name,
        ).push("jsonrpc"@));
        text::joins_put_the_separator_between(transport.map_values(name), "rest"@, ","@);
        text::joins_put_the_separator_between(transport.map_values(name), "jsonrpc"@, ","@);
    }
}

/// The source of a setting in words.
pub proof fn sources_have_names(source: ConfigSource, r: &'static str)
    requires
        call_ensures(ConfigSource::label, (source,), r),
    ensures
        source == ConfigSource::Flag ==> r@ == "flag"@,
        source == ConfigSource::EnvVar ==> r@ == "environment variable"@,
        source == ConfigSource::LocalFile ==> r@ == "local .env file"@,
        source == ConfigSource::GlobalFile ==> r@ == "global .env file"@,
        source == ConfigSource::Default ==> r@ == "built-in default"@,
{
}

/// White space around a line, and around the `=` in it, makes no difference.
pub proof fn lines_may_have_white_space(key: Seq<char>, value: Seq<char>, line: Seq<char>, c: char)
    requires
        text::is_space(c),
        key.len() > 0,
        !text::is_space(key[0]),
        key[0] != '#',
        !key.contains('='),
        !"export "@.is_prefix_of(key.push(c)),
        value.len() > 0,
        !text::is_space(value.last()),
    ensures
        dotenv_line(seq![c] + line) == dotenv_line(line),
        dotenv_line(line.push(c)) == dotenv_line(line),
        dotenv_line(key.push(c) + seq!['='] + value) == Some(
            (text::trimmed(key), bare_value(text::trimmed(value))),
        ),
        dotenv_line(key.push(c) + seq!['=', c] + value) == Some(
            (text::trimmed(key), bare_value(text::trimmed(value))),
        ),
{
    text::white_space_around_makes_no_difference(line, c);
    text::white_space_around_makes_no_difference(key, c);
    text::white_space_around_makes_no_difference(value, c);
    assert(!key.push(c).contains('=')) by {
        if key.push(c).contains('=') {
            let k = choose|k: int| 0 <= k < key.push(c).len() && key.push(c)[k] == '=';
            if k < key.len() {
                assert(key[k] == '=');
            }
        }
    }
    lemma_line_is_cut(key.push(c), value);
    lemma_line_is_cut(key.push(c), seq![c] + value);
    assert(key.push(c) + seq!['=', c] + value =~= key.push(c) + seq!['='] + (seq![c] + value));
}

proof fn lemma_line_is_cut(key: Seq<char>, value: Seq<char>)
    requires
        key.len() > 0,
        !text::is_space(key[0]),
        key[0] != '#',
        !key.contains('='),
        !"export "@.is_prefix_of(key),
        value.len() > 0,
        !text::is_space(value.last()),
    ensures
        dotenv_line(key + seq!['='] + value) == Some(
            (text::trimmed(key), bare_value(text::trimmed(value))),
        ),
{
    reveal_strlit("export ");
    reveal_strlit("=");
    assert("="@ =~= seq!['=']);
    let n = key.len() as int;
    let line = key + seq!['='] + value;
    assert(line[0] == key[0]);
    assert(line.last() == value.last());
    assert(text::trimmed(line) == line);
    if "export "@.is_prefix_of(line) {
        let lead = line.subrange(0, 7);
        assert(lead =~= "export "@);
        if n >= 7 {
            assert(key.subrange(0, 7) =~= "export "@);
        } else {
            assert(lead[n] == '=');
            assert("export "@[n] == '=');
        }
    }
    text::cuts_are_at_the_first_place(line, "="@);
    assert(line.skip(n).subrange(0, 1) =~= "="@);
    assert("="@.is_prefix_of(line.skip(n)));
    if let Some((before, after)) = text::cut(line, "="@) {
        assert(line[before.len() as int] == '=');
        if before.len() < n {
            assert(key[before.len() as int] == '=');
            assert(key.contains('='));
        }
        if before.len() > n {
            assert(!"="@.is_prefix_of(line.skip(n)));
        }
        assert(before =~= line.take(n));
        assert(key =~= line.take(n));
        assert(after =~= line.skip(n + 1));
        assert(value =~= line.skip(n + 1));
    }
}

} // verus!
