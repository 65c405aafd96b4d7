//! Settings of the daemon, read from the environment, and the paths that follow
//! from them.

use vstd::prelude::*;

use crate::text;

verus! {

broadcast use vstd::string::group_string_axioms;

/// Why a setting was refused.
#[derive(Debug, PartialEq, Eq)]
pub enum ConfigError {
    Invalid { var: &'static str, value: String, reason: String },
}

impl ConfigError {
    /// The error as one line of text.
    pub open spec fn message_text(&self) -> Seq<char> {
        match self {
            ConfigError::Invalid { var, value, reason } => "invalid value "@ + text::quoted(value@)
                + " for "@ + var@ + ": "@ + reason@,
        }
    }

    /// The error as one line of text.
    pub fn message(&self) -> (r: String)
        ensures
            r@ == self.message_text(),
    {
        match self {
            ConfigError::Invalid { var, value, reason } => {
                let mut out = "invalid value ".to_owned();
                out.append(&text::quote(value));
                out.append(" for ");
                out.append(var);
                out.append(": ");
                out.append(reason);
                out
            },
        }
    }
}

/// The settings of the daemon.
#[derive(Debug)]
pub struct Config {
    pub data_dir: String,
    pub port: u16,
    pub auth_token: Option<String>,
    pub timezone: String,
    pub default_endpoint: Option<String>,
    pub default_model: Option<String>,
}

/// The mathematical value of a [`Config`].
#[verifier::ext_equal]
pub struct ConfigSettings {
    pub data_dir: Seq<char>,
    pub port: int,
    pub auth_token: Option<Seq<char>>,
    pub timezone: Seq<char>,
    pub default_endpoint: Option<Seq<char>>,
    pub default_model: Option<Seq<char>>,
}

/// The port of a text, scanned from `from` on with the number read so far, or
/// what is wrong with it.
pub open spec fn scan_port(s: Seq<char>, from: int, so_far: int) -> Result<int, Seq<char>>
    decreases s.len() - from,
{
    if from < 0 || from >= s.len() {
        Ok(so_far)
    } else if !text::digit(s[from]) {
        Err("invalid digit found in string"@)
    } else {
        let next = so_far * 10 + (s[from] as u32 - '0' as u32);
        if next > 65535 {
            Err("number too large to fit in target type"@)
        } else {
            scan_port(s, from + 1, next)
        }
    }
}

/// The port that a text is, or what is wrong with it. A leading `+` is allowed.
pub open spec fn port_of(value: Seq<char>) -> Result<int, Seq<char>> {
    if value.len() == 0 {
        Err("cannot parse integer from empty string"@)
    } else if value.len() == 1 && value[0] == '+' {
        Err("invalid digit found in string"@)
    } else if value[0] == '+' {
        scan_port(value, 1, 0)
    } else {
        scan_port(value, 0, 0)
    }
}

/// The port setting: 8080 where there is none.
pub open spec fn port_setting(raw: Option<Seq<char>>) -> Result<int, Seq<char>> {
    match raw {
        None => Ok(8080),
        Some(value) => port_of(value),
    }
}

/// The settings that the variables' values give, or what is wrong with the port.
pub open spec fn settings_of(
    data_dir: Option<Seq<char>>,
    port: Option<Seq<char>>,
    auth_token: Option<Seq<char>>,
    timezone: Option<Seq<char>>,
    default_endpoint: Option<Seq<char>>,
    default_model: Option<Seq<char>>,
) -> Result<ConfigSettings, Seq<char>> {
    match port_setting(port) {
        Err(reason) => Err(reason),
        Ok(port) => Ok(
            ConfigSettings {
                data_dir: match data_dir {
                    Some(dir) => dir,
                    None => "/data"@,
                },
                port,
                auth_token,
                timezone: match timezone {
                    Some(zone) => zone,
                    None => "UTC"@,
                },
                default_endpoint,
                default_model,
            },
        ),
    }
}

fn parse_port(raw: Option<String>) -> (r: Result<u16, ConfigError>)
    ensures
        match r {
            Ok(port) => port_setting(text::opt_view(raw)) == Ok::<int, Seq<char>>(port as int),
            Err(ConfigError::Invalid { var, value, reason }) => {
                &&& raw is Some
                &&& var@ == "CLAW_PORT"@
                &&& value@ == raw->0@
                &&& port_setting(text::opt_view(raw)) == Err::<int, Seq<char>>(reason@)
            },
        },
{
    let value = match raw {
        None => {
            return Ok(8080);
        },
        Some(value) => value,
    };
    let list = text::chars(&value);
    if list.len() == 0 {
        return Err(invalid_port(value, "cannot parse integer from empty string"));
    }
    let mut i: usize = 0;
    if list[0] == '+' {
        if list.len() == 1 {
            return Err(invalid_port(value, "invalid digit found in string"));
        }
        i = 1;
    }
    let mut port: u32 = 0;
    while i < list.len()
        invariant
            list@ == value@,
            i <= list@.len(),
            port <= 65535,
            port_of(value@) == scan_port(value@, i as int, port as int),
            raw == Some(value),
        decreases list@.len() - i,
    {
        let c = list[i];
        if c < '0' || c > '9' {
            return Err(invalid_port(value, "invalid digit found in string"));
        }
        let next: u32 = port * 10 + (c as u32 - '0' as u32);
        if next > 65535 {
            return Err(invalid_port(value, "number too large to fit in target type"));
        }
        port = next;
        i += 1;
    }
    Ok(port as u16)
}

fn invalid_port(value: String, reason: &str) -> (r: ConfigError)
    ensures
        r matches ConfigError::Invalid { var, value: v, reason: why } && var@ == "CLAW_PORT"@ && v
            == value && why@ == reason@,
{
    ConfigError::Invalid { var: "CLAW_PORT", value, reason: reason.to_owned() }
}

/// The path of a name in a directory.
pub open spec fn path_in(dir: Seq<char>, name: Seq<char>) -> Seq<char> {
    if dir.len() == 0 || dir.last() == '/' {
        dir + name
    } else {
        dir + "/"@ + name
    }
}

/// The path of a name in a directory.
pub fn join_path(dir: &str, name: &str) -> (r: String)
    ensures
        r@ == path_in(dir@, name@),
{
    let list = text::chars(dir);
    if list.len() == 0 || list[list.len() - 1] == '/' {
        text::concat2(dir, name)
    } else {
        text::concat3(dir, "/", name)
    }
}

impl Config {
    pub open spec fn view(&self) -> ConfigSettings {
        ConfigSettings {
            data_dir: self.data_dir@,
            port: self.port as int,
            auth_token: text::opt_view(self.auth_token),
            timezone: self.timezone@,
            default_endpoint: text::opt_view(self.default_endpoint),
            default_model: text::opt_view(self.default_model),
        }
    }

    /// The settings that some values of the variables give.
    pub fn from_values(
        data_dir: Option<String>,
        port: Option<String>,
        auth_token: Option<String>,
        timezone: Option<String>,
        default_endpoint: Option<String>,
        default_model: Option<String>,
    ) -> (r: Result<Self, ConfigError>)
        ensures
            match r {
                Ok(config) => settings_of(
                    text::opt_view(data_dir),
                    text::opt_view(port),
                    text::opt_view(auth_token),
                    text::opt_view(timezone),
                    text::opt_view(default_endpoint),
                    text::opt_view(default_model),
                ) == Ok::<ConfigSettings, Seq<char>>(config@),
                Err(ConfigError::Invalid { var, value, reason }) => {
                    &&& port is Some
                    &&& var@ == "CLAW_PORT"@
                    &&& value@ == port->0@
                    &&& settings_of(
                        text::opt_view(data_dir),
                        text::opt_view(port),
                        text::opt_view(auth_token),
                        text::opt_view(timezone),
                        text::opt_view(default_endpoint),
                        text::opt_view(default_model),
                    ) == Err::<ConfigSettings, Seq<char>>(reason@)
                },
            },
    {
        let port = parse_port(port)?;
        let data_dir = match data_dir {
            Some(dir) => dir,
            None => "/data".to_owned(),
        };
        let timezone = match timezone {
            Some(zone) => zone,
            None => "UTC".to_owned(),
        };
        Ok(Config { data_dir, port, auth_token, timezone, default_endpoint, default_model })
    }

    /// Reads the settings through a lookup of variables.
    pub fn from_lookup<F: Fn(&str) -> Option<String>>(lookup: F) -> (r: Result<Self, ConfigError>)
        requires
            forall|var: &str| call_requires(lookup, (var,)),
        ensures
            exists|
                data_dir: Option<String>,
                port: Option<String>,
                auth_token: Option<String>,
                timezone: Option<String>,
                default_endpoint: Option<String>,
                default_model: Option<String>,
            |
                {
                    &&& #[trigger] call_ensures(lookup, ("CLAW_DATA_DIR",), data_dir)
                    &&& #[trigger] call_ensures(lookup, ("CLAW_PORT",), port)
                    &&& #[trigger] call_ensures(lookup, ("CLAW_AUTH_TOKEN",), auth_token)
                    &&& #[trigger] call_ensures(lookup, ("CLAW_TIMEZONE",), timezone)
                    &&& #[trigger] call_ensures(
                        lookup,
                        ("CLAW_DEFAULT_ENDPOINT",),
                        default_endpoint,
                    )
                    &&& #[trigger] call_ensures(lookup, ("CLAW_DEFAULT_MODEL",), default_model)
                    &&& outcome_of(r) == settings_of(
                        text::opt_view(data_dir),
                        text::opt_view(port),
                        text::opt_view(auth_token),
                        text::opt_view(timezone),
                        text::opt_view(default_endpoint),
                        text::opt_view(default_model),
                    )
                    &&& r matches Err(ConfigError::Invalid { var, value, .. }) ==> var@
                        == "CLAW_PORT"@ && port is Some && value@ == port->0@
                },
    {
        let data_dir = lookup("CLAW_DATA_DIR");
        let port = lookup("CLAW_PORT");
        let timezone = lookup("CLAW_TIMEZONE");
        let auth_token = lookup("CLAW_AUTH_TOKEN");
        let default_endpoint = lookup("CLAW_DEFAULT_ENDPOINT");
        let default_model = lookup("CLAW_DEFAULT_MODEL");
        Self::from_values(
            data_dir,
            port,
            auth_token,
            timezone,
            default_endpoint,
            default_model,
        )
    }

    /// The path of the central database.
    pub fn central_db_path(&self) -> (r: String)
        ensures
            r@ == path_in(self.data_dir@, "central.db"@),
    {
        join_path(&self.data_dir, "central.db")
    }

    /// The directory of the session databases.
    pub fn sessions_dir(&self) -> (r: String)
        ensures
            r@ == path_in(self.data_dir@, "sessions"@),
    {
        join_path(&self.data_dir, "sessions")
    }

    /// The directory of the agent groups.
    pub fn groups_dir(&self) -> (r: String)
        ensures
            r@ == path_in(self.data_dir@, "groups"@),
    {
        join_path(&self.data_dir, "groups")
    }

    /// The directory of the logs.
    pub fn logs_dir(&self) -> (r: String)
        ensures
            r@ == path_in(self.data_dir@, "logs"@),
    {
        join_path(&self.data_dir, "logs")
    }

    /// The path of the admin socket.
    pub fn socket_path(&self) -> (r: String)
        ensures
            r@ == path_in(self.data_dir@, "claw.sock"@),
    {
        join_path(&self.data_dir, "claw.sock")
    }
}

/// The settings, or what is wrong.
pub open spec fn outcome_of(r: Result<Config, ConfigError>) -> Result<ConfigSettings, Seq<char>> {
    match r {
        Ok(config) => Ok(config@),
        Err(ConfigError::Invalid { reason, .. }) => Err(reason@),
    }
}

/// A path in a directory begins with the directory and ends with the name.
pub proof fn derived_paths_lie_in_the_directory(dir: Seq<char>, name: Seq<char>)
    ensures
        path_in(dir, name).take(dir.len() as int) == dir,
        path_in(dir, name).skip(path_in(dir, name).len() - name.len()) == name,
{
    reveal_strlit("/");
}

/// With nothing set, the settings are the defaults.
pub proof fn nothing_set_gives_the_defaults()
    ensures
        settings_of(None, None, None, None, None, None) == Ok::<ConfigSettings, Seq<char>>(
            ConfigSettings {
                data_dir: "/data"@,
                port: 8080,
                auth_token: None,
                timezone: "UTC"@,
                default_endpoint: None,
                default_model: None,
            },
        ),
{
}

proof fn lemma_port_scanned(s: Seq<char>, from: int, so_far: int)
    requires
        0 <= from <= s.len(),
        0 <= so_far <= 65535,
    ensures
        scan_port(s, from, so_far) matches Ok(n) ==> 0 <= n <= 65535 && forall|i: int|
            from <= i < s.len() ==> '0' <= #[trigger] s[i] <= '9',
    decreases s.len() - from,
{
    if from < s.len() && text::digit(s[from]) {
        let next = so_far * 10 + (s[from] as u32 - '0' as u32);
        if next <= 65535 {
            lemma_port_scanned(s, from + 1, next);
        }
    }
}

/// A port is a number of digits alone, with a plus sign in front or none, and one
/// that a port can have.
pub proof fn ports_are_numbers_that_fit(value: Seq<char>, i: int)
    requires
        port_of(value) is Ok,
    ensures
        0 <= port_of(value)->Ok_0 <= 65535,
        value.len() > 0,
        0 < i < value.len() ==> '0' <= value[i] <= '9',
        '0' <= value[0] <= '9' || value[0] == '+' && value.len() > 1,
{
    if value.len() > 0 {
        lemma_port_scanned(value, 0, 0);
        if value[0] == '+' {
            lemma_port_scanned(value, 1, 0);
        }
    }
}

/// One digit more makes ten times the port and the digit.
pub proof fn digits_count_tenfold(value: Seq<char>, digit: char)
    requires
        port_of(value) is Ok,
        '0' <= digit <= '9',
    ensures
        ({
            let more = port_of(value)->Ok_0 * 10 + (digit as int - '0' as int);
            &&& more <= 65535 ==> port_of(value.push(digit)) == Ok::<int, Seq<char>>(more)
            &&& more > 65535 ==> port_of(value.push(digit)) is Err
        }),
        port_of(seq![digit]) == Ok::<int, Seq<char>>(digit as int - '0' as int),
{
    reveal_with_fuel(scan_port, 2);
    let more = value.push(digit);
    assert(more[0] == value[0]);
    if value[0] == '+' {
        lemma_digit_scanned(value, digit, 1, 0);
    } else {
        lemma_digit_scanned(value, digit, 0, 0);
    }
}

proof fn lemma_digit_scanned(s: Seq<char>, digit: char, from: int, so_far: int)
    requires
        0 <= from <= s.len(),
        scan_port(s, from, so_far) is Ok,
        '0' <= digit <= '9',
    ensures
        ({
            let more = scan_port(s, from, so_far)->Ok_0 * 10 + (digit as u32 - '0' as u32);
            scan_port(s.push(digit), from, so_far) == (if more > 65535 {
                Err::<int, Seq<char>>("number too large to fit in target type"@)
            } else {
                Ok(more)
            })
        }),
    decreases s.len() - from,
{
    reveal_with_fuel(scan_port, 2);
    let more = s.push(digit);
    if from < s.len() {
        assert(more[from] == s[from]);
        lemma_digit_scanned(s, digit, from + 1, so_far * 10 + (s[from] as u32 - '0' as u32));
    } else {
        assert(more[from] == digit);
    }
}

/// What is set is taken as it is set, each setting from its own value.
pub proof fn settings_are_taken_as_set(
    data_dir: Option<Seq<char>>,
    port: Option<Seq<char>>,
    auth_token: Option<Seq<char>>,
    timezone: Option<Seq<char>>,
    default_endpoint: Option<Seq<char>>,
    default_model: Option<Seq<char>>,
)
    ensures
        settings_of(
            data_dir,
            port,
            auth_token,
            timezone,
            default_endpoint,
            default_model,
        ) matches Ok(s) ==> {
            &&& data_dir is Some ==> s.data_dir == data_dir->0
            &&& port is Some ==> port_of(port->0) == Ok::<int, Seq<char>>(s.port)
            &&& s.auth_token == auth_token
            &&& timezone is Some ==> s.timezone == timezone->0
            &&& s.default_endpoint == default_endpoint
            &&& s.default_model == default_model
        },
        settings_of(data_dir, port, auth_token, timezone, default_endpoint, default_model) is Err
            <==> port is Some && port_of(port->0) is Err,
{
}

} // verus!
