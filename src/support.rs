//! Run configuration: the target, its HTTP method, headers and request volume.
use vstd::prelude::*;
use vstd::string::*;
use crate::text::{
    after_first_token, find_colon, first_token, first_token_of, has_second_token, has_single_colon,
    same_text, split_after_first_token, split_single_colon, trim, trimmed,
};

verus! {

/// HTTP methods that a target may name.
#[derive(PartialEq, Eq, Structural, Debug, Clone, Copy)]
pub enum Operation {
    Get,
    Post,
    Head,
    Patch,
    Put,
    Delete,
}

/// The method an upper-case token names; anything unknown falls back to `Get`.
pub open spec fn operation_of(token: Seq<char>) -> Operation {
    if token == "POST"@ {
        Operation::Post
    } else if token == "HEAD"@ {
        Operation::Head
    } else if token == "PATCH"@ {
        Operation::Patch
    } else if token == "PUT"@ {
        Operation::Put
    } else if token == "DELETE"@ {
        Operation::Delete
    } else {
        Operation::Get
    }
}

/// The upper-case mapping of a string, as the standard library defines it.
pub uninterp spec fn upper_of(s: Seq<char>) -> Seq<char>;

/// Relies on `str::to_uppercase`: the result depends on the characters alone.
#[verifier::external_body]
fn uppercase(s: &str) -> (r: String)
    ensures
        r@ == upper_of(s@),
{
    s.to_uppercase()
}

impl Operation {
    /// The method named by an already upper-cased token.
    pub fn from_upper(token: &str) -> (r: Operation)
        ensures
            r == operation_of(token@),
    {
        if same_text(token, "POST") {
            Operation::Post
        } else if same_text(token, "HEAD") {
            Operation::Head
        } else if same_text(token, "PATCH") {
            Operation::Patch
        } else if same_text(token, "PUT") {
            Operation::Put
        } else if same_text(token, "DELETE") {
            Operation::Delete
        } else {
            Operation::Get
        }
    }
}

/// The method a target string selects: its first token, compared case-insensitively.
pub open spec fn target_operation(target: Seq<char>) -> Operation {
    if first_token(target).len() == 0 {
        Operation::Get
    } else {
        operation_of(upper_of(first_token(target)))
    }
}

/// The URL a target string names: the text after the first token when more
/// than one token is present, else the single token itself.
pub open spec fn target_url(target: Seq<char>) -> Seq<char> {
    if has_second_token(target) {
        after_first_token(target)
    } else {
        first_token(target)
    }
}

/// One request header.
#[derive(Debug, Clone, PartialEq, Eq)]
pub struct Header {
    pub key: String,
    pub value: String,
}

impl View for Header {
    type V = (Seq<char>, Seq<char>);

    open spec fn view(&self) -> (Seq<char>, Seq<char>) {
        (self.key@, self.value@)
    }
}

/// The header a `key:value` string describes: present only when the string
/// holds exactly one colon; both sides are trimmed.
pub open spec fn header_of(s: Seq<char>) -> Option<(Seq<char>, Seq<char>)> {
    if has_single_colon(s) {
        let p = find_colon(s, 0) as int;
        Some((trimmed(s.subrange(0, p)), trimmed(s.subrange(p + 1, s.len() as int))))
    } else {
        None
    }
}

/// The headers a list of `key:value` strings describes, in order, without
/// the entries that are not of that shape.
pub open spec fn headers_of(s: Seq<Seq<char>>) -> Seq<(Seq<char>, Seq<char>)>
    decreases s.len(),
{
    if s.len() == 0 {
        Seq::empty()
    } else {
        let prefix = headers_of(s.drop_last());
        match header_of(s.last()) {
            Some(h) => prefix.push(h),
            None => prefix,
        }
    }
}

/// The character sequences of a list of strings.
pub open spec fn string_views(s: Seq<String>) -> Seq<Seq<char>> {
    s.map_values(|x: String| x@)
}

/// The `(key, value)` pairs of a list of headers.
pub open spec fn header_views(s: Seq<Header>) -> Seq<(Seq<char>, Seq<char>)> {
    s.map_values(|h: Header| h@)
}

/// Parses one `key:value` header string.
pub fn parse_header(s: &str) -> (r: Option<Header>)
    ensures
        r matches Some(h) ==> header_of(s@) == Some(h@),
        r is None ==> header_of(s@) is None,
{
    match split_single_colon(s) {
        Some((k, v)) => Some(Header { key: trim(k.as_str()), value: trim(v.as_str()) }),
        None => None,
    }
}

/// Parses a list of `key:value` header strings, dropping malformed entries.
pub fn parse_headers(v: &Vec<String>) -> (r: Vec<Header>)
    ensures
        header_views(r@) == headers_of(string_views(v@)),
{
    let mut out: Vec<Header> = Vec::new();
    let mut i: usize = 0;
    while i < v.len()
        invariant
            i <= v@.len(),
            header_views(out@) == headers_of(string_views(v@.subrange(0, i as int))),
        decreases v@.len() - i,
    {
        let ghost before = out@;
        let parsed = parse_header(v[i].as_str());
        proof {
            assert(string_views(v@.subrange(0, i + 1)).drop_last() =~= string_views(
                v@.subrange(0, i as int),
            ));
            assert(string_views(v@.subrange(0, i + 1)).last() == v@[i as int]@);
        }
        match parsed {
            Some(h) => {
                out.push(h);
                assert(header_views(out@) =~= header_views(before).push(h@));
            },
            None => {},
        }
        i = i + 1;
    }
    assert(v@.subrange(0, i as int) =~= v@);
    out
}

/// The configuration of one run.
#[derive(Debug, Clone, PartialEq)]
pub struct Settings {
    pub clients: usize,
    pub requests: usize,
    pub target: String,
    /// Keep-alive interval for the connections, in milliseconds.
    pub keep_alive: Option<u64>,
    pub body: Option<String>,
    pub headers: Option<Vec<Header>>,
    /// Run length in seconds; when absent the run is counted by `requests`.
    pub duration: Option<u64>,
    pub verbose: bool,
}

/// The options given on the command line.
#[derive(Debug, Default, Clone)]
pub struct Args {
    pub verbose: bool,
    pub target: Option<String>,
    /// Path of a file that holds the request body.
    pub request_body: Option<String>,
    pub clients: usize,
    pub iterations: usize,
    pub duration: Option<u64>,
    pub headers: Option<Vec<String>>,
    /// Path of a YAML file that holds the whole configuration.
    pub scenario: Option<String>,
}

/// Why no configuration could be built.
#[derive(Debug, Clone, PartialEq, Eq)]
pub enum SettingsError {
    /// No target was given.
    MissingTarget,
    /// The named file could not be read.
    UnreadableFile(String),
    /// The scenario file is not a valid configuration.
    InvalidScenario,
}

impl SettingsError {
    /// The message that describes the error.
    pub fn to_string(&self) -> (r: String)
        ensures
            r@ == error_message(*self),
    {
        match self {
            SettingsError::MissingTarget => String::from_str("Target URL is required"),
            SettingsError::UnreadableFile(path) => String::from_str(
                "Failed to read file from ",
            ).concat(path.as_str()),
            SettingsError::InvalidScenario => String::from_str("Invalid YAML format"),
        }
    }
}

/// The message each error carries.
pub open spec fn error_message(e: SettingsError) -> Seq<char> {
    match e {
        SettingsError::MissingTarget => "Target URL is required"@,
        SettingsError::UnreadableFile(path) => "Failed to read file from "@ + path@,
        SettingsError::InvalidScenario => "Invalid YAML format"@,
    }
}

/// What became of reading and decoding a scenario file.
#[derive(Debug, Clone)]
pub enum ScenarioLoad {
    Unreadable,
    Malformed,
    Loaded(Settings),
}

/// The header list a configuration gets from the command line.
pub open spec fn headers_from_args(h: Option<Vec<String>>, r: Option<Vec<Header>>) -> bool {
    match h {
        None => r is None,
        Some(v) => r matches Some(w) && header_views(w@) == headers_of(string_views(v@)),
    }
}

/// Whether `s` is the configuration that command-line options `a` describe,
/// with `body` as the request body.
pub open spec fn settings_from_args(a: Args, body: Option<String>, s: Settings) -> bool {
    &&& a.target matches Some(t) && s.target@ == t@
    &&& s.clients == a.clients
    &&& s.requests == a.iterations
    &&& s.keep_alive is None
    &&& s.body == body
    &&& headers_from_args(a.headers, s.headers)
    &&& s.duration == a.duration
    &&& s.verbose == a.verbose
}

/// What building a configuration from command-line options gives: the
/// unreadable body file first, then a missing target, else the settings.
pub open spec fn from_args_outcome(
    args: Args,
    body: Option<String>,
    r: Result<Settings, SettingsError>,
) -> bool {
    match args.request_body {
        Some(p) if body is None => r == Err::<Settings, SettingsError>(
            SettingsError::UnreadableFile(p),
        ),
        _ => match args.target {
            None => r == Err::<Settings, SettingsError>(SettingsError::MissingTarget),
            Some(_) => r matches Ok(s) && settings_from_args(
                args,
                if args.request_body is Some {
                    body
                } else {
                    None
                },
                s,
            ),
        },
    }
}

impl Settings {
    /// The number of requests each client issues in counted mode.
    pub fn ino_requests_by_client(&self) -> (r: usize)
        requires
            self.clients > 0,
        ensures
            r == self.requests / self.clients,
    {
        self.requests / self.clients
    }

    /// The HTTP method the target selects.
    pub fn ino_operation(&self) -> (r: Operation)
        ensures
            r == target_operation(self.target@),
    {
        let token = first_token_of(self.target.as_str());
        if token.unicode_len() == 0 {
            Operation::Get
        } else {
            let upper = uppercase(token.as_str());
            Operation::from_upper(upper.as_str())
        }
    }

    /// The URL the target names.
    pub fn ino_target(&self) -> (r: String)
        ensures
            r@ == target_url(self.target@),
    {
        let (more, rest) = split_after_first_token(self.target.as_str());
        if more {
            rest
        } else {
            first_token_of(self.target.as_str())
        }
    }

    /// Builds the configuration from command-line options. `body` is the
    /// content of the file `args.request_body` names, or `None` when it
    /// could not be read.
    pub fn ino_from_args(args: Args, body: Option<String>) -> (r: Result<Settings, SettingsError>)
        ensures
            from_args_outcome(args, body, r),
    {
        let headers = match &args.headers {
            None => None,
            Some(v) => Some(parse_headers(v)),
        };
        let body = match args.request_body {
            None => None,
            Some(path) => match body {
                None => {
                    return Err(SettingsError::UnreadableFile(path));
                },
                Some(content) => Some(content),
            },
        };
        let target = match args.target {
            None => {
                return Err(SettingsError::MissingTarget);
            },
            Some(t) => t,
        };
        Ok(
            Settings {
                clients: args.clients,
                requests: args.iterations,
                target,
                keep_alive: None,
                body,
                headers,
                duration: args.duration,
                verbose: args.verbose,
            },
        )
    }
}

impl Args {
    /// Builds the configuration: from the scenario file when one is named
    /// (`scenario` says what reading it gave; `None` when it was not read),
    /// else from the options.
    pub fn ino_to_string(self, body: Option<String>, scenario: Option<ScenarioLoad>) -> (r: Result<
        Settings,
        SettingsError,
    >)
        ensures
            self.scenario matches Some(p) ==> r == match scenario {
                Some(ScenarioLoad::Loaded(s)) => Ok(s),
                Some(ScenarioLoad::Malformed) => Err(SettingsError::InvalidScenario),
                _ => Err(SettingsError::UnreadableFile(p)),
            },
            self.scenario is None ==> from_args_outcome(self, body, r),
    {
        match self.scenario {
            None => Settings::ino_from_args(self, body),
            Some(path) => match scenario {
                Some(ScenarioLoad::Loaded(s)) => Ok(s),
                Some(ScenarioLoad::Malformed) => Err(SettingsError::InvalidScenario),
                _ => Err(SettingsError::UnreadableFile(path)),
            },
        }
    }
}

} // verus!
