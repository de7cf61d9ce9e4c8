//! The `query` command: where the statements come from, how they are split,
//! where they are sent and what the server's reply means.

use vstd::prelude::*;
use vstd::string::StringExecFns;
use crate::base::{
    char_views, chars_of, decimal, decimal_text, is_white_space, pieces, split_chars, text_of,
    white_space,
};

verus! {

/// The settings of the client.
#[derive(Clone, Debug, PartialEq, Eq)]
pub struct Config {
    pub group: String,
    pub databend_dir: String,
}

impl Config {
    /// The settings of a client that was told nothing.
    pub fn default() -> (conf: Config)
        ensures
            conf.group@ == "local"@,
            conf.databend_dir@ == ".databend"@,
    {
        Config { group: String::from_str("local"), databend_dir: String::from_str(".databend") }
    }
}

pub struct QueryCommand {
    conf: Config,
}

impl QueryCommand {
    pub closed spec fn conf(&self) -> Config {
        self.conf
    }

    pub fn create(conf: Config) -> (command: QueryCommand)
        ensures
            command.conf() == conf,
    {
        QueryCommand { conf }
    }

    pub fn default() -> (command: QueryCommand)
        ensures
            command.conf().group@ == "local"@,
            command.conf().databend_dir@ == ".databend"@,
    {
        QueryCommand::create(Config::default())
    }

    pub fn config(&self) -> (conf: &Config)
        ensures
            *conf == self.conf(),
    {
        &self.conf
    }

    pub fn name(&self) -> (name: &'static str)
        ensures
            name@ == "query"@,
    {
        "query"
    }

    pub fn about(&self) -> (about: &'static str)
        ensures
            about@ == "Query on databend cluster"@,
    {
        "Query on databend cluster"
    }
}

/// Where a cluster runs.
#[derive(Clone, Copy, Debug, PartialEq, Eq, Structural)]
pub enum ClusterProfile {
    Local,
    Cluster,
}

/// What the command does for a profile.
#[derive(Clone, Copy, Debug, PartialEq, Eq, Structural)]
pub enum ProfileAction {
    /// Run the statements on the local cluster.
    RunLocal,
    /// Report that only `cluster` and `local` are known profiles.
    ReportUnknownProfile,
}

/// The profile of that name.
pub fn parse_profile(name: &str) -> (profile: Option<ClusterProfile>)
    ensures
        profile == (if name@ == "local"@ {
            Some(ClusterProfile::Local)
        } else if name@ == "cluster"@ {
            Some(ClusterProfile::Cluster)
        } else {
            None
        }),
{
    let owned: String = name.to_owned();
    if owned == String::from_str("local") {
        Some(ClusterProfile::Local)
    } else if owned == String::from_str("cluster") {
        Some(ClusterProfile::Cluster)
    } else {
        None
    }
}

/// What the command does for the profile it was given. Queries on a remote
/// cluster are not offered: that profile is left out.
pub fn action_for(profile: Option<ClusterProfile>) -> (action: ProfileAction)
    requires
        profile != Some(ClusterProfile::Cluster),
    ensures
        action == (match profile {
            Some(_) => ProfileAction::RunLocal,
            None => ProfileAction::ReportUnknownProfile,
        }),
{
    match profile {
        Some(_) => ProfileAction::RunLocal,
        None => ProfileAction::ReportUnknownProfile,
    }
}

/// Where the statements of a run come from.
#[derive(Clone, Copy, Debug, PartialEq, Eq, Structural)]
pub enum QuerySource {
    /// The argument names a file that holds them.
    File,
    /// The argument is an address to fetch them from.
    Url,
    /// The argument is the statements.
    Inline,
    /// There is no argument: they are read from standard input.
    Stdin,
}

/// Whether a text starts with another.
pub open spec fn starts_with(text: Seq<char>, prefix: Seq<char>) -> bool {
    prefix.len() <= text.len() && text.take(prefix.len() as int) == prefix
}

fn has_prefix(text: &Vec<char>, prefix: &Vec<char>) -> (yes: bool)
    ensures
        yes == starts_with(text@, prefix@),
{
    if prefix.len() > text.len() {
        return false;
    }
    let mut i: usize = 0;
    while i < prefix.len()
        invariant
            i <= prefix.len(),
            prefix.len() <= text.len(),
            text@.take(i as int) == prefix@.take(i as int),
        decreases prefix.len() - i,
    {
        if text[i] != prefix[i] {
            proof {
                assert(text@.take(prefix.len() as int)[i as int] != prefix@[i as int]);
            }
            return false;
        }
        proof {
            assert(text@.take(i + 1) =~= text@.take(i as int).push(text@[i as int]));
            assert(prefix@.take(i + 1) =~= prefix@.take(i as int).push(prefix@[i as int]));
        }
        i = i + 1;
    }
    proof {
        assert(prefix@.take(prefix.len() as int) == prefix@);
    }
    true
}

/// Where the statements come from: a file where the argument names one that
/// exists, else an address where it starts like one, else the argument
/// itself.
pub fn query_source(arg: Option<&str>, names_file: bool) -> (source: QuerySource)
    ensures
        source == (match arg {
            None => QuerySource::Stdin,
            Some(val) => if names_file {
                QuerySource::File
            } else if starts_with(val@, "http://"@) || starts_with(val@, "https://"@) {
                QuerySource::Url
            } else {
                QuerySource::Inline
            },
        }),
{
    match arg {
        None => QuerySource::Stdin,
        Some(val) => {
            if names_file {
                QuerySource::File
            } else {
                let text: Vec<char> = chars_of(val);
                let plain: Vec<char> = chars_of("http://");
                let secure: Vec<char> = chars_of("https://");
                if has_prefix(&text, &plain) || has_prefix(&text, &secure) {
                    QuerySource::Url
                } else {
                    QuerySource::Inline
                }
            }
        },
    }
}

/// Whether a text holds nothing but white space.
pub open spec fn blank(text: Seq<char>) -> bool {
    forall|i: int| 0 <= i < text.len() ==> white_space(#[trigger] text[i])
}

/// The statements among some pieces: each piece that is not blank, with the
/// semicolon put back.
pub open spec fn statements(parts: Seq<Seq<char>>) -> Seq<Seq<char>>
    decreases parts.len(),
{
    if parts.len() == 0 {
        Seq::empty()
    } else {
        let n = parts.len() - 1;
        let before = statements(parts.take(n));
        if blank(parts[n]) {
            before
        } else {
            before.push(parts[n].push(';'))
        }
    }
}

/// The texts of a list of statements.
pub open spec fn texts(list: Seq<String>) -> Seq<Seq<char>> {
    Seq::new(list.len(), |i: int| list[i]@)
}

fn is_blank(text: &Vec<char>) -> (yes: bool)
    ensures
        yes == blank(text@),
{
    let mut i: usize = 0;
    while i < text.len()
        invariant
            i <= text.len(),
            forall|k: int| 0 <= k < i ==> white_space(#[trigger] text@[k]),
        decreases text.len() - i,
    {
        if !is_white_space(text[i]) {
            return false;
        }
        i = i + 1;
    }
    true
}

/// Splits what the user typed into statements: the text is cut at every
/// semicolon, blank pieces are dropped, and each piece left gets its
/// semicolon back.
pub fn split_queries(queries: &str) -> (list: Vec<String>)
    ensures
        texts(list@) == statements(pieces(queries@, ';')),
{
    let text: Vec<char> = chars_of(queries);
    let parts: Vec<Vec<char>> = split_chars(&text, ';');
    let mut list: Vec<String> = Vec::new();
    let mut i: usize = 0;
    proof {
        assert(texts(list@) =~= statements(char_views(parts@).take(0)));
    }
    while i < parts.len()
        invariant
            i <= parts.len(),
            texts(list@) == statements(char_views(parts@).take(i as int)),
        decreases parts.len() - i,
    {
        proof {
            let all = char_views(parts@);
            assert(all.take(i + 1).take(i as int) == all.take(i as int));
            assert(all.take(i + 1)[i as int] == parts@[i as int]@);
        }
        if !is_blank(&parts[i]) {
            let mut statement: String = text_of(&parts[i]);
            statement.append(";");
            let ghost before = list@;
            proof {
                reveal_strlit(";");
                assert(";"@ =~= seq![';']);
                assert(statement@ =~= parts@[i as int]@.push(';'));
            }
            list.push(statement);
            proof {
                assert(texts(list@) =~= texts(before).push(parts@[i as int]@.push(';')));
            }
        }
        i = i + 1;
    }
    proof {
        let all = char_views(parts@);
        assert(all.take(parts.len() as int) == all);
    }
    list
}

pub const QUERY_PATH: &'static str = "/v1/query?wait_time=-1";

pub const LOAD_PATH: &'static str = "/v1/streaming_load";

/// The address of a handler of the server: `http://`, the host, a colon,
/// the port, and the handler's path.
pub open spec fn endpoint_text(host: Seq<char>, port: u16, path: Seq<char>) -> Seq<char> {
    "http://"@ + host + ":"@ + decimal(port as nat) + path
}

/// The address of a handler of the local server. Only plain HTTP is offered:
/// a server with both a TLS key and a TLS certificate is left out.
pub fn build_endpoint(host: &str, port: u16, path: &str, tls_key: &str, tls_cert: &str) -> (url:
    String)
    requires
        tls_key@.len() == 0 || tls_cert@.len() == 0,
    ensures
        url@ == endpoint_text(host@, port, path@),
{
    let mut url: String = String::from_str("http://");
    url.append(host);
    url.append(":");
    let digits: String = decimal_text(port as u64);
    url.append(digits.as_str());
    url.append(path);
    url
}

/// The address that statements are sent to.
pub fn build_query_endpoint(host: &str, port: u16, tls_key: &str, tls_cert: &str) -> (url: String)
    requires
        tls_key@.len() == 0 || tls_cert@.len() == 0,
    ensures
        url@ == endpoint_text(host@, port, QUERY_PATH@),
{
    build_endpoint(host, port, QUERY_PATH, tls_key, tls_cert)
}

/// The address that data to load is sent to.
pub fn build_load_endpoint(host: &str, port: u16, tls_key: &str, tls_cert: &str) -> (url: String)
    requires
        tls_key@.len() == 0 || tls_cert@.len() == 0,
    ensures
        url@ == endpoint_text(host@, port, LOAD_PATH@),
{
    build_endpoint(host, port, LOAD_PATH, tls_key, tls_cert)
}

/// The address under which the server keeps the end of a query: the scheme,
/// host and port of the address the query was sent to, and the path that the
/// reply names.
pub fn final_uri(scheme: &str, host: &str, port: u16, path: &str) -> (uri: String)
    ensures
        uri@ == scheme@ + "://"@ + host@ + ":"@ + decimal(port as nat) + "/"@ + path@,
{
    let mut uri: String = scheme.to_owned();
    uri.append("://");
    uri.append(host);
    uri.append(":");
    let digits: String = decimal_text(port as u64);
    uri.append(digits.as_str());
    uri.append("/");
    uri.append(path);
    uri
}

/// Why a command failed. Each error carries its message.
#[derive(Clone, Debug, PartialEq, Eq)]
pub enum CliError {
    Unknown(String),
}

/// What the reply to a load means: an error where the server says so in its
/// status, in what it sent, or by sending what cannot be read.
pub fn load_outcome(status_ok: bool, status_text: &str, decoded: Result<Option<String>, String>) -> (
    res: Result<(), CliError>)
    ensures
        !status_ok ==> (res matches Err(CliError::Unknown(m)) && m@
            == "http streaming load fail, reason=status_code="@ + status_text@),
        status_ok ==> match decoded {
            Ok(None) => res is Ok,
            Ok(Some(e)) => res matches Err(CliError::Unknown(m)) && m == e,
            Err(e) => res matches Err(CliError::Unknown(m)) && m@ == "json decode error="@ + e@,
        },
{
    if !status_ok {
        let mut msg: String = String::from_str("http streaming load fail, reason=status_code=");
        msg.append(status_text);
        Err(CliError::Unknown(msg))
    } else {
        match decoded {
            Ok(None) => Ok(()),
            Ok(Some(e)) => Err(CliError::Unknown(e)),
            Err(e) => {
                let mut msg: String = String::from_str("json decode error=");
                msg.append(e.as_str());
                Err(CliError::Unknown(msg))
            },
        }
    }
}

/// What the reply to a query means once it was read: an error where the
/// server reported one.
pub fn query_outcome(error: Option<String>) -> (res: Result<(), CliError>)
    ensures
        match error {
            None => res is Ok,
            Some(e) => res matches Err(CliError::Unknown(m)) && m@ == "Query has error: "@ + e@,
        },
{
    match error {
        None => Ok(()),
        Some(e) => {
            let mut msg: String = String::from_str("Query has error: ");
            msg.append(e.as_str());
            Err(CliError::Unknown(msg))
        },
    }
}

} // verus!
