//! Planning of the read-only event store and of the scan session, and
//! the settings that come from the environment.
//!
//! Everything here computes plans from plain values; the outside world
//! reads the environment, touches the file system and registers the
//! columnar reader against the plans elsewhere.

use vstd::prelude::*;

use crate::config::Config;
use crate::config::HubConfig;
use crate::config::StorageConfig;
use crate::strings::parse_usize;
use crate::strings::parse_usize_spec;
use crate::strings::split_chars;
use crate::strings::split_on;
use crate::strings::split_once_at;
use crate::strings::split_once_spec;
use crate::strings::string_eq_str;
use crate::strings::trim;
use crate::strings::trim_spec;
use crate::strings::views_of;
use crate::types::QueryError;
use crate::types::QueryErrorKind;
use crate::types::clone_strings;
use crate::types::strings_match;

verus! {

/// The blob source a configuration names: a local directory, or a cloud
/// blob container reached with a shared-access signature.
#[derive(Debug)]
pub enum StorePlan {
    LocalDirectory { folder: String, joined_cwd: bool },
    AzureBlobContainer { account: String, container: String, sas_token: String },
}

/// The pairs of the key/value pieces from index `i` on: empty pieces are
/// skipped, every other piece must hold a `=`, and both sides are
/// trimmed.
pub open spec fn parse_kv_from(pieces: Seq<Seq<char>>, i: int) -> Option<
    Seq<(Seq<char>, Seq<char>)>,
>
    decreases pieces.len() - i,
{
    if i < 0 || i >= pieces.len() {
        Option::Some(Seq::empty())
    } else if pieces[i].len() == 0 {
        parse_kv_from(pieces, i + 1)
    } else {
        match split_once_spec(pieces[i], '=') {
            Option::None => Option::None,
            Option::Some(kv) => match parse_kv_from(pieces, i + 1) {
                Option::None => Option::None,
                Option::Some(rest) => Option::Some(
                    seq![(trim_spec(kv.0), trim_spec(kv.1))] + rest,
                ),
            },
        }
    }
}

/// The key/value pairs that a `;`-separated `key=value` text holds, or
/// nothing when a non-empty piece misses its `=`.
pub open spec fn parse_kv_spec(s: Seq<char>) -> Option<Seq<(Seq<char>, Seq<char>)>> {
    parse_kv_from(split_chars(s, ';'), 0)
}

/// The texts of a vector of string pairs.
pub open spec fn pair_views(v: Seq<(String, String)>) -> Seq<(Seq<char>, Seq<char>)> {
    Seq::new(v.len(), |i: int| (v[i].0@, v[i].1@))
}

/// Break a `;`-separated `key=value` text into its trimmed pairs, in
/// order.  Empty pieces are skipped; a non-empty piece without `=` is an
/// invalid configuration.
pub fn parse_key_value_string(input: &str) -> (r: Result<Vec<(String, String)>, QueryError>)
    ensures
        r is Ok <==> parse_kv_spec(input@) is Some,
        r is Ok ==> parse_kv_spec(input@) == Option::Some(pair_views((r->Ok_0)@)),
        r is Err ==> (r->Err_0).kind == QueryErrorKind::InvalidConfig,
{
    let pieces = split_on(input, ';');
    let ghost gpieces = views_of(pieces@);
    let mut out: Vec<(String, String)> = Vec::new();
    let n = pieces.len();
    let mut i: usize = 0;
    proof {
        assert(pair_views(out@) =~= Seq::<(Seq<char>, Seq<char>)>::empty());
    }
    while i < n
        invariant
            n == pieces@.len(),
            gpieces == views_of(pieces@),
            gpieces.len() == n,
            0 <= i <= n,
            parse_kv_from(gpieces, i as int) is Some ==> parse_kv_spec(input@) == Option::Some(
                pair_views(out@) + parse_kv_from(gpieces, i as int)->0,
            ),
            parse_kv_from(gpieces, i as int) is None ==> parse_kv_spec(input@) is None,
        decreases n - i,
    {
        proof {
            assert(gpieces[i as int] == pieces@[i as int]@);
        }
        let piece = &pieces[i];
        if piece.as_str().unicode_len() == 0 {
        } else {
            match split_once_at(piece.as_str(), '=') {
                Option::None => {
                    return Result::Err(
                        QueryError {
                            kind: QueryErrorKind::InvalidConfig,
                            message: "invalid key-value pair format (missing '=')".to_owned(),
                        },
                    );
                },
                Option::Some(kv) => {
                    let key = trim(kv.0.as_str());
                    let value = trim(kv.1.as_str());
                    let ghost prev = out@;
                    out.push((key, value));
                    proof {
                        assert(pair_views(out@) =~= pair_views(prev).push(
                            (trim_spec((split_once_spec(gpieces[i as int], '=')->0).0),
                            trim_spec((split_once_spec(gpieces[i as int], '=')->0).1)),
                        ));
                        if parse_kv_from(gpieces, i as int + 1) is Some {
                            assert(pair_views(prev) + parse_kv_from(gpieces, i as int)->0
                                =~= pair_views(out@) + parse_kv_from(gpieces, i as int + 1)->0);
                        }
                    }
                },
            }
        }
        i = i + 1;
    }
    proof {
        assert(parse_kv_from(gpieces, n as int) == Option::Some(
            Seq::<(Seq<char>, Seq<char>)>::empty(),
        ));
        assert(pair_views(out@) + Seq::<(Seq<char>, Seq<char>)>::empty() =~= pair_views(out@));
    }
    Result::Ok(out)
}

/// The value of the last pair with the given key, as a map built by
/// repeated insertion reads back.
pub open spec fn kv_lookup_spec(pairs: Seq<(Seq<char>, Seq<char>)>, key: Seq<char>) -> Option<
    Seq<char>,
>
    decreases pairs.len(),
{
    if pairs.len() == 0 {
        Option::None
    } else if pairs.last().0 == key {
        Option::Some(pairs.last().1)
    } else {
        kv_lookup_spec(pairs.drop_last(), key)
    }
}

/// Look the key up among the pairs, later pairs winning.
pub fn kv_lookup(pairs: &Vec<(String, String)>, key: &str) -> (r: Option<String>)
    ensures
        r is None <==> kv_lookup_spec(pair_views(pairs@), key@) is None,
        r is Some ==> kv_lookup_spec(pair_views(pairs@), key@) == Option::Some((r->0)@),
{
    let ghost gpairs = pair_views(pairs@);
    let n = pairs.len();
    let mut j: usize = n;
    proof {
        assert(gpairs.take(n as int) =~= gpairs);
    }
    while j > 0
        invariant
            n == pairs@.len(),
            gpairs == pair_views(pairs@),
            gpairs.len() == n,
            0 <= j <= n,
            kv_lookup_spec(gpairs, key@) == kv_lookup_spec(gpairs.take(j as int), key@),
        decreases j,
    {
        proof {
            assert(gpairs.take(j as int).last() == gpairs[j as int - 1]);
            assert(gpairs.take(j as int).drop_last() =~= gpairs.take(j as int - 1));
        }
        if string_eq_str(&pairs[j - 1].0, key) {
            return Option::Some(pairs[j - 1].1.clone());
        }
        j = j - 1;
    }
    proof {
        assert(gpairs.take(0) =~= Seq::<(Seq<char>, Seq<char>)>::empty());
    }
    Option::None
}

/// The format of the corpus: the first configured entry, with parquet as
/// the default.
pub open spec fn chosen_format(formats: Seq<String>) -> Seq<char> {
    if formats.len() > 0 {
        formats[0]@
    } else {
        "parquet"@
    }
}

/// The configured corpus format.
fn format_of(formats: &Vec<String>) -> (r: String)
    ensures
        r@ == chosen_format(formats@),
{
    if formats.len() > 0 {
        formats[0].clone()
    } else {
        "parquet".to_owned()
    }
}

/// Whether a path is absolute, in the POSIX sense.
pub open spec fn is_absolute_path(s: Seq<char>) -> bool {
    s.len() > 0 && s[0] == '/'
}

/// The data folder before any canonicalisation: the environment override
/// wins, an absolute folder stands as it is, and a relative folder hangs
/// off the working directory.  The flag reports whether the working
/// directory was joined in, which is when the caller canonicalises an
/// existing path.
pub fn build_data_folder_path(folder: &String, env_value: &Option<String>, cwd: &str) -> (r: (
    String,
    bool,
))
    ensures
        env_value is Some ==> r.0@ == (env_value->0)@ && !r.1,
        env_value is None && is_absolute_path(folder@) ==> r.0@ == folder@ && !r.1,
        env_value is None && !is_absolute_path(folder@) ==> r.0@ == cwd@ + seq!['/'] + folder@
            && r.1,
{
    match env_value {
        Option::Some(s) => (s.clone(), false),
        Option::None => {
            let n = folder.as_str().unicode_len();
            let absolute = n > 0 && folder.as_str().get_char(0) == '/';
            if absolute {
                (folder.clone(), false)
            } else {
                let mut path = cwd.to_owned();
                path.append("/");
                path.append(folder.as_str());
                proof {
                    reveal_strlit("/");
                    assert(path@ =~= cwd@ + seq!['/'] + folder@);
                }
                (path, true)
            }
        },
    }
}

/// The connection text the store uses: the environment override first,
/// else the configured one.
pub open spec fn azure_connection_text(configured: Option<String>, env_cs: Option<String>) -> Option<
    Seq<char>,
> {
    if env_cs is Some {
        Option::Some((env_cs->0)@)
    } else if configured is Some {
        Option::Some((configured->0)@)
    } else {
        Option::None
    }
}

/// Whether the configuration names a store this service can plan: no
/// flat layout, and either a local folder or a blob container whose
/// connection text parses and holds a shared-access signature.
pub open spec fn store_plan_accepted(config: Config, env_cs: Option<String>) -> bool {
    &&& !config.collector.output.flatLayout
    &&& match config.collector.output.storage {
        StorageConfig::FileStorageConfig { .. } => true,
        StorageConfig::AzureBlobStorageConfig { connectionString, .. } => match
            azure_connection_text(connectionString, env_cs) {
            Option::None => false,
            Option::Some(cs) => match parse_kv_spec(cs) {
                Option::None => false,
                Option::Some(pairs) => kv_lookup_spec(pairs, "SharedAccessSignature"@) is Some,
            },
        },
        _ => false,
    }
}

/// Plan the read-only blob source of the corpus: refuse the flat layout,
/// pick the configured format, and resolve either the local data folder
/// or the blob container with its shared-access signature.
pub fn build_object_store(
    config: &Config,
    env_data_folder: &Option<String>,
    cwd: &str,
    env_connection_string: &Option<String>,
) -> (r: Result<(String, StorePlan), QueryError>)
    ensures
        r is Ok <==> store_plan_accepted(*config, *env_connection_string),
        r is Err ==> (r->Err_0).kind == QueryErrorKind::InvalidConfig,
        r is Ok ==> (r->Ok_0).0@ == chosen_format(config.collector.output.formats@),
        r is Ok ==> match config.collector.output.storage {
            StorageConfig::FileStorageConfig { folder } => match (r->Ok_0).1 {
                StorePlan::LocalDirectory { folder: planned, joined_cwd } => {
                    &&& (env_data_folder is Some ==> planned@ == (env_data_folder->0)@
                        && !joined_cwd)
                    &&& (env_data_folder is None && is_absolute_path(folder@) ==> planned@
                        == folder@ && !joined_cwd)
                    &&& (env_data_folder is None && !is_absolute_path(folder@) ==> planned@ == cwd@
                        + seq!['/'] + folder@ && joined_cwd)
                },
                _ => false,
            },
            StorageConfig::AzureBlobStorageConfig { accountName, connectionString, containerName } => match (
            r->Ok_0).1 {
                StorePlan::AzureBlobContainer { account, container, sas_token } => {
                    &&& account@ == accountName@
                    &&& container@ == containerName@
                    &&& match azure_connection_text(connectionString, *env_connection_string) {
                        Option::Some(cs) => parse_kv_spec(cs) is Some && kv_lookup_spec(
                            parse_kv_spec(cs)->0,
                            "SharedAccessSignature"@,
                        ) == Option::Some(sas_token@),
                        Option::None => false,
                    }
                },
                _ => false,
            },
            _ => false,
        },
{
    if config.collector.output.flatLayout {
        return Result::Err(
            QueryError {
                kind: QueryErrorKind::InvalidConfig,
                message:
                    "the flat layout carries no key/value tags, so the finder cannot prune partitions".to_owned(),
            },
        );
    }
    let format = format_of(&config.collector.output.formats);
    match &config.collector.output.storage {
        StorageConfig::FileStorageConfig { folder } => {
            let planned = build_data_folder_path(folder, env_data_folder, cwd);
            Result::Ok(
                (format, StorePlan::LocalDirectory { folder: planned.0, joined_cwd: planned.1 }),
            )
        },
        StorageConfig::AzureBlobStorageConfig { accountName, connectionString, containerName } => {
            let cs: String = match env_connection_string {
                Option::Some(s) => s.clone(),
                Option::None => match connectionString {
                    Option::Some(s) => s.clone(),
                    Option::None => {
                        return Result::Err(
                            QueryError {
                                kind: QueryErrorKind::InvalidConfig,
                                message: "expected a connectionString for the blob storage".to_owned(),
                            },
                        );
                    },
                },
            };
            let pairs = match parse_key_value_string(cs.as_str()) {
                Result::Ok(p) => p,
                Result::Err(e) => {
                    return Result::Err(e);
                },
            };
            let sas = match kv_lookup(&pairs, "SharedAccessSignature") {
                Option::Some(v) => v,
                Option::None => {
                    return Result::Err(
                        QueryError {
                            kind: QueryErrorKind::InvalidConfig,
                            message: "expected SharedAccessSignature in the connectionString".to_owned(),
                        },
                    );
                },
            };
            Result::Ok(
                (
                    format,
                    StorePlan::AzureBlobContainer {
                        account: accountName.clone(),
                        container: containerName.clone(),
                        sas_token: sas,
                    },
                ),
            )
        },
        _ => Result::Err(
            QueryError {
                kind: QueryErrorKind::InvalidConfig,
                message: "unexpected storage configuration".to_owned(),
            },
        ),
    }
}

/// The scan session a configuration asks for: the store under a fixed
/// internal URL prefix, and a listing of the corpus files by extension
/// with the partition columns read from the directory names.
#[derive(Debug)]
pub struct SessionSpec {
    pub url_prefix: String,
    pub table_name: String,
    pub format: String,
    pub file_extension: String,
    pub partition_columns: Vec<String>,
    pub store: StorePlan,
}

/// The file extension of a recognised corpus format.
pub open spec fn extension_of(format: Seq<char>) -> Option<Seq<char>> {
    if format == "arrow"@ {
        Option::Some(".arrow"@)
    } else if format == "csv"@ {
        Option::Some(".csv"@)
    } else if format == "json"@ {
        Option::Some(".json"@)
    } else if format == "parquet"@ {
        Option::Some(".parquet"@)
    } else {
        Option::None
    }
}

/// The eight partition columns of the corpus layout.
pub open spec fn partition_column_names() -> Seq<Seq<char>> {
    seq!["y"@, "m"@, "d"@, "hh"@, "mm"@, "start"@, "int"@, "pk"@]
}

/// Plan the scan session: the store plan of the corpus, the table named
/// `events` under the internal URL prefix, the file extension of the
/// configured format, and the eight partition columns.
pub fn create_session_context(
    config: &Config,
    env_data_folder: &Option<String>,
    cwd: &str,
    env_connection_string: &Option<String>,
) -> (r: Result<SessionSpec, QueryError>)
    ensures
        r is Ok <==> store_plan_accepted(*config, *env_connection_string) && extension_of(
            chosen_format(config.collector.output.formats@),
        ) is Some,
        r is Err ==> (r->Err_0).kind == QueryErrorKind::InvalidConfig,
        r is Ok ==> ({
            let s = r->Ok_0;
            &&& s.url_prefix@ == "events:///"@
            &&& s.table_name@ == "events"@
            &&& s.format@ == chosen_format(config.collector.output.formats@)
            &&& extension_of(s.format@) == Option::Some(s.file_extension@)
            &&& views_of(s.partition_columns@) == partition_column_names()
        }),
{
    let planned = match build_object_store(config, env_data_folder, cwd, env_connection_string) {
        Result::Ok(p) => p,
        Result::Err(e) => {
            return Result::Err(e);
        },
    };
    let format = planned.0;
    let store = planned.1;
    let file_extension: String = if string_eq_str(&format, "arrow") {
        ".arrow".to_owned()
    } else if string_eq_str(&format, "csv") {
        ".csv".to_owned()
    } else if string_eq_str(&format, "json") {
        ".json".to_owned()
    } else if string_eq_str(&format, "parquet") {
        ".parquet".to_owned()
    } else {
        return Result::Err(
            QueryError {
                kind: QueryErrorKind::InvalidConfig,
                message: "unknown file format".to_owned(),
            },
        );
    };
    let mut partition_columns: Vec<String> = Vec::new();
    partition_columns.push("y".to_owned());
    partition_columns.push("m".to_owned());
    partition_columns.push("d".to_owned());
    partition_columns.push("hh".to_owned());
    partition_columns.push("mm".to_owned());
    partition_columns.push("start".to_owned());
    partition_columns.push("int".to_owned());
    partition_columns.push("pk".to_owned());
    proof {
        assert(views_of(partition_columns@) =~= partition_column_names());
    }
    Result::Ok(
        SessionSpec {
            url_prefix: "events:///".to_owned(),
            table_name: "events".to_owned(),
            format,
            file_extension,
            partition_columns,
            store,
        },
    )
}

/// The bus endpoints to connect to: a comma-separated environment
/// override wins; otherwise the hub must be the NATS-shaped one and its
/// plain servers are taken.
pub fn get_nats_servers(hub: &HubConfig, env_value: &Option<String>) -> (r: Result<
    Vec<String>,
    QueryError,
>)
    ensures
        !(hub is NatsHubConfig) ==> r is Err && (r->Err_0).kind == QueryErrorKind::InvalidConfig,
        hub is NatsHubConfig ==> r is Ok,
        r is Ok && env_value is Some ==> views_of((r->Ok_0)@) == split_chars(
            (env_value->0)@,
            ',',
        ),
        r is Ok && env_value is None ==> match hub {
            HubConfig::NatsHubConfig { protocols, .. } => strings_match(
                (r->Ok_0)@,
                protocols.nats.servers@,
            ),
            _ => false,
        },
{
    match hub {
        HubConfig::NatsHubConfig { protocols, .. } => match env_value {
            Option::Some(s) => Result::Ok(split_on(s.as_str(), ',')),
            Option::None => Result::Ok(clone_strings(&protocols.nats.servers)),
        },
        _ => Result::Err(
            QueryError {
                kind: QueryErrorKind::InvalidConfig,
                message: "expected the hub to be configured for NATS".to_owned(),
            },
        ),
    }
}

/// The decimal suffix after the last dash of the text, when there is a
/// dash.
pub open spec fn after_last_dash(s: Seq<char>) -> Option<Seq<char>>
    decreases s.len(),
{
    if s.len() == 0 {
        Option::None
    } else if s[s.len() - 1] == '-' {
        Option::Some(Seq::empty())
    } else {
        match after_last_dash(s.drop_last()) {
            Option::None => Option::None,
            Option::Some(t) => Option::Some(t.push(s[s.len() - 1])),
        }
    }
}

/// The last dash position determines the suffix.
proof fn lemma_after_last_dash_at(s: Seq<char>, j: int)
    requires
        0 <= j < s.len(),
        s[j] == '-',
        forall|k: int| j < k < s.len() ==> #[trigger] s[k] != '-',
    ensures
        after_last_dash(s) == Option::Some(s.subrange(j + 1, s.len() as int)),
    decreases s.len(),
{
    if j == s.len() - 1 {
        assert(Seq::<char>::empty() =~= s.subrange(j + 1, s.len() as int));
    } else {
        let t = s.drop_last();
        assert forall|k: int| j < k < t.len() implies #[trigger] t[k] != '-' by {
            assert(t[k] == s[k]);
        }
        lemma_after_last_dash_at(t, j);
        assert(t.subrange(j + 1, t.len() as int).push(s[s.len() - 1]) =~= s.subrange(
            j + 1,
            s.len() as int,
        ));
    }
}

/// Without a dash there is no suffix.
proof fn lemma_after_last_dash_none(s: Seq<char>)
    requires
        forall|k: int| 0 <= k < s.len() ==> #[trigger] s[k] != '-',
    ensures
        after_last_dash(s) is None,
    decreases s.len(),
{
    if s.len() > 0 {
        lemma_after_last_dash_none(s.drop_last());
    }
}

/// The numeric index of this service instance: the explicit setting when
/// it parses, else the decimal suffix after the last dash of the host
/// name when it parses, else zero.
pub open spec fn instance_index_spec(explicit: Option<Seq<char>>, hostname: Option<Seq<char>>) -> int {
    if explicit is Some && (explicit->0).len() > 0 && parse_usize_spec(explicit->0) is Some {
        parse_usize_spec(explicit->0)->0
    } else if hostname is Some && after_last_dash(hostname->0) is Some && parse_usize_spec(
        after_last_dash(hostname->0)->0,
    ) is Some {
        parse_usize_spec(after_last_dash(hostname->0)->0)->0
    } else {
        0
    }
}

/// Compute the instance index from the explicit setting and the host
/// name.
pub fn get_instance_index(explicit: &Option<String>, hostname: &Option<String>) -> (r: usize)
    ensures
        r as int == instance_index_spec(
            match explicit {
                Option::Some(s) => Option::Some(s@),
                Option::None => Option::None,
            },
            match hostname {
                Option::Some(s) => Option::Some(s@),
                Option::None => Option::None,
            },
        ),
{
    match explicit {
        Option::Some(s) => {
            if s.as_str().unicode_len() > 0 {
                match parse_usize(s.as_str()) {
                    Option::Some(v) => {
                        return v;
                    },
                    Option::None => {},
                }
            }
        },
        Option::None => {},
    }
    match hostname {
        Option::Some(h) => {
            let n = h.as_str().unicode_len();
            let mut j: usize = n;
            while j > 0 && h.as_str().get_char(j - 1) != '-'
                invariant
                    n == h@.len(),
                    0 <= j <= n,
                    forall|k: int| j <= k < n ==> #[trigger] h@[k] != '-',
                decreases j,
            {
                j = j - 1;
            }
            if j == 0 {
                proof {
                    lemma_after_last_dash_none(h@);
                }
                return 0;
            }
            proof {
                lemma_after_last_dash_at(h@, j as int - 1);
            }
            let suffix = h.as_str().substring_char(j, n);
            match parse_usize(suffix) {
                Option::Some(v) => v,
                Option::None => 0,
            }
        },
        Option::None => 0,
    }
}

} // verus!
