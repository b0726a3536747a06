//! The server's configuration, read from environment variables and command
//! line arguments.
use vstd::prelude::*;
use vstd::string::*;
use crate::text::{str_eq, empty_str, parse_unsigned, spec_parse_unsigned, all_digits, digits_value};

verus! {

/// The configuration of the server.
#[derive(Clone, Debug, PartialEq)]
pub struct TranspoConfig {
    pub max_upload_age_minutes: u64,
    pub max_upload_size_bytes: u64,
    pub max_storage_size_bytes: u64,
    pub port: u64,
    pub quota_bytes_total: u64,
    pub quota_bytes_per_minute: u64,
    pub read_timeout_milliseconds: u64,
    pub storage_dir: String,
    pub db_url: String,
    pub migrations_dir: String,
    pub default_lang: String,
    pub translations_dir: String,
    pub app_name: String,
    pub quiet: bool,
    pub max_db_pool_size: u32,
    pub min_db_pool_idle: Option<u32>,
}

/// The configuration with its strings taken as characters.
pub struct ConfigView {
    pub max_upload_age_minutes: u64,
    pub max_upload_size_bytes: u64,
    pub max_storage_size_bytes: u64,
    pub port: u64,
    pub quota_bytes_total: u64,
    pub quota_bytes_per_minute: u64,
    pub read_timeout_milliseconds: u64,
    pub storage_dir: Seq<char>,
    pub db_url: Seq<char>,
    pub migrations_dir: Seq<char>,
    pub default_lang: Seq<char>,
    pub translations_dir: Seq<char>,
    pub app_name: Seq<char>,
    pub quiet: bool,
    pub max_db_pool_size: u32,
    pub min_db_pool_idle: Option<u32>,
}

impl View for TranspoConfig {
    type V = ConfigView;

    open spec fn view(&self) -> ConfigView {
        ConfigView {
            max_upload_age_minutes: self.max_upload_age_minutes,
            max_upload_size_bytes: self.max_upload_size_bytes,
            max_storage_size_bytes: self.max_storage_size_bytes,
            port: self.port,
            quota_bytes_total: self.quota_bytes_total,
            quota_bytes_per_minute: self.quota_bytes_per_minute,
            read_timeout_milliseconds: self.read_timeout_milliseconds,
            storage_dir: self.storage_dir@,
            db_url: self.db_url@,
            migrations_dir: self.migrations_dir@,
            default_lang: self.default_lang@,
            translations_dir: self.translations_dir@,
            app_name: self.app_name@,
            quiet: self.quiet,
            max_db_pool_size: self.max_db_pool_size,
            min_db_pool_idle: self.min_db_pool_idle,
        }
    }
}

/// The value of a numeric option, as Rust parses it.
pub open spec fn numeric(value: Seq<char>, max: int) -> Option<int> {
    spec_parse_unsigned(vstd::utf8::encode_utf8(value), max)
}

pub open spec fn is_age_key(k: Seq<char>) -> bool {
    k == "-a"@ || k == "TRANSPO_MAX_UPLOAD_AGE_MINUTES"@
}

pub open spec fn is_upload_size_key(k: Seq<char>) -> bool {
    k == "-u"@ || k == "TRANSPO_MAX_UPLOAD_SIZE_BYTES"@
}

pub open spec fn is_storage_size_key(k: Seq<char>) -> bool {
    k == "-s"@ || k == "TRANSPO_MAX_STORAGE_SIZE_BYTES"@
}

pub open spec fn is_port_key(k: Seq<char>) -> bool {
    k == "-p"@ || k == "TRANSPO_PORT"@
}

pub open spec fn is_quota_total_key(k: Seq<char>) -> bool {
    k == "-q"@ || k == "TRANSPO_QUOTA_BYTES_TOTAL"@
}

pub open spec fn is_quota_rate_key(k: Seq<char>) -> bool {
    k == "-b"@ || k == "TRANSPO_QUOTA_BYTES_PER_MINUTE"@
}

pub open spec fn is_timeout_key(k: Seq<char>) -> bool {
    k == "-t"@ || k == "TRANSPO_READ_TIMEOUT_MILLISECONDS"@
}

pub open spec fn is_storage_dir_key(k: Seq<char>) -> bool {
    k == "-d"@ || k == "TRANSPO_STORAGE_DIRECTORY"@
}

pub open spec fn is_db_url_key(k: Seq<char>) -> bool {
    k == "-D"@ || k == "TRANSPO_DATABASE_URL"@
}

pub open spec fn is_migrations_key(k: Seq<char>) -> bool {
    k == "-m"@ || k == "TRANSPO_MIGRATIONS_DIRECTORY"@
}

pub open spec fn is_lang_key(k: Seq<char>) -> bool {
    k == "-l"@ || k == "TRANSPO_DEFAULT_LANGUAGE"@
}

pub open spec fn is_translations_key(k: Seq<char>) -> bool {
    k == "-T"@ || k == "TRANSPO_TRANSLATIONS_DIRECTORY"@
}

pub open spec fn is_pool_max_key(k: Seq<char>) -> bool {
    k == "--pool-max"@ || k == "TRANSPO_DB_POOL_MAX"@
}

pub open spec fn is_pool_min_key(k: Seq<char>) -> bool {
    k == "--pool-min"@ || k == "TRANSPO_DB_POOL_MIN"@
}

pub open spec fn is_app_name_key(k: Seq<char>) -> bool {
    k == "-n"@ || k == "TRANSPO_APP_NAME"@
}

pub open spec fn is_help_key(k: Seq<char>) -> bool {
    k == "-h"@ || k == "--help"@
}

pub open spec fn is_quiet_key(k: Seq<char>) -> bool {
    k == "-Q"@
}

/// Whether the keys that take a number have a value that parses.
pub open spec fn option_ok(k: Seq<char>, v: Seq<char>) -> bool {
    &&& (is_age_key(k) || is_upload_size_key(k) || is_storage_size_key(k) || is_port_key(k)
        || is_quota_total_key(k) || is_quota_rate_key(k) || is_timeout_key(k)) ==> numeric(
        v,
        u64::MAX as int,
    ) is Some
    &&& (is_pool_max_key(k) || is_pool_min_key(k)) ==> numeric(v, u32::MAX as int) is Some
}

/// The configuration after the option `k` with value `v`.
pub open spec fn apply_option(c: ConfigView, k: Seq<char>, v: Seq<char>) -> ConfigView {
    let n = numeric(v, u64::MAX as int)->0 as u64;
    let n32 = numeric(v, u32::MAX as int)->0 as u32;
    if is_age_key(k) {
        ConfigView { max_upload_age_minutes: n, ..c }
    } else if is_upload_size_key(k) {
        ConfigView { max_upload_size_bytes: n, ..c }
    } else if is_storage_size_key(k) {
        ConfigView { max_storage_size_bytes: n, ..c }
    } else if is_port_key(k) {
        ConfigView { port: n, ..c }
    } else if is_quota_total_key(k) {
        ConfigView { quota_bytes_total: n, ..c }
    } else if is_quota_rate_key(k) {
        ConfigView { quota_bytes_per_minute: n, ..c }
    } else if is_timeout_key(k) {
        ConfigView { read_timeout_milliseconds: n, ..c }
    } else if is_storage_dir_key(k) {
        ConfigView { storage_dir: v, ..c }
    } else if is_db_url_key(k) {
        ConfigView { db_url: v, ..c }
    } else if is_migrations_key(k) {
        ConfigView { migrations_dir: v, ..c }
    } else if is_lang_key(k) {
        ConfigView { default_lang: v, ..c }
    } else if is_translations_key(k) {
        ConfigView { translations_dir: v, ..c }
    } else if is_pool_max_key(k) {
        ConfigView { max_db_pool_size: n32, ..c }
    } else if is_pool_min_key(k) {
        ConfigView { min_db_pool_idle: Some(n32), ..c }
    } else if is_app_name_key(k) {
        ConfigView { app_name: v, ..c }
    } else if is_quiet_key(k) {
        ConfigView { quiet: true, ..c }
    } else {
        c
    }
}

/// The options taken as characters.
pub open spec fn options_view(opts: Seq<(String, String)>) -> Seq<(Seq<char>, Seq<char>)> {
    opts.map_values(|o: (String, String)| (o.0@, o.1@))
}

/// The options up to the first request for help, the number of them, and
/// whether there is such a request.
pub open spec fn first_help(opts: Seq<(Seq<char>, Seq<char>)>) -> int
    decreases opts.len(),
{
    if opts.len() == 0 {
        0
    } else if is_help_key(opts[0].0) {
        0
    } else {
        1 + first_help(opts.drop_first())
    }
}

/// Whether every option before the first request for help is well formed
/// (a value that does not parse stops the server).
pub open spec fn options_ok(opts: Seq<(Seq<char>, Seq<char>)>) -> bool {
    forall|i: int| 0 <= i < first_help(opts) ==> option_ok(#[trigger] opts[i].0, opts[i].1)
}

/// The configuration after the options up to the first request for help.
pub open spec fn apply_options(c: ConfigView, opts: Seq<(Seq<char>, Seq<char>)>) -> ConfigView
    decreases opts.len(),
{
    if opts.len() == 0 || is_help_key(opts[0].0) {
        c
    } else {
        apply_options(apply_option(c, opts[0].0, opts[0].1), opts.drop_first())
    }
}

/// Whether the options hold a request for help.
pub open spec fn wants_help(opts: Seq<(Seq<char>, Seq<char>)>) -> bool {
    exists|i: int| 0 <= i < opts.len() && is_help_key(#[trigger] opts[i].0)
}

/// The options given by command line arguments: each argument starting with
/// `-` is a key, and the argument after it (if any) its value.
pub open spec fn args_to_options(args: Seq<Seq<char>>) -> Seq<(Seq<char>, Seq<char>)>
    decreases args.len(),
{
    if args.len() == 0 {
        Seq::empty()
    } else {
        let rest = args_to_options(args.drop_first());
        if args[0].len() > 0 && args[0][0] == '-' {
            seq![(args[0], if args.len() > 1 { args[1] } else { ""@ })] + rest
        } else {
            rest
        }
    }
}

/// The arguments taken as characters.
pub open spec fn args_view(args: Seq<String>) -> Seq<Seq<char>> {
    args.map_values(|a: String| a@)
}

proof fn lemma_first_help_bounds(opts: Seq<(Seq<char>, Seq<char>)>)
    ensures
        0 <= first_help(opts) <= opts.len(),
        first_help(opts) < opts.len() ==> is_help_key(opts[first_help(opts)].0),
        forall|i: int| 0 <= i < first_help(opts) ==> !is_help_key(#[trigger] opts[i].0),
        wants_help(opts) <==> first_help(opts) < opts.len(),
    decreases opts.len(),
{
    if opts.len() > 0 && !is_help_key(opts[0].0) {
        let rest = opts.drop_first();
        lemma_first_help_bounds(rest);
        assert forall|i: int| 0 <= i < first_help(opts) implies !is_help_key(#[trigger] opts[i].0) by {
            if i > 0 {
                assert(opts[i] == rest[i - 1]);
            }
        }
        if wants_help(opts) {
            let i = choose|i: int| 0 <= i < opts.len() && is_help_key(#[trigger] opts[i].0);
            assert(rest[i - 1] == opts[i]);
        }
        if wants_help(rest) {
            let i = choose|i: int| 0 <= i < rest.len() && is_help_key(#[trigger] rest[i].0);
            assert(opts[i + 1] == rest[i]);
        }
        if first_help(opts) < opts.len() {
            assert(opts[first_help(opts)] == rest[first_help(rest)]);
        }
    }
}

/// The setting that an option changes, numbered in the order of
/// `apply_option`; `-1` for a key that changes nothing.
pub open spec fn option_field(k: Seq<char>) -> int {
    if is_age_key(k) {
        0
    } else if is_upload_size_key(k) {
        1
    } else if is_storage_size_key(k) {
        2
    } else if is_port_key(k) {
        3
    } else if is_quota_total_key(k) {
        4
    } else if is_quota_rate_key(k) {
        5
    } else if is_timeout_key(k) {
        6
    } else if is_storage_dir_key(k) {
        7
    } else if is_db_url_key(k) {
        8
    } else if is_migrations_key(k) {
        9
    } else if is_lang_key(k) {
        10
    } else if is_translations_key(k) {
        11
    } else if is_pool_max_key(k) {
        12
    } else if is_pool_min_key(k) {
        13
    } else if is_app_name_key(k) {
        14
    } else if is_quiet_key(k) {
        15
    } else {
        -1
    }
}

/// The command line argument and the environment variable of each setting
/// have the same effect.
pub proof fn lemma_option_forms_agree(c: ConfigView, v: Seq<char>)
    ensures
        apply_option(c, "-a"@, v) == apply_option(c, "TRANSPO_MAX_UPLOAD_AGE_MINUTES"@, v),
        apply_option(c, "-u"@, v) == apply_option(c, "TRANSPO_MAX_UPLOAD_SIZE_BYTES"@, v),
        apply_option(c, "-s"@, v) == apply_option(c, "TRANSPO_MAX_STORAGE_SIZE_BYTES"@, v),
        apply_option(c, "-p"@, v) == apply_option(c, "TRANSPO_PORT"@, v),
        apply_option(c, "-q"@, v) == apply_option(c, "TRANSPO_QUOTA_BYTES_TOTAL"@, v),
        apply_option(c, "-b"@, v) == apply_option(c, "TRANSPO_QUOTA_BYTES_PER_MINUTE"@, v),
        apply_option(c, "-t"@, v) == apply_option(c, "TRANSPO_READ_TIMEOUT_MILLISECONDS"@, v),
        apply_option(c, "-d"@, v) == apply_option(c, "TRANSPO_STORAGE_DIRECTORY"@, v),
        apply_option(c, "-D"@, v) == apply_option(c, "TRANSPO_DATABASE_URL"@, v),
        apply_option(c, "-m"@, v) == apply_option(c, "TRANSPO_MIGRATIONS_DIRECTORY"@, v),
        apply_option(c, "-l"@, v) == apply_option(c, "TRANSPO_DEFAULT_LANGUAGE"@, v),
        apply_option(c, "-T"@, v) == apply_option(c, "TRANSPO_TRANSLATIONS_DIRECTORY"@, v),
        apply_option(c, "--pool-max"@, v) == apply_option(c, "TRANSPO_DB_POOL_MAX"@, v),
        apply_option(c, "--pool-min"@, v) == apply_option(c, "TRANSPO_DB_POOL_MIN"@, v),
        apply_option(c, "-n"@, v) == apply_option(c, "TRANSPO_APP_NAME"@, v),
        option_field("-a"@) == 0,
        option_field("TRANSPO_MAX_UPLOAD_AGE_MINUTES"@) == 0,
        option_field("-u"@) == 1,
        option_field("TRANSPO_MAX_UPLOAD_SIZE_BYTES"@) == 1,
        option_field("-s"@) == 2,
        option_field("TRANSPO_MAX_STORAGE_SIZE_BYTES"@) == 2,
        option_field("-p"@) == 3,
        option_field("TRANSPO_PORT"@) == 3,
        option_field("-q"@) == 4,
        option_field("TRANSPO_QUOTA_BYTES_TOTAL"@) == 4,
        option_field("-b"@) == 5,
        option_field("TRANSPO_QUOTA_BYTES_PER_MINUTE"@) == 5,
        option_field("-t"@) == 6,
        option_field("TRANSPO_READ_TIMEOUT_MILLISECONDS"@) == 6,
        option_field("-d"@) == 7,
        option_field("TRANSPO_STORAGE_DIRECTORY"@) == 7,
        option_field("-D"@) == 8,
        option_field("TRANSPO_DATABASE_URL"@) == 8,
        option_field("-m"@) == 9,
        option_field("TRANSPO_MIGRATIONS_DIRECTORY"@) == 9,
        option_field("-l"@) == 10,
        option_field("TRANSPO_DEFAULT_LANGUAGE"@) == 10,
        option_field("-T"@) == 11,
        option_field("TRANSPO_TRANSLATIONS_DIRECTORY"@) == 11,
        option_field("--pool-max"@) == 12,
        option_field("TRANSPO_DB_POOL_MAX"@) == 12,
        option_field("--pool-min"@) == 13,
        option_field("TRANSPO_DB_POOL_MIN"@) == 13,
        option_field("-n"@) == 14,
        option_field("TRANSPO_APP_NAME"@) == 14,
{
    assert(option_field("-a"@) == 0 && option_field("TRANSPO_MAX_UPLOAD_AGE_MINUTES"@) == 0) by {
        reveal_strlit("-a");
        reveal_strlit("TRANSPO_MAX_UPLOAD_AGE_MINUTES");
        assert("-a"@.len() == 2);
        assert("TRANSPO_MAX_UPLOAD_AGE_MINUTES"@.len() == 30);
    }
    lemma_same_field_same_effect(c, "-a"@, "TRANSPO_MAX_UPLOAD_AGE_MINUTES"@, v);
    assert(option_field("-u"@) == 1 && option_field("TRANSPO_MAX_UPLOAD_SIZE_BYTES"@) == 1) by {
        reveal_strlit("-a");
        reveal_strlit("TRANSPO_MAX_UPLOAD_AGE_MINUTES");
        reveal_strlit("-u");
        reveal_strlit("TRANSPO_MAX_UPLOAD_SIZE_BYTES");
        assert("-u"@.len() == 2);
        assert("TRANSPO_MAX_UPLOAD_SIZE_BYTES"@.len() == 29);
        assert("-a"@.len() == 2);
        assert("TRANSPO_MAX_UPLOAD_AGE_MINUTES"@.len() == 30);
        assert("-u"@[1] != "-a"@[1]);
        assert("-u"@ != "-a"@);
        assert("-u"@ != "TRANSPO_MAX_UPLOAD_AGE_MINUTES"@);
        assert("TRANSPO_MAX_UPLOAD_SIZE_BYTES"@ != "-a"@);
        assert("TRANSPO_MAX_UPLOAD_SIZE_BYTES"@ != "TRANSPO_MAX_UPLOAD_AGE_MINUTES"@);
    }
    lemma_same_field_same_effect(c, "-u"@, "TRANSPO_MAX_UPLOAD_SIZE_BYTES"@, v);
    assert(option_field("-s"@) == 2 && option_field("TRANSPO_MAX_STORAGE_SIZE_BYTES"@) == 2) by {
        reveal_strlit("-a");
        reveal_strlit("TRANSPO_MAX_UPLOAD_AGE_MINUTES");
        reveal_strlit("-u");
        reveal_strlit("TRANSPO_MAX_UPLOAD_SIZE_BYTES");
        reveal_strlit("-s");
        reveal_strlit("TRANSPO_MAX_STORAGE_SIZE_BYTES");
        assert("-s"@.len() == 2);
        assert("TRANSPO_MAX_STORAGE_SIZE_BYTES"@.len() == 30);
        assert("-a"@.len() == 2);
        assert("TRANSPO_MAX_UPLOAD_AGE_MINUTES"@.len() == 30);
        assert("-u"@.len() == 2);
        assert("TRANSPO_MAX_UPLOAD_SIZE_BYTES"@.len() == 29);
        assert("-s"@[1] != "-a"@[1]);
        assert("-s"@ != "-a"@);
        assert("-s"@ != "TRANSPO_MAX_UPLOAD_AGE_MINUTES"@);
        assert("-s"@[1] != "-u"@[1]);
        assert("-s"@ != "-u"@);
        assert("-s"@ != "TRANSPO_MAX_UPLOAD_SIZE_BYTES"@);
        assert("TRANSPO_MAX_STORAGE_SIZE_BYTES"@ != "-a"@);
        assert("TRANSPO_MAX_STORAGE_SIZE_BYTES"@[12] != "TRANSPO_MAX_UPLOAD_AGE_MINUTES"@[12]);
        assert("TRANSPO_MAX_STORAGE_SIZE_BYTES"@ != "TRANSPO_MAX_UPLOAD_AGE_MINUTES"@);
        assert("TRANSPO_MAX_STORAGE_SIZE_BYTES"@ != "-u"@);
        assert("TRANSPO_MAX_STORAGE_SIZE_BYTES"@ != "TRANSPO_MAX_UPLOAD_SIZE_BYTES"@);
    }
    lemma_same_field_same_effect(c, "-s"@, "TRANSPO_MAX_STORAGE_SIZE_BYTES"@, v);
    assert(option_field("-p"@) == 3 && option_field("TRANSPO_PORT"@) == 3) by {
        reveal_strlit("-a");
        reveal_strlit("TRANSPO_MAX_UPLOAD_AGE_MINUTES");
        reveal_strlit("-u");
        reveal_strlit("TRANSPO_MAX_UPLOAD_SIZE_BYTES");
        reveal_strlit("-s");
        reveal_strlit("TRANSPO_MAX_STORAGE_SIZE_BYTES");
        reveal_strlit("-p");
        reveal_strlit("TRANSPO_PORT");
        assert("-p"@.len() == 2);
        assert("TRANSPO_PORT"@.len() == 12);
        assert("-a"@.len() == 2);
        assert("TRANSPO_MAX_UPLOAD_AGE_MINUTES"@.len() == 30);
        assert("-u"@.len() == 2);
        assert("TRANSPO_MAX_UPLOAD_SIZE_BYTES"@.len() == 29);
        assert("-s"@.len() == 2);
        assert("TRANSPO_MAX_STORAGE_SIZE_BYTES"@.len() == 30);
        assert("-p"@[1] != "-a"@[1]);
        assert("-p"@ != "-a"@);
        assert("-p"@ != "TRANSPO_MAX_UPLOAD_AGE_MINUTES"@);
        assert("-p"@[1] != "-u"@[1]);
        assert("-p"@ != "-u"@);
        assert("-p"@ != "TRANSPO_MAX_UPLOAD_SIZE_BYTES"@);
        assert("-p"@[1] != "-s"@[1]);
        assert("-p"@ != "-s"@);
        assert("-p"@ != "TRANSPO_MAX_STORAGE_SIZE_BYTES"@);
        assert("TRANSPO_PORT"@ != "-a"@);
        assert("TRANSPO_PORT"@ != "TRANSPO_MAX_UPLOAD_AGE_MINUTES"@);
        assert("TRANSPO_PORT"@ != "-u"@);
        assert("TRANSPO_PORT"@ != "TRANSPO_MAX_UPLOAD_SIZE_BYTES"@);
        assert("TRANSPO_PORT"@ != "-s"@);
        assert("TRANSPO_PORT"@ != "TRANSPO_MAX_STORAGE_SIZE_BYTES"@);
    }
    lemma_same_field_same_effect(c, "-p"@, "TRANSPO_PORT"@, v);
    assert(option_field("-q"@) == 4 && option_field("TRANSPO_QUOTA_BYTES_TOTAL"@) == 4) by {
        reveal_strlit("-a");
        reveal_strlit("TRANSPO_MAX_UPLOAD_AGE_MINUTES");
        reveal_strlit("-u");
        reveal_strlit("TRANSPO_MAX_UPLOAD_SIZE_BYTES");
        reveal_strlit("-s");
        reveal_strlit("TRANSPO_MAX_STORAGE_SIZE_BYTES");
        reveal_strlit("-p");
        reveal_strlit("TRANSPO_PORT");
        reveal_strlit("-q");
        reveal_strlit("TRANSPO_QUOTA_BYTES_TOTAL");
        assert("-q"@.len() == 2);
        assert("TRANSPO_QUOTA_BYTES_TOTAL"@.len() == 25);
        assert("-a"@.len() == 2);
        assert("TRANSPO_MAX_UPLOAD_AGE_MINUTES"@.len() == 30);
        assert("-u"@.len() == 2);
        assert("TRANSPO_MAX_UPLOAD_SIZE_BYTES"@.len() == 29);
        assert("-s"@.len() == 2);
        assert("TRANSPO_MAX_STORAGE_SIZE_BYTES"@.len() == 30);
        assert("-p"@.len() == 2);
        assert("TRANSPO_PORT"@.len() == 12);
        assert("-q"@[1] != "-a"@[1]);
        assert("-q"@ != "-a"@);
        assert("-q"@ != "TRANSPO_MAX_UPLOAD_AGE_MINUTES"@);
        assert("-q"@[1] != "-u"@[1]);
        assert("-q"@ != "-u"@);
        assert("-q"@ != "TRANSPO_MAX_UPLOAD_SIZE_BYTES"@);
        assert("-q"@[1] != "-s"@[1]);
        assert("-q"@ != "-s"@);
        assert("-q"@ != "TRANSPO_MAX_STORAGE_SIZE_BYTES"@);
        assert("-q"@[1] != "-p"@[1]);
        assert("-q"@ != "-p"@);
        assert("-q"@ != "TRANSPO_PORT"@);
        assert("TRANSPO_QUOTA_BYTES_TOTAL"@ != "-a"@);
        assert("TRANSPO_QUOTA_BYTES_TOTAL"@ != "TRANSPO_MAX_UPLOAD_AGE_MINUTES"@);
        assert("TRANSPO_QUOTA_BYTES_TOTAL"@ != "-u"@);
        assert("TRANSPO_QUOTA_BYTES_TOTAL"@ != "TRANSPO_MAX_UPLOAD_SIZE_BYTES"@);
        assert("TRANSPO_QUOTA_BYTES_TOTAL"@ != "-s"@);
        assert("TRANSPO_QUOTA_BYTES_TOTAL"@ != "TRANSPO_MAX_STORAGE_SIZE_BYTES"@);
        assert("TRANSPO_QUOTA_BYTES_TOTAL"@ != "-p"@);
        assert("TRANSPO_QUOTA_BYTES_TOTAL"@ != "TRANSPO_PORT"@);
    }
    lemma_same_field_same_effect(c, "-q"@, "TRANSPO_QUOTA_BYTES_TOTAL"@, v);
    assert(option_field("-b"@) == 5 && option_field("TRANSPO_QUOTA_BYTES_PER_MINUTE"@) == 5) by {
        reveal_strlit("-a");
        reveal_strlit("TRANSPO_MAX_UPLOAD_AGE_MINUTES");
        reveal_strlit("-u");
        reveal_strlit("TRANSPO_MAX_UPLOAD_SIZE_BYTES");
        reveal_strlit("-s");
        reveal_strlit("TRANSPO_MAX_STORAGE_SIZE_BYTES");
        reveal_strlit("-p");
        reveal_strlit("TRANSPO_PORT");
        reveal_strlit("-q");
        reveal_strlit("TRANSPO_QUOTA_BYTES_TOTAL");
        reveal_strlit("-b");
        reveal_strlit("TRANSPO_QUOTA_BYTES_PER_MINUTE");
        assert("-b"@.len() == 2);
        assert("TRANSPO_QUOTA_BYTES_PER_MINUTE"@.len() == 30);
        assert("-a"@.len() == 2);
        assert("TRANSPO_MAX_UPLOAD_AGE_MINUTES"@.len() == 30);
        assert("-u"@.len() == 2);
        assert("TRANSPO_MAX_UPLOAD_SIZE_BYTES"@.len() == 29);
        assert("-s"@.len() == 2);
        assert("TRANSPO_MAX_STORAGE_SIZE_BYTES"@.len() == 30);
        assert("-p"@.len() == 2);
        assert("TRANSPO_PORT"@.len() == 12);
        assert("-q"@.len() == 2);
        assert("TRANSPO_QUOTA_BYTES_TOTAL"@.len() == 25);
        assert("-b"@[1] != "-a"@[1]);
        assert("-b"@ != "-a"@);
        assert("-b"@ != "TRANSPO_MAX_UPLOAD_AGE_MINUTES"@);
        assert("-b"@[1] != "-u"@[1]);
        assert("-b"@ != "-u"@);
        assert("-b"@ != "TRANSPO_MAX_UPLOAD_SIZE_BYTES"@);
        assert("-b"@[1] != "-s"@[1]);
        assert("-b"@ != "-s"@);
        assert("-b"@ != "TRANSPO_MAX_STORAGE_SIZE_BYTES"@);
        assert("-b"@[1] != "-p"@[1]);
        assert("-b"@ != "-p"@);
        assert("-b"@ != "TRANSPO_PORT"@);
        assert("-b"@[1] != "-q"@[1]);
        assert("-b"@ != "-q"@);
        assert("-b"@ != "TRANSPO_QUOTA_BYTES_TOTAL"@);
        assert("TRANSPO_QUOTA_BYTES_PER_MINUTE"@ != "-a"@);
        assert("TRANSPO_QUOTA_BYTES_PER_MINUTE"@[8] != "TRANSPO_MAX_UPLOAD_AGE_MINUTES"@[8]);
        assert("TRANSPO_QUOTA_BYTES_PER_MINUTE"@ != "TRANSPO_MAX_UPLOAD_AGE_MINUTES"@);
        assert("TRANSPO_QUOTA_BYTES_PER_MINUTE"@ != "-u"@);
        assert("TRANSPO_QUOTA_BYTES_PER_MINUTE"@ != "TRANSPO_MAX_UPLOAD_SIZE_BYTES"@);
        assert("TRANSPO_QUOTA_BYTES_PER_MINUTE"@ != "-s"@);
        assert("TRANSPO_QUOTA_BYTES_PER_MINUTE"@[8] != "TRANSPO_MAX_STORAGE_SIZE_BYTES"@[8]);
        assert("TRANSPO_QUOTA_BYTES_PER_MINUTE"@ != "TRANSPO_MAX_STORAGE_SIZE_BYTES"@);
        assert("TRANSPO_QUOTA_BYTES_PER_MINUTE"@ != "-p"@);
        assert("TRANSPO_QUOTA_BYTES_PER_MINUTE"@ != "TRANSPO_PORT"@);
        assert("TRANSPO_QUOTA_BYTES_PER_MINUTE"@ != "-q"@);
        assert("TRANSPO_QUOTA_BYTES_PER_MINUTE"@ != "TRANSPO_QUOTA_BYTES_TOTAL"@);
    }
    lemma_same_field_same_effect(c, "-b"@, "TRANSPO_QUOTA_BYTES_PER_MINUTE"@, v);
    assert(option_field("-t"@) == 6 && option_field("TRANSPO_READ_TIMEOUT_MILLISECONDS"@) == 6) by {
        reveal_strlit("-a");
        reveal_strlit("TRANSPO_MAX_UPLOAD_AGE_MINUTES");
        reveal_strlit("-u");
        reveal_strlit("TRANSPO_MAX_UPLOAD_SIZE_BYTES");
        reveal_strlit("-s");
        reveal_strlit("TRANSPO_MAX_STORAGE_SIZE_BYTES");
        reveal_strlit("-p");
        reveal_strlit("TRANSPO_PORT");
        reveal_strlit("-q");
        reveal_strlit("TRANSPO_QUOTA_BYTES_TOTAL");
        reveal_strlit("-b");
        reveal_strlit("TRANSPO_QUOTA_BYTES_PER_MINUTE");
        reveal_strlit("-t");
        reveal_strlit("TRANSPO_READ_TIMEOUT_MILLISECONDS");
        assert("-t"@.len() == 2);
        assert("TRANSPO_READ_TIMEOUT_MILLISECONDS"@.len() == 33);
        assert("-a"@.len() == 2);
        assert("TRANSPO_MAX_UPLOAD_AGE_MINUTES"@.len() == 30);
        assert("-u"@.len() == 2);
        assert("TRANSPO_MAX_UPLOAD_SIZE_BYTES"@.len() == 29);
        assert("-s"@.len() == 2);
        assert("TRANSPO_MAX_STORAGE_SIZE_BYTES"@.len() == 30);
        assert("-p"@.len() == 2);
        assert("TRANSPO_PORT"@.len() == 12);
        assert("-q"@.len() == 2);
        assert("TRANSPO_QUOTA_BYTES_TOTAL"@.len() == 25);
        assert("-b"@.len() == 2);
        assert("TRANSPO_QUOTA_BYTES_PER_MINUTE"@.len() == 30);
        assert("-t"@[1] != "-a"@[1]);
        assert("-t"@ != "-a"@);
        assert("-t"@ != "TRANSPO_MAX_UPLOAD_AGE_MINUTES"@);
        assert("-t"@[1] != "-u"@[1]);
        assert("-t"@ != "-u"@);
        assert("-t"@ != "TRANSPO_MAX_UPLOAD_SIZE_BYTES"@);
        assert("-t"@[1] != "-s"@[1]);
        assert("-t"@ != "-s"@);
        assert("-t"@ != "TRANSPO_MAX_STORAGE_SIZE_BYTES"@);
        assert("-t"@[1] != "-p"@[1]);
        assert("-t"@ != "-p"@);
        assert("-t"@ != "TRANSPO_PORT"@);
        assert("-t"@[1] != "-q"@[1]);
        assert("-t"@ != "-q"@);
        assert("-t"@ != "TRANSPO_QUOTA_BYTES_TOTAL"@);
        assert("-t"@[1] != "-b"@[1]);
        assert("-t"@ != "-b"@);
        assert("-t"@ != "TRANSPO_QUOTA_BYTES_PER_MINUTE"@);
        assert("TRANSPO_READ_TIMEOUT_MILLISECONDS"@ != "-a"@);
        assert("TRANSPO_READ_TIMEOUT_MILLISECONDS"@ != "TRANSPO_MAX_UPLOAD_AGE_MINUTES"@);
        assert("TRANSPO_READ_TIMEOUT_MILLISECONDS"@ != "-u"@);
        assert("TRANSPO_READ_TIMEOUT_MILLISECONDS"@ != "TRANSPO_MAX_UPLOAD_SIZE_BYTES"@);
        assert("TRANSPO_READ_TIMEOUT_MILLISECONDS"@ != "-s"@);
        assert("TRANSPO_READ_TIMEOUT_MILLISECONDS"@ != "TRANSPO_MAX_STORAGE_SIZE_BYTES"@);
        assert("TRANSPO_READ_TIMEOUT_MILLISECONDS"@ != "-p"@);
        assert("TRANSPO_READ_TIMEOUT_MILLISECONDS"@ != "TRANSPO_PORT"@);
        assert("TRANSPO_READ_TIMEOUT_MILLISECONDS"@ != "-q"@);
        assert("TRANSPO_READ_TIMEOUT_MILLISECONDS"@ != "TRANSPO_QUOTA_BYTES_TOTAL"@);
        assert("TRANSPO_READ_TIMEOUT_MILLISECONDS"@ != "-b"@);
        assert("TRANSPO_READ_TIMEOUT_MILLISECONDS"@ != "TRANSPO_QUOTA_BYTES_PER_MINUTE"@);
    }
    lemma_same_field_same_effect(c, "-t"@, "TRANSPO_READ_TIMEOUT_MILLISECONDS"@, v);
    assert(option_field("-d"@) == 7 && option_field("TRANSPO_STORAGE_DIRECTORY"@) == 7) by {
        reveal_strlit("-a");
        reveal_strlit("TRANSPO_MAX_UPLOAD_AGE_MINUTES");
        reveal_strlit("-u");
        reveal_strlit("TRANSPO_MAX_UPLOAD_SIZE_BYTES");
        reveal_strlit("-s");
        reveal_strlit("TRANSPO_MAX_STORAGE_SIZE_BYTES");
        reveal_strlit("-p");
        reveal_strlit("TRANSPO_PORT");
        reveal_strlit("-q");
        reveal_strlit("TRANSPO_QUOTA_BYTES_TOTAL");
        reveal_strlit("-b");
        reveal_strlit("TRANSPO_QUOTA_BYTES_PER_MINUTE");
        reveal_strlit("-t");
        reveal_strlit("TRANSPO_READ_TIMEOUT_MILLISECONDS");
        reveal_strlit("-d");
        reveal_strlit("TRANSPO_STORAGE_DIRECTORY");
        assert("-d"@.len() == 2);
        assert("TRANSPO_STORAGE_DIRECTORY"@.len() == 25);
        assert("-a"@.len() == 2);
        assert("TRANSPO_MAX_UPLOAD_AGE_MINUTES"@.len() == 30);
        assert("-u"@.len() == 2);
        assert("TRANSPO_MAX_UPLOAD_SIZE_BYTES"@.len() == 29);
        assert("-s"@.len() == 2);
        assert("TRANSPO_MAX_STORAGE_SIZE_BYTES"@.len() == 30);
        assert("-p"@.len() == 2);
        assert("TRANSPO_PORT"@.len() == 12);
        assert("-q"@.len() == 2);
        assert("TRANSPO_QUOTA_BYTES_TOTAL"@.len() == 25);
        assert("-b"@.len() == 2);
        assert("TRANSPO_QUOTA_BYTES_PER_MINUTE"@.len() == 30);
        assert("-t"@.len() == 2);
        assert("TRANSPO_READ_TIMEOUT_MILLISECONDS"@.len() == 33);
        assert("-d"@[1] != "-a"@[1]);
        assert("-d"@ != "-a"@);
        assert("-d"@ != "TRANSPO_MAX_UPLOAD_AGE_MINUTES"@);
        assert("-d"@[1] != "-u"@[1]);
        assert("-d"@ != "-u"@);
        assert("-d"@ != "TRANSPO_MAX_UPLOAD_SIZE_BYTES"@);
        assert("-d"@[1] != "-s"@[1]);
        assert("-d"@ != "-s"@);
        assert("-d"@ != "TRANSPO_MAX_STORAGE_SIZE_BYTES"@);
        assert("-d"@[1] != "-p"@[1]);
        assert("-d"@ != "-p"@);
        assert("-d"@ != "TRANSPO_PORT"@);
        assert("-d"@[1] != "-q"@[1]);
        assert("-d"@ != "-q"@);
        assert("-d"@ != "TRANSPO_QUOTA_BYTES_TOTAL"@);
        assert("-d"@[1] != "-b"@[1]);
        assert("-d"@ != "-b"@);
        assert("-d"@ != "TRANSPO_QUOTA_BYTES_PER_MINUTE"@);
        assert("-d"@[1] != "-t"@[1]);
        assert("-d"@ != "-t"@);
        assert("-d"@ != "TRANSPO_READ_TIMEOUT_MILLISECONDS"@);
        assert("TRANSPO_STORAGE_DIRECTORY"@ != "-a"@);
        assert("TRANSPO_STORAGE_DIRECTORY"@ != "TRANSPO_MAX_UPLOAD_AGE_MINUTES"@);
        assert("TRANSPO_STORAGE_DIRECTORY"@ != "-u"@);
        assert("TRANSPO_STORAGE_DIRECTORY"@ != "TRANSPO_MAX_UPLOAD_SIZE_BYTES"@);
        assert("TRANSPO_STORAGE_DIRECTORY"@ != "-s"@);
        assert("TRANSPO_STORAGE_DIRECTORY"@ != "TRANSPO_MAX_STORAGE_SIZE_BYTES"@);
        assert("TRANSPO_STORAGE_DIRECTORY"@ != "-p"@);
        assert("TRANSPO_STORAGE_DIRECTORY"@ != "TRANSPO_PORT"@);
        assert("TRANSPO_STORAGE_DIRECTORY"@ != "-q"@);
        assert("TRANSPO_STORAGE_DIRECTORY"@[8] != "TRANSPO_QUOTA_BYTES_TOTAL"@[8]);
        assert("TRANSPO_STORAGE_DIRECTORY"@ != "TRANSPO_QUOTA_BYTES_TOTAL"@);
        assert("TRANSPO_STORAGE_DIRECTORY"@ != "-b"@);
        assert("TRANSPO_STORAGE_DIRECTORY"@ != "TRANSPO_QUOTA_BYTES_PER_MINUTE"@);
        assert("TRANSPO_STORAGE_DIRECTORY"@ != "-t"@);
        assert("TRANSPO_STORAGE_DIRECTORY"@ != "TRANSPO_READ_TIMEOUT_MILLISECONDS"@);
    }
    lemma_same_field_same_effect(c, "-d"@, "TRANSPO_STORAGE_DIRECTORY"@, v);
    assert(option_field("-D"@) == 8 && option_field("TRANSPO_DATABASE_URL"@) == 8) by {
        reveal_strlit("-a");
        reveal_strlit("TRANSPO_MAX_UPLOAD_AGE_MINUTES");
        reveal_strlit("-u");
        reveal_strlit("TRANSPO_MAX_UPLOAD_SIZE_BYTES");
        reveal_strlit("-s");
        reveal_strlit("TRANSPO_MAX_STORAGE_SIZE_BYTES");
        reveal_strlit("-p");
        reveal_strlit("TRANSPO_PORT");
        reveal_strlit("-q");
        reveal_strlit("TRANSPO_QUOTA_BYTES_TOTAL");
        reveal_strlit("-b");
        reveal_strlit("TRANSPO_QUOTA_BYTES_PER_MINUTE");
        reveal_strlit("-t");
        reveal_strlit("TRANSPO_READ_TIMEOUT_MILLISECONDS");
        reveal_strlit("-d");
        reveal_strlit("TRANSPO_STORAGE_DIRECTORY");
        reveal_strlit("-D");
        reveal_strlit("TRANSPO_DATABASE_URL");
        assert("-D"@.len() == 2);
        assert("TRANSPO_DATABASE_URL"@.len() == 20);
        assert("-a"@.len() == 2);
        assert("TRANSPO_MAX_UPLOAD_AGE_MINUTES"@.len() == 30);
        assert("-u"@.len() == 2);
        assert("TRANSPO_MAX_UPLOAD_SIZE_BYTES"@.len() == 29);
        assert("-s"@.len() == 2);
        assert("TRANSPO_MAX_STORAGE_SIZE_BYTES"@.len() == 30);
        assert("-p"@.len() == 2);
        assert("TRANSPO_PORT"@.len() == 12);
        assert("-q"@.len() == 2);
        assert("TRANSPO_QUOTA_BYTES_TOTAL"@.len() == 25);
        assert("-b"@.len() == 2);
        assert("TRANSPO_QUOTA_BYTES_PER_MINUTE"@.len() == 30);
        assert("-t"@.len() == 2);
        assert("TRANSPO_READ_TIMEOUT_MILLISECONDS"@.len() == 33);
        assert("-d"@.len() == 2);
        assert("TRANSPO_STORAGE_DIRECTORY"@.len() == 25);
        assert("-D"@[1] != "-a"@[1]);
        assert("-D"@ != "-a"@);
        assert("-D"@ != "TRANSPO_MAX_UPLOAD_AGE_MINUTES"@);
        assert("-D"@[1] != "-u"@[1]);
        assert("-D"@ != "-u"@);
        assert("-D"@ != "TRANSPO_MAX_UPLOAD_SIZE_BYTES"@);
        assert("-D"@[1] != "-s"@[1]);
        assert("-D"@ != "-s"@);
        assert("-D"@ != "TRANSPO_MAX_STORAGE_SIZE_BYTES"@);
        assert("-D"@[1] != "-p"@[1]);
        assert("-D"@ != "-p"@);
        assert("-D"@ != "TRANSPO_PORT"@);
        assert("-D"@[1] != "-q"@[1]);
        assert("-D"@ != "-q"@);
        assert("-D"@ != "TRANSPO_QUOTA_BYTES_TOTAL"@);
        assert("-D"@[1] != "-b"@[1]);
        assert("-D"@ != "-b"@);
        assert("-D"@ != "TRANSPO_QUOTA_BYTES_PER_MINUTE"@);
        assert("-D"@[1] != "-t"@[1]);
        assert("-D"@ != "-t"@);
        assert("-D"@ != "TRANSPO_READ_TIMEOUT_MILLISECONDS"@);
        assert("-D"@[1] != "-d"@[1]);
        assert("-D"@ != "-d"@);
        assert("-D"@ != "TRANSPO_STORAGE_DIRECTORY"@);
        assert("TRANSPO_DATABASE_URL"@ != "-a"@);
        assert("TRANSPO_DATABASE_URL"@ != "TRANSPO_MAX_UPLOAD_AGE_MINUTES"@);
        assert("TRANSPO_DATABASE_URL"@ != "-u"@);
        assert("TRANSPO_DATABASE_URL"@ != "TRANSPO_MAX_UPLOAD_SIZE_BYTES"@);
        assert("TRANSPO_DATABASE_URL"@ != "-s"@);
        assert("TRANSPO_DATABASE_URL"@ != "TRANSPO_MAX_STORAGE_SIZE_BYTES"@);
        assert("TRANSPO_DATABASE_URL"@ != "-p"@);
        assert("TRANSPO_DATABASE_URL"@ != "TRANSPO_PORT"@);
        assert("TRANSPO_DATABASE_URL"@ != "-q"@);
        assert("TRANSPO_DATABASE_URL"@ != "TRANSPO_QUOTA_BYTES_TOTAL"@);
        assert("TRANSPO_DATABASE_URL"@ != "-b"@);
        assert("TRANSPO_DATABASE_URL"@ != "TRANSPO_QUOTA_BYTES_PER_MINUTE"@);
        assert("TRANSPO_DATABASE_URL"@ != "-t"@);
        assert("TRANSPO_DATABASE_URL"@ != "TRANSPO_READ_TIMEOUT_MILLISECONDS"@);
        assert("TRANSPO_DATABASE_URL"@ != "-d"@);
        assert("TRANSPO_DATABASE_URL"@ != "TRANSPO_STORAGE_DIRECTORY"@);
    }
    lemma_same_field_same_effect(c, "-D"@, "TRANSPO_DATABASE_URL"@, v);
    assert(option_field("-m"@) == 9 && option_field("TRANSPO_MIGRATIONS_DIRECTORY"@) == 9) by {
        reveal_strlit("-a");
        reveal_strlit("TRANSPO_MAX_UPLOAD_AGE_MINUTES");
        reveal_strlit("-u");
        reveal_strlit("TRANSPO_MAX_UPLOAD_SIZE_BYTES");
        reveal_strlit("-s");
        reveal_strlit("TRANSPO_MAX_STORAGE_SIZE_BYTES");
        reveal_strlit("-p");
        reveal_strlit("TRANSPO_PORT");
        reveal_strlit("-q");
        reveal_strlit("TRANSPO_QUOTA_BYTES_TOTAL");
        reveal_strlit("-b");
        reveal_strlit("TRANSPO_QUOTA_BYTES_PER_MINUTE");
        reveal_strlit("-t");
        reveal_strlit("TRANSPO_READ_TIMEOUT_MILLISECONDS");
        reveal_strlit("-d");
        reveal_strlit("TRANSPO_STORAGE_DIRECTORY");
        reveal_strlit("-D");
        reveal_strlit("TRANSPO_DATABASE_URL");
        reveal_strlit("-m");
        reveal_strlit("TRANSPO_MIGRATIONS_DIRECTORY");
        assert("-m"@.len() == 2);
        assert("TRANSPO_MIGRATIONS_DIRECTORY"@.len() == 28);
        assert("-a"@.len() == 2);
        assert("TRANSPO_MAX_UPLOAD_AGE_MINUTES"@.len() == 30);
        assert("-u"@.len() == 2);
        assert("TRANSPO_MAX_UPLOAD_SIZE_BYTES"@.len() == 29);
        assert("-s"@.len() == 2);
        assert("TRANSPO_MAX_STORAGE_SIZE_BYTES"@.len() == 30);
        assert("-p"@.len() == 2);
        assert("TRANSPO_PORT"@.len() == 12);
        assert("-q"@.len() == 2);
        assert("TRANSPO_QUOTA_BYTES_TOTAL"@.len() == 25);
        assert("-b"@.len() == 2);
        assert("TRANSPO_QUOTA_BYTES_PER_MINUTE"@.len() == 30);
        assert("-t"@.len() == 2);
        assert("TRANSPO_READ_TIMEOUT_MILLISECONDS"@.len() == 33);
        assert("-d"@.len() == 2);
        assert("TRANSPO_STORAGE_DIRECTORY"@.len() == 25);
        assert("-D"@.len() == 2);
        assert("TRANSPO_DATABASE_URL"@.len() == 20);
        assert("-m"@[1] != "-a"@[1]);
        assert("-m"@ != "-a"@);
        assert("-m"@ != "TRANSPO_MAX_UPLOAD_AGE_MINUTES"@);
        assert("-m"@[1] != "-u"@[1]);
        assert("-m"@ != "-u"@);
        assert("-m"@ != "TRANSPO_MAX_UPLOAD_SIZE_BYTES"@);
        assert("-m"@[1] != "-s"@[1]);
        assert("-m"@ != "-s"@);
        assert("-m"@ != "TRANSPO_MAX_STORAGE_SIZE_BYTES"@);
        assert("-m"@[1] != "-p"@[1]);
        assert("-m"@ != "-p"@);
        assert("-m"@ != "TRANSPO_PORT"@);
        assert("-m"@[1] != "-q"@[1]);
        assert("-m"@ != "-q"@);
        assert("-m"@ != "TRANSPO_QUOTA_BYTES_TOTAL"@);
        assert("-m"@[1] != "-b"@[1]);
        assert("-m"@ != "-b"@);
        assert("-m"@ != "TRANSPO_QUOTA_BYTES_PER_MINUTE"@);
        assert("-m"@[1] != "-t"@[1]);
        assert("-m"@ != "-t"@);
        assert("-m"@ != "TRANSPO_READ_TIMEOUT_MILLISECONDS"@);
        assert("-m"@[1] != "-d"@[1]);
        assert("-m"@ != "-d"@);
        assert("-m"@ != "TRANSPO_STORAGE_DIRECTORY"@);
        assert("-m"@[1] != "-D"@[1]);
        assert("-m"@ != "-D"@);
        assert("-m"@ != "TRANSPO_DATABASE_URL"@);
        assert("TRANSPO_MIGRATIONS_DIRECTORY"@ != "-a"@);
        assert("TRANSPO_MIGRATIONS_DIRECTORY"@ != "TRANSPO_MAX_UPLOAD_AGE_MINUTES"@);
        assert("TRANSPO_MIGRATIONS_DIRECTORY"@ != "-u"@);
        assert("TRANSPO_MIGRATIONS_DIRECTORY"@ != "TRANSPO_MAX_UPLOAD_SIZE_BYTES"@);
        assert("TRANSPO_MIGRATIONS_DIRECTORY"@ != "-s"@);
        assert("TRANSPO_MIGRATIONS_DIRECTORY"@ != "TRANSPO_MAX_STORAGE_SIZE_BYTES"@);
        assert("TRANSPO_MIGRATIONS_DIRECTORY"@ != "-p"@);
        assert("TRANSPO_MIGRATIONS_DIRECTORY"@ != "TRANSPO_PORT"@);
        assert("TRANSPO_MIGRATIONS_DIRECTORY"@ != "-q"@);
        assert("TRANSPO_MIGRATIONS_DIRECTORY"@ != "TRANSPO_QUOTA_BYTES_TOTAL"@);
        assert("TRANSPO_MIGRATIONS_DIRECTORY"@ != "-b"@);
        assert("TRANSPO_MIGRATIONS_DIRECTORY"@ != "TRANSPO_QUOTA_BYTES_PER_MINUTE"@);
        assert("TRANSPO_MIGRATIONS_DIRECTORY"@ != "-t"@);
        assert("TRANSPO_MIGRATIONS_DIRECTORY"@ != "TRANSPO_READ_TIMEOUT_MILLISECONDS"@);
        assert("TRANSPO_MIGRATIONS_DIRECTORY"@ != "-d"@);
        assert("TRANSPO_MIGRATIONS_DIRECTORY"@ != "TRANSPO_STORAGE_DIRECTORY"@);
        assert("TRANSPO_MIGRATIONS_DIRECTORY"@ != "-D"@);
        assert("TRANSPO_MIGRATIONS_DIRECTORY"@ != "TRANSPO_DATABASE_URL"@);
    }
    lemma_same_field_same_effect(c, "-m"@, "TRANSPO_MIGRATIONS_DIRECTORY"@, v);
    assert(option_field("-l"@) == 10 && option_field("TRANSPO_DEFAULT_LANGUAGE"@) == 10) by {
        reveal_strlit("-a");
        reveal_strlit("TRANSPO_MAX_UPLOAD_AGE_MINUTES");
        reveal_strlit("-u");
        reveal_strlit("TRANSPO_MAX_UPLOAD_SIZE_BYTES");
        reveal_strlit("-s");
        reveal_strlit("TRANSPO_MAX_STORAGE_SIZE_BYTES");
        reveal_strlit("-p");
        reveal_strlit("TRANSPO_PORT");
        reveal_strlit("-q");
        reveal_strlit("TRANSPO_QUOTA_BYTES_TOTAL");
        reveal_strlit("-b");
        reveal_strlit("TRANSPO_QUOTA_BYTES_PER_MINUTE");
        reveal_strlit("-t");
        reveal_strlit("TRANSPO_READ_TIMEOUT_MILLISECONDS");
        reveal_strlit("-d");
        reveal_strlit("TRANSPO_STORAGE_DIRECTORY");
        reveal_strlit("-D");
        reveal_strlit("TRANSPO_DATABASE_URL");
        reveal_strlit("-m");
        reveal_strlit("TRANSPO_MIGRATIONS_DIRECTORY");
        reveal_strlit("-l");
        reveal_strlit("TRANSPO_DEFAULT_LANGUAGE");
        assert("-l"@.len() == 2);
        assert("TRANSPO_DEFAULT_LANGUAGE"@.len() == 24);
        assert("-a"@.len() == 2);
        assert("TRANSPO_MAX_UPLOAD_AGE_MINUTES"@.len() == 30);
        assert("-u"@.len() == 2);
        assert("TRANSPO_MAX_UPLOAD_SIZE_BYTES"@.len() == 29);
        assert("-s"@.len() == 2);
        assert("TRANSPO_MAX_STORAGE_SIZE_BYTES"@.len() == 30);
        assert("-p"@.len() == 2);
        assert("TRANSPO_PORT"@.len() == 12);
        assert("-q"@.len() == 2);
        assert("TRANSPO_QUOTA_BYTES_TOTAL"@.len() == 25);
        assert("-b"@.len() == 2);
        assert("TRANSPO_QUOTA_BYTES_PER_MINUTE"@.len() == 30);
        assert("-t"@.len() == 2);
        assert("TRANSPO_READ_TIMEOUT_MILLISECONDS"@.len() == 33);
        assert("-d"@.len() == 2);
        assert("TRANSPO_STORAGE_DIRECTORY"@.len() == 25);
        assert("-D"@.len() == 2);
        assert("TRANSPO_DATABASE_URL"@.len() == 20);
        assert("-m"@.len() == 2);
        assert("TRANSPO_MIGRATIONS_DIRECTORY"@.len() == 28);
        assert("-l"@[1] != "-a"@[1]);
        assert("-l"@ != "-a"@);
        assert("-l"@ != "TRANSPO_MAX_UPLOAD_AGE_MINUTES"@);
        assert("-l"@[1] != "-u"@[1]);
        assert("-l"@ != "-u"@);
        assert("-l"@ != "TRANSPO_MAX_UPLOAD_SIZE_BYTES"@);
        assert("-l"@[1] != "-s"@[1]);
        assert("-l"@ != "-s"@);
        assert("-l"@ != "TRANSPO_MAX_STORAGE_SIZE_BYTES"@);
        assert("-l"@[1] != "-p"@[1]);
        assert("-l"@ != "-p"@);
        assert("-l"@ != "TRANSPO_PORT"@);
        assert("-l"@[1] != "-q"@[1]);
        assert("-l"@ != "-q"@);
        assert("-l"@ != "TRANSPO_QUOTA_BYTES_TOTAL"@);
        assert("-l"@[1] != "-b"@[1]);
        assert("-l"@ != "-b"@);
        assert("-l"@ != "TRANSPO_QUOTA_BYTES_PER_MINUTE"@);
        assert("-l"@[1] != "-t"@[1]);
        assert("-l"@ != "-t"@);
        assert("-l"@ != "TRANSPO_READ_TIMEOUT_MILLISECONDS"@);
        assert("-l"@[1] != "-d"@[1]);
        assert("-l"@ != "-d"@);
        assert("-l"@ != "TRANSPO_STORAGE_DIRECTORY"@);
        assert("-l"@[1] != "-D"@[1]);
        assert("-l"@ != "-D"@);
        assert("-l"@ != "TRANSPO_DATABASE_URL"@);
        assert("-l"@[1] != "-m"@[1]);
        assert("-l"@ != "-m"@);
        assert("-l"@ != "TRANSPO_MIGRATIONS_DIRECTORY"@);
        assert("TRANSPO_DEFAULT_LANGUAGE"@ != "-a"@);
        assert("TRANSPO_DEFAULT_LANGUAGE"@ != "TRANSPO_MAX_UPLOAD_AGE_MINUTES"@);
        assert("TRANSPO_DEFAULT_LANGUAGE"@ != "-u"@);
        assert("TRANSPO_DEFAULT_LANGUAGE"@ != "TRANSPO_MAX_UPLOAD_SIZE_BYTES"@);
        assert("TRANSPO_DEFAULT_LANGUAGE"@ != "-s"@);
        assert("TRANSPO_DEFAULT_LANGUAGE"@ != "TRANSPO_MAX_STORAGE_SIZE_BYTES"@);
        assert("TRANSPO_DEFAULT_LANGUAGE"@ != "-p"@);
        assert("TRANSPO_DEFAULT_LANGUAGE"@ != "TRANSPO_PORT"@);
        assert("TRANSPO_DEFAULT_LANGUAGE"@ != "-q"@);
        assert("TRANSPO_DEFAULT_LANGUAGE"@ != "TRANSPO_QUOTA_BYTES_TOTAL"@);
        assert("TRANSPO_DEFAULT_LANGUAGE"@ != "-b"@);
        assert("TRANSPO_DEFAULT_LANGUAGE"@ != "TRANSPO_QUOTA_BYTES_PER_MINUTE"@);
        assert("TRANSPO_DEFAULT_LANGUAGE"@ != "-t"@);
        assert("TRANSPO_DEFAULT_LANGUAGE"@ != "TRANSPO_READ_TIMEOUT_MILLISECONDS"@);
        assert("TRANSPO_DEFAULT_LANGUAGE"@ != "-d"@);
        assert("TRANSPO_DEFAULT_LANGUAGE"@ != "TRANSPO_STORAGE_DIRECTORY"@);
        assert("TRANSPO_DEFAULT_LANGUAGE"@ != "-D"@);
        assert("TRANSPO_DEFAULT_LANGUAGE"@ != "TRANSPO_DATABASE_URL"@);
        assert("TRANSPO_DEFAULT_LANGUAGE"@ != "-m"@);
        assert("TRANSPO_DEFAULT_LANGUAGE"@ != "TRANSPO_MIGRATIONS_DIRECTORY"@);
    }
    lemma_same_field_same_effect(c, "-l"@, "TRANSPO_DEFAULT_LANGUAGE"@, v);
    assert(option_field("-T"@) == 11 && option_field("TRANSPO_TRANSLATIONS_DIRECTORY"@) == 11) by {
        reveal_strlit("-a");
        reveal_strlit("TRANSPO_MAX_UPLOAD_AGE_MINUTES");
        reveal_strlit("-u");
        reveal_strlit("TRANSPO_MAX_UPLOAD_SIZE_BYTES");
        reveal_strlit("-s");
        reveal_strlit("TRANSPO_MAX_STORAGE_SIZE_BYTES");
        reveal_strlit("-p");
        reveal_strlit("TRANSPO_PORT");
        reveal_strlit("-q");
        reveal_strlit("TRANSPO_QUOTA_BYTES_TOTAL");
        reveal_strlit("-b");
        reveal_strlit("TRANSPO_QUOTA_BYTES_PER_MINUTE");
        reveal_strlit("-t");
        reveal_strlit("TRANSPO_READ_TIMEOUT_MILLISECONDS");
        reveal_strlit("-d");
        reveal_strlit("TRANSPO_STORAGE_DIRECTORY");
        reveal_strlit("-D");
        reveal_strlit("TRANSPO_DATABASE_URL");
        reveal_strlit("-m");
        reveal_strlit("TRANSPO_MIGRATIONS_DIRECTORY");
        reveal_strlit("-l");
        reveal_strlit("TRANSPO_DEFAULT_LANGUAGE");
        reveal_strlit("-T");
        reveal_strlit("TRANSPO_TRANSLATIONS_DIRECTORY");
        assert("-T"@.len() == 2);
        assert("TRANSPO_TRANSLATIONS_DIRECTORY"@.len() == 30);
        assert("-a"@.len() == 2);
        assert("TRANSPO_MAX_UPLOAD_AGE_MINUTES"@.len() == 30);
        assert("-u"@.len() == 2);
        assert("TRANSPO_MAX_UPLOAD_SIZE_BYTES"@.len() == 29);
        assert("-s"@.len() == 2);
        assert("TRANSPO_MAX_STORAGE_SIZE_BYTES"@.len() == 30);
        assert("-p"@.len() == 2);
        assert("TRANSPO_PORT"@.len() == 12);
        assert("-q"@.len() == 2);
        assert("TRANSPO_QUOTA_BYTES_TOTAL"@.len() == 25);
        assert("-b"@.len() == 2);
        assert("TRANSPO_QUOTA_BYTES_PER_MINUTE"@.len() == 30);
        assert("-t"@.len() == 2);
        assert("TRANSPO_READ_TIMEOUT_MILLISECONDS"@.len() == 33);
        assert("-d"@.len() == 2);
        assert("TRANSPO_STORAGE_DIRECTORY"@.len() == 25);
        assert("-D"@.len() == 2);
        assert("TRANSPO_DATABASE_URL"@.len() == 20);
        assert("-m"@.len() == 2);
        assert("TRANSPO_MIGRATIONS_DIRECTORY"@.len() == 28);
        assert("-l"@.len() == 2);
        assert("TRANSPO_DEFAULT_LANGUAGE"@.len() == 24);
        assert("-T"@[1] != "-a"@[1]);
        assert("-T"@ != "-a"@);
        assert("-T"@ != "TRANSPO_MAX_UPLOAD_AGE_MINUTES"@);
        assert("-T"@[1] != "-u"@[1]);
        assert("-T"@ != "-u"@);
        assert("-T"@ != "TRANSPO_MAX_UPLOAD_SIZE_BYTES"@);
        assert("-T"@[1] != "-s"@[1]);
        assert("-T"@ != "-s"@);
        assert("-T"@ != "TRANSPO_MAX_STORAGE_SIZE_BYTES"@);
        assert("-T"@[1] != "-p"@[1]);
        assert("-T"@ != "-p"@);
        assert("-T"@ != "TRANSPO_PORT"@);
        assert("-T"@[1] != "-q"@[1]);
        assert("-T"@ != "-q"@);
        assert("-T"@ != "TRANSPO_QUOTA_BYTES_TOTAL"@);
        assert("-T"@[1] != "-b"@[1]);
        assert("-T"@ != "-b"@);
        assert("-T"@ != "TRANSPO_QUOTA_BYTES_PER_MINUTE"@);
        assert("-T"@[1] != "-t"@[1]);
        assert("-T"@ != "-t"@);
        assert("-T"@ != "TRANSPO_READ_TIMEOUT_MILLISECONDS"@);
        assert("-T"@[1] != "-d"@[1]);
        assert("-T"@ != "-d"@);
        assert("-T"@ != "TRANSPO_STORAGE_DIRECTORY"@);
        assert("-T"@[1] != "-D"@[1]);
        assert("-T"@ != "-D"@);
        assert("-T"@ != "TRANSPO_DATABASE_URL"@);
        assert("-T"@[1] != "-m"@[1]);
        assert("-T"@ != "-m"@);
        assert("-T"@ != "TRANSPO_MIGRATIONS_DIRECTORY"@);
        assert("-T"@[1] != "-l"@[1]);
        assert("-T"@ != "-l"@);
        assert("-T"@ != "TRANSPO_DEFAULT_LANGUAGE"@);
        assert("TRANSPO_TRANSLATIONS_DIRECTORY"@ != "-a"@);
        assert("TRANSPO_TRANSLATIONS_DIRECTORY"@[8] != "TRANSPO_MAX_UPLOAD_AGE_MINUTES"@[8]);
        assert("TRANSPO_TRANSLATIONS_DIRECTORY"@ != "TRANSPO_MAX_UPLOAD_AGE_MINUTES"@);
        assert("TRANSPO_TRANSLATIONS_DIRECTORY"@ != "-u"@);
        assert("TRANSPO_TRANSLATIONS_DIRECTORY"@ != "TRANSPO_MAX_UPLOAD_SIZE_BYTES"@);
        assert("TRANSPO_TRANSLATIONS_DIRECTORY"@ != "-s"@);
        assert("TRANSPO_TRANSLATIONS_DIRECTORY"@[8] != "TRANSPO_MAX_STORAGE_SIZE_BYTES"@[8]);
        assert("TRANSPO_TRANSLATIONS_DIRECTORY"@ != "TRANSPO_MAX_STORAGE_SIZE_BYTES"@);
        assert("TRANSPO_TRANSLATIONS_DIRECTORY"@ != "-p"@);
        assert("TRANSPO_TRANSLATIONS_DIRECTORY"@ != "TRANSPO_PORT"@);
        assert("TRANSPO_TRANSLATIONS_DIRECTORY"@ != "-q"@);
        assert("TRANSPO_TRANSLATIONS_DIRECTORY"@ != "TRANSPO_QUOTA_BYTES_TOTAL"@);
        assert("TRANSPO_TRANSLATIONS_DIRECTORY"@ != "-b"@);
        assert("TRANSPO_TRANSLATIONS_DIRECTORY"@[8] != "TRANSPO_QUOTA_BYTES_PER_MINUTE"@[8]);
        assert("TRANSPO_TRANSLATIONS_DIRECTORY"@ != "TRANSPO_QUOTA_BYTES_PER_MINUTE"@);
        assert("TRANSPO_TRANSLATIONS_DIRECTORY"@ != "-t"@);
        assert("TRANSPO_TRANSLATIONS_DIRECTORY"@ != "TRANSPO_READ_TIMEOUT_MILLISECONDS"@);
        assert("TRANSPO_TRANSLATIONS_DIRECTORY"@ != "-d"@);
        assert("TRANSPO_TRANSLATIONS_DIRECTORY"@ != "TRANSPO_STORAGE_DIRECTORY"@);
        assert("TRANSPO_TRANSLATIONS_DIRECTORY"@ != "-D"@);
        assert("TRANSPO_TRANSLATIONS_DIRECTORY"@ != "TRANSPO_DATABASE_URL"@);
        assert("TRANSPO_TRANSLATIONS_DIRECTORY"@ != "-m"@);
        assert("TRANSPO_TRANSLATIONS_DIRECTORY"@ != "TRANSPO_MIGRATIONS_DIRECTORY"@);
        assert("TRANSPO_TRANSLATIONS_DIRECTORY"@ != "-l"@);
        assert("TRANSPO_TRANSLATIONS_DIRECTORY"@ != "TRANSPO_DEFAULT_LANGUAGE"@);
    }
    lemma_same_field_same_effect(c, "-T"@, "TRANSPO_TRANSLATIONS_DIRECTORY"@, v);
    assert(option_field("--pool-max"@) == 12 && option_field("TRANSPO_DB_POOL_MAX"@) == 12) by {
        reveal_strlit("-a");
        reveal_strlit("TRANSPO_MAX_UPLOAD_AGE_MINUTES");
        reveal_strlit("-u");
        reveal_strlit("TRANSPO_MAX_UPLOAD_SIZE_BYTES");
        reveal_strlit("-s");
        reveal_strlit("TRANSPO_MAX_STORAGE_SIZE_BYTES");
        reveal_strlit("-p");
        reveal_strlit("TRANSPO_PORT");
        reveal_strlit("-q");
        reveal_strlit("TRANSPO_QUOTA_BYTES_TOTAL");
        reveal_strlit("-b");
        reveal_strlit("TRANSPO_QUOTA_BYTES_PER_MINUTE");
        reveal_strlit("-t");
        reveal_strlit("TRANSPO_READ_TIMEOUT_MILLISECONDS");
        reveal_strlit("-d");
        reveal_strlit("TRANSPO_STORAGE_DIRECTORY");
        reveal_strlit("-D");
        reveal_strlit("TRANSPO_DATABASE_URL");
        reveal_strlit("-m");
        reveal_strlit("TRANSPO_MIGRATIONS_DIRECTORY");
        reveal_strlit("-l");
        reveal_strlit("TRANSPO_DEFAULT_LANGUAGE");
        reveal_strlit("-T");
        reveal_strlit("TRANSPO_TRANSLATIONS_DIRECTORY");
        reveal_strlit("--pool-max");
        reveal_strlit("TRANSPO_DB_POOL_MAX");
        assert("--pool-max"@.len() == 10);
        assert("TRANSPO_DB_POOL_MAX"@.len() == 19);
        assert("-a"@.len() == 2);
        assert("TRANSPO_MAX_UPLOAD_AGE_MINUTES"@.len() == 30);
        assert("-u"@.len() == 2);
        assert("TRANSPO_MAX_UPLOAD_SIZE_BYTES"@.len() == 29);
        assert("-s"@.len() == 2);
        assert("TRANSPO_MAX_STORAGE_SIZE_BYTES"@.len() == 30);
        assert("-p"@.len() == 2);
        assert("TRANSPO_PORT"@.len() == 12);
        assert("-q"@.len() == 2);
        assert("TRANSPO_QUOTA_BYTES_TOTAL"@.len() == 25);
        assert("-b"@.len() == 2);
        assert("TRANSPO_QUOTA_BYTES_PER_MINUTE"@.len() == 30);
        assert("-t"@.len() == 2);
        assert("TRANSPO_READ_TIMEOUT_MILLISECONDS"@.len() == 33);
        assert("-d"@.len() == 2);
        assert("TRANSPO_STORAGE_DIRECTORY"@.len() == 25);
        assert("-D"@.len() == 2);
        assert("TRANSPO_DATABASE_URL"@.len() == 20);
        assert("-m"@.len() == 2);
        assert("TRANSPO_MIGRATIONS_DIRECTORY"@.len() == 28);
        assert("-l"@.len() == 2);
        assert("TRANSPO_DEFAULT_LANGUAGE"@.len() == 24);
        assert("-T"@.len() == 2);
        assert("TRANSPO_TRANSLATIONS_DIRECTORY"@.len() == 30);
        assert("--pool-max"@ != "-a"@);
        assert("--pool-max"@ != "TRANSPO_MAX_UPLOAD_AGE_MINUTES"@);
        assert("--pool-max"@ != "-u"@);
        assert("--pool-max"@ != "TRANSPO_MAX_UPLOAD_SIZE_BYTES"@);
        assert("--pool-max"@ != "-s"@);
        assert("--pool-max"@ != "TRANSPO_MAX_STORAGE_SIZE_BYTES"@);
        assert("--pool-max"@ != "-p"@);
        assert("--pool-max"@ != "TRANSPO_PORT"@);
        assert("--pool-max"@ != "-q"@);
        assert("--pool-max"@ != "TRANSPO_QUOTA_BYTES_TOTAL"@);
        assert("--pool-max"@ != "-b"@);
        assert("--pool-max"@ != "TRANSPO_QUOTA_BYTES_PER_MINUTE"@);
        assert("--pool-max"@ != "-t"@);
        assert("--pool-max"@ != "TRANSPO_READ_TIMEOUT_MILLISECONDS"@);
        assert("--pool-max"@ != "-d"@);
        assert("--pool-max"@ != "TRANSPO_STORAGE_DIRECTORY"@);
        assert("--pool-max"@ != "-D"@);
        assert("--pool-max"@ != "TRANSPO_DATABASE_URL"@);
        assert("--pool-max"@ != "-m"@);
        assert("--pool-max"@ != "TRANSPO_MIGRATIONS_DIRECTORY"@);
        assert("--pool-max"@ != "-l"@);
        assert("--pool-max"@ != "TRANSPO_DEFAULT_LANGUAGE"@);
        assert("--pool-max"@ != "-T"@);
        assert("--pool-max"@ != "TRANSPO_TRANSLATIONS_DIRECTORY"@);
        assert("TRANSPO_DB_POOL_MAX"@ != "-a"@);
        assert("TRANSPO_DB_POOL_MAX"@ != "TRANSPO_MAX_UPLOAD_AGE_MINUTES"@);
        assert("TRANSPO_DB_POOL_MAX"@ != "-u"@);
        assert("TRANSPO_DB_POOL_MAX"@ != "TRANSPO_MAX_UPLOAD_SIZE_BYTES"@);
        assert("TRANSPO_DB_POOL_MAX"@ != "-s"@);
        assert("TRANSPO_DB_POOL_MAX"@ != "TRANSPO_MAX_STORAGE_SIZE_BYTES"@);
        assert("TRANSPO_DB_POOL_MAX"@ != "-p"@);
        assert("TRANSPO_DB_POOL_MAX"@ != "TRANSPO_PORT"@);
        assert("TRANSPO_DB_POOL_MAX"@ != "-q"@);
        assert("TRANSPO_DB_POOL_MAX"@ != "TRANSPO_QUOTA_BYTES_TOTAL"@);
        assert("TRANSPO_DB_POOL_MAX"@ != "-b"@);
        assert("TRANSPO_DB_POOL_MAX"@ != "TRANSPO_QUOTA_BYTES_PER_MINUTE"@);
        assert("TRANSPO_DB_POOL_MAX"@ != "-t"@);
        assert("TRANSPO_DB_POOL_MAX"@ != "TRANSPO_READ_TIMEOUT_MILLISECONDS"@);
        assert("TRANSPO_DB_POOL_MAX"@ != "-d"@);
        assert("TRANSPO_DB_POOL_MAX"@ != "TRANSPO_STORAGE_DIRECTORY"@);
        assert("TRANSPO_DB_POOL_MAX"@ != "-D"@);
        assert("TRANSPO_DB_POOL_MAX"@ != "TRANSPO_DATABASE_URL"@);
        assert("TRANSPO_DB_POOL_MAX"@ != "-m"@);
        assert("TRANSPO_DB_POOL_MAX"@ != "TRANSPO_MIGRATIONS_DIRECTORY"@);
        assert("TRANSPO_DB_POOL_MAX"@ != "-l"@);
        assert("TRANSPO_DB_POOL_MAX"@ != "TRANSPO_DEFAULT_LANGUAGE"@);
        assert("TRANSPO_DB_POOL_MAX"@ != "-T"@);
        assert("TRANSPO_DB_POOL_MAX"@ != "TRANSPO_TRANSLATIONS_DIRECTORY"@);
    }
    lemma_same_field_same_effect(c, "--pool-max"@, "TRANSPO_DB_POOL_MAX"@, v);
    assert(option_field("--pool-min"@) == 13 && option_field("TRANSPO_DB_POOL_MIN"@) == 13) by {
        reveal_strlit("-a");
        reveal_strlit("TRANSPO_MAX_UPLOAD_AGE_MINUTES");
        reveal_strlit("-u");
        reveal_strlit("TRANSPO_MAX_UPLOAD_SIZE_BYTES");
        reveal_strlit("-s");
        reveal_strlit("TRANSPO_MAX_STORAGE_SIZE_BYTES");
        reveal_strlit("-p");
        reveal_strlit("TRANSPO_PORT");
        reveal_strlit("-q");
        reveal_strlit("TRANSPO_QUOTA_BYTES_TOTAL");
        reveal_strlit("-b");
        reveal_strlit("TRANSPO_QUOTA_BYTES_PER_MINUTE");
        reveal_strlit("-t");
        reveal_strlit("TRANSPO_READ_TIMEOUT_MILLISECONDS");
        reveal_strlit("-d");
        reveal_strlit("TRANSPO_STORAGE_DIRECTORY");
        reveal_strlit("-D");
        reveal_strlit("TRANSPO_DATABASE_URL");
        reveal_strlit("-m");
        reveal_strlit("TRANSPO_MIGRATIONS_DIRECTORY");
        reveal_strlit("-l");
        reveal_strlit("TRANSPO_DEFAULT_LANGUAGE");
        reveal_strlit("-T");
        reveal_strlit("TRANSPO_TRANSLATIONS_DIRECTORY");
        reveal_strlit("--pool-max");
        reveal_strlit("TRANSPO_DB_POOL_MAX");
        reveal_strlit("--pool-min");
        reveal_strlit("TRANSPO_DB_POOL_MIN");
        assert("--pool-min"@.len() == 10);
        assert("TRANSPO_DB_POOL_MIN"@.len() == 19);
        assert("-a"@.len() == 2);
        assert("TRANSPO_MAX_UPLOAD_AGE_MINUTES"@.len() == 30);
        assert("-u"@.len() == 2);
        assert("TRANSPO_MAX_UPLOAD_SIZE_BYTES"@.len() == 29);
        assert("-s"@.len() == 2);
        assert("TRANSPO_MAX_STORAGE_SIZE_BYTES"@.len() == 30);
        assert("-p"@.len() == 2);
        assert("TRANSPO_PORT"@.len() == 12);
        assert("-q"@.len() == 2);
        assert("TRANSPO_QUOTA_BYTES_TOTAL"@.len() == 25);
        assert("-b"@.len() == 2);
        assert("TRANSPO_QUOTA_BYTES_PER_MINUTE"@.len() == 30);
        assert("-t"@.len() == 2);
        assert("TRANSPO_READ_TIMEOUT_MILLISECONDS"@.len() == 33);
        assert("-d"@.len() == 2);
        assert("TRANSPO_STORAGE_DIRECTORY"@.len() == 25);
        assert("-D"@.len() == 2);
        assert("TRANSPO_DATABASE_URL"@.len() == 20);
        assert("-m"@.len() == 2);
        assert("TRANSPO_MIGRATIONS_DIRECTORY"@.len() == 28);
        assert("-l"@.len() == 2);
        assert("TRANSPO_DEFAULT_LANGUAGE"@.len() == 24);
        assert("-T"@.len() == 2);
        assert("TRANSPO_TRANSLATIONS_DIRECTORY"@.len() == 30);
        assert("--pool-max"@.len() == 10);
        assert("TRANSPO_DB_POOL_MAX"@.len() == 19);
        assert("--pool-min"@ != "-a"@);
        assert("--pool-min"@ != "TRANSPO_MAX_UPLOAD_AGE_MINUTES"@);
        assert("--pool-min"@ != "-u"@);
        assert("--pool-min"@ != "TRANSPO_MAX_UPLOAD_SIZE_BYTES"@);
        assert("--pool-min"@ != "-s"@);
        assert("--pool-min"@ != "TRANSPO_MAX_STORAGE_SIZE_BYTES"@);
        assert("--pool-min"@ != "-p"@);
        assert("--pool-min"@ != "TRANSPO_PORT"@);
        assert("--pool-min"@ != "-q"@);
        assert("--pool-min"@ != "TRANSPO_QUOTA_BYTES_TOTAL"@);
        assert("--pool-min"@ != "-b"@);
        assert("--pool-min"@ != "TRANSPO_QUOTA_BYTES_PER_MINUTE"@);
        assert("--pool-min"@ != "-t"@);
        assert("--pool-min"@ != "TRANSPO_READ_TIMEOUT_MILLISECONDS"@);
        assert("--pool-min"@ != "-d"@);
        assert("--pool-min"@ != "TRANSPO_STORAGE_DIRECTORY"@);
        assert("--pool-min"@ != "-D"@);
        assert("--pool-min"@ != "TRANSPO_DATABASE_URL"@);
        assert("--pool-min"@ != "-m"@);
        assert("--pool-min"@ != "TRANSPO_MIGRATIONS_DIRECTORY"@);
        assert("--pool-min"@ != "-l"@);
        assert("--pool-min"@ != "TRANSPO_DEFAULT_LANGUAGE"@);
        assert("--pool-min"@ != "-T"@);
        assert("--pool-min"@ != "TRANSPO_TRANSLATIONS_DIRECTORY"@);
        assert("--pool-min"@[8] != "--pool-max"@[8]);
        assert("--pool-min"@ != "--pool-max"@);
        assert("--pool-min"@ != "TRANSPO_DB_POOL_MAX"@);
        assert("TRANSPO_DB_POOL_MIN"@ != "-a"@);
        assert("TRANSPO_DB_POOL_MIN"@ != "TRANSPO_MAX_UPLOAD_AGE_MINUTES"@);
        assert("TRANSPO_DB_POOL_MIN"@ != "-u"@);
        assert("TRANSPO_DB_POOL_MIN"@ != "TRANSPO_MAX_UPLOAD_SIZE_BYTES"@);
        assert("TRANSPO_DB_POOL_MIN"@ != "-s"@);
        assert("TRANSPO_DB_POOL_MIN"@ != "TRANSPO_MAX_STORAGE_SIZE_BYTES"@);
        assert("TRANSPO_DB_POOL_MIN"@ != "-p"@);
        assert("TRANSPO_DB_POOL_MIN"@ != "TRANSPO_PORT"@);
        assert("TRANSPO_DB_POOL_MIN"@ != "-q"@);
        assert("TRANSPO_DB_POOL_MIN"@ != "TRANSPO_QUOTA_BYTES_TOTAL"@);
        assert("TRANSPO_DB_POOL_MIN"@ != "-b"@);
        assert("TRANSPO_DB_POOL_MIN"@ != "TRANSPO_QUOTA_BYTES_PER_MINUTE"@);
        assert("TRANSPO_DB_POOL_MIN"@ != "-t"@);
        assert("TRANSPO_DB_POOL_MIN"@ != "TRANSPO_READ_TIMEOUT_MILLISECONDS"@);
        assert("TRANSPO_DB_POOL_MIN"@ != "-d"@);
        assert("TRANSPO_DB_POOL_MIN"@ != "TRANSPO_STORAGE_DIRECTORY"@);
        assert("TRANSPO_DB_POOL_MIN"@ != "-D"@);
        assert("TRANSPO_DB_POOL_MIN"@ != "TRANSPO_DATABASE_URL"@);
        assert("TRANSPO_DB_POOL_MIN"@ != "-m"@);
        assert("TRANSPO_DB_POOL_MIN"@ != "TRANSPO_MIGRATIONS_DIRECTORY"@);
        assert("TRANSPO_DB_POOL_MIN"@ != "-l"@);
        assert("TRANSPO_DB_POOL_MIN"@ != "TRANSPO_DEFAULT_LANGUAGE"@);
        assert("TRANSPO_DB_POOL_MIN"@ != "-T"@);
        assert("TRANSPO_DB_POOL_MIN"@ != "TRANSPO_TRANSLATIONS_DIRECTORY"@);
        assert("TRANSPO_DB_POOL_MIN"@ != "--pool-max"@);
        assert("TRANSPO_DB_POOL_MIN"@[17] != "TRANSPO_DB_POOL_MAX"@[17]);
        assert("TRANSPO_DB_POOL_MIN"@ != "TRANSPO_DB_POOL_MAX"@);
    }
    lemma_same_field_same_effect(c, "--pool-min"@, "TRANSPO_DB_POOL_MIN"@, v);
    assert(option_field("-n"@) == 14 && option_field("TRANSPO_APP_NAME"@) == 14) by {
        reveal_strlit("-a");
        reveal_strlit("TRANSPO_MAX_UPLOAD_AGE_MINUTES");
        reveal_strlit("-u");
        reveal_strlit("TRANSPO_MAX_UPLOAD_SIZE_BYTES");
        reveal_strlit("-s");
        reveal_strlit("TRANSPO_MAX_STORAGE_SIZE_BYTES");
        reveal_strlit("-p");
        reveal_strlit("TRANSPO_PORT");
        reveal_strlit("-q");
        reveal_strlit("TRANSPO_QUOTA_BYTES_TOTAL");
        reveal_strlit("-b");
        reveal_strlit("TRANSPO_QUOTA_BYTES_PER_MINUTE");
        reveal_strlit("-t");
        reveal_strlit("TRANSPO_READ_TIMEOUT_MILLISECONDS");
        reveal_strlit("-d");
        reveal_strlit("TRANSPO_STORAGE_DIRECTORY");
        reveal_strlit("-D");
        reveal_strlit("TRANSPO_DATABASE_URL");
        reveal_strlit("-m");
        reveal_strlit("TRANSPO_MIGRATIONS_DIRECTORY");
        reveal_strlit("-l");
        reveal_strlit("TRANSPO_DEFAULT_LANGUAGE");
        reveal_strlit("-T");
        reveal_strlit("TRANSPO_TRANSLATIONS_DIRECTORY");
        reveal_strlit("--pool-max");
        reveal_strlit("TRANSPO_DB_POOL_MAX");
        reveal_strlit("--pool-min");
        reveal_strlit("TRANSPO_DB_POOL_MIN");
        reveal_strlit("-n");
        reveal_strlit("TRANSPO_APP_NAME");
        assert("-n"@.len() == 2);
        assert("TRANSPO_APP_NAME"@.len() == 16);
        assert("-a"@.len() == 2);
        assert("TRANSPO_MAX_UPLOAD_AGE_MINUTES"@.len() == 30);
        assert("-u"@.len() == 2);
        assert("TRANSPO_MAX_UPLOAD_SIZE_BYTES"@.len() == 29);
        assert("-s"@.len() == 2);
        assert("TRANSPO_MAX_STORAGE_SIZE_BYTES"@.len() == 30);
        assert("-p"@.len() == 2);
        assert("TRANSPO_PORT"@.len() == 12);
        assert("-q"@.len() == 2);
        assert("TRANSPO_QUOTA_BYTES_TOTAL"@.len() == 25);
        assert("-b"@.len() == 2);
        assert("TRANSPO_QUOTA_BYTES_PER_MINUTE"@.len() == 30);
        assert("-t"@.len() == 2);
        assert("TRANSPO_READ_TIMEOUT_MILLISECONDS"@.len() == 33);
        assert("-d"@.len() == 2);
        assert("TRANSPO_STORAGE_DIRECTORY"@.len() == 25);
        assert("-D"@.len() == 2);
        assert("TRANSPO_DATABASE_URL"@.len() == 20);
        assert("-m"@.len() == 2);
        assert("TRANSPO_MIGRATIONS_DIRECTORY"@.len() == 28);
        assert("-l"@.len() == 2);
        assert("TRANSPO_DEFAULT_LANGUAGE"@.len() == 24);
        assert("-T"@.len() == 2);
        assert("TRANSPO_TRANSLATIONS_DIRECTORY"@.len() == 30);
        assert("--pool-max"@.len() == 10);
        assert("TRANSPO_DB_POOL_MAX"@.len() == 19);
        assert("--pool-min"@.len() == 10);
        assert("TRANSPO_DB_POOL_MIN"@.len() == 19);
        assert("-n"@[1] != "-a"@[1]);
        assert("-n"@ != "-a"@);
        assert("-n"@ != "TRANSPO_MAX_UPLOAD_AGE_MINUTES"@);
        assert("-n"@[1] != "-u"@[1]);
        assert("-n"@ != "-u"@);
        assert("-n"@ != "TRANSPO_MAX_UPLOAD_SIZE_BYTES"@);
        assert("-n"@[1] != "-s"@[1]);
        assert("-n"@ != "-s"@);
        assert("-n"@ != "TRANSPO_MAX_STORAGE_SIZE_BYTES"@);
        assert("-n"@[1] != "-p"@[1]);
        assert("-n"@ != "-p"@);
        assert("-n"@ != "TRANSPO_PORT"@);
        assert("-n"@[1] != "-q"@[1]);
        assert("-n"@ != "-q"@);
        assert("-n"@ != "TRANSPO_QUOTA_BYTES_TOTAL"@);
        assert("-n"@[1] != "-b"@[1]);
        assert("-n"@ != "-b"@);
        assert("-n"@ != "TRANSPO_QUOTA_BYTES_PER_MINUTE"@);
        assert("-n"@[1] != "-t"@[1]);
        assert("-n"@ != "-t"@);
        assert("-n"@ != "TRANSPO_READ_TIMEOUT_MILLISECONDS"@);
        assert("-n"@[1] != "-d"@[1]);
        assert("-n"@ != "-d"@);
        assert("-n"@ != "TRANSPO_STORAGE_DIRECTORY"@);
        assert("-n"@[1] != "-D"@[1]);
        assert("-n"@ != "-D"@);
        assert("-n"@ != "TRANSPO_DATABASE_URL"@);
        assert("-n"@[1] != "-m"@[1]);
        assert("-n"@ != "-m"@);
        assert("-n"@ != "TRANSPO_MIGRATIONS_DIRECTORY"@);
        assert("-n"@[1] != "-l"@[1]);
        assert("-n"@ != "-l"@);
        assert("-n"@ != "TRANSPO_DEFAULT_LANGUAGE"@);
        assert("-n"@[1] != "-T"@[1]);
        assert("-n"@ != "-T"@);
        assert("-n"@ != "TRANSPO_TRANSLATIONS_DIRECTORY"@);
        assert("-n"@ != "--pool-max"@);
        assert("-n"@ != "TRANSPO_DB_POOL_MAX"@);
        assert("-n"@ != "--pool-min"@);
        assert("-n"@ != "TRANSPO_DB_POOL_MIN"@);
        assert("TRANSPO_APP_NAME"@ != "-a"@);
        assert("TRANSPO_APP_NAME"@ != "TRANSPO_MAX_UPLOAD_AGE_MINUTES"@);
        assert("TRANSPO_APP_NAME"@ != "-u"@);
        assert("TRANSPO_APP_NAME"@ != "TRANSPO_MAX_UPLOAD_SIZE_BYTES"@);
        assert("TRANSPO_APP_NAME"@ != "-s"@);
        assert("TRANSPO_APP_NAME"@ != "TRANSPO_MAX_STORAGE_SIZE_BYTES"@);
        assert("TRANSPO_APP_NAME"@ != "-p"@);
        assert("TRANSPO_APP_NAME"@ != "TRANSPO_PORT"@);
        assert("TRANSPO_APP_NAME"@ != "-q"@);
        assert("TRANSPO_APP_NAME"@ != "TRANSPO_QUOTA_BYTES_TOTAL"@);
        assert("TRANSPO_APP_NAME"@ != "-b"@);
        assert("TRANSPO_APP_NAME"@ != "TRANSPO_QUOTA_BYTES_PER_MINUTE"@);
        assert("TRANSPO_APP_NAME"@ != "-t"@);
        assert("TRANSPO_APP_NAME"@ != "TRANSPO_READ_TIMEOUT_MILLISECONDS"@);
        assert("TRANSPO_APP_NAME"@ != "-d"@);
        assert("TRANSPO_APP_NAME"@ != "TRANSPO_STORAGE_DIRECTORY"@);
        assert("TRANSPO_APP_NAME"@ != "-D"@);
        assert("TRANSPO_APP_NAME"@ != "TRANSPO_DATABASE_URL"@);
        assert("TRANSPO_APP_NAME"@ != "-m"@);
        assert("TRANSPO_APP_NAME"@ != "TRANSPO_MIGRATIONS_DIRECTORY"@);
        assert("TRANSPO_APP_NAME"@ != "-l"@);
        assert("TRANSPO_APP_NAME"@ != "TRANSPO_DEFAULT_LANGUAGE"@);
        assert("TRANSPO_APP_NAME"@ != "-T"@);
        assert("TRANSPO_APP_NAME"@ != "TRANSPO_TRANSLATIONS_DIRECTORY"@);
        assert("TRANSPO_APP_NAME"@ != "--pool-max"@);
        assert("TRANSPO_APP_NAME"@ != "TRANSPO_DB_POOL_MAX"@);
        assert("TRANSPO_APP_NAME"@ != "--pool-min"@);
        assert("TRANSPO_APP_NAME"@ != "TRANSPO_DB_POOL_MIN"@);
    }
    lemma_same_field_same_effect(c, "-n"@, "TRANSPO_APP_NAME"@, v);
}

/// Two keys that name the same setting have the same effect.
pub proof fn lemma_same_field_same_effect(c: ConfigView, k1: Seq<char>, k2: Seq<char>, v: Seq<char>)
    requires
        option_field(k1) == option_field(k2),
    ensures
        apply_option(c, k1, v) == apply_option(c, k2, v),
{
}

/// A later option overrides an earlier one for the same setting.
pub proof fn lemma_later_option_overrides(c: ConfigView, k1: Seq<char>, v1: Seq<char>, k2: Seq<char>, v2: Seq<char>)
    requires
        option_field(k1) == option_field(k2),
    ensures
        apply_option(apply_option(c, k1, v1), k2, v2) == apply_option(c, k2, v2),
{
}

/// Options for different settings may come in either order.
pub proof fn lemma_distinct_options_commute(c: ConfigView, k1: Seq<char>, v1: Seq<char>, k2: Seq<char>, v2: Seq<char>)
    requires
        option_field(k1) != option_field(k2),
    ensures
        apply_option(apply_option(c, k1, v1), k2, v2) == apply_option(apply_option(c, k2, v2), k1, v1),
{
}

/// One more option, after options with no request for help, is applied
/// last (or, for a request for help, stops there).
pub proof fn lemma_options_append(c: ConfigView, opts: Seq<(Seq<char>, Seq<char>)>, k: Seq<char>, v: Seq<char>)
    requires
        forall|i: int| 0 <= i < opts.len() ==> !is_help_key(#[trigger] opts[i].0),
    ensures
        apply_options(c, opts.push((k, v))) == if is_help_key(k) {
            apply_options(c, opts)
        } else {
            apply_option(apply_options(c, opts), k, v)
        },
    decreases opts.len(),
{
    if opts.len() == 0 {
        assert(opts.push((k, v)).drop_first() =~= Seq::<(Seq<char>, Seq<char>)>::empty());
        assert(opts.push((k, v))[0] == (k, v));
        assert(opts =~= Seq::<(Seq<char>, Seq<char>)>::empty());
        assert(apply_options(c, opts) == c);
        if !is_help_key(k) {
            assert(apply_options(c, opts.push((k, v))) == apply_options(
                apply_option(c, k, v),
                Seq::<(Seq<char>, Seq<char>)>::empty(),
            ));
        }
    } else {
        let rest = opts.drop_first();
        assert(opts.push((k, v)).drop_first() =~= rest.push((k, v)));
        assert(opts.push((k, v))[0] == opts[0]);
        assert forall|i: int| 0 <= i < rest.len() implies !is_help_key(#[trigger] rest[i].0) by {
            assert(rest[i] == opts[i + 1]);
        }
        assert(!is_help_key(opts[0].0));
        lemma_options_append(apply_option(c, opts[0].0, opts[0].1), rest, k, v);
    }
}

/// Whether two configurations agree on the setting numbered `f` (see
/// `option_field`).
pub open spec fn agrees_on(a: ConfigView, b: ConfigView, f: int) -> bool {
    if f == 0 {
        a.max_upload_age_minutes == b.max_upload_age_minutes
    } else if f == 1 {
        a.max_upload_size_bytes == b.max_upload_size_bytes
    } else if f == 2 {
        a.max_storage_size_bytes == b.max_storage_size_bytes
    } else if f == 3 {
        a.port == b.port
    } else if f == 4 {
        a.quota_bytes_total == b.quota_bytes_total
    } else if f == 5 {
        a.quota_bytes_per_minute == b.quota_bytes_per_minute
    } else if f == 6 {
        a.read_timeout_milliseconds == b.read_timeout_milliseconds
    } else if f == 7 {
        a.storage_dir == b.storage_dir
    } else if f == 8 {
        a.db_url == b.db_url
    } else if f == 9 {
        a.migrations_dir == b.migrations_dir
    } else if f == 10 {
        a.default_lang == b.default_lang
    } else if f == 11 {
        a.translations_dir == b.translations_dir
    } else if f == 12 {
        a.max_db_pool_size == b.max_db_pool_size
    } else if f == 13 {
        a.min_db_pool_idle == b.min_db_pool_idle
    } else if f == 14 {
        a.app_name == b.app_name
    } else if f == 15 {
        a.quiet == b.quiet
    } else {
        true
    }
}

/// The index of the last option that names the setting `f`, or `-1`.
pub open spec fn last_naming(opts: Seq<(Seq<char>, Seq<char>)>, f: int) -> int
    decreases opts.len(),
{
    if opts.len() == 0 {
        -1
    } else {
        let l = last_naming(opts.drop_first(), f);
        if l >= 0 {
            l + 1
        } else if option_field(opts[0].0) == f {
            0
        } else {
            -1
        }
    }
}

proof fn lemma_other_option_keeps(c: ConfigView, k: Seq<char>, v: Seq<char>, f: int)
    requires
        option_field(k) != f,
    ensures
        agrees_on(apply_option(c, k, v), c, f),
{
}

proof fn lemma_option_sets(c1: ConfigView, c2: ConfigView, k: Seq<char>, v: Seq<char>, f: int)
    requires
        option_field(k) == f,
    ensures
        agrees_on(apply_option(c1, k, v), apply_option(c2, k, v), f),
{
}

/// Later options win, over lists of any length: after options with no
/// request for help, each setting holds what the last option naming it
/// gives, or what it held before where none names it.
pub proof fn lemma_last_option_wins(c: ConfigView, opts: Seq<(Seq<char>, Seq<char>)>, f: int)
    requires
        forall|i: int| 0 <= i < opts.len() ==> !is_help_key(#[trigger] opts[i].0),
    ensures
        -1 <= last_naming(opts, f) < opts.len(),
        last_naming(opts, f) >= 0 ==> option_field(opts[last_naming(opts, f)].0) == f,
        agrees_on(
            apply_options(c, opts),
            if last_naming(opts, f) >= 0 {
                apply_option(c, opts[last_naming(opts, f)].0, opts[last_naming(opts, f)].1)
            } else {
                c
            },
            f,
        ),
    decreases opts.len(),
{
    if opts.len() > 0 {
        let rest = opts.drop_first();
        let o = opts[0];
        let c1 = apply_option(c, o.0, o.1);
        assert forall|i: int| 0 <= i < rest.len() implies !is_help_key(#[trigger] rest[i].0) by {
            assert(rest[i] == opts[i + 1]);
        }
        assert(!is_help_key(o.0));
        assert(apply_options(c, opts) == apply_options(c1, rest));
        lemma_last_option_wins(c1, rest, f);
        let l = last_naming(rest, f);
        if l >= 0 {
            assert(opts[l + 1] == rest[l]);
            lemma_option_sets(c1, c, rest[l].0, rest[l].1, f);
        } else if option_field(o.0) == f {
        } else {
            lemma_other_option_keeps(c, o.0, o.1, f);
        }
    }
}

/// The number a numeric setting holds, for the settings numbered 0 to 6
/// (see `option_field`).
pub open spec fn u64_setting(c: ConfigView, f: int) -> u64 {
    if f == 0 {
        c.max_upload_age_minutes
    } else if f == 1 {
        c.max_upload_size_bytes
    } else if f == 2 {
        c.max_storage_size_bytes
    } else if f == 3 {
        c.port
    } else if f == 4 {
        c.quota_bytes_total
    } else if f == 5 {
        c.quota_bytes_per_minute
    } else {
        c.read_timeout_milliseconds
    }
}

proof fn lemma_digits_value_nonneg(b: Seq<u8>)
    requires
        all_digits(b),
    ensures
        digits_value(b) >= 0,
    decreases b.len(),
{
    if b.len() > 0 {
        assert(all_digits(b.drop_last())) by {
            assert forall|i: int| 0 <= i < b.drop_last().len() implies 48 <= #[trigger] b.drop_last()[i] <= 57 by {
                assert(b.drop_last()[i] == b[i]);
            }
        }
        lemma_digits_value_nonneg(b.drop_last());
        assert(48 <= b[b.len() - 1] <= 57);
    }
}

proof fn lemma_numeric_bounds(v: Seq<char>, max: int)
    requires
        numeric(v, max) is Some,
    ensures
        0 <= numeric(v, max)->0 <= max,
{
    let b = vstd::utf8::encode_utf8(v);
    let digits = if b.len() > 0 && b[0] == 43 {
        b.skip(1)
    } else {
        b
    };
    lemma_digits_value_nonneg(digits);
}

/// A numeric option sets its setting to exactly the number its value
/// reads as, whichever of its two keys names it: an option of a 64-bit
/// setting to the whole 64-bit number, one of a pool size to the whole
/// 32-bit number.
pub proof fn lemma_numeric_option_sets_value(c: ConfigView, k: Seq<char>, v: Seq<char>)
    requires
        0 <= option_field(k) <= 6 ==> numeric(v, u64::MAX as int) is Some,
        12 <= option_field(k) <= 13 ==> numeric(v, u32::MAX as int) is Some,
    ensures
        0 <= option_field(k) <= 6 ==> u64_setting(apply_option(c, k, v), option_field(k)) as int
            == numeric(v, u64::MAX as int)->0,
        option_field(k) == 12 ==> apply_option(c, k, v).max_db_pool_size as int == numeric(
            v,
            u32::MAX as int,
        )->0,
        option_field(k) == 13 ==> (apply_option(c, k, v).min_db_pool_idle matches Some(n) && n as int
            == numeric(v, u32::MAX as int)->0),
{
    if 0 <= option_field(k) <= 6 {
        lemma_numeric_bounds(v, u64::MAX as int);
    }
    if 12 <= option_field(k) <= 13 {
        lemma_numeric_bounds(v, u32::MAX as int);
    }
}

impl TranspoConfig {
    /// The default configuration: uploads of at most 5 GB kept at most one
    /// week, 100 GB of storage, port 8123, quotas disabled.
    pub fn new_default() -> (r: Self)
        ensures
            r.max_upload_age_minutes == 10080,
            r.max_upload_size_bytes == 5_000_000_000u64,
            r.max_storage_size_bytes == 100_000_000_000u64,
            r.port == 8123,
            r.quota_bytes_total == 0,
            r.quota_bytes_per_minute == 17895697,
            r.read_timeout_milliseconds == 800,
            r.storage_dir@ == "./transpo_storage"@,
            r.db_url@ == "./transpo_storage/db.sqlite"@,
            r.migrations_dir@ == "./"@,
            r.default_lang@ == "en"@,
            r.translations_dir@ == "./translations"@,
            r.app_name@ == "Transpo"@,
            !r.quiet,
            r.max_db_pool_size == 10,
            r.min_db_pool_idle is None,
    {
        TranspoConfig {
            // 1 week
            max_upload_age_minutes: 7 * 24 * 60,
            // 5GB
            max_upload_size_bytes: 5_000_000_000u64,
            // 100GB
            max_storage_size_bytes: 100_000_000_000u64,
            port: 8123,
            // 0B (disabled)
            quota_bytes_total: 0,
            // 10GiB / hour
            quota_bytes_per_minute: 17895697,
            read_timeout_milliseconds: 800,
            storage_dir: String::from_str("./transpo_storage"),
            db_url: String::from_str("./transpo_storage/db.sqlite"),
            migrations_dir: String::from_str("./"),
            default_lang: String::from_str("en"),
            translations_dir: String::from_str("./translations"),
            app_name: String::from_str("Transpo"),
            quiet: false,
            max_db_pool_size: 10,
            min_db_pool_idle: None,
        }
    }

    fn parse_u64_option(value: &str) -> (n: u64)
        requires
            numeric(value@, u64::MAX as int) is Some,
        ensures
            n == numeric(value@, u64::MAX as int)->0,
    {
        match parse_unsigned(value, u64::MAX) {
            Some(n) => n,
            None => 0,
        }
    }

    fn parse_u32_option(value: &str) -> (n: u32)
        requires
            numeric(value@, u32::MAX as int) is Some,
        ensures
            n == numeric(value@, u32::MAX as int)->0,
    {
        match parse_unsigned(value, u32::MAX as u64) {
            Some(n) => n as u32,
            None => 0,
        }
    }

    /// Applies one option.
    fn parse_option(&mut self, key: &str, value: &str)
        requires
            option_ok(key@, value@),
        ensures
            final(self)@ == apply_option(old(self)@, key@, value@),
    {
        if str_eq(key, "-a") || str_eq(key, "TRANSPO_MAX_UPLOAD_AGE_MINUTES") {
            self.max_upload_age_minutes = Self::parse_u64_option(value);
        } else if str_eq(key, "-u") || str_eq(key, "TRANSPO_MAX_UPLOAD_SIZE_BYTES") {
            self.max_upload_size_bytes = Self::parse_u64_option(value);
        } else if str_eq(key, "-s") || str_eq(key, "TRANSPO_MAX_STORAGE_SIZE_BYTES") {
            self.max_storage_size_bytes = Self::parse_u64_option(value);
        } else if str_eq(key, "-p") || str_eq(key, "TRANSPO_PORT") {
            self.port = Self::parse_u64_option(value);
        } else if str_eq(key, "-q") || str_eq(key, "TRANSPO_QUOTA_BYTES_TOTAL") {
            self.quota_bytes_total = Self::parse_u64_option(value);
        } else if str_eq(key, "-b") || str_eq(key, "TRANSPO_QUOTA_BYTES_PER_MINUTE") {
            self.quota_bytes_per_minute = Self::parse_u64_option(value);
        } else if str_eq(key, "-t") || str_eq(key, "TRANSPO_READ_TIMEOUT_MILLISECONDS") {
            self.read_timeout_milliseconds = Self::parse_u64_option(value);
        } else if str_eq(key, "-d") || str_eq(key, "TRANSPO_STORAGE_DIRECTORY") {
            self.storage_dir = String::from_str(value);
        } else if str_eq(key, "-D") || str_eq(key, "TRANSPO_DATABASE_URL") {
            self.db_url = String::from_str(value);
        } else if str_eq(key, "-m") || str_eq(key, "TRANSPO_MIGRATIONS_DIRECTORY") {
            self.migrations_dir = String::from_str(value);
        } else if str_eq(key, "-l") || str_eq(key, "TRANSPO_DEFAULT_LANGUAGE") {
            self.default_lang = String::from_str(value);
        } else if str_eq(key, "-T") || str_eq(key, "TRANSPO_TRANSLATIONS_DIRECTORY") {
            self.translations_dir = String::from_str(value);
        } else if str_eq(key, "--pool-max") || str_eq(key, "TRANSPO_DB_POOL_MAX") {
            self.max_db_pool_size = Self::parse_u32_option(value);
        } else if str_eq(key, "--pool-min") || str_eq(key, "TRANSPO_DB_POOL_MIN") {
            self.min_db_pool_idle = Some(Self::parse_u32_option(value));
        } else if str_eq(key, "-n") || str_eq(key, "TRANSPO_APP_NAME") {
            self.app_name = String::from_str(value);
        } else if str_eq(key, "-Q") {
            self.quiet = true;
        }
    }

    /// Applies the options in order, up to the first request for help
    /// (`-h` or `--help`). Returns whether help was requested; the options
    /// after it are not applied.
    #[verifier::rlimit(40)]
    pub fn parse_options(&mut self, options: &Vec<(String, String)>) -> (help: bool)
        requires
            options_ok(options_view(options@)),
        ensures
            final(self)@ == apply_options(old(self)@, options_view(options@)),
            help == wants_help(options_view(options@)),
    {
        let ghost opts = options_view(options@);
        proof {
            lemma_first_help_bounds(opts);
            assert(opts.skip(0) =~= opts);
        }
        let mut i: usize = 0;
        while i < options.len()
            invariant
                i <= options@.len(),
                opts == options_view(options@),
                opts.len() == options@.len(),
                i <= first_help(opts),
                options_ok(opts),
                0 <= first_help(opts) <= opts.len(),
                first_help(opts) < opts.len() ==> is_help_key(opts[first_help(opts)].0),
                forall|j: int| 0 <= j < first_help(opts) ==> !is_help_key(#[trigger] opts[j].0),
                wants_help(opts) <==> first_help(opts) < opts.len(),
                apply_options(old(self)@, opts) == apply_options(self@, opts.skip(i as int)),
            decreases options@.len() - i,
        {
            let key = options[i].0.as_str();
            let value = options[i].1.as_str();
            assert(opts[i as int] == (key@, value@));
            assert(opts.skip(i as int)[0] == opts[i as int]);
            if str_eq(key, "-h") || str_eq(key, "--help") {
                return true;
            }
            assert(option_ok(opts[i as int].0, opts[i as int].1));
            self.parse_option(key, value);
            assert(opts.skip(i as int).drop_first() =~= opts.skip(i + 1));
            i += 1;
        }
        assert(opts.skip(i as int) =~= Seq::<(Seq<char>, Seq<char>)>::empty());
        false
    }

    /// Applies configuration from environment variables (name, value).
    pub fn parse_vars(&mut self, vars: &Vec<(String, String)>) -> (help: bool)
        requires
            options_ok(options_view(vars@)),
        ensures
            final(self)@ == apply_options(old(self)@, options_view(vars@)),
            help == wants_help(options_view(vars@)),
    {
        self.parse_options(vars)
    }

    /// The options that command line arguments give (see
    /// `args_to_options`).
    pub fn args_options(args: &Vec<String>) -> (options: Vec<(String, String)>)
        ensures
            options_view(options@) == args_to_options(args_view(args@)),
    {
        let ghost av = args_view(args@);
        let mut options: Vec<(String, String)> = Vec::new();
        let mut i: usize = 0;
        proof {
            assert(av.skip(0) =~= av);
        }
        while i < args.len()
            invariant
                i <= args@.len(),
                av == args_view(args@),
                av.len() == args@.len(),
                options_view(options@) + args_to_options(av.skip(i as int)) == args_to_options(av),
            decreases args@.len() - i,
        {
            let arg = args[i].as_str();
            let ghost rest = av.skip(i as int);
            assert(rest[0] == arg@);
            assert(rest.drop_first() =~= av.skip(i + 1));
            if !arg.is_empty() && arg.get_char(0) == '-' {
                let key = String::from_str(arg);
                let value = if i + 1 < args.len() {
                    String::from_str(args[i + 1].as_str())
                } else {
                    String::from_str(empty_str())
                };
                assert(i + 1 < args@.len() ==> rest[1] == av[i + 1]);
                proof {
                    reveal_strlit("");
                    assert(value@ == (if rest.len() > 1 { rest[1] } else { ""@ }));
                    assert(args_to_options(rest) =~= seq![(key@, value@)] + args_to_options(av.skip(i + 1)));
                }
                let ghost before = options@;
                let ghost entry = (key@, value@);
                options.push((key, value));
                assert(options_view(options@) =~= options_view(before) + seq![entry]);
            } else {
                assert(args_to_options(rest) =~= args_to_options(av.skip(i + 1)));
            }
            i += 1;
        }
        proof {
            assert(av.skip(i as int) =~= Seq::<Seq<char>>::empty());
            assert(options_view(options@) =~= args_to_options(av));
        }
        options
    }

    /// Applies configuration from command line arguments: each argument
    /// starting with `-` is a key, whose value is the argument after it
    /// (empty for the last argument).
    pub fn parse_args(&mut self, args: &Vec<String>) -> (help: bool)
        requires
            options_ok(args_to_options(args_view(args@))),
        ensures
            final(self)@ == apply_options(old(self)@, args_to_options(args_view(args@))),
            help == wants_help(args_to_options(args_view(args@))),
    {
        let options = Self::args_options(args);
        self.parse_options(&options)
    }

    /// Whether a numeric option's value parses.
    fn option_valid(key: &str, value: &str) -> (r: bool)
        ensures
            r == option_ok(key@, value@),
    {
        let is_number = str_eq(key, "-a") || str_eq(key, "TRANSPO_MAX_UPLOAD_AGE_MINUTES")
            || str_eq(key, "-u") || str_eq(key, "TRANSPO_MAX_UPLOAD_SIZE_BYTES")
            || str_eq(key, "-s") || str_eq(key, "TRANSPO_MAX_STORAGE_SIZE_BYTES")
            || str_eq(key, "-p") || str_eq(key, "TRANSPO_PORT")
            || str_eq(key, "-q") || str_eq(key, "TRANSPO_QUOTA_BYTES_TOTAL")
            || str_eq(key, "-b") || str_eq(key, "TRANSPO_QUOTA_BYTES_PER_MINUTE")
            || str_eq(key, "-t") || str_eq(key, "TRANSPO_READ_TIMEOUT_MILLISECONDS");
        let is_count = str_eq(key, "--pool-max") || str_eq(key, "TRANSPO_DB_POOL_MAX")
            || str_eq(key, "--pool-min") || str_eq(key, "TRANSPO_DB_POOL_MIN");
        let number_ok = !is_number || parse_unsigned(value, u64::MAX).is_some();
        let count_ok = !is_count || parse_unsigned(value, 0xffff_ffff).is_some();
        number_ok && count_ok
    }

    /// The index of the first option, before any request for help, whose
    /// value does not parse (the server stops there); `None` where every
    /// one does.
    pub fn invalid_option(options: &Vec<(String, String)>) -> (r: Option<usize>)
        ensures
            r is None <==> options_ok(options_view(options@)),
            r matches Some(i) ==> i < first_help(options_view(options@)) && !option_ok(
                options_view(options@)[i as int].0,
                options_view(options@)[i as int].1,
            ),
    {
        let ghost opts = options_view(options@);
        proof {
            lemma_first_help_bounds(opts);
        }
        let mut i: usize = 0;
        while i < options.len()
            invariant
                i <= options@.len(),
                opts == options_view(options@),
                opts.len() == options@.len(),
                i <= first_help(opts),
                0 <= first_help(opts) <= opts.len(),
                first_help(opts) < opts.len() ==> is_help_key(opts[first_help(opts)].0),
                forall|j: int| 0 <= j < first_help(opts) ==> !is_help_key(#[trigger] opts[j].0),
                forall|j: int| 0 <= j < i ==> option_ok(#[trigger] opts[j].0, opts[j].1),
            decreases options@.len() - i,
        {
            let key = options[i].0.as_str();
            let value = options[i].1.as_str();
            assert(opts[i as int] == (key@, value@));
            if str_eq(key, "-h") || str_eq(key, "--help") {
                proof {
                    assert(is_help_key(opts[i as int].0));
                    assert(i == first_help(opts));
                }
                return None;
            }
            if !Self::option_valid(key, value) {
                proof {
                    assert(!is_help_key(opts[i as int].0));
                    assert(i < first_help(opts));
                    assert(!option_ok(opts[i as int].0, opts[i as int].1));
                    assert(!options_ok(opts));
                }
                return Some(i);
            }
            i += 1;
        }
        None
    }
}

} // verus!
