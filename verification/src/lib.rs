//! A structured-logging engine: leveled, targeted events are routed by an
//! immutable table of rules, rendered by template or structured encoders, and
//! delivered to console or size-rotated file destinations.

use vstd::prelude::*;
use vstd::string::*;

pub mod appender;
pub mod config;
pub mod encoder;
pub mod level;
pub mod logger;
pub mod pipeline;
pub mod render;
pub mod simple_config;
pub mod snapshot;
pub mod text;

verus! {

/// An error raised while building the engine from a configuration value:
/// a malformed pattern, an unknown appender name, a duplicate file path,
/// or an invalid size string.
#[derive(Debug)]
pub struct Error {
    desc: String,
}

impl View for Error {
    type V = Seq<char>;

    closed spec fn view(&self) -> Seq<char> {
        self.desc@
    }
}

impl Error {
    /// The error's description.
    pub fn message(&self) -> (r: &String)
        ensures
            r@ == self@,
    {
        &self.desc
    }

    /// Prefixes the description with the context `preceding_msg`,
    /// separated by a colon.
    pub fn concat(self, preceding_msg: &str) -> (r: Self)
        ensures
            r@ == preceding_msg@ + ": "@ + self@,
    {
        let mut desc = String::new();
        desc.append(preceding_msg);
        desc.append(": ");
        desc.append(self.desc.as_str());
        Error { desc }
    }
}

impl From<String> for Error {
    fn from(value: String) -> (r: Self) {
        Error { desc: value }
    }
}

impl vstd::std_specs::convert::FromSpecImpl<String> for Error {
    open spec fn obeys_from_spec() -> bool {
        true
    }

    closed spec fn from_spec(value: String) -> Self {
        Error { desc: value }
    }
}

impl From<&str> for Error {
    fn from(value: &str) -> (r: Self) {
        Error { desc: value.to_owned() }
    }
}

impl vstd::std_specs::convert::FromSpecImpl<&str> for Error {
    open spec fn obeys_from_spec() -> bool {
        false
    }

    closed spec fn from_spec(value: &str) -> Self {
        arbitrary()
    }
}

/// Builds an error whose description is exactly `desc`.
pub fn err_msg(desc: &str) -> (r: Error)
    ensures
        r@ == desc@,
{
    Error { desc: desc.to_owned() }
}

/// Builds an error that takes ownership of its description.
pub fn err_of(desc: String) -> (r: Error)
    ensures
        r@ == desc@,
{
    Error { desc }
}

/// One file operation the writer must perform on behalf of a file
/// appender, which owns no device of its own.
pub enum IoTask {
    /// Perform `ops` in order, then write `line` and a newline to the
    /// file of appender `appender`.
    WriteFile { appender: usize, ops: Vec<appender::FileOp>, line: String },
    /// Flush the file of appender `appender`.
    FlushFile { appender: usize },
}

/// Is `t` a sound write task: it names a file appender of the table, and
/// its line encodes the snapshot under that appender's encoder.
pub open spec fn write_task_ok(t: IoTask, appenders: Seq<appender::Appender>, snap: snapshot::Snapshot) -> bool {
    t matches IoTask::WriteFile { appender: a, ops, line } && ((a as int) < appenders.len() && (
    appenders[a as int] matches appender::Appender::File(_)) && encoder::encodes(
        appender::appender_encoder(appenders[a as int]),
        snap,
        line@,
    ))
}

/// Is `t` a sound flush task: it names a file appender of the table.
pub open spec fn flush_task_ok(t: IoTask, appenders: Seq<appender::Appender>) -> bool {
    t matches IoTask::FlushFile { appender: a } && (a as int) < appenders.len()
        && appenders[a as int] matches appender::Appender::File(_)
}

/// Would delivery to appender `a` produce a file write at `now`: it is a
/// file appender and it is not cooling down.
pub open spec fn takes_file_write(a: appender::Appender, now_millis: i64) -> bool {
    (a matches appender::Appender::File(_)) && appender::appender_cooldown(a) <= now_millis
}

/// Of the first `k` resolved appender indices, those whose delivery
/// produces a file write at `now`, in resolution order. Out-of-table
/// indices produce nothing.
pub open spec fn file_write_ids(
    appenders: Seq<appender::Appender>,
    ids: Seq<usize>,
    now_millis: i64,
    k: int,
) -> Seq<usize>
    decreases k,
{
    if k <= 0 {
        Seq::empty()
    } else {
        let pre = file_write_ids(appenders, ids, now_millis, k - 1);
        let id = ids[k - 1];
        if (id as int) < appenders.len() && takes_file_write(appenders[id as int], now_millis) {
            pre.push(id)
        } else {
            pre
        }
    }
}

/// The indices of the file appenders among the first `k` table entries,
/// in table order.
pub open spec fn file_appender_ids(appenders: Seq<appender::Appender>, k: int) -> Seq<usize>
    decreases k,
{
    if k <= 0 {
        Seq::empty()
    } else {
        let pre = file_appender_ids(appenders, k - 1);
        if appenders[k - 1] matches appender::Appender::File(_) {
            pre.push((k - 1) as usize)
        } else {
            pre
        }
    }
}

/// The built engine: the global level pre-check, the routing rules in
/// declaration order with the root rule last, the appender table and its
/// names. Built once from a configuration value; the rules and names
/// never change afterwards, and only appends move the appenders' size
/// counters.
#[derive(Debug)]
pub struct Engine {
    /// The most verbose level any rule admits: the cheap pre-check.
    pub global_level: level::LevelFilter,
    /// The rules, in declaration order, the root rule last.
    pub loggers: Vec<logger::Logger>,
    /// The appender names, parallel to `appenders`.
    pub appender_names: Vec<String>,
    /// The appender table.
    pub appenders: Vec<appender::Appender>,
}

/// Every rule's appender indices stay within the table.
pub open spec fn engine_wf(e: Engine) -> bool {
    forall|i: int, j: int|
        0 <= i < e.loggers@.len() && 0 <= j < e.loggers@[i].appenders@.len() ==> (#[trigger] e.loggers@[i].appenders@[j] as int) < e.appenders@.len()
}

/// The names of the configured appenders, in declaration order.
pub open spec fn appender_config_names(appenders: Seq<(String, config::AppenderConfig)>) -> Seq<
    Seq<char>,
> {
    appenders.map_values(|p: (String, config::AppenderConfig)| p.0@)
}

/// Is every configured appender well formed?
pub open spec fn all_appenders_ok(appenders: Seq<(String, config::AppenderConfig)>) -> bool {
    forall|i: int|
        0 <= i < appenders.len() ==> appender::appender_config_ok(#[trigger] appenders[i].1)
}

/// The path of a file appender configuration, if it is one.
pub open spec fn file_path_of(c: config::AppenderConfig) -> Option<Seq<char>> {
    match c {
        config::AppenderConfig::File(f) => Some(f.path@),
        config::AppenderConfig::Console(_) => None,
    }
}

/// No two file appenders write the same path.
pub open spec fn no_duplicate_file_paths(
    appenders: Seq<(String, config::AppenderConfig)>,
) -> bool {
    forall|i: int, j: int|
        0 <= i < j < appenders.len() ==> (#[trigger] file_path_of(appenders[i].1)) is Some
            ==> file_path_of(appenders[i].1) != #[trigger] file_path_of(appenders[j].1)
}

/// Can the engine be built from this configuration: every appender well
/// formed, no duplicate file path, the root rule naming at least one
/// existing appender, and every further rule resolvable.
pub open spec fn config_ok(c: config::Config) -> bool {
    &&& all_appenders_ok(c.appenders@)
    &&& no_duplicate_file_paths(c.appenders@)
    &&& logger::logger_config_resolvable(c.root, appender_config_names(c.appenders@), false)
    &&& forall|i: int|
        0 <= i < c.loggers@.len() ==> logger::logger_config_resolvable(
            #[trigger] c.loggers@[i],
            appender_config_names(c.appenders@),
            true,
        )
}

/// Is `e` the engine that `c` describes: appenders built in declaration
/// order, the rules resolved in order with the root rule last and
/// inherited where a rule names no appender, and the global level the
/// most verbose of all thresholds.
pub open spec fn engine_matches_config(e: Engine, c: config::Config) -> bool {
    let names = appender_config_names(c.appenders@);
    let nl = c.loggers@.len() as int;
    &&& e.appenders@.len() == c.appenders@.len()
    &&& e.appender_names@.len() == c.appenders@.len()
    &&& forall|i: int|
        0 <= i < c.appenders@.len() ==> appender::appender_matches_config(
            #[trigger] e.appenders@[i],
            c.appenders@[i].1,
        )
    &&& forall|i: int| 0 <= i < c.appenders@.len() ==> (#[trigger] e.appender_names@[i]@) == names[i]
    &&& e.loggers@.len() == nl + 1
    &&& logger::logger_matches_config(e.loggers@[nl], c.root, names, Seq::empty())
    &&& forall|i: int|
        0 <= i < nl ==> logger::logger_matches_config(
            #[trigger] e.loggers@[i],
            c.loggers@[i],
            names,
            e.loggers@[nl].appenders@,
        )
    &&& level::filter_rank(c.root.level) <= level::filter_rank(e.global_level)
    &&& forall|i: int|
        0 <= i < nl ==> level::filter_rank(#[trigger] c.loggers@[i].level) <= level::filter_rank(
            e.global_level,
        )
    &&& (e.global_level == c.root.level || exists|i: int|
        0 <= i < nl && e.global_level == c.loggers@[i].level)
}

/// The file-appender paths among the first `k` configured appenders, in
/// declaration order.
pub open spec fn file_paths_upto(
    apps: Seq<(String, config::AppenderConfig)>,
    k: int,
) -> Seq<Seq<char>>
    decreases k,
{
    if k <= 0 {
        Seq::empty()
    } else {
        match file_path_of(apps[k - 1].1) {
            Some(p) => file_paths_upto(apps, k - 1).push(p),
            None => file_paths_upto(apps, k - 1),
        }
    }
}

proof fn lemma_file_paths_elem(apps: Seq<(String, config::AppenderConfig)>, k: int, q: int)
    requires
        0 <= k <= apps.len(),
        0 <= q < file_paths_upto(apps, k).len(),
    ensures
        exists|i: int|
            0 <= i < k && file_path_of(#[trigger] apps[i].1) == Some(file_paths_upto(apps, k)[q]),
    decreases k,
{
    if k > 0 {
        match file_path_of(apps[k - 1].1) {
            Some(p) => {
                if q < file_paths_upto(apps, k - 1).len() {
                    lemma_file_paths_elem(apps, k - 1, q);
                } else {
                    assert(file_path_of(apps[k - 1].1) == Some(file_paths_upto(apps, k)[q]));
                }
            },
            None => {
                lemma_file_paths_elem(apps, k - 1, q);
            },
        }
    }
}

proof fn lemma_file_paths_complete(apps: Seq<(String, config::AppenderConfig)>, k: int, i: int)
    requires
        0 <= i < k <= apps.len(),
    ensures
        match file_path_of(apps[i].1) {
            Some(p) => exists|q: int|
                0 <= q < file_paths_upto(apps, k).len() && file_paths_upto(apps, k)[q] == p,
            None => true,
        },
    decreases k,
{
    if i == k - 1 {
        match file_path_of(apps[i].1) {
            Some(p) => {
                assert(file_paths_upto(apps, k)[file_paths_upto(apps, k).len() - 1] == p);
            },
            None => {},
        }
    } else {
        lemma_file_paths_complete(apps, k - 1, i);
        match file_path_of(apps[i].1) {
            Some(p) => {
                let q = choose|q: int|
                    0 <= q < file_paths_upto(apps, k - 1).len() && #[trigger] file_paths_upto(
                        apps,
                        k - 1,
                    )[q] == p;
                assert(file_paths_upto(apps, k)[q] == p);
            },
            None => {},
        }
    }
}

fn construct_appenders(config_map: &Vec<(String, config::AppenderConfig)>) -> (r: Result<
    (Vec<String>, Vec<appender::Appender>),
    Error,
>)
    ensures
        r is Ok <==> all_appenders_ok(config_map@) && no_duplicate_file_paths(config_map@),
        r matches Ok(pair) ==> {
            &&& pair.0@.len() == config_map@.len()
            &&& pair.1@.len() == config_map@.len()
            &&& forall|i: int|
                0 <= i < config_map@.len() ==> (#[trigger] pair.0@[i]@) == config_map@[i].0@
            &&& forall|i: int|
                0 <= i < config_map@.len() ==> appender::appender_matches_config(
                    #[trigger] pair.1@[i],
                    config_map@[i].1,
                )
        },
{
    let mut names: Vec<String> = Vec::new();
    let mut appenders: Vec<appender::Appender> = Vec::new();
    let mut seen_paths: Vec<String> = Vec::new();
    let mut k: usize = 0;
    while k < config_map.len()
        invariant
            k <= config_map@.len(),
            names@.len() == k,
            appenders@.len() == k,
            forall|i: int| 0 <= i < k ==> (#[trigger] names@[i]@) == config_map@[i].0@,
            forall|i: int|
                0 <= i < k ==> appender::appender_matches_config(
                    #[trigger] appenders@[i],
                    config_map@[i].1,
                ),
            forall|i: int|
                0 <= i < k ==> appender::appender_config_ok(#[trigger] config_map@[i].1),
            logger::name_views(seen_paths@) == file_paths_upto(config_map@, k as int),
            forall|i: int, j: int|
                0 <= i < j < k ==> (#[trigger] file_path_of(config_map@[i].1)) is Some
                    ==> file_path_of(config_map@[i].1) != #[trigger] file_path_of(
                    config_map@[j].1,
                ),
        decreases config_map@.len() - k,
    {
        if let config::AppenderConfig::File(fc) = &config_map[k].1 {
            proof {
                assert(file_path_of(config_map@[k as int].1) == Some(fc.path@));
            }
            let mut q: usize = 0;
            while q < seen_paths.len()
                invariant
                    q <= seen_paths@.len(),
                    k < config_map@.len(),
                    file_path_of(config_map@[k as int].1) == Some(fc.path@),
                    logger::name_views(seen_paths@) == file_paths_upto(config_map@, k as int),
                    forall|i: int| 0 <= i < q ==> (#[trigger] seen_paths@[i])@ != fc.path@,
                decreases seen_paths@.len() - q,
            {
                if text::str_equal(seen_paths[q].as_str(), fc.path.as_str()) {
                    proof {
                        assert(logger::name_views(seen_paths@)[q as int] == fc.path@);
                        lemma_file_paths_elem(config_map@, k as int, q as int);
                        let w = choose|i: int|
                            0 <= i < k as int && #[trigger] file_path_of(config_map@[i].1) == Some(
                                file_paths_upto(config_map@, k as int)[q as int],
                            );
                        assert(file_path_of(config_map@[w].1) == Some(fc.path@));
                        assert(!no_duplicate_file_paths(config_map@));
                    }
                    let mut msg = String::new();
                    msg.append("appenders: path '");
                    msg.append(fc.path.as_str());
                    msg.append("' is used by multiple appenders");
                    return Err(err_of(msg));
                }
                q = q + 1;
            }
            let ghost old_seen = seen_paths@;
            seen_paths.push(fc.path.clone());
            proof {
                assert(logger::name_views(seen_paths@) =~= logger::name_views(old_seen).push(
                    fc.path@,
                ));
                assert(logger::name_views(seen_paths@) =~= file_paths_upto(
                    config_map@,
                    k + 1,
                ));
                assert forall|i: int, j: int|
                    0 <= i < j < k + 1 && (#[trigger] file_path_of(config_map@[i].1))
                        is Some implies file_path_of(config_map@[i].1) != #[trigger] file_path_of(
                    config_map@[j].1,
                ) by {
                    if j == k as int {
                        match file_path_of(config_map@[i].1) {
                            Some(p) => {
                                lemma_file_paths_complete(config_map@, k as int, i);
                                let w = choose|w: int|
                                    0 <= w < file_paths_upto(config_map@, k as int).len()
                                        && #[trigger] file_paths_upto(config_map@, k as int)[w]
                                        == p;
                                assert((old_seen[w])@ == p);
                                assert(p != fc.path@);
                            },
                            None => {},
                        }
                    }
                };
            }
        } else {
            proof {
                assert(file_path_of(config_map@[k as int].1) is None);
                assert(file_paths_upto(config_map@, k + 1) == file_paths_upto(
                    config_map@,
                    k as int,
                ));
            }
        }
        let built = match appender::from_config(&config_map[k].1) {
            Ok(a) => a,
            Err(e) => {
                let mut msg = String::new();
                msg.append("failed to create appender '");
                msg.append(config_map[k].0.as_str());
                msg.append("'");
                return Err(e.concat(msg.as_str()));
            },
        };
        names.push(config_map[k].0.clone());
        appenders.push(built);
        k = k + 1;
    }
    Ok((names, appenders))
}

/// Builds the engine from a configuration value: the appenders in
/// declaration order, then the root rule, then the further rules, the
/// root rule evaluated last as the fallback. Every configuration fault —
/// a malformed pattern, a duplicate file path, an unknown or missing
/// appender name — is reported here and nothing is built.
pub fn init_from_config(config: &config::Config) -> (r: Result<Engine, Error>)
    ensures
        r is Ok <==> config_ok(*config),
        r matches Ok(e) ==> engine_matches_config(e, *config) && engine_wf(e),
{
    let (names, appenders) = match construct_appenders(&config.appenders) {
        Ok(pair) => pair,
        Err(e) => {
            return Err(e);
        },
    };
    proof {
        assert(logger::name_views(names@) =~= appender_config_names(config.appenders@));
    }
    let root_logger = match logger::Logger::new(&config.root, &names, None) {
        Ok(l) => l,
        Err(e) => {
            return Err(e.concat("failed to create root logger"));
        },
    };
    let mut loggers: Vec<logger::Logger> = Vec::new();
    let mut i: usize = 0;
    while i < config.loggers.len()
        invariant
            i <= config.loggers@.len(),
            loggers@.len() == i,
            logger::name_views(names@) == appender_config_names(config.appenders@),
            names@.len() == config.appenders@.len(),
            logger::logger_matches_config(
                root_logger,
                config.root,
                appender_config_names(config.appenders@),
                Seq::empty(),
            ),
            logger::logger_config_resolvable(
                config.root,
                appender_config_names(config.appenders@),
                false,
            ),
            forall|q: int|
                0 <= q < i ==> logger::logger_matches_config(
                    #[trigger] loggers@[q],
                    config.loggers@[q],
                    appender_config_names(config.appenders@),
                    root_logger.appenders@,
                ),
            forall|q: int|
                0 <= q < i ==> logger::logger_config_resolvable(
                    #[trigger] config.loggers@[q],
                    appender_config_names(config.appenders@),
                    true,
                ),
        decreases config.loggers@.len() - i,
    {
        match logger::Logger::new(&config.loggers[i], &names, Some(&root_logger)) {
            Ok(l) => {
                loggers.push(l);
            },
            Err(e) => {
                let mut msg = String::new();
                msg.append("failed to create logger #");
                let num = text::u64_to_string(i as u64);
                msg.append(num.as_str());
                return Err(e.concat(msg.as_str()));
            },
        }
        i = i + 1;
    }
    let global_level = logger::get_global_level(&config.root, &config.loggers);
    loggers.push(root_logger);
    let engine = Engine { global_level, loggers, appender_names: names, appenders };
    proof {
        let names_spec = appender_config_names(config.appenders@);
        let nl = config.loggers@.len() as int;
        assert(engine.loggers@[nl] == engine.loggers@.last());
        assert forall|a: int, b: int|
            0 <= a < engine.loggers@.len() && 0 <= b
                < engine.loggers@[a].appenders@.len() implies (
        #[trigger] engine.loggers@[a].appenders@[b] as int) < engine.appenders@.len() by {
            if a == nl {
                assert(logger::logger_matches_config(
                    engine.loggers@[nl],
                    config.root,
                    names_spec,
                    Seq::empty(),
                ));
            } else {
                assert(logger::logger_matches_config(
                    engine.loggers@[a],
                    config.loggers@[a],
                    names_spec,
                    engine.loggers@[nl].appenders@,
                ));
            }
        };
    }
    Ok(engine)
}

/// The index of the first rule that takes an event with this target and
/// level, if any.
pub open spec fn first_match_from(
    loggers: Seq<logger::Logger>,
    target: Seq<char>,
    level: level::Level,
    k: int,
) -> Option<int>
    decreases loggers.len() - k,
{
    if k < 0 || k >= loggers.len() {
        None
    } else if logger::logger_takes(loggers[k], target, level) {
        Some(k)
    } else {
        first_match_from(loggers, target, level, k + 1)
    }
}

/// The index of the first rule that takes the event, if any: the rules
/// are tried in declaration order and the first match wins.
pub open spec fn first_match(
    loggers: Seq<logger::Logger>,
    target: Seq<char>,
    level: level::Level,
) -> Option<int> {
    first_match_from(loggers, target, level, 0)
}

proof fn lemma_no_match_from(
    loggers: Seq<logger::Logger>,
    target: Seq<char>,
    level: level::Level,
    k: int,
)
    requires
        forall|i: int|
            k <= i < loggers.len() ==> !logger::logger_takes(#[trigger] loggers[i], target, level),
    ensures
        first_match_from(loggers, target, level, k) is None,
    decreases loggers.len() - k,
{
    if 0 <= k < loggers.len() {
        lemma_no_match_from(loggers, target, level, k + 1);
    }
}

/// The global level is a sound pre-check: an event it does not admit is
/// taken by no rule at all, whatever its target, so the call site drops
/// it before any snapshot is built or any text is rendered.
pub proof fn lemma_disabled_events_resolve_to_nothing(
    e: Engine,
    c: config::Config,
    target: Seq<char>,
    level: level::Level,
)
    requires
        engine_matches_config(e, c),
        !level::level_admitted(level, e.global_level),
    ensures
        first_match(e.loggers@, target, level) is None,
{
    let nl = c.loggers@.len() as int;
    assert forall|i: int|
        0 <= i < e.loggers@.len() implies !logger::logger_takes(
        #[trigger] e.loggers@[i],
        target,
        level,
    ) by {
        if i == nl {
            assert(logger::logger_matches_config(e.loggers@[nl], c.root, appender_config_names(c.appenders@), Seq::empty()));
            assert(e.loggers@[i].level == c.root.level);
        } else {
            assert(logger::logger_matches_config(
                e.loggers@[i],
                c.loggers@[i],
                appender_config_names(c.appenders@),
                e.loggers@[nl].appenders@,
            ));
            assert(e.loggers@[i].level == c.loggers@[i].level);
        }
    };
    lemma_no_match_from(e.loggers@, target, level, 0);
}

impl Engine {
    /// The cheap pre-check a call site makes before building anything:
    /// could any rule take an event of this level? The check is pure and
    /// allocates nothing; when it is false the event is dropped before
    /// any formatting work.
    pub fn enabled(&self, level: level::Level) -> (r: bool)
        ensures
            r == level::level_admitted(level, self.global_level),
    {
        level.admitted_by(self.global_level)
    }

    /// Resolves an event to the appenders of the first rule that takes
    /// it, in declaration order, the root rule last; an event no rule
    /// takes is dropped. The resolution is pure: nothing is allocated
    /// and nothing is formatted for a dropped event.
    pub fn route(&self, target: &str, level: level::Level) -> (r: Option<Vec<usize>>)
        ensures
            r is Some <==> first_match(self.loggers@, target@, level) is Some,
            r matches Some(v) ==> first_match(self.loggers@, target@, level) matches Some(i) && v@
                == self.loggers@[i].appenders@,
    {
        let mut k: usize = 0;
        while k < self.loggers.len()
            invariant
                k <= self.loggers@.len(),
                first_match(self.loggers@, target@, level) == first_match_from(
                    self.loggers@,
                    target@,
                    level,
                    k as int,
                ),
            decreases self.loggers@.len() - k,
        {
            if self.loggers[k].handle(target, level) {
                let v = self.loggers[k].appenders.clone();
                proof {
                    assert(v@ =~= self.loggers@[k as int].appenders@);
                }
                return Some(v);
            }
            k = k + 1;
        }
        None
    }

    /// Records the size the runner recovered for file appender `idx`
    /// after opening its file and seeking to the end.
    pub fn set_file_len(&mut self, idx: usize, len: u64)
        requires
            (idx as int) < old(self).appenders@.len(),
        ensures
            final(self).global_level == old(self).global_level,
            final(self).loggers == old(self).loggers,
            final(self).appender_names == old(self).appender_names,
            final(self).appenders@.len() == old(self).appenders@.len(),
            forall|i: int|
                0 <= i < old(self).appenders@.len() && i != idx as int
                    ==> final(self).appenders@[i] == old(self).appenders@[i],
            match old(self).appenders@[idx as int] {
                appender::Appender::File(f) => final(self).appenders@[idx as int]
                    matches appender::Appender::File(f2) && f2.file_len == len
                    && appender::file::file_same_but_len(f, f2),
                appender::Appender::Console(_) => final(self).appenders@[idx as int]
                    == old(self).appenders@[idx as int],
            },
    {
        match &mut self.appenders[idx] {
            appender::Appender::File(f) => {
                f.set_file_len(len);
            },
            appender::Appender::Console(_) => {},
        }
    }

    /// The work of the writer for one message. An entry is delivered to
    /// each resolved appender in order: console lines are written here,
    /// and every file write comes back as a task whose line encodes the
    /// snapshot under that appender's encoder — exactly one task per
    /// resolved file appender that is not cooling down, in resolution
    /// order. A flush flushes the consoles here and hands back one flush
    /// task per file appender. A shutdown does the same and tells the
    /// writer to stop: the first component is false exactly for a
    /// shutdown.
    pub fn handle_message(&mut self, msg: pipeline::Message, now_millis: i64) -> (r: (
        bool,
        Vec<IoTask>,
    ))
        ensures
            r.0 == !(msg matches pipeline::Message::Shutdown),
            final(self).global_level == old(self).global_level,
            final(self).loggers == old(self).loggers,
            final(self).appender_names == old(self).appender_names,
            final(self).appenders@.len() == old(self).appenders@.len(),
            forall|i: int|
                0 <= i < old(self).appenders@.len() ==> appender::appender_encoder(
                    #[trigger] final(self).appenders@[i],
                ) == appender::appender_encoder(old(self).appenders@[i]),
            msg matches pipeline::Message::Entry { appenders: ids, snapshot } ==> {
                let expected = file_write_ids(
                    old(self).appenders@,
                    ids@,
                    now_millis,
                    ids@.len() as int,
                );
                &&& r.1@.len() == expected.len()
                &&& forall|t: int|
                    0 <= t < r.1@.len() ==> write_task_ok(
                        #[trigger] r.1@[t],
                        final(self).appenders@,
                        snapshot,
                    ) && (r.1@[t] matches IoTask::WriteFile { appender, .. } && appender
                        == expected[t])
            },
            !(msg matches pipeline::Message::Entry { .. }) ==> final(self).appenders
                == old(self).appenders && {
                let expected = file_appender_ids(
                    old(self).appenders@,
                    old(self).appenders@.len() as int,
                );
                &&& r.1@.len() == expected.len()
                &&& forall|t: int|
                    0 <= t < r.1@.len() ==> flush_task_ok(
                        #[trigger] r.1@[t],
                        final(self).appenders@,
                    ) && (r.1@[t] matches IoTask::FlushFile { appender } && appender
                        == expected[t])
            },
    {
        let ghost msg0 = msg;
        match msg {
            pipeline::Message::Entry { appenders: ids, snapshot } => {
                proof {
                    assert(msg0 == (pipeline::Message::Entry { appenders: ids, snapshot }));
                }
                let ghost expected = file_write_ids(
                    old(self).appenders@,
                    ids@,
                    now_millis,
                    ids@.len() as int,
                );
                let mut tasks: Vec<IoTask> = Vec::new();
                let mut j: usize = 0;
                while j < ids.len()
                    invariant
                        j <= ids@.len(),
                        self.global_level == old(self).global_level,
                        self.loggers == old(self).loggers,
                        self.appender_names == old(self).appender_names,
                        self.appenders@.len() == old(self).appenders@.len(),
                        forall|i: int|
                            0 <= i < old(self).appenders@.len() ==> appender::appender_encoder(
                                #[trigger] self.appenders@[i],
                            ) == appender::appender_encoder(old(self).appenders@[i]),
                        forall|i: int|
                            0 <= i < old(self).appenders@.len() ==> (#[trigger] self.appenders@[i]
                                matches appender::Appender::File(_)) == (old(self).appenders@[i]
                                matches appender::Appender::File(_)),
                        forall|i: int|
                            0 <= i < old(self).appenders@.len() ==> appender::appender_cooldown(
                                #[trigger] self.appenders@[i],
                            ) == appender::appender_cooldown(old(self).appenders@[i]),
                        tasks@.len() == file_write_ids(
                            old(self).appenders@,
                            ids@,
                            now_millis,
                            j as int,
                        ).len(),
                        forall|t: int|
                            0 <= t < tasks@.len() ==> write_task_ok(
                                #[trigger] tasks@[t],
                                self.appenders@,
                                snapshot,
                            ) && (tasks@[t] matches IoTask::WriteFile { appender, .. } && appender
                                == file_write_ids(
                                old(self).appenders@,
                                ids@,
                                now_millis,
                                j as int,
                            )[t]),
                    decreases ids@.len() - j,
                {
                    let idx = ids[j];
                    let ghost prefix = file_write_ids(
                        old(self).appenders@,
                        ids@,
                        now_millis,
                        j as int,
                    );
                    if idx < self.appenders.len() {
                        let outcome = self.appenders[idx].append(&snapshot, now_millis);
                        if let appender::AppendOutcome::FileWrite { ops, line } = outcome {
                            tasks.push(IoTask::WriteFile { appender: idx, ops, line });
                            proof {
                                assert(file_write_ids(
                                    old(self).appenders@,
                                    ids@,
                                    now_millis,
                                    j + 1,
                                ) =~= prefix.push(idx));
                            }
                        } else {
                            proof {
                                assert(file_write_ids(
                                    old(self).appenders@,
                                    ids@,
                                    now_millis,
                                    j + 1,
                                ) =~= prefix);
                            }
                        }
                    } else {
                        proof {
                            assert(file_write_ids(
                                old(self).appenders@,
                                ids@,
                                now_millis,
                                j + 1,
                            ) =~= prefix);
                        }
                    }
                    j = j + 1;
                }
                (true, tasks)
            },
            pipeline::Message::Flush => {
                let tasks = self.flush_tasks();
                (true, tasks)
            },
            pipeline::Message::Shutdown => {
                let tasks = self.flush_tasks();
                (false, tasks)
            },
        }
    }

    /// Flushes every console appender in place and hands back one flush
    /// task per file appender, whose device the runner owns, in table
    /// order.
    fn flush_tasks(&self) -> (r: Vec<IoTask>)
        ensures
            r@.len() == file_appender_ids(self.appenders@, self.appenders@.len() as int).len(),
            forall|t: int|
                0 <= t < r@.len() ==> flush_task_ok(#[trigger] r@[t], self.appenders@) && (r@[t]
                    matches IoTask::FlushFile { appender } && appender == file_appender_ids(
                    self.appenders@,
                    self.appenders@.len() as int,
                )[t]),
    {
        let mut tasks: Vec<IoTask> = Vec::new();
        let mut i: usize = 0;
        while i < self.appenders.len()
            invariant
                i <= self.appenders@.len(),
                tasks@.len() == file_appender_ids(self.appenders@, i as int).len(),
                forall|t: int|
                    0 <= t < tasks@.len() ==> flush_task_ok(#[trigger] tasks@[t], self.appenders@)
                        && (tasks@[t] matches IoTask::FlushFile { appender } && appender
                        == file_appender_ids(self.appenders@, i as int)[t]),
            decreases self.appenders@.len() - i,
        {
            let ghost prefix = file_appender_ids(self.appenders@, i as int);
            if self.appenders[i].is_file() {
                tasks.push(IoTask::FlushFile { appender: i });
                proof {
                    assert(file_appender_ids(self.appenders@, i + 1) =~= prefix.push(i));
                }
            } else {
                let _ = self.appenders[i].flush();
                proof {
                    assert(file_appender_ids(self.appenders@, i + 1) =~= prefix);
                }
            }
            i = i + 1;
        }
        tasks
    }
}

} // verus!
