//! One routing rule, resolved against the built appender table: a target
//! pattern, how it is matched, a level threshold, and the indices of the
//! destinations it feeds. Rules are built once and never change.

use vstd::prelude::*;
use vstd::string::*;
use crate::{err_msg, err_of, Error};
use crate::config::{LoggerConfig, LoggerTargetMatcher};
use crate::level::{level_admitted, Level, LevelFilter};
use crate::text::{is_prefix_of, str_equal, str_starts_with};

verus! {

/// One routing rule, its appender names resolved to table indices.
#[derive(Debug)]
pub struct Logger {
    /// The target pattern.
    pub target: String,
    /// How the pattern is held against an event's target.
    pub target_matcher: LoggerTargetMatcher,
    /// The rule takes events at or below this level.
    pub level: LevelFilter,
    /// The destinations the rule feeds, as indices into the appender
    /// table, in configuration order.
    pub appenders: Vec<usize>,
}

/// Does the rule take an event with this target and level? The level must
/// be admitted and the target test must pass.
pub open spec fn logger_takes(l: Logger, target: Seq<char>, level: Level) -> bool {
    &&& level_admitted(level, l.level)
    &&& match l.target_matcher {
        LoggerTargetMatcher::Prefix => is_prefix_of(l.target@, target),
        LoggerTargetMatcher::PrefixInverse => !is_prefix_of(l.target@, target),
        LoggerTargetMatcher::Exact => target == l.target@,
    }
}

/// The character sequences of a table of names.
pub open spec fn name_views(names: Seq<String>) -> Seq<Seq<char>> {
    names.map_values(|s: String| s@)
}

/// Does some name in the table read `name`?
pub open spec fn name_found(names: Seq<Seq<char>>, name: Seq<char>) -> bool {
    exists|i: int| 0 <= i < names.len() && names[i] == name
}

/// Can this rule's appender list be resolved against the table: every
/// named appender exists, or the list is empty and a root rule is there
/// to inherit from.
pub open spec fn logger_config_resolvable(
    config: LoggerConfig,
    names: Seq<Seq<char>>,
    has_root: bool,
) -> bool {
    if config.appenders@.len() == 0 {
        has_root
    } else {
        forall|j: int|
            0 <= j < config.appenders@.len() ==> name_found(names, config.appenders@[j]@)
    }
}

/// Is `l` the rule that `config` describes, resolved against the table:
/// an empty appender list inherits the root rule's resolved list, and
/// every name maps to the index of its first occurrence.
pub open spec fn logger_matches_config(
    l: Logger,
    config: LoggerConfig,
    names: Seq<Seq<char>>,
    root_appenders: Seq<usize>,
) -> bool {
    &&& l.target@ == config.target@
    &&& l.target_matcher == config.target_matcher
    &&& l.level == config.level
    &&& if config.appenders@.len() == 0 {
        l.appenders@ == root_appenders
    } else {
        &&& l.appenders@.len() == config.appenders@.len()
        &&& forall|j: int|
            0 <= j < config.appenders@.len() ==> #[trigger] (l.appenders@[j] as int)
                < names.len() && names[l.appenders@[j] as int] == config.appenders@[j]@
                && (forall|i: int|
                0 <= i < l.appenders@[j] as int ==> names[i] != config.appenders@[j]@)
    }
}

/// The index of the first table entry reading `name`, if any.
fn find_name(names: &Vec<String>, name: &String) -> (r: Option<usize>)
    ensures
        r is Some <==> name_found(name_views(names@), name@),
        r matches Some(i) ==> i < names@.len() && names@[i as int]@ == name@ && (forall|j: int|
            0 <= j < i ==> names@[j]@ != name@),
{
    let mut i: usize = 0;
    while i < names.len()
        invariant
            i <= names@.len(),
            forall|j: int| 0 <= j < i ==> names@[j]@ != name@,
        decreases names@.len() - i,
    {
        if str_equal(names[i].as_str(), name.as_str()) {
            proof {
                assert(name_views(names@)[i as int] == names@[i as int]@);
            }
            return Some(i);
        }
        i = i + 1;
    }
    None
}

impl Logger {
    /// Resolves one configured rule against the appender table. A rule
    /// with an empty appender list inherits the root rule's appenders;
    /// for the root rule itself there is nothing to inherit from, so an
    /// empty list is a configuration error. Naming an appender the table
    /// does not hold is a configuration error.
    pub fn new(
        config: &LoggerConfig,
        appender_names: &Vec<String>,
        root_logger: Option<&Logger>,
    ) -> (r: Result<Logger, Error>)
        ensures
            r is Ok <==> logger_config_resolvable(
                *config,
                name_views(appender_names@),
                root_logger is Some,
            ),
            r matches Ok(l) ==> logger_matches_config(
                l,
                *config,
                name_views(appender_names@),
                match root_logger {
                    Some(rl) => rl.appenders@,
                    None => Seq::empty(),
                },
            ),
    {
        let mut resolved: Vec<usize> = Vec::new();
        if config.appenders.len() == 0 {
            match root_logger {
                None => {
                    return Err(err_msg("root logger must have at least one appender"));
                },
                Some(rl) => {
                    resolved = rl.appenders.clone();
                    proof {
                        assert(resolved@ =~= rl.appenders@);
                    }
                },
            }
        } else {
            let mut j: usize = 0;
            while j < config.appenders.len()
                invariant
                    j <= config.appenders@.len(),
                    resolved@.len() == j,
                    forall|q: int|
                        0 <= q < j ==> #[trigger] (resolved@[q] as int) < appender_names@.len()
                            && name_views(appender_names@)[resolved@[q] as int]
                                == config.appenders@[q]@ && (forall|i: int|
                            0 <= i < resolved@[q] as int ==> name_views(appender_names@)[i]
                                != config.appenders@[q]@),
                decreases config.appenders@.len() - j,
            {
                match find_name(appender_names, &config.appenders[j]) {
                    Some(idx) => {
                        resolved.push(idx);
                    },
                    None => {
                        let mut msg = String::new();
                        msg.append("no appender '");
                        msg.append(config.appenders[j].as_str());
                        msg.append("'");
                        return Err(err_of(msg));
                    },
                }
                j = j + 1;
            }
            proof {
                assert forall|q: int|
                    0 <= q < config.appenders@.len() implies name_found(
                    name_views(appender_names@),
                    config.appenders@[q]@,
                ) by {
                    assert(name_views(appender_names@)[resolved@[q] as int]
                        == config.appenders@[q]@);
                };
            }
        }
        Ok(
            Logger {
                target: config.target.clone(),
                target_matcher: config.target_matcher,
                level: config.level,
                appenders: resolved,
            },
        )
    }

    /// Does this rule take an event with the given target and level?
    /// The decision is pure; delivering the event to the rule's
    /// appenders is the writer's work.
    pub fn handle(&self, target: &str, level: Level) -> (r: bool)
        ensures
            r == logger_takes(*self, target@, level),
    {
        if !level.admitted_by(self.level) {
            return false;
        }
        match self.target_matcher {
            LoggerTargetMatcher::Prefix => str_starts_with(target, self.target.as_str()),
            LoggerTargetMatcher::PrefixInverse => !str_starts_with(target, self.target.as_str()),
            LoggerTargetMatcher::Exact => str_equal(target, self.target.as_str()),
        }
    }
}

/// The most verbose level any rule admits: the engine's cheap global
/// pre-check. Every rule's threshold is at or below the result, and the
/// result is one of the thresholds.
pub fn get_global_level(root: &LoggerConfig, loggers: &Vec<LoggerConfig>) -> (r: LevelFilter)
    ensures
        crate::level::filter_rank(root.level) <= crate::level::filter_rank(r),
        forall|i: int|
            0 <= i < loggers@.len() ==> crate::level::filter_rank(#[trigger] loggers@[i].level)
                <= crate::level::filter_rank(r),
        r == root.level || exists|i: int| 0 <= i < loggers@.len() && r == loggers@[i].level,
{
    let mut result = root.level;
    let mut i: usize = 0;
    while i < loggers.len()
        invariant
            i <= loggers@.len(),
            crate::level::filter_rank(root.level) <= crate::level::filter_rank(result),
            forall|j: int|
                0 <= j < i ==> crate::level::filter_rank(#[trigger] loggers@[j].level)
                    <= crate::level::filter_rank(result),
            result == root.level || exists|j: int|
                0 <= j < loggers@.len() && result == loggers@[j].level,
        decreases loggers@.len() - i,
    {
        result = result.max(loggers[i].level);
        i = i + 1;
    }
    result
}

} // verus!
