//! Structured action logging: the per-action log record, the in-memory
//! ring of recent records, and the retention rules for log files.
//!
//! Writing and reading log files, and wiring up the tracing framework,
//! are the surrounding application's work. It hands the file listing in
//! as plain values and this module decides which files fall to age or
//! size retention.

use vstd::prelude::*;
use crate::config::ConfigValue;
use crate::config::cv_equal;
use crate::text::starts_with;
use crate::text::ends_with;
use crate::text::str_starts_with;
use crate::text::str_ends_with;

verus! {

/// How one action execution ended.
#[derive(Debug, Clone, Copy, PartialEq, Eq, Structural)]
pub enum ActionResult {
    Success,
    Failed,
    Cancelled,
}

/// One action execution, as logged.
#[derive(Debug)]
pub struct ActionLog {
    /// Milliseconds since the epoch at which the record was made.
    pub timestamp_ms: u64,
    pub action_type: String,
    pub action_id: String,
    pub result: ActionResult,
    pub execution_time_ms: u64,
    pub error_message: Option<String>,
    pub context: Vec<(String, ConfigValue)>,
}

/// Whether two log records agree in every field, comparing context
/// values structurally.
pub open spec fn log_matches(a: ActionLog, b: ActionLog) -> bool {
    &&& a.timestamp_ms == b.timestamp_ms
    &&& a.action_type@ == b.action_type@
    &&& a.action_id@ == b.action_id@
    &&& a.result == b.result
    &&& a.execution_time_ms == b.execution_time_ms
    &&& (match (a.error_message, b.error_message) {
        (Some(x), Some(y)) => x@ == y@,
        (None, None) => true,
        _ => false,
    })
    &&& a.context@.len() == b.context@.len()
    &&& (forall|i: int|
        0 <= i < a.context@.len() ==> (#[trigger] a.context@[i]).0@ == b.context@[i].0@
            && cv_equal(a.context@[i].1, b.context@[i].1))
}

/// Relies on `chrono::Utc::now`: the clock's answer depends on the
/// moment of the call, so nothing is promised of it. The call aborts
/// when the system clock stands before the Unix epoch.
#[verifier::external_body]
fn now_utc_ms() -> u64 {
    let ms = chrono::Utc::now().timestamp_millis();
    if ms >= 0 {
        ms as u64
    } else {
        0
    }
}

impl ActionLog {
    /// A record stamped with the current time.
    pub fn new(
        action_type: String,
        action_id: String,
        result: ActionResult,
        execution_time_ms: u64,
        error_message: Option<String>,
        context: Vec<(String, ConfigValue)>,
    ) -> (r: ActionLog)
        ensures
            r.action_type == action_type,
            r.action_id == action_id,
            r.result == result,
            r.execution_time_ms == execution_time_ms,
            r.error_message == error_message,
            r.context == context,
    {
        ActionLog {
            timestamp_ms: now_utc_ms(),
            action_type,
            action_id,
            result,
            execution_time_ms,
            error_message,
            context,
        }
    }

    /// A successful execution, without error text or context.
    pub fn success(action_type: String, action_id: String, execution_time_ms: u64) -> (r:
        ActionLog)
        ensures
            r.action_type == action_type,
            r.action_id == action_id,
            r.result == ActionResult::Success,
            r.execution_time_ms == execution_time_ms,
            r.error_message is None,
            r.context@.len() == 0,
    {
        Self::new(
            action_type,
            action_id,
            ActionResult::Success,
            execution_time_ms,
            None,
            Vec::new(),
        )
    }

    /// A failed execution with its error text.
    pub fn failed(
        action_type: String,
        action_id: String,
        execution_time_ms: u64,
        error_message: String,
    ) -> (r: ActionLog)
        ensures
            r.action_type == action_type,
            r.action_id == action_id,
            r.result == ActionResult::Failed,
            r.execution_time_ms == execution_time_ms,
            r.error_message == Some(error_message),
            r.context@.len() == 0,
    {
        Self::new(
            action_type,
            action_id,
            ActionResult::Failed,
            execution_time_ms,
            Some(error_message),
            Vec::new(),
        )
    }

    /// A cancelled execution.
    pub fn cancelled(action_type: String, action_id: String, execution_time_ms: u64) -> (r:
        ActionLog)
        ensures
            r.action_type == action_type,
            r.action_id == action_id,
            r.result == ActionResult::Cancelled,
            r.execution_time_ms == execution_time_ms,
            r.error_message is None,
            r.context@.len() == 0,
    {
        Self::new(
            action_type,
            action_id,
            ActionResult::Cancelled,
            execution_time_ms,
            None,
            Vec::new(),
        )
    }

    /// The record with one more context entry.
    pub fn with_context(self, key: String, value: ConfigValue) -> (r: ActionLog)
        ensures
            r.context@ == self.context@.push((key, value)),
            r.timestamp_ms == self.timestamp_ms,
            r.action_type == self.action_type,
            r.action_id == self.action_id,
            r.result == self.result,
            r.execution_time_ms == self.execution_time_ms,
            r.error_message == self.error_message,
    {
        let mut r = self;
        r.context.push((key, value));
        r
    }
}

fn clone_log(log: &ActionLog) -> (r: ActionLog)
    ensures
        log_matches(r, *log),
{
    let mut context: Vec<(String, ConfigValue)> = Vec::new();
    let mut i: usize = 0;
    while i < log.context.len()
        invariant
            i <= log.context@.len(),
            context@.len() == i,
            forall|k: int|
                0 <= k < i ==> (#[trigger] context@[k]).0@ == log.context@[k].0@ && cv_equal(
                    context@[k].1,
                    log.context@[k].1,
                ),
        decreases log.context@.len() - i,
    {
        let v = log.context[i].1.deep_clone();
        context.push((log.context[i].0.clone(), v));
        i = i + 1;
    }
    ActionLog {
        timestamp_ms: log.timestamp_ms,
        action_type: log.action_type.clone(),
        action_id: log.action_id.clone(),
        result: log.result,
        execution_time_ms: log.execution_time_ms,
        error_message: match &log.error_message {
            Some(e) => Some(e.clone()),
            None => None,
        },
        context,
    }
}

/// Statistics over the log files on disk, handed in by the caller.
#[derive(Debug, Clone)]
pub struct LogStats {
    pub total_files: usize,
    pub total_size_bytes: u64,
    pub oldest_log_ms: Option<u64>,
    pub newest_log_ms: Option<u64>,
    pub log_directory: String,
}

/// The retention settings.
#[derive(Debug, Clone, PartialEq, Eq, Structural)]
pub struct LogConfig {
    pub max_file_size_mb: u64,
    pub max_total_size_mb: u64,
    pub retention_days: i64,
    pub rotation_enabled: bool,
    pub json_format: bool,
}

impl Default for LogConfig {
    fn default() -> (r: LogConfig)
        ensures
            r.max_file_size_mb == 10,
            r.max_total_size_mb == 100,
            r.retention_days == 30,
            r.rotation_enabled,
            r.json_format,
    {
        LogConfig {
            max_file_size_mb: 10,
            max_total_size_mb: 100,
            retention_days: 30,
            rotation_enabled: true,
            json_format: true,
        }
    }
}

/// Whether a file name is one of this launcher's log files.
pub open spec fn is_log_file_name(n: Seq<char>) -> bool {
    starts_with(n, "q-deck"@) && ends_with(n, ".log"@)
}

/// The names among `files` (name, created, size) of log files created
/// before the cutoff, in order.
pub open spec fn expired_names(files: Seq<(String, u64, u64)>, cutoff_ms: u64) -> Seq<String>
    decreases files.len(),
{
    if files.len() == 0 {
        Seq::<String>::empty()
    } else {
        expired_names(files.drop_last(), cutoff_ms) + (if is_log_file_name(files.last().0@)
            && files.last().1 < cutoff_ms {
            seq![files.last().0]
        } else {
            Seq::<String>::empty()
        })
    }
}

/// The names the size-based cleanup removes, scanning the given files
/// from the front: removal continues until the running total falls to
/// the cap, and the active file is never removed. The caller supplies
/// the files oldest first.
pub open spec fn size_removals(
    files: Seq<(String, u64, u64)>,
    i: int,
    current_size: u64,
    max_bytes: u64,
    current_name: Seq<char>,
) -> Seq<String>
    recommends
        0 <= i <= files.len(),
    decreases files.len() - i when 0 <= i <= files.len()
{
    if i >= files.len() || current_size <= max_bytes {
        Seq::<String>::empty()
    } else if files[i].0@ == current_name {
        seq![] + size_removals(files, i + 1, current_size, max_bytes, current_name)
    } else {
        let remaining = if files[i].2 > current_size {
            0u64
        } else {
            (current_size - files[i].2) as u64
        };
        seq![files[i].0] + size_removals(files, i + 1, remaining, max_bytes, current_name)
    }
}

/// How many of the files are log files.
pub open spec fn log_file_count(files: Seq<(String, u64, u64)>) -> nat
    decreases files.len(),
{
    if files.len() == 0 {
        0
    } else {
        log_file_count(files.drop_last()) + (if is_log_file_name(files.last().0@) {
            1nat
        } else {
            0nat
        })
    }
}

/// The total size of the log files, in bytes.
pub open spec fn log_file_size(files: Seq<(String, u64, u64)>) -> int
    decreases files.len(),
{
    if files.len() == 0 {
        0
    } else {
        log_file_size(files.drop_last()) + (if is_log_file_name(files.last().0@) {
            files.last().2 as int
        } else {
            0
        })
    }
}

/// The creation time of the oldest log file.
pub open spec fn oldest_log(files: Seq<(String, u64, u64)>) -> Option<u64>
    decreases files.len(),
{
    if files.len() == 0 {
        None
    } else {
        let rest = oldest_log(files.drop_last());
        if !is_log_file_name(files.last().0@) {
            rest
        } else {
            match rest {
                Some(t) => if files.last().1 < t {
                    Some(files.last().1)
                } else {
                    Some(t)
                },
                None => Some(files.last().1),
            }
        }
    }
}

/// The creation time of the newest log file.
pub open spec fn newest_log(files: Seq<(String, u64, u64)>) -> Option<u64>
    decreases files.len(),
{
    if files.len() == 0 {
        None
    } else {
        let rest = newest_log(files.drop_last());
        if !is_log_file_name(files.last().0@) {
            rest
        } else {
            match rest {
                Some(t) => if files.last().1 > t {
                    Some(files.last().1)
                } else {
                    Some(t)
                },
                None => Some(files.last().1),
            }
        }
    }
}

/// The statistics over a directory's files (name, created, size), with
/// only the launcher's log files counted.
pub fn compute_log_stats(files: &Vec<(String, u64, u64)>, log_directory: String) -> (r: LogStats)
    requires
        log_file_size(files@) <= u64::MAX,
    ensures
        r.total_files == log_file_count(files@),
        r.total_size_bytes == log_file_size(files@),
        r.oldest_log_ms == oldest_log(files@),
        r.newest_log_ms == newest_log(files@),
        r.log_directory == log_directory,
{
    let mut total_files: usize = 0;
    let mut total_size: u64 = 0;
    let mut oldest: Option<u64> = None;
    let mut newest: Option<u64> = None;
    let mut i: usize = 0;
    while i < files.len()
        invariant
            i <= files@.len(),
            log_file_size(files@) <= u64::MAX,
            total_files == log_file_count(files@.subrange(0, i as int)),
            total_files <= i,
            total_size == log_file_size(files@.subrange(0, i as int)),
            oldest == oldest_log(files@.subrange(0, i as int)),
            newest == newest_log(files@.subrange(0, i as int)),
        decreases files@.len() - i,
    {
        proof {
            let pre = files@.subrange(0, i + 1);
            assert(pre.drop_last() =~= files@.subrange(0, i as int));
            assert(pre.last() == files@[i as int]);
            lemma_log_file_size_prefix_bound(files@, i + 1);
        }
        let name = files[i].0.as_str();
        if str_starts_with(name, "q-deck") && str_ends_with(name, ".log") {
            total_files = total_files + 1;
            total_size = total_size + files[i].2;
            let created = files[i].1;
            oldest = match oldest {
                Some(t) => if created < t {
                    Some(created)
                } else {
                    Some(t)
                },
                None => Some(created),
            };
            newest = match newest {
                Some(t) => if created > t {
                    Some(created)
                } else {
                    Some(t)
                },
                None => Some(created),
            };
        }
        i = i + 1;
    }
    proof {
        assert(files@.subrange(0, files@.len() as int) =~= files@);
    }
    LogStats {
        total_files,
        total_size_bytes: total_size,
        oldest_log_ms: oldest,
        newest_log_ms: newest,
        log_directory,
    }
}

/// The size counted over a prefix never exceeds the size over the whole
/// listing.
proof fn lemma_log_file_size_prefix_bound(files: Seq<(String, u64, u64)>, upto: int)
    requires
        0 <= upto <= files.len(),
    ensures
        log_file_size(files.subrange(0, upto)) <= log_file_size(files),
    decreases files.len(),
{
    if upto == files.len() {
        assert(files.subrange(0, upto) =~= files);
    } else {
        assert(files.drop_last().subrange(0, upto) =~= files.subrange(0, upto));
        lemma_log_file_size_prefix_bound(files.drop_last(), upto);
    }
}

/// The names of log files that have outlived the retention cutoff.
pub fn select_expired_logs(files: &Vec<(String, u64, u64)>, cutoff_ms: u64) -> (r: Vec<String>)
    ensures
        r@ == expired_names(files@, cutoff_ms),
{
    let mut out: Vec<String> = Vec::new();
    let mut i: usize = 0;
    while i < files.len()
        invariant
            i <= files@.len(),
            out@ == expired_names(files@.subrange(0, i as int), cutoff_ms),
        decreases files@.len() - i,
    {
        proof {
            let pre = files@.subrange(0, i + 1);
            assert(pre.drop_last() =~= files@.subrange(0, i as int));
            assert(pre.last() == files@[i as int]);
        }
        let name = files[i].0.as_str();
        if str_starts_with(name, "q-deck") && str_ends_with(name, ".log") && files[i].1
            < cutoff_ms {
            out.push(files[i].0.clone());
            proof {
                assert(out@ =~= expired_names(files@.subrange(0, i + 1), cutoff_ms));
            }
        } else {
            proof {
                assert(out@ =~= expired_names(files@.subrange(0, i + 1), cutoff_ms));
            }
        }
        i = i + 1;
    }
    proof {
        assert(files@.subrange(0, files@.len() as int) =~= files@);
    }
    out
}

/// The names the size-based cleanup removes, given the files oldest
/// first, their total size, the cap, and the active file's name.
pub fn plan_size_cleanup(
    files: &Vec<(String, u64, u64)>,
    total_size_bytes: u64,
    max_size_bytes: u64,
    current_name: &str,
) -> (r: Vec<String>)
    ensures
        r@ == size_removals(files@, 0, total_size_bytes, max_size_bytes, current_name@),
{
    let mut out: Vec<String> = Vec::new();
    let mut current_size = total_size_bytes;
    let mut i: usize = 0;
    while i < files.len() && current_size > max_size_bytes
        invariant
            i <= files@.len(),
            size_removals(files@, 0, total_size_bytes, max_size_bytes, current_name@) == out@
                + size_removals(files@, i as int, current_size, max_size_bytes, current_name@),
        decreases files@.len() - i,
    {
        let ghost pre = out@;
        if crate::text::str_eq(files[i].0.as_str(), current_name) {
            proof {
                assert(Seq::<String>::empty() + size_removals(
                    files@,
                    i + 1,
                    current_size,
                    max_size_bytes,
                    current_name@,
                ) =~= size_removals(files@, i + 1, current_size, max_size_bytes, current_name@));
            }
        } else {
            let size = files[i].2;
            out.push(files[i].0.clone());
            if size > current_size {
                current_size = 0;
            } else {
                current_size = current_size - size;
            }
            proof {
                assert(pre + (seq![files@[i as int].0] + size_removals(
                    files@,
                    i + 1,
                    current_size,
                    max_size_bytes,
                    current_name@,
                )) =~= (pre + seq![files@[i as int].0]) + size_removals(
                    files@,
                    i + 1,
                    current_size,
                    max_size_bytes,
                    current_name@,
                ));
                assert(out@ =~= pre + seq![files@[i as int].0]);
            }
        }
        i = i + 1;
    }
    out
}

/// Whether the active log file's size calls for rotating it out.
pub fn rotation_needed(file_size_bytes: u64, config: &LogConfig) -> (r: bool)
    ensures
        r == (file_size_bytes / 0x100000 >= config.max_file_size_mb),
{
    file_size_bytes / 0x100000 >= config.max_file_size_mb
}

/// Keeps the retention settings and the ring of recent records; the
/// application appends each record to its file after handing it here.
pub struct LoggerService {
    pub config: LogConfig,
    pub in_memory_logs: Vec<ActionLog>,
}

impl LoggerService {
    pub fn new() -> (r: Result<LoggerService, ()>)
        ensures
            r matches Ok(s) && s.in_memory_logs@.len() == 0 && s.config.max_file_size_mb == 10
                && s.config.max_total_size_mb == 100 && s.config.retention_days == 30
                && s.config.rotation_enabled && s.config.json_format,
    {
        Self::new_with_config(LogConfig::default())
    }

    pub fn new_with_config(config: LogConfig) -> (r: Result<LoggerService, ()>)
        ensures
            r matches Ok(s) && s.in_memory_logs@.len() == 0 && s.config == config,
    {
        Ok(LoggerService { config, in_memory_logs: Vec::new() })
    }

    /// Records one execution in memory, keeping only the most recent
    /// thousand records.
    pub fn log_action(&mut self, log_entry: ActionLog) -> (r: Result<(), ()>)
        ensures
            r is Ok,
            old(self).in_memory_logs@.len() < 1000 ==> final(self).in_memory_logs@ == old(
                self,
            ).in_memory_logs@.push(log_entry),
            old(self).in_memory_logs@.len() >= 1000 ==> final(self).in_memory_logs@ == old(
                self,
            ).in_memory_logs@.push(log_entry).drop_first(),
            final(self).config == old(self).config,
    {
        self.in_memory_logs.push(log_entry);
        if self.in_memory_logs.len() > 1000 {
            self.in_memory_logs.remove(0);
            proof {
                assert(self.in_memory_logs@ =~= old(self).in_memory_logs@.push(
                    log_entry,
                ).drop_first());
            }
        }
        Ok(())
    }

    /// The most recent records, newest last: the last `limit` of them,
    /// or all when fewer are held. Older records live only in the log
    /// file, which the application reads.
    pub fn get_recent_logs(&self, limit: usize) -> (r: Result<Vec<ActionLog>, ()>)
        ensures
            r matches Ok(logs) && {
                let n = self.in_memory_logs@.len();
                let start = if n > limit {
                    n - limit
                } else {
                    0int
                };
                logs@.len() == n - start && forall|i: int|
                    0 <= i < logs@.len() ==> log_matches(
                        #[trigger] logs@[i],
                        self.in_memory_logs@[start + i],
                    )
            },
    {
        let n = self.in_memory_logs.len();
        let start = if n > limit {
            n - limit
        } else {
            0
        };
        let mut out: Vec<ActionLog> = Vec::new();
        let mut i: usize = start;
        while i < n
            invariant
                start <= i <= n,
                n == self.in_memory_logs@.len(),
                out@.len() == i - start,
                forall|k: int|
                    0 <= k < out@.len() ==> log_matches(
                        #[trigger] out@[k],
                        self.in_memory_logs@[start + k],
                    ),
            decreases n - i,
        {
            let copy = clone_log(&self.in_memory_logs[i]);
            out.push(copy);
            i = i + 1;
        }
        Ok(out)
    }

    pub fn get_config(&self) -> (r: &LogConfig)
        ensures
            r == &self.config,
    {
        &self.config
    }

    /// Replaces the retention settings; a format change takes effect for
    /// records written from now on.
    pub fn update_config(&mut self, new_config: LogConfig) -> (r: Result<(), ()>)
        ensures
            r is Ok,
            final(self).config == new_config,
            final(self).in_memory_logs@ == old(self).in_memory_logs@,
    {
        self.config = new_config;
        Ok(())
    }
}

} // verus!
