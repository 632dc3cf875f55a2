//! The state of one query: its identity, its partitions to read, its statistics and its
//! progress.

use crate::errors::ErrorCode;
use crate::errors::ErrorKind;
use std::collections::VecDeque;
use vstd::prelude::*;

verus! {

/// One partition of a table to read.
#[derive(Debug, Clone, PartialEq, Eq)]
pub struct Part {
    pub name: String,
    pub version: u64,
}

/// A list of partitions.
pub type Partitions = Vec<Part>;

/// What a query has read.
#[derive(Debug, Clone, Copy, PartialEq, Eq, Structural)]
pub struct Statistics {
    pub read_rows: usize,
    pub read_bytes: usize,
}

/// How far a query has come.
#[derive(Debug, Clone, Copy, PartialEq, Eq, Structural)]
pub struct ProgressValues {
    pub read_rows: usize,
    pub read_bytes: usize,
    pub total_rows_to_read: usize,
}

/// The sum of two counters, wrapping around at the largest number a counter holds.
pub open spec fn wrapped_sum(a: usize, b: usize) -> usize {
    if a + b > usize::MAX {
        (a + b - usize::MAX - 1) as usize
    } else {
        (a + b) as usize
    }
}

fn wrapping_sum(a: usize, b: usize) -> (r: usize)
    ensures
        r == wrapped_sum(a, b),
{
    if a > usize::MAX - b {
        a - (usize::MAX - b) - 1
    } else {
        a + b
    }
}

/// The last `n` of `queue`, the last first.
pub open spec fn taken_from_back(queue: Seq<Part>, n: nat) -> Seq<Part>
    decreases n,
{
    if n == 0 || n > queue.len() {
        Seq::empty()
    } else {
        taken_from_back(queue, (n - 1) as nat).push(queue[queue.len() - n])
    }
}

/// Whether a character is a decimal digit or one of the letters `a` to `f`.
pub open spec fn is_lower_hex(c: char) -> bool {
    c == '0' || c == '1' || c == '2' || c == '3' || c == '4' || c == '5' || c == '6' || c == '7'
        || c == '8' || c == '9' || c == 'a' || c == 'b' || c == 'c' || c == 'd' || c == 'e' || c
        == 'f'
}

/// Whether a text has the form of a random identity: thirty-two lower-case hexadecimal
/// digits in groups of eight, four, four, four and twelve, with a hyphen between the groups;
/// the third group begins with `4`, and the fourth with `8`, `9`, `a` or `b`.
pub open spec fn is_query_id(id: Seq<char>) -> bool {
    &&& id.len() == 36
    &&& forall|i: int|
        0 <= i < 36 ==> if i == 8 || i == 13 || i == 18 || i == 23 {
            #[trigger] id[i] == '-'
        } else {
            is_lower_hex(id[i])
        }
    &&& id[14] == '4'
    &&& (id[19] == '8' || id[19] == '9' || id[19] == 'a' || id[19] == 'b')
}

/// `uuid::Uuid::new_v4().to_string()`: a random identity of version 4 in its hyphenated
/// lower-case form. Which identity it is depends on the random source of the operating
/// system; without such a source the call does not return.
#[verifier::external_body]
pub(crate) fn fresh_query_id() -> (id: String)
    ensures
        is_query_id(id@),
{
    uuid::Uuid::new_v4().to_string()
}

/// The state of one query.
#[derive(Debug)]
pub struct FuseQueryContext {
    /// The identity of the query.
    pub uuid: String,
    /// What the query has read.
    pub statistics: Statistics,
    /// The partitions that are still to be read.
    pub partition_queue: VecDeque<Part>,
    /// The database that unqualified names refer to.
    pub current_database: String,
    /// How far the query has come.
    pub progress: ProgressValues,
    /// How many worker threads the query may use.
    pub max_threads: u64,
    /// The version of the engine.
    pub version: String,
}

impl FuseQueryContext {
    /// A fresh context with a fresh random identity, in the database `default`.
    /// `commit_version` is the version of the build.
    pub fn try_create(max_threads: u64, commit_version: &str) -> (r: Result<
        FuseQueryContext,
        ErrorCode,
    >)
        ensures
            r matches Ok(ctx) && is_query_id(ctx.uuid@) && ctx.max_threads == max_threads
                && ctx.current_database@ == "default"@ && ctx.partition_queue@.len() == 0
                && ctx.statistics == (Statistics { read_rows: 0, read_bytes: 0 }) && ctx.progress
                == (ProgressValues { read_rows: 0, read_bytes: 0, total_rows_to_read: 0 })
                && ctx.version@ == "FuseQuery v-"@ + commit_version@,
    {
        FuseQueryContext::from_settings(max_threads, String::from_str("default"), commit_version)
    }

    /// A fresh context with a fresh random identity, in the database `default_database`.
    pub fn from_settings(max_threads: u64, default_database: String, commit_version: &str) -> (r:
        Result<FuseQueryContext, ErrorCode>)
        ensures
            r matches Ok(ctx) && is_query_id(ctx.uuid@) && ctx.max_threads == max_threads
                && ctx.current_database == default_database && ctx.partition_queue@.len() == 0
                && ctx.statistics == (Statistics { read_rows: 0, read_bytes: 0 }) && ctx.progress
                == (ProgressValues { read_rows: 0, read_bytes: 0, total_rows_to_read: 0 })
                && ctx.version@ == "FuseQuery v-"@ + commit_version@,
    {
        Ok(
            FuseQueryContext::from_identity(
                fresh_query_id(),
                max_threads,
                default_database,
                commit_version,
            ),
        )
    }

    /// A fresh context with the identity `uuid`, in the database `default_database`.
    pub fn from_identity(
        uuid: String,
        max_threads: u64,
        default_database: String,
        commit_version: &str,
    ) -> (ctx: FuseQueryContext)
        ensures
            ctx.uuid == uuid,
            ctx.max_threads == max_threads,
            ctx.current_database == default_database,
            ctx.partition_queue@.len() == 0,
            ctx.statistics == (Statistics { read_rows: 0, read_bytes: 0 }),
            ctx.progress == (ProgressValues { read_rows: 0, read_bytes: 0, total_rows_to_read: 0 }),
            ctx.version@ == "FuseQuery v-"@ + commit_version@,
    {
        let mut version = String::from_str("FuseQuery v-");
        version.append(commit_version);
        FuseQueryContext {
            uuid,
            statistics: Statistics { read_rows: 0, read_bytes: 0 },
            partition_queue: VecDeque::new(),
            current_database: default_database,
            progress: ProgressValues { read_rows: 0, read_bytes: 0, total_rows_to_read: 0 },
            max_threads,
            version,
        }
    }

    /// Gives the query the identity `uuid`.
    pub fn with_id(&mut self, uuid: &str)
        ensures
            final(self).uuid@ == uuid@,
            final(self).statistics == old(self).statistics,
            final(self).partition_queue == old(self).partition_queue,
            final(self).current_database == old(self).current_database,
            final(self).progress == old(self).progress,
            final(self).max_threads == old(self).max_threads,
            final(self).version == old(self).version,
    {
        self.uuid = String::from_str(uuid);
    }

    /// Forgets the progress, the statistics and the partitions of the statement before.
    pub fn reset(&mut self) -> (r: Result<(), ErrorCode>)
        ensures
            r is Ok,
            final(self).progress == (ProgressValues {
                read_rows: 0,
                read_bytes: 0,
                total_rows_to_read: 0,
            }),
            final(self).statistics == (Statistics { read_rows: 0, read_bytes: 0 }),
            final(self).partition_queue@.len() == 0,
            final(self).uuid == old(self).uuid,
            final(self).current_database == old(self).current_database,
            final(self).max_threads == old(self).max_threads,
            final(self).version == old(self).version,
    {
        self.progress = ProgressValues { read_rows: 0, read_bytes: 0, total_rows_to_read: 0 };
        self.statistics = Statistics { read_rows: 0, read_bytes: 0 };
        self.partition_queue.clear();
        Ok(())
    }

    /// Adds what a source has read to the progress. The counters wrap around.
    pub fn progress_callback(&mut self, value: &ProgressValues)
        ensures
            final(self).progress == (ProgressValues {
                read_rows: wrapped_sum(old(self).progress.read_rows, value.read_rows),
                read_bytes: wrapped_sum(old(self).progress.read_bytes, value.read_bytes),
                total_rows_to_read: old(self).progress.total_rows_to_read,
            }),
            final(self).uuid == old(self).uuid,
            final(self).statistics == old(self).statistics,
            final(self).partition_queue == old(self).partition_queue,
            final(self).current_database == old(self).current_database,
            final(self).max_threads == old(self).max_threads,
            final(self).version == old(self).version,
    {
        self.progress = ProgressValues {
            read_rows: wrapping_sum(self.progress.read_rows, value.read_rows),
            read_bytes: wrapping_sum(self.progress.read_bytes, value.read_bytes),
            total_rows_to_read: self.progress.total_rows_to_read,
        };
    }

    /// How far the query has come.
    pub fn get_progress_value(&self) -> (v: ProgressValues)
        ensures
            v == self.progress,
    {
        self.progress
    }

    /// How far the query has come; the progress is counted from zero again.
    pub fn get_and_reset_progress_value(&mut self) -> (v: ProgressValues)
        ensures
            v == old(self).progress,
            final(self).progress == (ProgressValues {
                read_rows: 0,
                read_bytes: 0,
                total_rows_to_read: 0,
            }),
            final(self).uuid == old(self).uuid,
            final(self).statistics == old(self).statistics,
            final(self).partition_queue == old(self).partition_queue,
            final(self).current_database == old(self).current_database,
            final(self).max_threads == old(self).max_threads,
            final(self).version == old(self).version,
    {
        let v = self.progress;
        self.progress = ProgressValues { read_rows: 0, read_bytes: 0, total_rows_to_read: 0 };
        v
    }

    /// Adds an estimate of the rows that a source will yield. The counter wraps around.
    pub fn add_total_rows_approx(&mut self, total_rows: usize)
        ensures
            final(self).progress == (ProgressValues {
                read_rows: old(self).progress.read_rows,
                read_bytes: old(self).progress.read_bytes,
                total_rows_to_read: wrapped_sum(old(self).progress.total_rows_to_read, total_rows),
            }),
            final(self).uuid == old(self).uuid,
            final(self).statistics == old(self).statistics,
            final(self).partition_queue == old(self).partition_queue,
            final(self).current_database == old(self).current_database,
            final(self).max_threads == old(self).max_threads,
            final(self).version == old(self).version,
    {
        self.progress = ProgressValues {
            read_rows: self.progress.read_rows,
            read_bytes: self.progress.read_bytes,
            total_rows_to_read: wrapping_sum(self.progress.total_rows_to_read, total_rows),
        };
    }

    /// Takes up to `num` partitions from the end of the queue, the last first.
    pub fn try_get_partitions(&mut self, num: usize) -> (r: Result<Partitions, ErrorCode>)
        ensures
            r matches Ok(partitions) && ({
                let n = if num <= old(self).partition_queue@.len() {
                    num as nat
                } else {
                    old(self).partition_queue@.len()
                };
                &&& partitions@ == taken_from_back(old(self).partition_queue@, n)
                &&& final(self).partition_queue@ == old(self).partition_queue@.take(
                    old(self).partition_queue@.len() - n,
                )
            }),
            final(self).uuid == old(self).uuid,
            final(self).statistics == old(self).statistics,
            final(self).current_database == old(self).current_database,
            final(self).progress == old(self).progress,
            final(self).max_threads == old(self).max_threads,
            final(self).version == old(self).version,
    {
        let mut partitions: Vec<Part> = Vec::new();
        let ghost queue = self.partition_queue@;
        let mut taken: usize = 0;
        assert(self.partition_queue@ =~= queue.take(queue.len() - 0));
        while taken < num
            invariant
                taken <= num,
                taken <= queue.len(),
                queue == old(self).partition_queue@,
                partitions@ == taken_from_back(queue, taken as nat),
                self.partition_queue@ == queue.take(queue.len() - taken),
                self.uuid == old(self).uuid,
                self.statistics == old(self).statistics,
                self.current_database == old(self).current_database,
                self.progress == old(self).progress,
                self.max_threads == old(self).max_threads,
                self.version == old(self).version,
            ensures
                taken <= queue.len(),
                taken == num || taken == queue.len(),
                partitions@ == taken_from_back(queue, taken as nat),
                self.partition_queue@ == queue.take(queue.len() - taken),
                self.uuid == old(self).uuid,
                self.statistics == old(self).statistics,
                self.current_database == old(self).current_database,
                self.progress == old(self).progress,
                self.max_threads == old(self).max_threads,
                self.version == old(self).version,
            decreases num - taken,
        {
            match self.partition_queue.pop_back() {
                None => {
                    break;
                },
                Some(partition) => {
                    partitions.push(partition);
                    taken += 1;
                    assert(self.partition_queue@ =~= queue.take(queue.len() - taken));
                },
            }
        }
        Ok(partitions)
    }

    /// Puts `partitions` at the end of the queue, in their order.
    pub fn try_set_partitions(&mut self, partitions: Partitions) -> (r: Result<(), ErrorCode>)
        ensures
            r is Ok,
            final(self).partition_queue@ == old(self).partition_queue@ + partitions@,
            final(self).uuid == old(self).uuid,
            final(self).statistics == old(self).statistics,
            final(self).current_database == old(self).current_database,
            final(self).progress == old(self).progress,
            final(self).max_threads == old(self).max_threads,
            final(self).version == old(self).version,
    {
        let mut partitions = partitions;
        let ghost wanted = partitions@;
        let ghost queue = self.partition_queue@;
        let mut rest: Vec<Part> = Vec::new();
        while partitions.len() > 0
            invariant
                partitions@.len() + rest@.len() == wanted.len(),
                partitions@ == wanted.take(partitions@.len() as int),
                forall|j: int|
                    0 <= j < rest@.len() ==> #[trigger] rest@[j] == wanted[wanted.len() - 1 - j],
            decreases partitions.len(),
        {
            match partitions.pop() {
                Some(part) => {
                    rest.push(part);
                    assert(partitions@ =~= wanted.take(partitions@.len() as int));
                },
                None => {},
            }
        }
        assert(self.partition_queue@ =~= queue + wanted.take(0));
        let ghost mut moved: nat = 0;
        while rest.len() > 0
            invariant
                moved + rest@.len() == wanted.len(),
                forall|j: int|
                    0 <= j < rest@.len() ==> #[trigger] rest@[j] == wanted[wanted.len() - 1 - j],
                self.partition_queue@ == queue + wanted.take(moved as int),
                self.uuid == old(self).uuid,
                self.statistics == old(self).statistics,
                self.current_database == old(self).current_database,
                self.progress == old(self).progress,
                self.max_threads == old(self).max_threads,
                self.version == old(self).version,
            decreases rest.len(),
        {
            match rest.pop() {
                Some(part) => {
                    self.partition_queue.push_back(part);
                    proof {
                        assert(part == wanted[moved as int]);
                        assert(self.partition_queue@ =~= queue + wanted.take(moved as int + 1));
                        moved = moved + 1;
                    }
                },
                None => {},
            }
        }
        assert(wanted.take(wanted.len() as int) =~= wanted);
        Ok(())
    }

    /// What the query has read.
    pub fn try_get_statistics(&self) -> (r: Result<Statistics, ErrorCode>)
        ensures
            r matches Ok(s) && s == self.statistics,
    {
        Ok(
            Statistics {
                read_rows: self.statistics.read_rows,
                read_bytes: self.statistics.read_bytes,
            },
        )
    }

    /// Replaces what the query has read.
    pub fn try_set_statistics(&mut self, val: &Statistics) -> (r: Result<(), ErrorCode>)
        ensures
            r is Ok,
            final(self).statistics == *val,
            final(self).uuid == old(self).uuid,
            final(self).partition_queue == old(self).partition_queue,
            final(self).current_database == old(self).current_database,
            final(self).progress == old(self).progress,
            final(self).max_threads == old(self).max_threads,
            final(self).version == old(self).version,
    {
        self.statistics = *val;
        Ok(())
    }

    /// The identity of the query.
    pub fn get_id(&self) -> (id: String)
        ensures
            id == self.uuid,
    {
        self.uuid.clone()
    }

    /// The database that unqualified names refer to.
    pub fn get_current_database(&self) -> (name: String)
        ensures
            name == self.current_database,
    {
        self.current_database.clone()
    }

    /// Makes `new_database_name` the current database. `exists` says whether the data source
    /// knows a database of that name; where it does not, nothing changes and the error is
    /// `UnknownDatabase`.
    pub fn set_current_database(&mut self, new_database_name: String, exists: bool) -> (r: Result<
        (),
        ErrorCode,
    >)
        ensures
            exists ==> r is Ok && final(self).current_database == new_database_name,
            !exists ==> final(self).current_database == old(self).current_database,
            !exists ==> (r matches Err(e) && e.kind == ErrorKind::UnknownDatabase && e.message@
                == "Database "@ + new_database_name@ + "  doesn't exist."@),
            final(self).uuid == old(self).uuid,
            final(self).statistics == old(self).statistics,
            final(self).partition_queue == old(self).partition_queue,
            final(self).progress == old(self).progress,
            final(self).max_threads == old(self).max_threads,
            final(self).version == old(self).version,
    {
        if exists {
            self.current_database = new_database_name;
            Ok(())
        } else {
            let mut message = String::from_str("Database ");
            message.append(new_database_name.as_str());
            message.append("  doesn't exist.");
            Err(ErrorCode::create(ErrorKind::UnknownDatabase, message.as_str()))
        }
    }

    /// How many worker threads the query may use.
    pub fn get_max_threads(&self) -> (r: Result<u64, ErrorCode>)
        ensures
            r matches Ok(n) && n == self.max_threads,
    {
        Ok(self.max_threads)
    }

    /// Sets how many worker threads the query may use.
    pub fn set_max_threads(&mut self, threads: u64) -> (r: Result<(), ErrorCode>)
        ensures
            r is Ok,
            final(self).max_threads == threads,
            final(self).uuid == old(self).uuid,
            final(self).statistics == old(self).statistics,
            final(self).partition_queue == old(self).partition_queue,
            final(self).current_database == old(self).current_database,
            final(self).progress == old(self).progress,
            final(self).version == old(self).version,
    {
        self.max_threads = threads;
        Ok(())
    }

    /// The version of the engine.
    pub fn get_fuse_version(&self) -> (v: String)
        ensures
            v == self.version,
    {
        self.version.clone()
    }
}

} // verus!
