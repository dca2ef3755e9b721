//! In-memory log store: levels, entries, queries over them, and the ring of
//! the most recent entries that the logger appends to.
use vstd::prelude::*;
use crate::text::{
    ascii_upper, chars_equal, chars_of, contains_chars, contains_seq, split_chars, split_on,
    text_equals, to_ascii_upper,
};

verus! {

/// Severity of a log entry.
#[derive(Debug, Clone, Copy, PartialEq, Eq, Hash, Structural)]
pub enum LogLevel {
    Error,
    Warn,
    Info,
    Debug,
    Trace,
}

/// The name a level is shown and parsed by.
pub open spec fn level_name(l: LogLevel) -> Seq<char> {
    match l {
        LogLevel::Error => "ERROR"@,
        LogLevel::Warn => "WARN"@,
        LogLevel::Info => "INFO"@,
        LogLevel::Debug => "DEBUG"@,
        LogLevel::Trace => "TRACE"@,
    }
}

/// The level a text names, compared without regard to ASCII case.
pub open spec fn parse_level(s: Seq<char>) -> Option<LogLevel> {
    let u = ascii_upper(s);
    if u == "ERROR"@ {
        Some(LogLevel::Error)
    } else if u == "WARN"@ {
        Some(LogLevel::Warn)
    } else if u == "INFO"@ {
        Some(LogLevel::Info)
    } else if u == "DEBUG"@ {
        Some(LogLevel::Debug)
    } else if u == "TRACE"@ {
        Some(LogLevel::Trace)
    } else {
        None
    }
}

/// Parses a level from its characters.
pub fn parse_level_chars(v: &[char]) -> (r: Option<LogLevel>)
    ensures
        r == parse_level(v@),
{
    let u = to_ascii_upper(v);
    let e = chars_of("ERROR");
    let w = chars_of("WARN");
    let i = chars_of("INFO");
    let d = chars_of("DEBUG");
    let t = chars_of("TRACE");
    if chars_equal(u.as_slice(), e.as_slice()) {
        Some(LogLevel::Error)
    } else if chars_equal(u.as_slice(), w.as_slice()) {
        Some(LogLevel::Warn)
    } else if chars_equal(u.as_slice(), i.as_slice()) {
        Some(LogLevel::Info)
    } else if chars_equal(u.as_slice(), d.as_slice()) {
        Some(LogLevel::Debug)
    } else if chars_equal(u.as_slice(), t.as_slice()) {
        Some(LogLevel::Trace)
    } else {
        None
    }
}

impl LogLevel {
    /// Parses a level name, ignoring ASCII case; any other text is refused
    /// with a message that quotes it.
    pub fn from_str(s: &str) -> (r: Result<LogLevel, String>)
        ensures
            match r {
                Ok(l) => parse_level(s@) == Some(l),
                Err(msg) => parse_level(s@) is None && msg@ == "Unknown log level: "@ + s@,
            },
    {
        let v = chars_of(s);
        match parse_level_chars(v.as_slice()) {
            Some(l) => Ok(l),
            None => {
                let msg = String::from_str("Unknown log level: ");
                Err(msg.concat(s))
            },
        }
    }

    /// The upper-case name of the level, as it is displayed.
    pub fn to_display_string(&self) -> (r: String)
        ensures
            r@ == level_name(*self),
    {
        match self {
            LogLevel::Error => String::from_str("ERROR"),
            LogLevel::Warn => String::from_str("WARN"),
            LogLevel::Info => String::from_str("INFO"),
            LogLevel::Debug => String::from_str("DEBUG"),
            LogLevel::Trace => String::from_str("TRACE"),
        }
    }
}

/// One recorded log line.
#[derive(Debug, Clone)]
pub struct LogData {
    pub id: u64,
    pub time: String,
    pub level: LogLevel,
    pub target: String,
    pub args: String,
}

impl LogData {
    pub fn new(id: u64, time: String, level: LogLevel, target: String, args: String) -> (r:
        LogData)
        ensures
            r == (LogData { id, time, level, target, args }),
    {
        LogData { id, time, level, target, args }
    }

    /// A field-by-field copy.
    pub fn duplicate(&self) -> (r: LogData)
        ensures
            r == *self,
    {
        LogData {
            id: self.id,
            time: self.time.clone(),
            level: self.level,
            target: self.target.clone(),
            args: self.args.clone(),
        }
    }

    /// The line as it is displayed: time, level, target, a dash and the message.
    pub fn to_display_string(&self) -> (r: String)
        ensures
            r@ == self.time@ + " "@ + level_name(self.level) + " "@ + self.target@ + " - "@
                + self.args@,
    {
        let level = self.level.to_display_string();
        let r = self.time.clone();
        let r = r.concat(" ");
        let r = r.concat(level.as_str());
        let r = r.concat(" ");
        let r = r.concat(self.target.as_str());
        let r = r.concat(" - ");
        r.concat(self.args.as_str())
    }
}

/// A query over the stored entries.
pub struct LogQuery {
    /// Text that the message must contain.
    pub search: Option<String>,
    /// Comma-separated level names; entries of other levels are left out.
    pub level: Option<String>,
    /// How many entries to return (100 when absent, never more than 5000).
    pub size: Option<usize>,
    /// Start from the first entry whose id is at least this, oldest first;
    /// without it the newest entries come first.
    pub since: Option<u64>,
}

impl Default for LogQuery {
    fn default() -> (r: LogQuery)
        ensures
            r.search is None && r.level is None && r.size is None && r.since is None,
    {
        LogQuery { search: None, level: None, size: None, since: None }
    }
}

/// Level `l` is named by one of the comma-separated pieces of `spec`.
pub open spec fn level_selected(spec: Seq<char>, l: LogLevel) -> bool {
    exists|k: int|
        0 <= k < split_on(spec, ',').len() && parse_level(#[trigger] split_on(spec, ',')[k])
            == Some(l)
}

/// An entry passes the level and text filters of a query.
pub open spec fn entry_matches(d: LogData, level: Option<Seq<char>>, search: Option<
    Seq<char>,
>) -> bool {
    &&& match level {
        Some(s) => level_selected(s, d.level),
        None => true,
    }
    &&& match search {
        Some(t) => contains_seq(d.args@, t),
        None => true,
    }
}

/// The entries that pass the filters, in their stored order.
pub open spec fn matching_entries(
    logs: Seq<LogData>,
    level: Option<Seq<char>>,
    search: Option<Seq<char>>,
) -> Seq<LogData>
    decreases logs.len(),
{
    if logs.len() == 0 {
        Seq::empty()
    } else {
        let r = matching_entries(logs.drop_last(), level, search);
        if entry_matches(logs.last(), level, search) {
            r.push(logs.last())
        } else {
            r
        }
    }
}

pub open spec fn opt_view(s: Option<String>) -> Option<Seq<char>> {
    match s {
        Some(t) => Some(t@),
        None => None,
    }
}

/// How many entries a query returns at most.
pub open spec fn effective_size(size: Option<usize>) -> int {
    let n: int = match size {
        Some(n) => n as int,
        None => 100,
    };
    if n < 5000 {
        n
    } else {
        5000
    }
}

pub open spec fn min_int(a: int, b: int) -> int {
    if a < b {
        a
    } else {
        b
    }
}

/// The last `n` entries, newest first.
pub open spec fn newest_first(logs: Seq<LogData>, n: int) -> Seq<LogData> {
    Seq::new(min_int(n, logs.len() as int) as nat, |i: int| logs[logs.len() - 1 - i])
}

/// The entries from the first one whose id is at least `since` onwards.
pub open spec fn from_id(logs: Seq<LogData>, since: u64) -> Seq<LogData>
    decreases logs.len(),
{
    if logs.len() == 0 || logs[0].id >= since {
        logs
    } else {
        from_id(logs.drop_first(), since)
    }
}

/// The first `n` entries.
pub open spec fn first_n(logs: Seq<LogData>, n: int) -> Seq<LogData> {
    logs.subrange(0, min_int(n, logs.len() as int))
}

/// What a query returns from the stored entries.
pub open spec fn query_result(
    logs: Seq<LogData>,
    level: Option<Seq<char>>,
    search: Option<Seq<char>>,
    size: Option<usize>,
    since: Option<u64>,
) -> Seq<LogData> {
    let m = matching_entries(logs, level, search);
    match since {
        Some(s) => first_n(from_id(m, s), effective_size(size)),
        None => newest_first(m, effective_size(size)),
    }
}

/// The stored entries after one more is appended: past 5000 entries, the
/// oldest 1000 are dropped.
pub open spec fn append_trimmed(logs: Seq<LogData>, d: LogData) -> Seq<LogData> {
    let s = logs.push(d);
    if s.len() > 5000 {
        s.subrange(1000, s.len() as int)
    } else {
        s
    }
}

/// Targets whose records are never stored.
pub open spec fn ignored_target(t: Seq<char>) -> bool {
    t == "sqlx::query"@ || t == "actix_web::middleware::logger"@
}

/// The level of a record, from the name its logger gave it; `Info` when the
/// name is none of the five.
pub open spec fn record_level(name: Seq<char>) -> LogLevel {
    match parse_level(name) {
        Some(l) => l,
        None => LogLevel::Info,
    }
}

/// Levels chosen by a query, one flag each.
struct LevelSet {
    error: bool,
    warn: bool,
    info: bool,
    debug: bool,
    trace: bool,
}

impl LevelSet {
    spec fn has(self, l: LogLevel) -> bool {
        match l {
            LogLevel::Error => self.error,
            LogLevel::Warn => self.warn,
            LogLevel::Info => self.info,
            LogLevel::Debug => self.debug,
            LogLevel::Trace => self.trace,
        }
    }

    fn contains(&self, l: LogLevel) -> (r: bool)
        ensures
            r == self.has(l),
    {
        match l {
            LogLevel::Error => self.error,
            LogLevel::Warn => self.warn,
            LogLevel::Info => self.info,
            LogLevel::Debug => self.debug,
            LogLevel::Trace => self.trace,
        }
    }
}

/// The levels named by the comma-separated pieces of `spec`.
fn selected_levels(spec: &String) -> (r: LevelSet)
    ensures
        forall|l: LogLevel| r.has(l) == level_selected(spec@, l),
{
    let v = chars_of(spec.as_str());
    let pieces = split_chars(v.as_slice(), ',');
    let ghost tokens = split_on(v@, ',');
    let mut set = LevelSet { error: false, warn: false, info: false, debug: false, trace: false };
    let mut k: usize = 0;
    while k < pieces.len()
        invariant
            v@ == spec@,
            tokens == split_on(v@, ','),
            pieces@.len() == tokens.len(),
            forall|j: int| 0 <= j < pieces@.len() ==> #[trigger] pieces@[j]@ == tokens[j],
            k <= pieces@.len(),
            forall|l: LogLevel|
                set.has(l) == (exists|j: int|
                    0 <= j < k && parse_level(#[trigger] tokens[j]) == Some(l)),
        decreases pieces@.len() - k,
    {
        let p = parse_level_chars(pieces[k].as_slice());
        assert(pieces@[k as int]@ == tokens[k as int]);
        let ghost old_set = set;
        match p {
            Some(LogLevel::Error) => { set.error = true; },
            Some(LogLevel::Warn) => { set.warn = true; },
            Some(LogLevel::Info) => { set.info = true; },
            Some(LogLevel::Debug) => { set.debug = true; },
            Some(LogLevel::Trace) => { set.trace = true; },
            None => {},
        }
        assert forall|l: LogLevel|
            set.has(l) == (exists|j: int|
                0 <= j < k + 1 && parse_level(#[trigger] tokens[j]) == Some(l)) by {
            if set.has(l) && !old_set.has(l) {
                assert(parse_level(tokens[k as int]) == Some(l));
            }
            if exists|j: int| 0 <= j < k + 1 && parse_level(#[trigger] tokens[j]) == Some(l) {
                let j = choose|j: int| 0 <= j < k + 1 && parse_level(#[trigger] tokens[j]) == Some(l);
                if j < k {
                    assert(old_set.has(l));
                }
            }
        }
        k = k + 1;
    }
    set
}

/// Whether an entry passes the filters of a query, given its levels.
fn passes(d: &LogData, levels: &Option<LevelSet>, search: &Option<Vec<char>>, ghost_level: Ghost<
    Option<Seq<char>>,
>, ghost_search: Ghost<Option<Seq<char>>>) -> (r: bool)
    requires
        match ghost_level@ {
            Some(s) => levels.is_some() && forall|l: LogLevel|
                levels.unwrap().has(l) == level_selected(s, l),
            None => levels.is_none(),
        },
        match ghost_search@ {
            Some(t) => search.is_some() && search.unwrap()@ == t,
            None => search.is_none(),
        },
    ensures
        r == entry_matches(*d, ghost_level@, ghost_search@),
{
    let level_ok = match levels {
        Some(set) => set.contains(d.level),
        None => true,
    };
    if !level_ok {
        return false;
    }
    match search {
        Some(needle) => {
            let hay = chars_of(d.args.as_str());
            contains_chars(hay.as_slice(), needle.as_slice())
        },
        None => true,
    }
}

/// The store of recent log entries and the id the next entry gets.
pub struct TempLogger {
    logs: Vec<LogData>,
    next_id: u64,
}

impl TempLogger {
    /// The stored entries, oldest first.
    pub closed spec fn entries(&self) -> Seq<LogData> {
        self.logs@
    }

    /// The id that the next stored entry gets.
    pub closed spec fn next_log_id(&self) -> u64 {
        self.next_id
    }

    /// An empty store whose first entry gets id 0.
    pub fn new() -> (r: TempLogger)
        ensures
            r.entries() == Seq::<LogData>::empty(),
            r.next_log_id() == 0,
    {
        TempLogger { logs: Vec::new(), next_id: 0 }
    }

    /// A store that holds the given entries.
    pub fn with_entries(logs: Vec<LogData>, next_id: u64) -> (r: TempLogger)
        ensures
            r.entries() == logs@,
            r.next_log_id() == next_id,
    {
        TempLogger { logs, next_id }
    }

    /// How many entries are stored.
    pub fn len(&self) -> (r: usize)
        ensures
            r == self.entries().len(),
    {
        self.logs.len()
    }

    /// Answers a query: the entries of the chosen levels whose message
    /// contains the search text, either the newest ones first, or, from the
    /// first entry whose id reaches `since`, the oldest ones first.
    pub fn read_log(&self, query: &LogQuery) -> (r: Vec<LogData>)
        ensures
            r@ == query_result(
                self.entries(),
                opt_view(query.level),
                opt_view(query.search),
                query.size,
                query.since,
            ),
            forall|k: int|
                0 <= k < r@.len() ==> (query.search matches Some(t) ==> contains_seq(#[trigger] r@[k].args@, t@)),
    {
        proof {
            crate::laws::query_returns_only_matching_entries(
                self.entries(),
                opt_view(query.level),
                opt_view(query.search),
                query.size,
                query.since,
            );
        }
        let ghost gl = opt_view(query.level);
        let ghost gs = opt_view(query.search);
        let levels: Option<LevelSet> = match &query.level {
            Some(spec) => Some(selected_levels(spec)),
            None => None,
        };
        let search: Option<Vec<char>> = match &query.search {
            Some(t) => Some(chars_of(t.as_str())),
            None => None,
        };
        let mut kept: Vec<LogData> = Vec::new();
        let mut i: usize = 0;
        while i < self.logs.len()
            invariant
                i <= self.logs@.len(),
                kept@ == matching_entries(self.logs@.subrange(0, i as int), gl, gs),
                gl == opt_view(query.level),
                gs == opt_view(query.search),
                match gl {
                    Some(s) => levels.is_some() && forall|l: LogLevel|
                        levels.unwrap().has(l) == level_selected(s, l),
                    None => levels.is_none(),
                },
                match gs {
                    Some(t) => search.is_some() && search.unwrap()@ == t,
                    None => search.is_none(),
                },
            decreases self.logs@.len() - i,
        {
            let ghost pre = self.logs@.subrange(0, i as int);
            let ghost cur = self.logs@.subrange(0, i + 1);
            assert(cur.drop_last() =~= pre);
            assert(cur.last() == self.logs@[i as int]);
            if passes(&self.logs[i], &levels, &search, Ghost(gl), Ghost(gs)) {
                let d = self.logs[i].duplicate();
                kept.push(d);
            }
            i = i + 1;
        }
        assert(self.logs@.subrange(0, self.logs@.len() as int) =~= self.logs@);
        let wanted: usize = match query.size {
            Some(n) => n,
            None => 100,
        };
        let size: usize = if wanted < 5000 {
            wanted
        } else {
            5000
        };
        match query.since {
            Some(since) => Self::read_since(kept.as_slice(), since, size),
            None => Self::read_size(kept.as_slice(), size),
        }
    }

    /// The last `size` entries, newest first.
    pub fn read_size(logs: &[LogData], size: usize) -> (r: Vec<LogData>)
        ensures
            r@ == newest_first(logs@, size as int),
    {
        let n = logs.len();
        let count = if size < n {
            size
        } else {
            n
        };
        let mut r: Vec<LogData> = Vec::new();
        let mut i: usize = 0;
        while i < count
            invariant
                n == logs@.len(),
                count == min_int(size as int, n as int),
                i <= count,
                r@.len() == i,
                forall|j: int| 0 <= j < i ==> r@[j] == logs@[n - 1 - j],
            decreases count - i,
        {
            let d = logs[n - 1 - i].duplicate();
            r.push(d);
            i = i + 1;
        }
        assert(r@ =~= newest_first(logs@, size as int));
        r
    }

    /// From the first entry whose id is at least `since`, at most `size`
    /// entries, oldest first.
    pub fn read_since(logs: &[LogData], since: u64, size: usize) -> (r: Vec<LogData>)
        ensures
            r@ == first_n(from_id(logs@, since), size as int),
    {
        let n = logs.len();
        let mut start: usize = 0;
        assert(logs@.subrange(0, n as int) =~= logs@);
        while start < n && logs[start].id < since
            invariant
                n == logs@.len(),
                start <= n,
                from_id(logs@, since) == from_id(logs@.subrange(start as int, n as int), since),
            decreases n - start,
        {
            let ghost s = logs@.subrange(start as int, n as int);
            assert(s.drop_first() =~= logs@.subrange(start + 1, n as int));
            assert(s[0] == logs@[start as int]);
            start = start + 1;
        }
        let ghost rest = logs@.subrange(start as int, n as int);
        assert(from_id(rest, since) == rest);
        let avail = n - start;
        let count = if size < avail {
            size
        } else {
            avail
        };
        let mut r: Vec<LogData> = Vec::new();
        let mut i: usize = 0;
        while i < count
            invariant
                n == logs@.len(),
                start <= n,
                avail == n - start,
                count <= avail,
                count == min_int(size as int, avail as int),
                i <= count,
                r@ == logs@.subrange(start as int, start + i),
            decreases count - i,
        {
            let d = logs[start + i].duplicate();
            r.push(d);
            i = i + 1;
            assert(r@ =~= logs@.subrange(start as int, start + i));
        }
        assert(r@ =~= first_n(rest, size as int));
        r
    }

    /// Records one log line. Lines from the two noisy targets are dropped
    /// (the result is then `false`); any other line gets the next id, its
    /// level parsed from `level_name` (`Info` when unknown), and is appended,
    /// the oldest 1000 lines being dropped once more than 5000 are stored.
    pub fn write_entry(&mut self, time: String, level_name: &str, target: String, args: String) -> (written: bool)
        ensures
            written == !ignored_target(target@),
            !written ==> final(self).entries() == old(self).entries() && final(self).next_log_id()
                == old(self).next_log_id(),
            written ==> final(self).entries() == append_trimmed(
                old(self).entries(),
                LogData {
                    id: old(self).next_log_id(),
                    time,
                    level: record_level(level_name@),
                    target,
                    args,
                },
            ) && final(self).next_log_id() == (if old(self).next_log_id() == u64::MAX {
                0
            } else {
                (old(self).next_log_id() + 1) as u64
            }),
    {
        if text_equals(target.as_str(), "sqlx::query") || text_equals(
            target.as_str(),
            "actix_web::middleware::logger",
        ) {
            return false;
        }
        let level = match LogLevel::from_str(level_name) {
            Ok(l) => l,
            Err(_) => LogLevel::Info,
        };
        let id = self.next_id;
        self.next_id = if self.next_id == u64::MAX {
            0
        } else {
            self.next_id + 1
        };
        let d = LogData { id, time, level, target, args };
        self.logs.push(d);
        if self.logs.len() > 5000 {
            let kept = self.logs.split_off(1000);
            self.logs = kept;
        }
        true
    }
}

} // verus!
