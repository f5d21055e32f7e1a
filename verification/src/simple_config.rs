//! A compact configuration form: one global level, one console destination
//! and one file destination with rotation. It predates the full routing
//! configuration and remains for callers that need nothing more.

use vstd::prelude::*;
use vstd::string::*;
use crate::Error;
use crate::config::util::{file_size_value, parse_file_size};
use crate::level::LevelFilter;

verus! {

/// The compact configuration: a global level, the console switch, and
/// the file destination.
#[derive(Debug)]
pub struct Config {
    pub level: LevelFilter,
    pub stdout: StdoutConfig,
    pub file: FileConfig,
}

impl Default for Config {
    fn default() -> (r: Self)
        ensures
            r.level == LevelFilter::Info,
            r.stdout.enable,
            r.stdout.use_color,
            !r.file.enable,
            r.file.filename@ == Seq::<char>::empty(),
            r.file.rotate_size == 0x8000000u64,
            r.file.max_rotated_num == 1u32,
    {
        Config { level: LevelFilter::Info, stdout: StdoutConfig::default(), file: FileConfig::default() }
    }
}

/// The console destination of the compact form.
#[derive(Debug)]
pub struct StdoutConfig {
    pub enable: bool,
    pub use_color: bool,
}

impl Default for StdoutConfig {
    fn default() -> (r: Self)
        ensures
            r.enable,
            r.use_color,
    {
        StdoutConfig { enable: true, use_color: true }
    }
}

/// The file destination of the compact form.
#[derive(Debug)]
pub struct FileConfig {
    pub enable: bool,
    pub filename: String,
    pub rotate_size: u64,
    pub max_rotated_num: u32,
}

impl Default for FileConfig {
    fn default() -> (r: Self)
        ensures
            !r.enable,
            r.filename@ == Seq::<char>::empty(),
            r.rotate_size == 0x8000000u64,
            r.max_rotated_num == 1u32,
    {
        FileConfig {
            enable: false,
            filename: String::new(),
            rotate_size: 0x8000000,
            max_rotated_num: 1,
        }
    }
}

/// Is `c` one of the whitespace characters the size parser strips?
pub open spec fn is_space(c: char) -> bool {
    c == ' ' || c == '\t' || c == '\n' || c == '\r'
}

/// `s` without its leading whitespace.
pub open spec fn ltrim(s: Seq<char>) -> Seq<char>
    decreases s.len(),
{
    if s.len() > 0 && is_space(s[0]) {
        ltrim(s.drop_first())
    } else {
        s
    }
}

/// `s` without its trailing whitespace.
pub open spec fn rtrim(s: Seq<char>) -> Seq<char>
    decreases s.len(),
{
    if s.len() > 0 && is_space(s.last()) {
        rtrim(s.drop_last())
    } else {
        s
    }
}

/// `s` without leading and trailing whitespace.
pub open spec fn trimmed(s: Seq<char>) -> Seq<char> {
    rtrim(ltrim(s))
}

proof fn lemma_ltrim(s: Seq<char>, lo: int)
    requires
        0 <= lo <= s.len(),
        forall|j: int| 0 <= j < lo ==> is_space(s[j]),
        lo < s.len() ==> !is_space(s[lo]),
    ensures
        ltrim(s) == s.subrange(lo, s.len() as int),
    decreases lo,
{
    if lo == 0 {
        assert(ltrim(s) =~= s.subrange(0, s.len() as int));
    } else {
        assert(is_space(s[0]));
        let t = s.drop_first();
        assert(forall|j: int| 0 <= j < lo - 1 ==> is_space(#[trigger] t[j]));
        lemma_ltrim(t, lo - 1);
        assert(t.subrange(lo - 1, t.len() as int) =~= s.subrange(lo, s.len() as int));
    }
}

proof fn lemma_rtrim(s: Seq<char>, hi: int)
    requires
        0 <= hi <= s.len(),
        forall|j: int| hi <= j < s.len() ==> is_space(s[j]),
        hi > 0 ==> !is_space(s[hi - 1]),
    ensures
        rtrim(s) == s.subrange(0, hi),
    decreases s.len() - hi,
{
    if hi == s.len() {
        assert(rtrim(s) =~= s.subrange(0, hi));
    } else {
        assert(is_space(s.last()));
        let t = s.drop_last();
        assert(forall|j: int| hi <= j < t.len() ==> is_space(#[trigger] t[j]));
        lemma_rtrim(t, hi);
        assert(t.subrange(0, hi) =~= s.subrange(0, hi));
    }
}

fn is_space_char(c: char) -> (r: bool)
    ensures
        r == is_space(c),
{
    c == ' ' || c == '\t' || c == '\n' || c == '\r'
}

/// Parses the compact form's rotation size: the size syntax of
/// `parse_file_size`, surrounding whitespace allowed.
pub fn parse_rotate_size(s: &str) -> (r: Result<u64, Error>)
    ensures
        r is Ok <==> (file_size_value(trimmed(s@)) matches Some(n) && n <= u64::MAX as int),
        r matches Ok(v) ==> file_size_value(trimmed(s@)) == Some(v as int),
{
    let len = s.unicode_len();
    let mut lo: usize = 0;
    while lo < len && is_space_char(s.get_char(lo))
        invariant
            lo <= len,
            len == s@.len(),
            forall|j: int| 0 <= j < lo ==> is_space(s@[j]),
        decreases len - lo,
    {
        lo = lo + 1;
    }
    let mut hi: usize = len;
    while hi > lo && is_space_char(s.get_char(hi - 1))
        invariant
            lo <= hi <= len,
            len == s@.len(),
            forall|j: int| 0 <= j < lo ==> is_space(s@[j]),
            forall|j: int| hi <= j < len ==> is_space(s@[j]),
        decreases hi,
    {
        hi = hi - 1;
    }
    let core = s.substring_char(lo, hi);
    proof {
        lemma_ltrim(s@, lo as int);
        let t = s@.subrange(lo as int, len as int);
        assert(forall|j: int| hi - lo <= j < t.len() ==> is_space(#[trigger] t[j]));
        lemma_rtrim(t, hi - lo);
        assert(core@ =~= t.subrange(0, hi - lo));
        assert(core@ =~= trimmed(s@));
    }
    parse_file_size(core)
}

} // verus!
