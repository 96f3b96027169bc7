//! Support for the launcher's diagnostics: naming exported log files,
//! recognising crash log files, and reading the distribution fields out of
//! an OS release file. The file reads themselves stay outside; the contents
//! are taken as arguments.

use vstd::prelude::*;
use vstd::string::StrSliceExecFns;
use vstd::string::StringExecFns;

use crate::strutil::{is_prefix_of, is_suffix_of, split_char, split_on, str_ends_with, str_starts_with};

verus! {

/// Application-level state shared with the command layer. Nothing lives
/// here yet.
pub struct AppState {}

/// What an open request points at: a file path, a URL, or a directory to
/// reveal.
#[derive(Debug, Clone)]
pub enum OpenTarget {
    Path(String),
    Url(String),
    Directory(String),
}

/// Whether a file name is one of our crash logs: `crash_` in front, `.log`
/// behind.
pub fn is_crash_log_name(name: &str) -> (r: bool)
    ensures
        r == (is_prefix_of("crash_"@, name@) && is_suffix_of(".log"@, name@)),
{
    str_starts_with(name, "crash_") && str_ends_with(name, ".log")
}

/// The file name a saved game log export gets: the game slug, a marker, and
/// the timestamp.
pub fn log_export_filename(slug: &str, timestamp: &str) -> (r: String)
    ensures
        r@ == slug@ + "_lutris_"@ + timestamp@ + ".log"@,
{
    let mut r = slug.to_owned();
    r.append("_lutris_");
    r.append(timestamp);
    r.append(".log");
    r
}

/// `s` with leading double quotes stripped.
pub open spec fn trim_quotes_front(s: Seq<char>) -> Seq<char>
    decreases s.len(),
{
    if s.len() > 0 && s[0] == '"' {
        trim_quotes_front(s.skip(1))
    } else {
        s
    }
}

/// `s` with trailing double quotes stripped.
pub open spec fn trim_quotes_back(s: Seq<char>) -> Seq<char>
    decreases s.len(),
{
    if s.len() > 0 && s.last() == '"' {
        trim_quotes_back(s.drop_last())
    } else {
        s
    }
}

/// `s` with double quotes stripped from both ends.
pub open spec fn trim_quotes(s: Seq<char>) -> Seq<char> {
    trim_quotes_back(trim_quotes_front(s))
}

/// Strips double quotes from both ends of a string.
pub fn str_trim_quotes(s: &str) -> (r: String)
    ensures
        r@ == trim_quotes(s@),
{
    let n = s.unicode_len();
    let mut lo: usize = 0;
    proof {
        assert(s@.skip(0) =~= s@);
    }
    while lo < n && s.get_char(lo) == '"'
        invariant
            n == s@.len(),
            lo <= n,
            trim_quotes_front(s@) == trim_quotes_front(s@.skip(lo as int)),
        decreases n - lo,
    {
        proof {
            assert(s@.skip(lo as int)[0] == s@[lo as int]);
            assert(s@.skip(lo as int).skip(1) =~= s@.skip(lo + 1));
        }
        lo = lo + 1;
    }
    proof {
        if lo < n {
            assert(s@.skip(lo as int)[0] == s@[lo as int]);
        } else {
            assert(s@.skip(lo as int) =~= Seq::<char>::empty());
        }
        assert(trim_quotes_front(s@) == s@.skip(lo as int));
    }
    let mut hi: usize = n;
    proof {
        assert(s@.skip(lo as int).take(n - lo as int) =~= s@.skip(lo as int));
    }
    while hi > lo && s.get_char(hi - 1) == '"'
        invariant
            n == s@.len(),
            lo <= hi <= n,
            trim_quotes_front(s@) == s@.skip(lo as int),
            trim_quotes_back(s@.skip(lo as int)) == trim_quotes_back(
                s@.skip(lo as int).take(hi - lo as int),
            ),
        decreases hi,
    {
        proof {
            let inner = s@.skip(lo as int).take(hi - lo as int);
            assert(inner.last() == s@[hi - 1]);
            assert(inner.drop_last() =~= s@.skip(lo as int).take(hi - 1 - lo as int));
        }
        hi = hi - 1;
    }
    proof {
        let inner = s@.skip(lo as int).take(hi - lo as int);
        if hi > lo {
            assert(inner.last() == s@[hi - 1]);
        } else {
            assert(inner =~= Seq::<char>::empty());
        }
        assert(trim_quotes_back(inner) == inner);
        assert(inner =~= s@.subrange(lo as int, hi as int));
    }
    s.substring_char(lo, hi).to_owned()
}

/// The value of the last line of `lines` that starts with `key`, quotes
/// stripped; absent when no line does.
pub open spec fn os_release_value(lines: Seq<Seq<char>>, key: Seq<char>) -> Option<Seq<char>>
    decreases lines.len(),
{
    if lines.len() == 0 {
        None
    } else if is_prefix_of(key, lines.last()) {
        Some(trim_quotes(lines.last().skip(key.len() as int)))
    } else {
        os_release_value(lines.drop_last(), key)
    }
}

/// Finds the value of a `KEY=`-prefixed field in OS release file contents,
/// the last occurrence winning, surrounding quotes stripped.
pub fn os_release_field(contents: &str, key: &str) -> (r: Option<String>)
    ensures
        match (r, os_release_value(split_on(contents@, '\n'), key@)) {
            (Some(v), Some(w)) => v@ == w,
            (None, None) => true,
            _ => false,
        },
{
    let lines = split_char(contents, '\n');
    let ghost line_views = lines@.map_values(|l: String| l@);
    let n = lines.len();
    let mut found: Option<String> = None;
    let mut i: usize = 0;
    while i < n
        invariant
            n == lines@.len(),
            i <= n,
            line_views == lines@.map_values(|l: String| l@),
            line_views == split_on(contents@, '\n'),
            match (&found, os_release_value(line_views.take(i as int), key@)) {
                (Some(v), Some(w)) => v@ == w,
                (None, None) => true,
                _ => false,
            },
        decreases n - i,
    {
        proof {
            assert(line_views.take(i + 1).drop_last() =~= line_views.take(i as int));
            assert(line_views.take(i + 1).last() == line_views[i as int]);
            assert(line_views[i as int] == lines@[i as int]@);
        }
        if str_starts_with(lines[i].as_str(), key) {
            let m = key.unicode_len();
            let line = &lines[i];
            let rest = line.as_str().substring_char(m, line.as_str().unicode_len());
            found = Some(str_trim_quotes(rest));
        }
        i = i + 1;
    }
    proof {
        assert(line_views.take(n as int) =~= line_views);
    }
    found
}

/// The distribution name and version an OS release file reports, each
/// `Unknown` when its field is missing.
pub fn parse_os_release(contents: &str) -> (r: (String, String))
    ensures
        r.0@ == match os_release_value(split_on(contents@, '\n'), "PRETTY_NAME="@) {
            Some(v) => v,
            None => "Unknown"@,
        },
        r.1@ == match os_release_value(split_on(contents@, '\n'), "VERSION="@) {
            Some(v) => v,
            None => "Unknown"@,
        },
{
    let name = match os_release_field(contents, "PRETTY_NAME=") {
        Some(v) => v,
        None => "Unknown".to_owned(),
    };
    let version = match os_release_field(contents, "VERSION=") {
        Some(v) => v,
        None => "Unknown".to_owned(),
    };
    (name, version)
}

} // verus!
