//! The `~/.ssh/config` parser: `Host` blocks and the directives within them.
//!
//! Reading files is not done here. `SshConfigParser` takes the config one line
//! at a time and reports each `Include` directive, so that whoever reads files
//! can parse the included ones and hand their entries back in order.
use vstd::prelude::*;
use crate::connection::{entries_view, new_entry_view, SshConfigEntry, SshConfigEntryView};
use crate::path::{expand_tilde, expand_tilde_spec, join_path, join_path_spec};
use crate::text::{
    ascii_lowercase, chars_of, decimal, find_first, has_char, is_ascii_text, lemma_find_first,
    lemma_parse_decimal,
    lemma_lines_concat, lemma_lines_of_line, lines, lowercase_text, strip_cr,
    parse_bounded, parse_unsigned, split_lines, string_from_chars, sub_chars, trim, trim_chars,
};
use crate::trusted::{home_dir, lowercase};

verus! {

broadcast use vstd::string::group_string_axioms;

// ---------------------------------------------------------------------------
// Specification
// ---------------------------------------------------------------------------

/// The directives the parser acts on.
#[derive(Debug, Clone, Copy, PartialEq, Eq, Structural)]
pub enum Keyword {
    Host,
    HostName,
    Port,
    User,
    IdentityFile,
    ProxyJump,
    ForwardAgent,
    Include,
    Other,
}

/// Separates a keyword from its value.
pub open spec fn keyword_sep() -> spec_fn(char) -> bool {
    |c: char| c == ' ' || c == '\t'
}

/// A trimmed line split at its first space or tab into keyword and rest; none
/// for blank lines, comments and lines without a value.
pub open spec fn split_line(raw: Seq<char>) -> Option<(Seq<char>, Seq<char>)> {
    let line = trim(raw);
    if line.len() == 0 || line[0] == '#' {
        None
    } else {
        let i = find_first(line, keyword_sep());
        if 0 <= i < line.len() {
            Some((line.take(i), line.skip(i + 1)))
        } else {
            None
        }
    }
}

/// `s` without leading `'"'` characters.
pub open spec fn trim_start_quotes(s: Seq<char>) -> Seq<char>
    decreases s.len(),
{
    if s.len() > 0 && s[0] == '"' {
        trim_start_quotes(s.drop_first())
    } else {
        s
    }
}

/// `s` without trailing `'"'` characters.
pub open spec fn trim_end_quotes(s: Seq<char>) -> Seq<char>
    decreases s.len(),
{
    if s.len() > 0 && s.last() == '"' {
        trim_end_quotes(s.drop_last())
    } else {
        s
    }
}

/// Index of the first `" #"` in `s`, or `s.len()`.
pub open spec fn comment_start(s: Seq<char>) -> int
    decreases s.len(),
{
    if s.len() < 2 {
        s.len() as int
    } else if s[0] == ' ' && s[1] == '#' {
        0
    } else {
        1 + comment_start(s.drop_first())
    }
}

/// The value of a directive: trimmed; then, if it starts with a quote, without
/// its leading and trailing quotes, otherwise cut before the first `" #"`.
pub open spec fn clean_value(rest: Seq<char>) -> Seq<char> {
    let v = trim(rest);
    if v.len() > 0 && v[0] == '"' {
        trim_end_quotes(trim_start_quotes(v))
    } else {
        v.take(comment_start(v))
    }
}

/// The directive a lowercased keyword names.
pub open spec fn keyword_of(k: Seq<char>) -> Keyword {
    if k == "host"@ {
        Keyword::Host
    } else if k == "hostname"@ {
        Keyword::HostName
    } else if k == "port"@ {
        Keyword::Port
    } else if k == "user"@ {
        Keyword::User
    } else if k == "identityfile"@ {
        Keyword::IdentityFile
    } else if k == "proxyjump"@ {
        Keyword::ProxyJump
    } else if k == "forwardagent"@ {
        Keyword::ForwardAgent
    } else if k == "include"@ {
        Keyword::Include
    } else {
        Keyword::Other
    }
}

/// The directive of one line and its value; none for a line that is skipped.
/// Keywords are matched without regard to case.
pub open spec fn line_directive(raw: Seq<char>) -> Option<(Keyword, Seq<char>)> {
    match split_line(raw) {
        Some((kw, rest)) => Some((keyword_of(lowercase_text(kw)), clean_value(rest))),
        None => None,
    }
}

/// The code of `c` after ASCII lowercasing.
pub open spec fn ascii_lower_code(c: char) -> u32 {
    if 'A' <= c && c <= 'Z' {
        (c as u32 + 32) as u32
    } else {
        c as u32
    }
}

/// `str::eq_ignore_ascii_case`.
pub open spec fn eq_ignore_ascii_case(a: Seq<char>, b: Seq<char>) -> bool {
    a.len() == b.len() && forall|i: int|
        0 <= i < a.len() ==> ascii_lower_code(#[trigger] a[i]) == ascii_lower_code(b[i])
}

/// The parser's state: finished entries, and the `Host` block being read.
pub struct ParserView {
    pub entries: Seq<SshConfigEntryView>,
    pub current: Option<SshConfigEntryView>,
}

/// The finished entries, the current block included.
pub open spec fn flushed(st: ParserView) -> Seq<SshConfigEntryView> {
    match st.current {
        Some(e) => st.entries.push(e),
        None => st.entries,
    }
}

pub open spec fn with_current(st: ParserView, e: Option<SshConfigEntryView>) -> ParserView {
    ParserView { entries: st.entries, current: e }
}

/// What one line does to the parser state. `Host` closes the current block and
/// opens one for the alias, unless the alias holds `*`; the other directives
/// set a field of the open block, and do nothing outside a block. `Include`
/// changes nothing here: the included entries are added separately.
pub open spec fn step(st: ParserView, raw: Seq<char>, ssh_dir: Seq<char>, home: Seq<char>) -> ParserView {
    match line_directive(raw) {
        None => st,
        Some((k, v)) => match k {
            Keyword::Host => ParserView {
                entries: flushed(st),
                current: if crate::text::has_char(v, '*') {
                    None
                } else {
                    Some(new_entry_view(v))
                },
            },
            Keyword::Include => st,
            Keyword::Other => st,
            _ => match st.current {
                None => st,
                Some(e) => with_current(
                    st,
                    Some(
                        match k {
                            Keyword::HostName => SshConfigEntryView { hostname: Some(v), ..e },
                            Keyword::Port => SshConfigEntryView {
                                port: match parse_unsigned(v, 65535) {
                                    Some(n) => Some(n as u16),
                                    None => None,
                                },
                                ..e
                            },
                            Keyword::User => SshConfigEntryView { user: Some(v), ..e },
                            Keyword::IdentityFile => SshConfigEntryView {
                                identity_file: Some(expand_tilde_spec(v, ssh_dir, home)),
                                ..e
                            },
                            Keyword::ProxyJump => SshConfigEntryView { proxy_jump: Some(v), ..e },
                            _ => SshConfigEntryView {
                                forward_agent: eq_ignore_ascii_case(v, "yes"@),
                                ..e
                            },
                        },
                    ),
                ),
            },
        },
    }
}

/// The pattern of the files a line includes, with `~` and relative paths expanded.
pub open spec fn include_pattern(raw: Seq<char>, ssh_dir: Seq<char>, home: Seq<char>) -> Option<Seq<char>> {
    match line_directive(raw) {
        Some((Keyword::Include, v)) => Some(expand_tilde_spec(v, ssh_dir, home)),
        _ => None,
    }
}

pub open spec fn initial_state() -> ParserView {
    ParserView { entries: Seq::empty(), current: None }
}

/// What one line does to the parser state and to the count `k` of `Include`
/// lines read so far: the `k`-th `Include` line adds `inc[k]`, the entries of
/// the files it includes, after the finished entries (none when `inc` has no
/// `k`-th item); the other lines act as `step` says.
pub open spec fn step_inc(
    st: ParserView,
    k: nat,
    raw: Seq<char>,
    ssh_dir: Seq<char>,
    home: Seq<char>,
    inc: Seq<Seq<SshConfigEntryView>>,
) -> (ParserView, nat) {
    match include_pattern(raw, ssh_dir, home) {
        Some(_) => (
            ParserView {
                entries: st.entries + (if k < inc.len() {
                    inc[k as int]
                } else {
                    Seq::empty()
                }),
                current: st.current,
            },
            k + 1,
        ),
        None => (step(st, raw, ssh_dir, home), k),
    }
}

/// The state and `Include` count after the lines `ls`.
pub open spec fn run(
    st: ParserView,
    k: nat,
    ls: Seq<Seq<char>>,
    ssh_dir: Seq<char>,
    home: Seq<char>,
    inc: Seq<Seq<SshConfigEntryView>>,
) -> (ParserView, nat)
    decreases ls.len(),
{
    if ls.len() == 0 {
        (st, k)
    } else {
        let (s2, k2) = step_inc(st, k, ls[0], ssh_dir, home, inc);
        run(s2, k2, ls.drop_first(), ssh_dir, home, inc)
    }
}

/// The entries of a config text, in order, where relative paths are taken
/// under `ssh_dir`, `~` means `home`, and the `k`-th `Include` line brings in
/// the entries `inc[k]` at its place.
pub open spec fn parse_config_spec(
    content: Seq<char>,
    ssh_dir: Seq<char>,
    home: Seq<char>,
    inc: Seq<Seq<SshConfigEntryView>>,
) -> Seq<SshConfigEntryView> {
    flushed(run(initial_state(), 0, lines(content), ssh_dir, home, inc).0)
}

/// The views of the entries of each included file.
pub open spec fn included_view(included: Seq<Vec<SshConfigEntry>>) -> Seq<Seq<SshConfigEntryView>> {
    included.map_values(|v: Vec<SshConfigEntry>| entries_view(v@))
}

// ---------------------------------------------------------------------------
// Line analysis
// ---------------------------------------------------------------------------

/// Whether the characters `v` are those of `s`.
pub fn same_chars(v: &Vec<char>, s: &str) -> (r: bool)
    ensures
        r == (v@ == s@),
{
    let w = chars_of(s);
    if v.len() != w.len() {
        return false;
    }
    let mut i: usize = 0;
    while i < v.len()
        invariant
            i <= v.len() == w.len(),
            w@ == s@,
            forall|k: int| 0 <= k < i ==> v@[k] == w@[k],
        decreases v.len() - i,
    {
        if v[i] != w[i] {
            return false;
        }
        i += 1;
    }
    assert(v@ =~= w@);
    true
}

fn keyword_exec(k: &Vec<char>) -> (r: Keyword)
    ensures
        r == keyword_of(k@),
{
    if same_chars(k, "host") {
        Keyword::Host
    } else if same_chars(k, "hostname") {
        Keyword::HostName
    } else if same_chars(k, "port") {
        Keyword::Port
    } else if same_chars(k, "user") {
        Keyword::User
    } else if same_chars(k, "identityfile") {
        Keyword::IdentityFile
    } else if same_chars(k, "proxyjump") {
        Keyword::ProxyJump
    } else if same_chars(k, "forwardagent") {
        Keyword::ForwardAgent
    } else if same_chars(k, "include") {
        Keyword::Include
    } else {
        Keyword::Other
    }
}

fn clean_value_exec(rest: &Vec<char>) -> (r: Vec<char>)
    ensures
        r@ == clean_value(rest@),
{
    let v = trim_chars(rest);
    let n = v.len();
    if n > 0 && v[0] == '"' {
        let mut lo: usize = 0;
        assert(v@.subrange(0, n as int) =~= v@);
        while lo < n && v[lo] == '"'
            invariant
                lo <= n == v.len(),
                trim_start_quotes(v@) == trim_start_quotes(v@.subrange(lo as int, n as int)),
            decreases n - lo,
        {
            assert(v@.subrange(lo as int, n as int).drop_first() =~= v@.subrange(
                lo as int + 1,
                n as int,
            ));
            lo += 1;
        }
        let mut hi: usize = n;
        while hi > lo && v[hi - 1] == '"'
            invariant
                lo <= hi <= n == v.len(),
                trim_end_quotes(trim_start_quotes(v@)) == trim_end_quotes(
                    v@.subrange(lo as int, hi as int),
                ),
            decreases hi - lo,
        {
            assert(v@.subrange(lo as int, hi as int).drop_last() =~= v@.subrange(
                lo as int,
                hi as int - 1,
            ));
            hi -= 1;
        }
        sub_chars(&v, lo, hi)
    } else {
        let mut i: usize = 0;
        assert(v@.skip(0) =~= v@);
        while i < n && !comment_here(&v, i)
            invariant
                i <= n == v.len(),
                comment_start(v@) == i + comment_start(v@.skip(i as int)),
            decreases n - i,
        {
            assert(v@.skip(i as int).drop_first() =~= v@.skip(i + 1));
            if i + 1 == n {
                assert(v@.skip(i + 1).len() == 0);
            }
            i += 1;
        }
        if i < n {
            sub_chars(&v, 0, i)
        } else {
            assert(v@.skip(n as int).len() == 0);
            assert(v@.take(n as int) =~= v@);
            sub_chars(&v, 0, n)
        }
    }
}

fn comment_here(v: &Vec<char>, i: usize) -> (r: bool)
    requires
        i < v.len(),
    ensures
        r == (i + 1 < v.len() && v@[i as int] == ' ' && v@[i + 1] == '#'),
{
    i + 1 < v.len() && v[i] == ' ' && v[i + 1] == '#'
}

/// The directive of a line and its value; `None` for a line that is skipped.
pub fn line_directive_exec(raw: &Vec<char>) -> (r: Option<(Keyword, Vec<char>)>)
    ensures
        match r {
            Some((k, v)) => line_directive(raw@) == Some((k, v@)),
            None => line_directive(raw@) is None,
        },
{
    let line = trim_chars(raw);
    let n = line.len();
    if n == 0 || line[0] == '#' {
        return None;
    }
    let mut i: usize = 0;
    while i < n && !(line[i] == ' ' || line[i] == '\t')
        invariant
            i <= n == line.len(),
            forall|k: int| 0 <= k < i ==> !keyword_sep()(#[trigger] line@[k]),
        decreases n - i,
    {
        i += 1;
    }
    proof {
        lemma_find_first(line@, keyword_sep(), i as int);
    }
    if i == n {
        return None;
    }
    let kw = sub_chars(&line, 0, i);
    let rest = sub_chars(&line, i + 1, n);
    assert(kw@ =~= line@.take(i as int));
    assert(rest@ =~= line@.skip(i + 1));
    let lower = lowercase(string_from_chars(&kw).as_str());
    let k = keyword_exec(&chars_of(lower.as_str()));
    Some((k, clean_value_exec(&rest)))
}

fn eq_ignore_ascii_case_exec(a: &Vec<char>, b: &Vec<char>) -> (r: bool)
    ensures
        r == eq_ignore_ascii_case(a@, b@),
{
    if a.len() != b.len() {
        return false;
    }
    let mut i: usize = 0;
    while i < a.len()
        invariant
            i <= a.len() == b.len(),
            forall|k: int| 0 <= k < i ==> ascii_lower_code(#[trigger] a@[k]) == ascii_lower_code(b@[k]),
        decreases a.len() - i,
    {
        let x = a[i];
        let y = b[i];
        let lx: u32 = if 'A' <= x && x <= 'Z' { x as u32 + 32 } else { x as u32 };
        let ly: u32 = if 'A' <= y && y <= 'Z' { y as u32 + 32 } else { y as u32 };
        if lx != ly {
            return false;
        }
        i += 1;
    }
    true
}

// ---------------------------------------------------------------------------
// The parser
// ---------------------------------------------------------------------------

/// A `~/.ssh/config` parser fed one line at a time.
pub struct SshConfigParser {
    entries: Vec<SshConfigEntry>,
    current: Option<SshConfigEntry>,
}

impl View for SshConfigParser {
    type V = ParserView;

    closed spec fn view(&self) -> ParserView {
        ParserView {
            entries: entries_view(self.entries@),
            current: match self.current {
                Some(e) => Some(e@),
                None => None,
            },
        }
    }
}

impl SshConfigParser {
    /// A parser that has read nothing.
    pub fn new() -> (r: Self)
        ensures
            r@ == initial_state(),
    {
        let r = SshConfigParser { entries: Vec::new(), current: None };
        assert(r@.entries =~= Seq::<SshConfigEntryView>::empty());
        r
    }

    fn feed_chars(&mut self, raw: &Vec<char>, ssh_dir: &str, home: &str) -> (r: Option<String>)
        ensures
            final(self)@ == step(old(self)@, raw@, ssh_dir@, home@),
            r.deep_view() == include_pattern(raw@, ssh_dir@, home@),
    {
        match line_directive_exec(raw) {
            None => None,
            Some((k, v)) => {
                match k {
                    Keyword::Host => {
                        let cur = self.current.take();
                        match cur {
                            Some(e) => {
                                let ghost before = entries_view(self.entries@);
                                self.entries.push(e);
                                assert(entries_view(self.entries@) =~= before.push(e@));
                            },
                            None => {},
                        }
                        let mut star = false;
                        let mut i: usize = 0;
                        while i < v.len()
                            invariant
                                i <= v.len(),
                                star == (exists|j: int| 0 <= j < i && v@[j] == '*'),
                            decreases v.len() - i,
                        {
                            if v[i] == '*' {
                                star = true;
                            }
                            i += 1;
                        }
                        if !star {
                            let alias = string_from_chars(&v);
                            self.current = Some(
                                SshConfigEntry {
                                    host_alias: alias,
                                    hostname: None,
                                    port: None,
                                    user: None,
                                    identity_file: None,
                                    proxy_jump: None,
                                    forward_agent: false,
                                },
                            );
                        }
                        None
                    },
                    Keyword::Include => {
                        let value = string_from_chars(&v);
                        Some(expand_tilde(value.as_str(), ssh_dir, home))
                    },
                    Keyword::Other => None,
                    _ => {
                        let cur = self.current.take();
                        match cur {
                            None => {},
                            Some(e) => {
                                let mut e = e;
                                match k {
                                    Keyword::HostName => {
                                        e.hostname = Some(string_from_chars(&v));
                                    },
                                    Keyword::Port => {
                                        e.port = match parse_bounded(&v, 65535) {
                                            Some(n) => Some(n as u16),
                                            None => None,
                                        };
                                    },
                                    Keyword::User => {
                                        e.user = Some(string_from_chars(&v));
                                    },
                                    Keyword::IdentityFile => {
                                        let value = string_from_chars(&v);
                                        e.identity_file = Some(
                                            expand_tilde(value.as_str(), ssh_dir, home),
                                        );
                                    },
                                    Keyword::ProxyJump => {
                                        e.proxy_jump = Some(string_from_chars(&v));
                                    },
                                    _ => {
                                        let yes = chars_of("yes");
                                        e.forward_agent = eq_ignore_ascii_case_exec(&v, &yes);
                                    },
                                }
                                self.current = Some(e);
                            },
                        }
                        None
                    },
                }
            },
        }
    }

    /// Reads one line of a config. Returns the pattern of the files that the
    /// line includes, for an `Include` directive; the entries of those files
    /// are then handed to `add_included`.
    pub fn feed_line(&mut self, raw: &str, ssh_dir: &str, home: &str) -> (r: Option<String>)
        ensures
            final(self)@ == step(old(self)@, raw@, ssh_dir@, home@),
            r.deep_view() == include_pattern(raw@, ssh_dir@, home@),
    {
        self.feed_chars(&chars_of(raw), ssh_dir, home)
    }

    /// Adds the entries of included files, after the entries finished so far
    /// (the block being read stays open).
    pub fn add_included(&mut self, included: Vec<SshConfigEntry>)
        ensures
            final(self)@ == (ParserView {
                entries: old(self)@.entries + entries_view(included@),
                current: old(self)@.current,
            }),
    {
        let mut included = included;
        let ghost before = entries_view(self.entries@);
        let ghost inc = entries_view(included@);
        self.entries.append(&mut included);
        assert(entries_view(self.entries@) =~= before + inc);
    }

    /// The entries read, the last block included.
    pub fn finish(self) -> (r: Vec<SshConfigEntry>)
        ensures
            entries_view(r@) == flushed(self@),
    {
        let mut entries = self.entries;
        match self.current {
            Some(e) => {
                let ghost before = entries_view(entries@);
                entries.push(e);
                assert(entries_view(entries@) =~= before.push(e@));
            },
            None => {},
        }
        entries
    }
}

/// Errors of locating `~/.ssh/config`.
#[derive(Debug, Clone, Copy, PartialEq, Eq, Structural)]
pub enum SshConfigError {
    /// The home directory is not known.
    HomeDirNotFound,
}

/// Copies of config entries, in order.
fn clone_entries(v: &Vec<SshConfigEntry>) -> (r: Vec<SshConfigEntry>)
    ensures
        entries_view(r@) == entries_view(v@),
{
    let mut r: Vec<SshConfigEntry> = Vec::new();
    let mut i: usize = 0;
    while i < v.len()
        invariant
            i <= v.len(),
            r@ == v@.take(i as int),
        decreases v.len() - i,
    {
        r.push(v[i].clone());
        assert(v@.take(i + 1) =~= v@.take(i as int).push(v@[i as int]));
        i += 1;
    }
    assert(v@.take(v.len() as int) =~= v@);
    r
}

/// The entries of a config text, where relative paths are taken under
/// `ssh_dir` and `~` means `home`. The `k`-th `Include` line brings in
/// `included[k]`, the entries of the files it includes (reading them is the
/// caller's part: `SshConfigParser::feed_line` reports each pattern), after
/// the entries finished before it.
pub fn parse_ssh_config_content_with_home(
    content: &str,
    ssh_dir: &str,
    home: &str,
    included: &Vec<Vec<SshConfigEntry>>,
) -> (r: Vec<SshConfigEntry>)
    ensures
        entries_view(r@) == parse_config_spec(content@, ssh_dir@, home@, included_view(included@)),
{
    let ls = split_lines(&chars_of(content));
    let ghost all = ls@.map_values(|l: Vec<char>| l@);
    let ghost inc = included_view(included@);
    let mut p = SshConfigParser::new();
    let mut i: usize = 0;
    let mut k: usize = 0;
    assert(all.skip(0) =~= all);
    while i < ls.len()
        invariant
            i <= ls.len(),
            k <= i,
            all == ls@.map_values(|l: Vec<char>| l@),
            all == lines(content@),
            inc == included_view(included@),
            run(initial_state(), 0, all, ssh_dir@, home@, inc) == run(
                p@,
                k as nat,
                all.skip(i as int),
                ssh_dir@,
                home@,
                inc,
            ),
        decreases ls.len() - i,
    {
        assert(all.skip(i as int).drop_first() =~= all.skip(i + 1));
        assert(all.skip(i as int)[0] == ls@[i as int]@);
        let pattern = p.feed_chars(&ls[i], ssh_dir, home);
        if pattern.is_some() {
            if k < included.len() {
                p.add_included(clone_entries(&included[k]));
            } else {
                assert(p@.entries + Seq::<SshConfigEntryView>::empty() =~= p@.entries);
            }
            k += 1;
        }
        i += 1;
    }
    assert(all.skip(ls.len() as int) =~= Seq::<Seq<char>>::empty());
    p.finish()
}

/// The entries of a config text, relative paths taken under `ssh_dir` and `~`
/// under the user's home directory as the machine reports it (empty when it
/// reports none); the `k`-th `Include` line brings in `included[k]`, the
/// entries of the files it includes, at its place.
pub fn parse_ssh_config_content(
    content: &str,
    ssh_dir: &str,
    included: &Vec<Vec<SshConfigEntry>>,
) -> (r: Result<Vec<SshConfigEntry>, SshConfigError>)
    ensures
        r is Ok,
        exists|home: Seq<char>|
            entries_view(r->Ok_0@) == parse_config_spec(
                content@,
                ssh_dir@,
                home,
                included_view(included@),
            ),
{
    let home = match home_dir() {
        Some(h) => h,
        None => String::new(),
    };
    Ok(parse_ssh_config_content_with_home(content, ssh_dir, home.as_str(), included))
}

/// The `.ssh` directory under the home directory.
pub fn ssh_dir_from_home(home: &Option<String>) -> (r: Result<String, SshConfigError>)
    ensures
        match home {
            Some(h) => r == Ok::<String, SshConfigError>(r->Ok_0) && r->Ok_0@ == join_path_spec(h@, ".ssh"@),
            None => r == Err::<String, SshConfigError>(SshConfigError::HomeDirNotFound),
        },
{
    match home {
        Some(h) => Ok(join_path(h.as_str(), ".ssh")),
        None => Err(SshConfigError::HomeDirNotFound),
    }
}


// ---------------------------------------------------------------------------
// Laws
// ---------------------------------------------------------------------------

/// No alias of the state's entries, nor of its open block, holds `*`.
pub open spec fn no_wildcards(st: ParserView) -> bool {
    &&& forall|i: int|
        0 <= i < st.entries.len() ==> !crate::text::has_char(#[trigger] st.entries[i].host_alias, '*')
    &&& st.current matches Some(e) ==> !crate::text::has_char(e.host_alias, '*')
}

proof fn lemma_step_no_wildcards(st: ParserView, raw: Seq<char>, ssh_dir: Seq<char>, home: Seq<char>)
    requires
        no_wildcards(st),
    ensures
        no_wildcards(step(st, raw, ssh_dir, home)),
{
    let next = step(st, raw, ssh_dir, home);
    match line_directive(raw) {
        Some((Keyword::Host, v)) => {
            assert forall|i: int| 0 <= i < next.entries.len() implies !crate::text::has_char(
                #[trigger] next.entries[i].host_alias,
                '*',
            ) by {
                if i < st.entries.len() {
                    assert(next.entries[i] == st.entries[i]);
                }
            }
        },
        _ => {},
    }
}

/// Entries none of whose aliases holds `*`.
pub open spec fn no_wildcard_entries(es: Seq<SshConfigEntryView>) -> bool {
    forall|i: int| 0 <= i < es.len() ==> !crate::text::has_char(#[trigger] es[i].host_alias, '*')
}

proof fn lemma_run_no_wildcards(
    st: ParserView,
    k: nat,
    ls: Seq<Seq<char>>,
    ssh_dir: Seq<char>,
    home: Seq<char>,
    inc: Seq<Seq<SshConfigEntryView>>,
)
    requires
        no_wildcards(st),
        forall|j: int| 0 <= j < inc.len() ==> no_wildcard_entries(#[trigger] inc[j]),
    ensures
        no_wildcards(run(st, k, ls, ssh_dir, home, inc).0),
    decreases ls.len(),
{
    if ls.len() > 0 {
        let (s2, k2) = step_inc(st, k, ls[0], ssh_dir, home, inc);
        match include_pattern(ls[0], ssh_dir, home) {
            Some(_) => {
                let added = if k < inc.len() {
                    inc[k as int]
                } else {
                    Seq::empty()
                };
                if k < inc.len() {
                    assert(no_wildcard_entries(inc[k as int]));
                }
                assert forall|i: int| 0 <= i < s2.entries.len() implies !crate::text::has_char(
                    #[trigger] s2.entries[i].host_alias,
                    '*',
                ) by {
                    if i < st.entries.len() {
                        assert(s2.entries[i] == st.entries[i]);
                    } else {
                        assert(s2.entries[i] == added[i - st.entries.len()]);
                    }
                }
            },
            None => {
                lemma_step_no_wildcards(st, ls[0], ssh_dir, home);
            },
        }
        lemma_run_no_wildcards(s2, k2, ls.drop_first(), ssh_dir, home, inc);
    }
}

/// `Host` patterns with a wildcard yield no entry: no alias of a parsed
/// config holds `*`, as long as none of the included entries does.
pub proof fn law_no_wildcard_hosts(
    content: Seq<char>,
    ssh_dir: Seq<char>,
    home: Seq<char>,
    inc: Seq<Seq<SshConfigEntryView>>,
)
    requires
        forall|j: int| 0 <= j < inc.len() ==> no_wildcard_entries(#[trigger] inc[j]),
    ensures
        no_wildcard_entries(parse_config_spec(content, ssh_dir, home, inc)),
{
    lemma_run_no_wildcards(initial_state(), 0, lines(content), ssh_dir, home, inc);
    let st = run(initial_state(), 0, lines(content), ssh_dir, home, inc).0;
    let r = flushed(st);
    assert forall|i: int| 0 <= i < r.len() implies !crate::text::has_char(#[trigger] r[i].host_alias, '*') by {
        if i < st.entries.len() {
            assert(r[i] == st.entries[i]);
        }
    }
}

/// Blank lines, comments and lines without a value leave the parser as it was.
pub proof fn law_skipped_lines_change_nothing(
    st: ParserView,
    k: nat,
    raw: Seq<char>,
    ssh_dir: Seq<char>,
    home: Seq<char>,
    inc: Seq<Seq<SshConfigEntryView>>,
)
    requires
        split_line(raw) is None,
    ensures
        step_inc(st, k, raw, ssh_dir, home, inc) == (st, k),
        include_pattern(raw, ssh_dir, home) is None,
{
}

proof fn lemma_run_concat(
    st: ParserView,
    k: nat,
    a: Seq<Seq<char>>,
    b: Seq<Seq<char>>,
    ssh_dir: Seq<char>,
    home: Seq<char>,
    inc: Seq<Seq<SshConfigEntryView>>,
)
    ensures
        run(st, k, a + b, ssh_dir, home, inc) == ({
            let (s2, k2) = run(st, k, a, ssh_dir, home, inc);
            run(s2, k2, b, ssh_dir, home, inc)
        }),
    decreases a.len(),
{
    if a.len() == 0 {
        assert(a + b =~= b);
    } else {
        assert((a + b)[0] == a[0]);
        assert((a + b).drop_first() =~= a.drop_first() + b);
        let (s2, k2) = step_inc(st, k, a[0], ssh_dir, home, inc);
        lemma_run_concat(s2, k2, a.drop_first(), b, ssh_dir, home, inc);
    }
}

/// A blank line, a comment or a line without a value, put anywhere among the
/// lines of a config, changes nothing.
pub proof fn law_skipped_line_anywhere(
    st: ParserView,
    k: nat,
    ls: Seq<Seq<char>>,
    i: int,
    raw: Seq<char>,
    ssh_dir: Seq<char>,
    home: Seq<char>,
    inc: Seq<Seq<SshConfigEntryView>>,
)
    requires
        0 <= i <= ls.len(),
        split_line(raw) is None,
    ensures
        run(st, k, ls.take(i) + seq![raw] + ls.skip(i), ssh_dir, home, inc) == run(
            st,
            k,
            ls,
            ssh_dir,
            home,
            inc,
        ),
{
    let (s1, k1) = run(st, k, ls.take(i), ssh_dir, home, inc);
    lemma_run_concat(st, k, ls.take(i) + seq![raw], ls.skip(i), ssh_dir, home, inc);
    lemma_run_concat(st, k, ls.take(i), seq![raw], ssh_dir, home, inc);
    assert(seq![raw].drop_first() =~= Seq::<Seq<char>>::empty());
    law_skipped_lines_change_nothing(s1, k1, raw, ssh_dir, home, inc);
    assert(seq![raw][0] == raw);
    assert(run(s1, k1, Seq::<Seq<char>>::empty(), ssh_dir, home, inc) == (s1, k1));
    assert(run(s1, k1, seq![raw], ssh_dir, home, inc) == (s1, k1));
    lemma_run_concat(st, k, ls.take(i), ls.skip(i), ssh_dir, home, inc);
    assert(ls.take(i) + ls.skip(i) =~= ls);
}

/// Two lines that differ only in the ASCII letter case of their keyword do
/// the same.
pub proof fn law_keyword_case_ignored(
    st: ParserView,
    k: nat,
    raw1: Seq<char>,
    raw2: Seq<char>,
    kw1: Seq<char>,
    kw2: Seq<char>,
    rest: Seq<char>,
    ssh_dir: Seq<char>,
    home: Seq<char>,
    inc: Seq<Seq<SshConfigEntryView>>,
)
    requires
        split_line(raw1) == Some((kw1, rest)),
        split_line(raw2) == Some((kw2, rest)),
        is_ascii_text(kw1),
        is_ascii_text(kw2),
        ascii_lowercase(kw1) == ascii_lowercase(kw2),
    ensures
        line_directive(raw1) == line_directive(raw2),
        step_inc(st, k, raw1, ssh_dir, home, inc) == step_inc(st, k, raw2, ssh_dir, home, inc),
{
}

/// Replacing a line of a config by one whose keyword differs only in ASCII
/// letter case changes nothing.
pub proof fn law_keyword_case_anywhere(
    st: ParserView,
    k: nat,
    ls: Seq<Seq<char>>,
    i: int,
    raw2: Seq<char>,
    kw1: Seq<char>,
    kw2: Seq<char>,
    rest: Seq<char>,
    ssh_dir: Seq<char>,
    home: Seq<char>,
    inc: Seq<Seq<SshConfigEntryView>>,
)
    requires
        0 <= i < ls.len(),
        split_line(ls[i]) == Some((kw1, rest)),
        split_line(raw2) == Some((kw2, rest)),
        is_ascii_text(kw1),
        is_ascii_text(kw2),
        ascii_lowercase(kw1) == ascii_lowercase(kw2),
    ensures
        run(st, k, ls.update(i, raw2), ssh_dir, home, inc) == run(st, k, ls, ssh_dir, home, inc),
{
    let ls2 = ls.update(i, raw2);
    assert(ls =~= ls.take(i) + seq![ls[i]] + ls.skip(i + 1));
    assert(ls2 =~= ls.take(i) + seq![raw2] + ls.skip(i + 1));
    let (s1, k1) = run(st, k, ls.take(i), ssh_dir, home, inc);
    lemma_run_concat(st, k, ls.take(i) + seq![ls[i]], ls.skip(i + 1), ssh_dir, home, inc);
    lemma_run_concat(st, k, ls.take(i) + seq![raw2], ls.skip(i + 1), ssh_dir, home, inc);
    lemma_run_concat(st, k, ls.take(i), seq![ls[i]], ssh_dir, home, inc);
    lemma_run_concat(st, k, ls.take(i), seq![raw2], ssh_dir, home, inc);
    assert(seq![ls[i]].drop_first() =~= Seq::<Seq<char>>::empty());
    assert(seq![raw2].drop_first() =~= Seq::<Seq<char>>::empty());
    law_keyword_case_ignored(s1, k1, ls[i], raw2, kw1, kw2, rest, ssh_dir, home, inc);
}

/// A directive other than `Host` and `Include` before any `Host` block
/// changes no entry and creates none.
pub proof fn law_directive_outside_block(
    ls: Seq<Seq<char>>,
    raw: Seq<char>,
    ssh_dir: Seq<char>,
    home: Seq<char>,
    inc: Seq<Seq<SshConfigEntryView>>,
)
    requires
        line_directive(raw) matches Some((kw, v)) && kw != Keyword::Host && kw != Keyword::Include,
    ensures
        run(initial_state(), 0, seq![raw] + ls, ssh_dir, home, inc) == run(
            initial_state(),
            0,
            ls,
            ssh_dir,
            home,
            inc,
        ),
{
    assert((seq![raw] + ls)[0] == raw);
    assert((seq![raw] + ls).drop_first() =~= ls);
}

/// The lines of a text that has the line `l` at a line boundary after `a`.
proof fn lemma_lines_around(a: Seq<char>, l: Seq<char>, b: Seq<char>)
    requires
        a.len() == 0 || a.last() == '\n',
        !has_char(l, '\n'),
    ensures
        lines(a + l + seq!['\n'] + b) == lines(a) + seq![strip_cr(l)] + lines(b),
        lines(a + b) == lines(a) + lines(b),
{
    assert(a + l + seq!['\n'] + b =~= a + ((l + seq!['\n']) + b));
    lemma_lines_concat(a, (l + seq!['\n']) + b);
    lemma_lines_concat(l + seq!['\n'], b);
    lemma_lines_of_line(l);
    lemma_lines_concat(a, b);
    assert(lines(a) + (seq![strip_cr(l)] + lines(b)) =~= lines(a) + seq![strip_cr(l)] + lines(b));
}

/// In a config text, a blank line, a comment or a line without a value put
/// at any line boundary changes no entry.
pub proof fn law_skipped_line_in_text(
    a: Seq<char>,
    l: Seq<char>,
    b: Seq<char>,
    ssh_dir: Seq<char>,
    home: Seq<char>,
    inc: Seq<Seq<SshConfigEntryView>>,
)
    requires
        a.len() == 0 || a.last() == '\n',
        !has_char(l, '\n'),
        split_line(strip_cr(l)) is None,
    ensures
        parse_config_spec(a + l + seq!['\n'] + b, ssh_dir, home, inc) == parse_config_spec(
            a + b,
            ssh_dir,
            home,
            inc,
        ),
{
    lemma_lines_around(a, l, b);
    let ls = lines(a) + lines(b);
    let i = lines(a).len() as int;
    assert(ls.take(i) + seq![strip_cr(l)] + ls.skip(i) =~= lines(a) + seq![strip_cr(l)] + lines(b));
    law_skipped_line_anywhere(initial_state(), 0, ls, i, strip_cr(l), ssh_dir, home, inc);
}

/// In a config text, writing the keyword of a line in another ASCII letter
/// case changes no entry.
pub proof fn law_keyword_case_in_text(
    a: Seq<char>,
    l1: Seq<char>,
    l2: Seq<char>,
    b: Seq<char>,
    kw1: Seq<char>,
    kw2: Seq<char>,
    rest: Seq<char>,
    ssh_dir: Seq<char>,
    home: Seq<char>,
    inc: Seq<Seq<SshConfigEntryView>>,
)
    requires
        a.len() == 0 || a.last() == '\n',
        !has_char(l1, '\n'),
        !has_char(l2, '\n'),
        split_line(strip_cr(l1)) == Some((kw1, rest)),
        split_line(strip_cr(l2)) == Some((kw2, rest)),
        is_ascii_text(kw1),
        is_ascii_text(kw2),
        ascii_lowercase(kw1) == ascii_lowercase(kw2),
    ensures
        parse_config_spec(a + l1 + seq!['\n'] + b, ssh_dir, home, inc) == parse_config_spec(
            a + l2 + seq!['\n'] + b,
            ssh_dir,
            home,
            inc,
        ),
{
    lemma_lines_around(a, l1, b);
    lemma_lines_around(a, l2, b);
    let ls = lines(a) + seq![strip_cr(l1)] + lines(b);
    let i = lines(a).len() as int;
    assert(ls[i] == strip_cr(l1));
    assert(ls.update(i, strip_cr(l2)) =~= lines(a) + seq![strip_cr(l2)] + lines(b));
    law_keyword_case_anywhere(
        initial_state(),
        0,
        ls,
        i,
        strip_cr(l2),
        kw1,
        kw2,
        rest,
        ssh_dir,
        home,
        inc,
    );
}

/// In a config text, a first line holding a directive other than `Host` and
/// `Include` changes no entry and creates none.
pub proof fn law_directive_line_before_text(
    l: Seq<char>,
    c: Seq<char>,
    ssh_dir: Seq<char>,
    home: Seq<char>,
    inc: Seq<Seq<SshConfigEntryView>>,
)
    requires
        !has_char(l, '\n'),
        line_directive(strip_cr(l)) matches Some((kw, v)) && kw != Keyword::Host && kw
            != Keyword::Include,
    ensures
        parse_config_spec(l + seq!['\n'] + c, ssh_dir, home, inc) == parse_config_spec(
            c,
            ssh_dir,
            home,
            inc,
        ),
{
    lemma_lines_around(Seq::empty(), l, c);
    assert(Seq::<char>::empty() + l + seq!['\n'] + c =~= l + seq!['\n'] + c);
    assert(lines(Seq::<char>::empty()) =~= Seq::<Seq<char>>::empty());
    assert(lines(Seq::<char>::empty()) + seq![strip_cr(l)] + lines(c) =~= seq![strip_cr(l)] + lines(c));
    law_directive_outside_block(lines(c), strip_cr(l), ssh_dir, home, inc);
}

/// The keywords the parser knows, after lowercasing: each names its own
/// directive, and every other word is ignored.
pub proof fn law_keyword_names(k: Seq<char>)
    ensures
        keyword_of(k) == Keyword::Host <==> k == "host"@,
        keyword_of(k) == Keyword::HostName <==> k == "hostname"@,
        keyword_of(k) == Keyword::Port <==> k == "port"@,
        keyword_of(k) == Keyword::User <==> k == "user"@,
        keyword_of(k) == Keyword::IdentityFile <==> k == "identityfile"@,
        keyword_of(k) == Keyword::ProxyJump <==> k == "proxyjump"@,
        keyword_of(k) == Keyword::ForwardAgent <==> k == "forwardagent"@,
        keyword_of(k) == Keyword::Include <==> k == "include"@,
        keyword_of(k) == Keyword::Other <==> !(k == "host"@ || k == "hostname"@ || k == "port"@ || k
            == "user"@ || k == "identityfile"@ || k == "proxyjump"@ || k == "forwardagent"@ || k
            == "include"@),
{
    reveal_strlit("host");
    reveal_strlit("hostname");
    reveal_strlit("port");
    reveal_strlit("user");
    reveal_strlit("identityfile");
    reveal_strlit("proxyjump");
    reveal_strlit("forwardagent");
    reveal_strlit("include");
    assert("host"@[0] != "port"@[0]);
    assert("host"@[0] != "user"@[0]);
    assert("port"@[0] != "user"@[0]);
    assert("proxyjump"@[0] != "forwardagent"@[0]);
    assert("identityfile"@[0] != "forwardagent"@[0]);
    assert("host"@.len() == 4 && "port"@.len() == 4 && "user"@.len() == 4);
    assert("hostname"@.len() == 8 && "proxyjump"@.len() == 9 && "include"@.len() == 7);
    assert("identityfile"@.len() == 12 && "forwardagent"@.len() == 12);
}

/// Inside a `Host` block, a `Port` line whose value is the decimal text of
/// `n` sets the open entry's port to `n` when `n` fits in 16 bits, and to
/// none otherwise; nothing else changes.
pub proof fn law_port_in_block(st: ParserView, raw: Seq<char>, n: nat, ssh_dir: Seq<char>, home: Seq<char>)
    requires
        st.current is Some,
        line_directive(raw) == Some((Keyword::Port, decimal(n))),
    ensures
        step(st, raw, ssh_dir, home) == (ParserView {
            entries: st.entries,
            current: Some(
                SshConfigEntryView {
                    port: if n <= 65535 {
                        Some(n as u16)
                    } else {
                        None
                    },
                    ..st.current->Some_0
                },
            ),
        }),
{
    lemma_parse_decimal(n, 65535);
}

/// Inside a `Host` block, `HostName`, `User`, `ProxyJump` and `IdentityFile`
/// set their own field of the open entry to the line's value (a key path
/// expanded), and `ForwardAgent` turns agent forwarding on exactly for `yes`
/// in any letter case; nothing else changes.
pub proof fn law_fields_in_block(
    st: ParserView,
    raw: Seq<char>,
    k: Keyword,
    v: Seq<char>,
    ssh_dir: Seq<char>,
    home: Seq<char>,
)
    requires
        st.current is Some,
        line_directive(raw) == Some((k, v)),
    ensures
        ({
            let e = st.current->Some_0;
            let next = step(st, raw, ssh_dir, home);
            &&& k != Keyword::Host ==> next.entries == st.entries
            &&& k == Keyword::HostName ==> next.current == Some(SshConfigEntryView { hostname: Some(v), ..e })
            &&& k == Keyword::User ==> next.current == Some(SshConfigEntryView { user: Some(v), ..e })
            &&& k == Keyword::ProxyJump ==> next.current == Some(SshConfigEntryView { proxy_jump: Some(v), ..e })
            &&& k == Keyword::IdentityFile ==> next.current == Some(
                SshConfigEntryView { identity_file: Some(expand_tilde_spec(v, ssh_dir, home)), ..e },
            )
            &&& k == Keyword::ForwardAgent ==> next.current == Some(
                SshConfigEntryView { forward_agent: ascii_lowercase(v) == "yes"@, ..e },
            )
            &&& (k == Keyword::Include || k == Keyword::Other) ==> next == st
        }),
{
    if k == Keyword::ForwardAgent {
        reveal_strlit("yes");
        let y = "yes"@;
        if eq_ignore_ascii_case(v, y) {
            assert forall|i: int| 0 <= i < v.len() implies #[trigger] ascii_lowercase(v)[i] == y[i] by {
                assert(ascii_lower_code(v[i]) == ascii_lower_code(y[i]));
            }
            assert(ascii_lowercase(v) =~= y);
        }
        if ascii_lowercase(v) == y {
            assert forall|i: int| 0 <= i < v.len() implies ascii_lower_code(#[trigger] v[i]) == ascii_lower_code(y[i]) by {
                assert(ascii_lowercase(v)[i] == y[i]);
            }
        }
    }
}

/// A `Host` line closes the open block, keeping it as an entry, and opens a
/// new one for its alias with nothing else set, unless the alias holds `*`.
pub proof fn law_host_opens_block(st: ParserView, raw: Seq<char>, v: Seq<char>, ssh_dir: Seq<char>, home: Seq<char>)
    requires
        line_directive(raw) == Some((Keyword::Host, v)),
    ensures
        step(st, raw, ssh_dir, home).entries == (match st.current {
            Some(e) => st.entries.push(e),
            None => st.entries,
        }),
        step(st, raw, ssh_dir, home).current == (if has_char(v, '*') {
            None
        } else {
            Some(
                SshConfigEntryView {
                    host_alias: v,
                    hostname: None,
                    port: None,
                    user: None,
                    identity_file: None,
                    proxy_jump: None,
                    forward_agent: false,
                },
            )
        }),
{
}

} // verus!
