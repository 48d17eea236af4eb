//! Files of `NAME=value` lines, as pointed to by `env_file:`.

use vstd::prelude::*;

use crate::text::chars_of;
use crate::var_map::VarMap;

verus! {

/// Characters with the Unicode `White_Space` property.
pub open spec fn is_space_char(c: char) -> bool {
    ('\u{9}' <= c && c <= '\u{d}') || c == ' ' || c == '\u{85}' || c == '\u{a0}' || c
        == '\u{1680}' || ('\u{2000}' <= c && c <= '\u{200a}') || c == '\u{2028}' || c
        == '\u{2029}' || c == '\u{202f}' || c == '\u{205f}' || c == '\u{3000}'
}

/// A character that may start a variable name.
pub open spec fn is_name_start(c: char) -> bool {
    c == '_' || ('a' <= c && c <= 'z') || ('A' <= c && c <= 'Z')
}

/// A character that may continue a variable name.
pub open spec fn is_name_char(c: char) -> bool {
    is_name_start(c) || ('0' <= c && c <= '9')
}

/// `[_A-Za-z][_A-Za-z0-9]*`. Lower case is accepted, though POSIX does not
/// ask for it.
pub open spec fn is_var_name(s: Seq<char>) -> bool {
    &&& s.len() > 0
    &&& is_name_start(s[0])
    &&& forall|i: int| 1 <= i < s.len() ==> is_name_char(s[i])
}

/// The first `k` characters of `l` are white space.
pub open spec fn spaces_before(l: Seq<char>, k: int) -> bool {
    forall|i: int| 0 <= i < k ==> is_space_char(l[i])
}

/// A line of only white space, optionally followed by a `#` comment.
pub open spec fn is_blank_line(l: Seq<char>) -> bool {
    exists|k: int|
        0 <= k <= l.len() && #[trigger] spaces_before(l, k) && (k == l.len() || l[k] == '#')
}

/// The line is `name=value` with `=` at `p`.
pub open spec fn is_assignment_at(l: Seq<char>, p: int) -> bool {
    0 <= p < l.len() && l[p] == '=' && is_var_name(l.take(p))
}

/// What a line of an env file says.
pub enum LineKind {
    /// A blank or comment line.
    Blank,
    /// An assignment of a value to a name.
    Assign(Seq<char>, Seq<char>),
    /// Neither: the file is malformed.
    Invalid,
}

/// The meaning of one line. The value is the rest of the line, quotes and
/// backslashes included.
pub open spec fn line_kind(l: Seq<char>) -> LineKind {
    if is_blank_line(l) {
        LineKind::Blank
    } else if exists|p: int| is_assignment_at(l, p) {
        let p = choose|p: int| is_assignment_at(l, p);
        LineKind::Assign(l.take(p), l.skip(p + 1))
    } else {
        LineKind::Invalid
    }
}

/// The index of the first `\n` at or after `i`, or the length of `s`.
pub open spec fn newline_from(s: Seq<char>, i: int) -> int
    decreases s.len() - i,
{
    if i < 0 || i >= s.len() {
        s.len() as int
    } else if s[i] == '\n' {
        i
    } else {
        newline_from(s, i + 1)
    }
}

/// A line as ended by `\n`: a `\r` before the `\n` is no part of it.
pub open spec fn strip_cr(l: Seq<char>) -> Seq<char> {
    if l.len() > 0 && l.last() == '\r' {
        l.drop_last()
    } else {
        l
    }
}

/// The lines of `s` from index `i` on. Lines end at `\n` or `\r\n`; a last
/// line without an end is kept whole, and an end of text just after a `\n`
/// starts no line.
pub open spec fn lines_from(s: Seq<char>, i: int) -> Seq<Seq<char>>
    decreases s.len() - i,
{
    if i < 0 || i >= s.len() {
        Seq::empty()
    } else {
        let j = newline_from(s, i);
        if i <= j < s.len() {
            seq![strip_cr(s.subrange(i, j))] + lines_from(s, j + 1)
        } else {
            seq![s.subrange(i, s.len() as int)]
        }
    }
}

proof fn lemma_newline_from_bounds(s: Seq<char>, i: int)
    requires
        0 <= i <= s.len(),
    ensures
        i <= newline_from(s, i) <= s.len(),
        newline_from(s, i) < s.len() ==> s[newline_from(s, i)] == '\n',
    decreases s.len() - i,
{
    if i < s.len() && s[i] != '\n' {
        lemma_newline_from_bounds(s, i + 1);
    }
}

/// The first line from `start` on, and where the next one starts.
proof fn lemma_first_line(s: Seq<char>, start: int)
    requires
        0 <= start < s.len(),
    ensures
        ({
            let end = newline_from(s, start);
            let ls = lines_from(s, start);
            let next = if end < s.len() {
                end + 1
            } else {
                s.len() as int
            };
            &&& start <= end <= s.len()
            &&& ls.len() > 0
            &&& ls[0] == if end < s.len() {
                strip_cr(s.subrange(start, end))
            } else {
                s.subrange(start, s.len() as int)
            }
            &&& ls.skip(1) == lines_from(s, next)
        }),
{
    lemma_newline_from_bounds(s, start);
    let end = newline_from(s, start);
    let ls = lines_from(s, start);
    if end < s.len() {
        assert(ls.skip(1) =~= lines_from(s, end + 1));
    } else {
        assert(ls.skip(1) =~= lines_from(s, s.len() as int));
    }
}

/// The lines of a text.
pub open spec fn lines_of(s: Seq<char>) -> Seq<Seq<char>> {
    lines_from(s, 0)
}

/// The variables that `lines` assign, starting from `m`, or the first
/// line that is neither blank, a comment nor an assignment.
pub open spec fn assign_lines(m: Map<Seq<char>, Seq<char>>, lines: Seq<Seq<char>>) -> Result<
    Map<Seq<char>, Seq<char>>,
    Seq<char>,
>
    decreases lines.len(),
{
    if lines.len() == 0 {
        Ok(m)
    } else {
        match line_kind(lines[0]) {
            LineKind::Blank => assign_lines(m, lines.skip(1)),
            LineKind::Assign(k, v) => assign_lines(m.insert(k, v), lines.skip(1)),
            LineKind::Invalid => Err(lines[0]),
        }
    }
}

/// What an env file of text `s` holds: its variables, or the first
/// malformed line.
pub open spec fn env_of(s: Seq<char>) -> Result<Map<Seq<char>, Seq<char>>, Seq<char>> {
    assign_lines(Map::empty(), lines_of(s))
}

/// `true` when `c` has the Unicode `White_Space` property.
pub fn is_space(c: char) -> (r: bool)
    ensures
        r == is_space_char(c),
{
    ('\u{9}' <= c && c <= '\u{d}') || c == ' ' || c == '\u{85}' || c == '\u{a0}' || c == '\u{1680}'
        || ('\u{2000}' <= c && c <= '\u{200a}') || c == '\u{2028}' || c == '\u{2029}' || c
        == '\u{202f}' || c == '\u{205f}' || c == '\u{3000}'
}

fn is_name_start_char(c: char) -> (r: bool)
    ensures
        r == is_name_start(c),
{
    c == '_' || ('a' <= c && c <= 'z') || ('A' <= c && c <= 'Z')
}

fn is_name_continue_char(c: char) -> (r: bool)
    ensures
        r == is_name_char(c),
{
    is_name_start_char(c) || ('0' <= c && c <= '9')
}

/// Whether `cs[lo..hi]` is a blank or comment line.
fn blank_line(cs: &Vec<char>, lo: usize, hi: usize) -> (r: bool)
    requires
        lo <= hi <= cs@.len(),
    ensures
        r == is_blank_line(cs@.subrange(lo as int, hi as int)),
{
    let ghost l = cs@.subrange(lo as int, hi as int);
    let mut k: usize = lo;
    while k < hi && is_space(cs[k])
        invariant
            lo <= k <= hi <= cs@.len(),
            l == cs@.subrange(lo as int, hi as int),
            forall|i: int| 0 <= i < k - lo ==> is_space_char(l[i]),
        decreases hi - k,
    {
        k = k + 1;
    }
    let r = k == hi || cs[k] == '#';
    proof {
        let kk = k - lo;
        if k < hi {
            assert(l[kk as int] == cs@[k as int]);
        }
        assert(spaces_before(l, kk as int));
        if !r {
            assert forall|j: int| 0 <= j <= l.len() && #[trigger] spaces_before(l, j) implies !(j
                == l.len() || l[j] == '#') by {
                if j < kk {
                    assert(is_space_char(l[j]));
                } else if j > kk {
                    assert(is_space_char(l[kk]));
                }
            }
        }
    }
    r
}

/// Where `cs[lo..hi]` is `name=value`, the index of its `=`.
fn assignment_split(cs: &Vec<char>, lo: usize, hi: usize) -> (r: Option<usize>)
    requires
        lo <= hi <= cs@.len(),
    ensures
        match r {
            Some(p) => lo <= p < hi && is_assignment_at(
                cs@.subrange(lo as int, hi as int),
                p - lo,
            ),
            None => !exists|p: int| is_assignment_at(cs@.subrange(lo as int, hi as int), p),
        },
{
    let ghost l = cs@.subrange(lo as int, hi as int);
    if lo == hi || !is_name_start_char(cs[lo]) {
        proof {
            assert forall|p: int| !is_assignment_at(l, p) by {
                if is_assignment_at(l, p) {
                    assert(l.take(p)[0] == l[0]);
                }
            }
        }
        return None;
    }
    let mut k: usize = lo + 1;
    while k < hi && is_name_continue_char(cs[k])
        invariant
            lo < k <= hi <= cs@.len(),
            l == cs@.subrange(lo as int, hi as int),
            is_name_start(l[0]),
            forall|i: int| 1 <= i < k - lo ==> is_name_char(l[i]),
        decreases hi - k,
    {
        k = k + 1;
    }
    let kk: usize = k - lo;
    if k < hi && cs[k] == '=' {
        proof {
            assert(is_var_name(l.take(kk as int)));
        }
        Some(k)
    } else {
        proof {
            assert forall|p: int| !is_assignment_at(l, p) by {
                if is_assignment_at(l, p) {
                    if p < kk {
                        assert(is_name_char(l[p]));
                    } else if p > kk {
                        assert(l.take(p)[kk as int] == l[kk as int]);
                        assert(is_name_char(l[kk as int]));
                    }
                }
            }
        }
        None
    }
}

proof fn lemma_assignment_unique(l: Seq<char>, p: int, q: int)
    requires
        is_assignment_at(l, p),
        is_assignment_at(l, q),
    ensures
        p == q,
{
    if p < q {
        assert(l.take(q)[p] == l[p]);
    } else if q < p {
        assert(l.take(p)[q] == l[q]);
    }
}

proof fn lemma_assign_lines_push(
    m: Map<Seq<char>, Seq<char>>,
    ls: Seq<Seq<char>>,
    l: Seq<char>,
)
    ensures
        assign_lines(m, ls.push(l)) == match assign_lines(m, ls) {
            Ok(m2) => assign_lines(m2, seq![l]),
            Err(e) => Err(e),
        },
    decreases ls.len(),
{
    if ls.len() == 0 {
        assert(ls.push(l) =~= seq![l]);
    } else {
        assert(ls.push(l)[0] == ls[0]);
        assert(ls.push(l).skip(1) =~= ls.skip(1).push(l));
        match line_kind(ls[0]) {
            LineKind::Blank => lemma_assign_lines_push(m, ls.skip(1), l),
            LineKind::Assign(k, v) => lemma_assign_lines_push(m.insert(k, v), ls.skip(1), l),
            LineKind::Invalid => {},
        }
    }
}

/// A line `k=v` means what it says: `k` is a name and `v` the rest of the
/// line.
proof fn lemma_assignment_line(k: Seq<char>, v: Seq<char>)
    requires
        is_var_name(k),
    ensures
        line_kind(k + seq!['='] + v) == LineKind::Assign(k, v),
{
    let l = k + seq!['='] + v;
    assert(l[0] == k[0]);
    assert(!is_blank_line(l)) by {
        assert forall|j: int| 0 <= j <= l.len() && #[trigger] spaces_before(l, j) implies !(j
            == l.len() || l[j] == '#') by {
            if j > 0 {
                assert(is_space_char(l[0]));
            }
        }
    }
    assert(l.take(k.len() as int) =~= k);
    assert(is_assignment_at(l, k.len() as int));
    let p = choose|p: int| is_assignment_at(l, p);
    lemma_assignment_unique(l, p, k.len() as int);
    assert(l.skip(k.len() as int + 1) =~= v);
}

/// A later assignment to a name overrides every earlier one: after any
/// well-formed lines, a line `k=v` leaves `k` holding `v`.
pub proof fn lemma_later_assignment_wins(lines: Seq<Seq<char>>, k: Seq<char>, v: Seq<char>)
    requires
        is_var_name(k),
        assign_lines(Map::empty(), lines) is Ok,
    ensures
        assign_lines(Map::empty(), lines.push(k + seq!['='] + v)) == Ok::<_, Seq<char>>(
            assign_lines(Map::empty(), lines)->Ok_0.insert(k, v),
        ),
{
    let l = k + seq!['='] + v;
    lemma_assign_lines_push(Map::empty(), lines, l);
    lemma_assignment_line(k, v);
    let m2 = assign_lines(Map::empty(), lines)->Ok_0;
    assert(seq![l].skip(1) =~= Seq::<Seq<char>>::empty());
    assert(assign_lines(m2.insert(k, v), seq![l].skip(1)) == Ok::<_, Seq<char>>(m2.insert(k, v)));
}

/// Why an env file could not be read.
#[derive(Debug, PartialEq, Eq)]
pub enum EnvFileError {
    /// A line that is neither blank, a comment nor `name=value`.
    ParseEnv(String),
}

/// A file pointed to by an `env_file:` field.
pub struct EnvFile {
    /// The variables found in the file.
    vars: VarMap,
}

impl View for EnvFile {
    type V = Map<Seq<char>, Seq<char>>;

    closed spec fn view(&self) -> Map<Seq<char>, Seq<char>> {
        self.vars@
    }
}

impl EnvFile {
    /// The variables are held one entry per name.
    pub closed spec fn wf(&self) -> bool {
        self.vars.wf()
    }

    /// Read an env file from its text. Blank lines and `#` comments are
    /// skipped; each other line must be `name=value`, where the value is the
    /// rest of the line, taken as it stands. A later value of a name
    /// replaces an earlier one.
    pub fn read(input: &str) -> (r: Result<EnvFile, EnvFileError>)
        ensures
            match r {
                Ok(f) => f.wf() && env_of(input@) == Ok::<_, Seq<char>>(f@),
                Err(EnvFileError::ParseEnv(line)) => env_of(input@) == Err::<
                    Map<Seq<char>, Seq<char>>,
                    _,
                >(line@),
            },
    {
        let cs = chars_of(input);
        let ghost s = input@;
        let n = cs.len();
        let mut vars = VarMap::new();
        let mut start: usize = 0;
        while start < n
            invariant
                cs@ == s,
                s == input@,
                n == s.len(),
                start <= n,
                vars.wf(),
                env_of(s) == assign_lines(vars@, lines_from(s, start as int)),
            decreases n - start,
        {
            let mut end: usize = start;
            while end < n && cs[end] != '\n'
                invariant
                    cs@ == s,
                    n == s.len(),
                    start <= end <= n,
                    newline_from(s, start as int) == newline_from(s, end as int),
                decreases n - end,
            {
                end = end + 1;
            }
            // The line is cs[start..stop]; the next one starts at `next`.
            let mut stop = end;
            if end < n && stop > start && cs[stop - 1] == '\r' {
                stop = stop - 1;
            }
            let next: usize = if end < n {
                end + 1
            } else {
                n
            };
            let ghost line = cs@.subrange(start as int, stop as int);
            proof {
                lemma_first_line(s, start as int);
                if end < n {
                    assert(line =~= strip_cr(s.subrange(start as int, end as int)));
                } else {
                    assert(line =~= s.subrange(start as int, n as int));
                }
                assert(lines_from(s, start as int)[0] == line);
            }
            if !blank_line(&cs, start, stop) {
                match assignment_split(&cs, start, stop) {
                    Some(p) => {
                        let key = input.substring_char(start, p).to_owned();
                        let value = input.substring_char(p + 1, stop).to_owned();
                        proof {
                            let q = choose|q: int| is_assignment_at(line, q);
                            lemma_assignment_unique(line, q, p - start);
                            assert(key@ =~= line.take(p - start));
                            assert(value@ =~= line.skip(p - start + 1));
                        }
                        vars.insert(key, value);
                    },
                    None => {
                        let text = input.substring_char(start, stop).to_owned();
                        return Err(EnvFileError::ParseEnv(text));
                    },
                }
            }
            start = next;
        }
        Ok(EnvFile { vars })
    }

    /// The variables, each name once.
    pub fn as_map(&self) -> (r: &VarMap)
        requires
            self.wf(),
        ensures
            r.wf(),
            r@ == self@,
    {
        &self.vars
    }
}

} // verus!
