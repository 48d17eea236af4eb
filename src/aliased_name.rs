//! Names of outside resources with an optional alias: `name` or `name:alias`.

use vstd::prelude::*;

use crate::error::InvalidValueError;
use crate::text::{chars_of, contains_char};

verus! {

/// A text that may stand on either side of the separator: it holds no `:`.
pub open spec fn is_colon_free(s: Seq<char>) -> bool {
    !s.contains(':')
}

/// One side of a written aliased name: not empty, and without `:`.
pub open spec fn is_name_part(s: Seq<char>) -> bool {
    s.len() > 0 && is_colon_free(s)
}

/// The textual form of a name and its optional alias.
pub open spec fn format_aliased_name(v: (Seq<char>, Option<Seq<char>>)) -> Seq<char> {
    match v.1 {
        Some(alias) => v.0 + seq![':'] + alias,
        None => v.0,
    }
}

/// A name and alias that can be written down and read back unchanged.
pub open spec fn is_writable(v: (Seq<char>, Option<Seq<char>>)) -> bool {
    &&& is_name_part(v.0)
    &&& match v.1 {
        Some(alias) => is_name_part(alias),
        None => true,
    }
}

/// `s` is the written form of some aliased name.
pub open spec fn is_aliased_name_text(s: Seq<char>) -> bool {
    exists|v: (Seq<char>, Option<Seq<char>>)| is_writable(v) && format_aliased_name(v) == s
}

/// The text of an optional string.
pub open spec fn opt_view(o: Option<String>) -> Option<Seq<char>> {
    match o {
        Some(s) => Some(s@),
        None => None,
    }
}

/// The text of an optional string slice.
pub open spec fn opt_str_view(o: Option<&str>) -> Option<Seq<char>> {
    match o {
        Some(s) => Some(s@),
        None => None,
    }
}

/// The name of an external resource, and an optional local alias to which
/// it is mapped inside a container.
#[derive(Debug, PartialEq, Eq)]
pub struct AliasedName {
    /// The name of the external resource outside the container.
    pub name: String,
    /// An optional alias for the resource inside the container. Where it
    /// is absent, the external name is used.
    pub alias: Option<String>,
}

impl View for AliasedName {
    type V = (Seq<char>, Option<Seq<char>>);

    open spec fn view(&self) -> (Seq<char>, Option<Seq<char>>) {
        (self.name@, opt_view(self.alias))
    }
}

/// No two different writable values share a written form.
pub proof fn lemma_format_injective(a: (Seq<char>, Option<Seq<char>>), b: (Seq<char>, Option<Seq<char>>))
    requires
        is_writable(a),
        is_writable(b),
        format_aliased_name(a) == format_aliased_name(b),
    ensures
        a == b,
{
    let s = format_aliased_name(a);
    match (a.1, b.1) {
        (Some(x), Some(y)) => {
            if a.0.len() < b.0.len() {
                assert(b.0[a.0.len() as int] == s[a.0.len() as int]);
                assert(b.0.contains(':'));
            } else if b.0.len() < a.0.len() {
                assert(a.0[b.0.len() as int] == s[b.0.len() as int]);
                assert(a.0.contains(':'));
            }
            assert(a.0 =~= s.take(a.0.len() as int));
            assert(b.0 =~= s.take(b.0.len() as int));
            assert(x =~= s.skip(a.0.len() as int + 1));
            assert(y =~= s.skip(b.0.len() as int + 1));
        },
        (Some(x), None) => {
            assert(s[a.0.len() as int] == ':');
            assert(b.0.contains(':'));
        },
        (None, Some(y)) => {
            assert(s[b.0.len() as int] == ':');
            assert(a.0.contains(':'));
        },
        (None, None) => {},
    }
}

impl AliasedName {
    /// The aliased name holds no `:` in its name or its alias, so that it
    /// can be written out.
    pub open spec fn is_valid(&self) -> bool {
        &&& is_colon_free(self.name@)
        &&& match self.alias {
            Some(a) => is_colon_free(a@),
            None => true,
        }
    }

    /// Create a new aliased name from a name and an optional alias. Fails
    /// when either of them holds a `:`.
    pub fn new(name: &str, alias: Option<&str>) -> (r: Result<AliasedName, InvalidValueError>)
        ensures
            match r {
                Ok(a) => a@ == (name@, opt_str_view(alias)) && a.is_valid(),
                Err(e) => {
                    &&& !(is_colon_free(name@) && match alias {
                        Some(x) => is_colon_free(x@),
                        None => true,
                    })
                    &&& e.category@ == "aliased name"@
                    &&& e.input@ == format_aliased_name((name@, opt_str_view(alias)))
                },
            },
    {
        let result = AliasedName {
            name: name.to_owned(),
            alias: match alias {
                Some(v) => Some(v.to_owned()),
                None => None,
            },
        };
        match result.validate() {
            Ok(()) => Ok(result),
            Err(e) => Err(e),
        }
    }

    /// Check that this aliased name can be written out safely.
    pub fn validate(&self) -> (r: Result<(), InvalidValueError>)
        ensures
            r is Ok <==> self.is_valid(),
            r matches Err(e) ==> e.category@ == "aliased name"@ && e.input@ == format_aliased_name(
                self@,
            ),
    {
        let bad_name = contains_char(self.name.as_str(), ':');
        let bad_alias = match &self.alias {
            Some(a) => contains_char(a.as_str(), ':'),
            None => false,
        };
        if bad_name || bad_alias {
            let text = self.format();
            return Err(InvalidValueError::new("aliased name", text.as_str()));
        }
        Ok(())
    }

    /// The written form, without any check.
    fn format(&self) -> (r: String)
        ensures
            r@ == format_aliased_name(self@),
    {
        match &self.alias {
            Some(alias) => {
                let mut out = self.name.clone();
                proof {
                    reveal_strlit(":");
                }
                out.append(":");
                out.append(alias.as_str());
                out
            },
            None => self.name.clone(),
        }
    }

    /// Parse an aliased name from `name` or `name:alias`, where neither
    /// side is empty or holds a `:`.
    pub fn from_str(s: &str) -> (r: Result<AliasedName, InvalidValueError>)
        ensures
            r is Ok <==> is_aliased_name_text(s@),
            match r {
                Ok(a) => is_writable(a@) && format_aliased_name(a@) == s@,
                Err(e) => e.category@ == "aliased name"@ && e.input@ == s@,
            },
    {
        let cs = chars_of(s);
        let n = cs.len();
        let mut first: Option<usize> = None;
        let mut i: usize = 0;
        // Find the first separator, and stop at a second one.
        while i < n
            invariant
                cs@ == s@,
                n == cs@.len(),
                i <= n,
                match first {
                    Some(k) => k < i && cs@[k as int] == ':' && forall|j: int|
                        0 <= j < i && j != k ==> cs@[j] != ':',
                    None => forall|j: int| 0 <= j < i ==> cs@[j] != ':',
                },
            decreases n - i,
        {
            if cs[i] == ':' {
                match first {
                    Some(k) => {
                        proof {
                            lemma_two_separators(s@, k as int, i as int);
                        }
                        return Err(InvalidValueError::new("aliased name", s));
                    },
                    None => {
                        first = Some(i);
                    },
                }
            }
            i = i + 1;
        }
        match first {
            None => {
                if n == 0 {
                    proof {
                        assert forall|v: (Seq<char>, Option<Seq<char>>)|
                            is_writable(v) implies format_aliased_name(v) != s@ by {
                            lemma_format_len(v);
                        }
                    }
                    return Err(InvalidValueError::new("aliased name", s));
                }
                proof {
                    assert(!s@.contains(':'));
                    assert(is_writable((s@, None)) && format_aliased_name((s@, None)) == s@);
                }
                Ok(AliasedName { name: s.to_owned(), alias: None })
            },
            Some(k) => {
                if k == 0 || k + 1 == n {
                    proof {
                        lemma_one_separator_at_edge(s@, k as int);
                    }
                    return Err(InvalidValueError::new("aliased name", s));
                }
                let name = s.substring_char(0, k).to_owned();
                let alias = s.substring_char(k + 1, n).to_owned();
                proof {
                    let v = (name@, Some(alias@));
                    assert(!name@.contains(':'));
                    assert(!alias@.contains(':')) by {
                        if alias@.contains(':') {
                            let j = choose|j: int| 0 <= j < alias@.len() && alias@[j] == ':';
                            assert(cs@[k + 1 + j] == ':');
                        }
                    }
                    assert(format_aliased_name(v) =~= s@);
                    assert(is_writable(v));
                }
                Ok(AliasedName { name, alias: Some(alias) })
            },
        }
    }

    /// Write this aliased name as `name` or `name:alias`, after checking
    /// that it holds no `:`.
    pub fn to_string(&self) -> (r: Result<String, InvalidValueError>)
        ensures
            r is Ok <==> self.is_valid(),
            match r {
                Ok(s) => s@ == format_aliased_name(self@),
                Err(e) => e.category@ == "aliased name"@ && e.input@ == format_aliased_name(
                    self@,
                ),
            },
    {
        match self.validate() {
            Ok(()) => Ok(self.format()),
            Err(e) => Err(e),
        }
    }
}

proof fn lemma_format_len(v: (Seq<char>, Option<Seq<char>>))
    requires
        is_writable(v),
    ensures
        format_aliased_name(v).len() > 0,
        format_aliased_name(v)[0] != ':',
        format_aliased_name(v)[format_aliased_name(v).len() - 1] != ':',
{
    let s = format_aliased_name(v);
    assert(s[0] == v.0[0]);
    match v.1 {
        Some(a) => {
            assert(s[s.len() - 1] == a[a.len() - 1]);
        },
        None => {
            assert(s[s.len() - 1] == v.0[v.0.len() - 1]);
        },
    }
}

/// A writable value's written form holds at most one `:`.
proof fn lemma_two_separators(s: Seq<char>, k: int, i: int)
    requires
        0 <= k < i < s.len(),
        s[k] == ':',
        s[i] == ':',
    ensures
        !is_aliased_name_text(s),
{
    assert forall|v: (Seq<char>, Option<Seq<char>>)| is_writable(v) implies format_aliased_name(v)
        != s by {
        if format_aliased_name(v) == s {
            let n = v.0.len();
            match v.1 {
                Some(a) => {
                    if k < n {
                        assert(v.0[k] == ':');
                    } else if i > n {
                        assert(a[i - n - 1] == ':');
                    } else {
                        assert(k < n);
                        assert(v.0[k] == ':');
                    }
                },
                None => {
                    assert(v.0[k] == ':');
                },
            }
        }
    }
}

/// A single `:` at either end leaves an empty side.
proof fn lemma_one_separator_at_edge(s: Seq<char>, k: int)
    requires
        0 <= k < s.len(),
        k == 0 || k == s.len() - 1,
        s[k] == ':',
    ensures
        !is_aliased_name_text(s),
{
    assert forall|v: (Seq<char>, Option<Seq<char>>)| is_writable(v) implies format_aliased_name(v)
        != s by {
        lemma_format_len(v);
    }
}

/// Writing a writable aliased name and reading it back gives the same name
/// and alias.
pub proof fn lemma_aliased_name_round_trip(v: (Seq<char>, Option<Seq<char>>))
    requires
        is_writable(v),
    ensures
        is_aliased_name_text(format_aliased_name(v)),
        forall|w: (Seq<char>, Option<Seq<char>>)|
            is_writable(w) && format_aliased_name(w) == format_aliased_name(v) ==> w == v,
{
    assert forall|w: (Seq<char>, Option<Seq<char>>)|
        is_writable(w) && format_aliased_name(w) == format_aliased_name(v) implies w == v by {
        lemma_format_injective(w, v);
    }
}

} // verus!
