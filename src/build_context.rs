//! The `build:` field of a service: a context directory and an optional
//! Dockerfile, written either as `build: "./dir"` or as a mapping.

use vstd::prelude::*;

use crate::aliased_name::opt_view;
use crate::error::{Error, InvalidValueError};
use crate::node::Node;
use crate::string_or_struct::{FromMapping, FromScalar, SerializeStringOrStruct};
use crate::text::same_text;

verus! {

/// The fields that a `build:` mapping gives, each at most once and each a
/// string, or `None` for any other key, a repeated key or a value that is
/// not a string.
pub open spec fn build_fields(m: Seq<(String, Node)>) -> Option<
    (Option<Seq<char>>, Option<Seq<char>>),
>
    decreases m.len(),
{
    if m.len() == 0 {
        Some((None, None))
    } else {
        match build_fields(m.drop_last()) {
            None => None,
            Some((c, d)) => match m.last().1 {
                Node::Scalar(x) => if m.last().0@ == "context"@ && c is None {
                    Some((Some(x@), d))
                } else if m.last().0@ == "dockerfile"@ && d is None {
                    Some((c, Some(x@)))
                } else {
                    None
                },
                _ => None,
            },
        }
    }
}

/// A mapping with a bad field stays bad, whatever follows it.
proof fn lemma_build_fields_prefix(m: Seq<(String, Node)>, k: int)
    requires
        0 <= k <= m.len(),
        build_fields(m.take(k)) is None,
    ensures
        build_fields(m) is None,
    decreases m.len(),
{
    if k == m.len() {
        assert(m.take(k) =~= m);
    } else {
        assert(m.drop_last().take(k) =~= m.take(k));
        lemma_build_fields_prefix(m.drop_last(), k);
    }
}

/// How to build the image of a service.
#[derive(Debug, PartialEq, Eq)]
pub struct Build {
    /// The directory, or repository, that holds what the build needs.
    pub context: String,
    /// The Dockerfile to use, where it is not the default one.
    pub dockerfile: Option<String>,
}

impl View for Build {
    type V = (Seq<char>, Option<Seq<char>>);

    open spec fn view(&self) -> (Seq<char>, Option<Seq<char>>) {
        (self.context@, opt_view(self.dockerfile))
    }
}

impl Build {
    /// A build from `context` with the default Dockerfile.
    pub fn new(context: &str) -> (r: Build)
        ensures
            r@ == (context@, None::<Seq<char>>),
    {
        Build { context: context.to_owned(), dockerfile: None }
    }
}

impl FromScalar for Build {
    /// A bare string is the context.
    open spec fn scalar_value(s: Seq<char>) -> Option<(Seq<char>, Option<Seq<char>>)> {
        Some((s, None))
    }

    fn from_scalar(s: &str) -> (r: Result<Build, InvalidValueError>) {
        Ok(Build::new(s))
    }
}

impl FromMapping for Build {
    /// A mapping must give `context`, and may give `dockerfile`.
    open spec fn mapping_value(entries: Seq<(String, Node)>) -> Option<
        (Seq<char>, Option<Seq<char>>),
    > {
        match build_fields(entries) {
            Some((Some(c), d)) => Some((c, d)),
            _ => None,
        }
    }

    fn from_mapping(entries: &Vec<(String, Node)>) -> (r: Result<Build, Error>) {
        let mut context: Option<String> = None;
        let mut dockerfile: Option<String> = None;
        let mut i: usize = 0;
        while i < entries.len()
            invariant
                i <= entries@.len(),
                build_fields(entries@.take(i as int)) == Some((opt_view(context), opt_view(dockerfile))),
            decreases entries@.len() - i,
        {
            let ghost before = entries@.take(i as int);
            assert(entries@.take(i as int + 1).drop_last() =~= before);
            let key = &entries[i].0;
            let is_context = same_text(key.as_str(), "context");
            let is_dockerfile = same_text(key.as_str(), "dockerfile");
            match &entries[i].1 {
                Node::Scalar(x) => {
                    if is_context && context.is_none() {
                        context = Some(x.clone());
                    } else if is_dockerfile && dockerfile.is_none() {
                        dockerfile = Some(x.clone());
                    } else if is_context || is_dockerfile {
                        proof {
                            lemma_build_fields_prefix(entries@, i + 1);
                        }
                        return Err(Error::DuplicateField(key.clone()));
                    } else {
                        proof {
                            lemma_build_fields_prefix(entries@, i + 1);
                        }
                        return Err(Error::UnknownField(key.clone()));
                    }
                },
                _ => {
                    proof {
                        lemma_build_fields_prefix(entries@, i + 1);
                    }
                    return Err(Error::ExpectedStringField(key.clone()));
                },
            }
            i = i + 1;
        }
        assert(entries@.take(i as int) =~= entries@);
        match context {
            Some(c) => Ok(Build { context: c, dockerfile }),
            None => Err(Error::MissingField("context".to_owned())),
        }
    }
}

impl SerializeStringOrStruct for Build {
    /// A build with the default Dockerfile is written as its context alone.
    open spec fn scalar_form(v: (Seq<char>, Option<Seq<char>>)) -> Option<Seq<char>> {
        match v.1 {
            None => Some(v.0),
            Some(_) => None,
        }
    }

    /// `context`, then `dockerfile` where there is one.
    open spec fn is_mapping_form(
        v: (Seq<char>, Option<Seq<char>>),
        entries: Seq<(String, Node)>,
    ) -> bool {
        &&& entries.len() >= 1
        &&& entries[0].0@ == "context"@
        &&& entries[0].1 matches Node::Scalar(x) && x@ == v.0
        &&& match v.1 {
            None => entries.len() == 1,
            Some(d) => {
                &&& entries.len() == 2
                &&& entries[1].0@ == "dockerfile"@
                &&& entries[1].1 matches Node::Scalar(x) && x@ == d
            },
        }
    }

    fn to_scalar(&self) -> (r: Option<String>) {
        match &self.dockerfile {
            None => Some(self.context.clone()),
            Some(_) => None,
        }
    }

    fn to_mapping(&self) -> (r: Vec<(String, Node)>) {
        let mut out: Vec<(String, Node)> = Vec::new();
        out.push(("context".to_owned(), Node::Scalar(self.context.clone())));
        match &self.dockerfile {
            Some(d) => {
                out.push(("dockerfile".to_owned(), Node::Scalar(d.clone())));
            },
            None => {},
        }
        out
    }

    proof fn lemma_scalar_form_reads_back(v: (Seq<char>, Option<Seq<char>>)) {
    }

    proof fn lemma_mapping_form_reads_back(
        v: (Seq<char>, Option<Seq<char>>),
        entries: Seq<(String, Node)>,
    ) {
        let one = entries.take(1);
        assert(one.drop_last() =~= Seq::<(String, Node)>::empty());
        assert(build_fields(one.drop_last()) == Some((None::<Seq<char>>, None::<Seq<char>>)));
        assert(one.last() == entries[0]);
        assert(build_fields(one) == Some((Some(v.0), None::<Seq<char>>)));
        if entries.len() == 1 {
            assert(entries =~= one);
        } else {
            assert(entries.drop_last() =~= one);
        }
    }
}

/// Both spellings of a build context agree: `build: "s"` and
/// `build: {context: "s"}` read as the same value, with no Dockerfile.
pub proof fn lemma_build_spellings_agree(s: Seq<char>, entries: Seq<(String, Node)>)
    requires
        entries.len() == 1,
        entries[0].0@ == "context"@,
        entries[0].1 matches Node::Scalar(x) && x@ == s,
    ensures
        Build::scalar_value(s) == Some((s, None::<Seq<char>>)),
        Build::mapping_value(entries) == Some((s, None::<Seq<char>>)),
{
    assert(entries.drop_last() =~= Seq::<(String, Node)>::empty());
    assert(build_fields(entries.drop_last()) == Some((None::<Seq<char>>, None::<Seq<char>>)));
}

} // verus!
