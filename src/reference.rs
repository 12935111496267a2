//! Image references: registry, repository, and a tag or a digest.
use vstd::prelude::*;
use vstd::string::*;
use crate::records::{opt_view, clone_opt, Image};

verus! {

#[verifier::external_type_specification]
#[verifier::external_body]
pub struct ExParseError(oci_client::ParseError);

/// The parts of a reference.
pub struct RefView {
    pub registry: Seq<char>,
    pub repository: Seq<char>,
    pub tag: Option<Seq<char>>,
    pub digest: Option<Seq<char>>,
}

/// What `oci_client::Reference` parses from a text, or `None` where it
/// rejects it.
pub uninterp spec fn reference_of(text: Seq<char>) -> Option<RefView>;

/// A reference read into plain parts.
#[derive(Clone, Debug)]
pub struct ImageRef {
    pub registry: String,
    pub repository: String,
    pub tag: Option<String>,
    pub digest: Option<String>,
}

impl View for ImageRef {
    type V = RefView;

    open spec fn view(&self) -> RefView {
        RefView {
            registry: self.registry@,
            repository: self.repository@,
            tag: opt_view(self.tag),
            digest: opt_view(self.digest),
        }
    }
}

/// A reference that could not be parsed.
#[derive(Clone, Copy, Debug, PartialEq, Eq, Structural)]
pub enum ReferenceError {
    Invalid,
}

/// Relies on oci_client::Reference's `FromStr` and its accessors
/// `registry`, `repository`, `tag` and `digest`. A parsed reference has a
/// tag or a digest: the crate fills in the tag `latest` where the text has
/// neither. Its registry and repository are never empty: the name must hold
/// a path component, and a name without a registry gets `docker.io`.
#[verifier::external_body]
fn parse_oci_reference(text: &str) -> (r: Result<ImageRef, oci_client::ParseError>)
    ensures
        match r {
            Ok(x) => reference_of(text@) == Some(x@) && (x.tag is Some || x.digest is Some) && parts_present(x@),
            Err(_) => reference_of(text@) is None,
        },
{
    text.parse::<oci_client::Reference>().map(|r| ImageRef {
        registry: r.registry().to_string(),
        repository: r.repository().to_string(),
        tag: r.tag().map(|t| t.to_string()),
        digest: r.digest().map(|d| d.to_string()),
    })
}

/// Both the registry and the repository are given.
pub open spec fn parts_present(r: RefView) -> bool {
    r.registry.len() > 0 && r.repository.len() > 0
}

pub open spec fn sep(nonempty: bool, c: char) -> Seq<char> {
    if nonempty {
        seq![c]
    } else {
        Seq::empty()
    }
}

/// The text of a reference as `oci_client::Reference` displays it:
/// `registry/repository:tag@digest`, leaving out empty parts and the
/// separators before them.
pub open spec fn whole_of(r: RefView) -> Seq<char> {
    let (s1, n1) = if r.registry.len() > 0 {
        (r.registry, true)
    } else {
        (Seq::<char>::empty(), false)
    };
    let (s2, n2) = if r.repository.len() > 0 {
        (s1 + sep(n1, '/') + r.repository, true)
    } else {
        (s1, n1)
    };
    let (s3, n3) = match r.tag {
        Some(t) => (s2 + sep(n2, ':') + t, true),
        None => (s2, n2),
    };
    match r.digest {
        Some(d) => s3 + sep(n3, '@') + d,
        None => s3,
    }
}

fn append_sep(s: &mut String, nonempty: bool, sep_text: &str, c: char)
    requires
        sep_text@ == seq![c],
    ensures
        final(s)@ == old(s)@ + sep(nonempty, c),
{
    if nonempty {
        s.append(sep_text);
    } else {
        assert(old(s)@ + sep(nonempty, c) =~= old(s)@);
    }
}

impl ImageRef {
    /// Parses a reference such as `docker.io/library/nginx:1.25` or one
    /// pinned with `@sha256:...`.
    pub fn parse(text: &str) -> (r: Result<ImageRef, ReferenceError>)
        ensures
            match r {
                Ok(x) => reference_of(text@) == Some(x@) && (x.tag is Some || x.digest is Some) && parts_present(x@),
                Err(_) => reference_of(text@) is None,
            },
    {
        match parse_oci_reference(text) {
            Ok(x) => Ok(x),
            Err(_) => Err(ReferenceError::Invalid),
        }
    }

    /// The reference as one text.
    pub fn whole(&self) -> (r: String)
        ensures
            r@ == whole_of(self@),
    {
        proof {
            reveal_strlit("/");
            reveal_strlit(":");
            reveal_strlit("@");
            assert("/"@ =~= seq!['/']);
            assert(":"@ =~= seq![':']);
            assert("@"@ =~= seq!['@']);
        }
        let mut s = String::new();
        let mut nonempty = false;
        if !self.registry.as_str().is_empty() {
            s.append(self.registry.as_str());
            nonempty = true;
            assert(s@ =~= self.registry@);
        }
        if !self.repository.as_str().is_empty() {
            append_sep(&mut s, nonempty, "/", '/');
            s.append(self.repository.as_str());
            nonempty = true;
        }
        match &self.tag {
            Some(t) => {
                append_sep(&mut s, nonempty, ":", ':');
                s.append(t.as_str());
                nonempty = true;
            },
            None => {},
        }
        match &self.digest {
            Some(d) => {
                append_sep(&mut s, nonempty, "@", '@');
                s.append(d.as_str());
            },
            None => {},
        }
        s
    }

    /// The same repository, pinned to `digest`.
    pub fn with_digest(&self, digest: &str) -> (r: ImageRef)
        ensures
            r@ == (RefView { registry: self@.registry, repository: self@.repository, tag: None, digest: Some(digest@) }),
    {
        ImageRef {
            registry: self.registry.clone(),
            repository: self.repository.clone(),
            tag: None,
            digest: Some(String::from_str(digest)),
        }
    }

    /// The same repository, at `tag`.
    pub fn with_tag(&self, tag: &str) -> (r: ImageRef)
        ensures
            r@ == (RefView { registry: self@.registry, repository: self@.repository, tag: Some(tag@), digest: None }),
    {
        ImageRef {
            registry: self.registry.clone(),
            repository: self.repository.clone(),
            tag: Some(String::from_str(tag)),
            digest: None,
        }
    }
}

} // verus!
