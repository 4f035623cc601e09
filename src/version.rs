//! `EVRA` labels: epoch, version, release and architecture.
use vstd::prelude::*;
use vstd::string::StringExecFns;
use crate::errors::{Error, Result};
use crate::grammar::{
    lemma_field_ok_run, lemma_parse_evra_sound, lemma_parse_evra_text, parse_architecture,
    parse_evra, parse_tail, EvraModel, FieldClass,
};
use crate::scan::{chars_of, scan_run, text_between};

verus! {

/// The view of an optional string field.
pub open spec fn opt_view(o: Option<String>) -> Option<Seq<char>> {
    match o {
        Some(s) => Some(s@),
        None => None,
    }
}

/// The model of the fields handed to `new`.
pub open spec fn evra_fields(
    epoch: Option<String>,
    version: Seq<char>,
    release: Option<String>,
    architecture: Option<String>,
) -> EvraModel {
    EvraModel {
        epoch: opt_view(epoch),
        version,
        release: opt_view(release),
        architecture: opt_view(architecture),
    }
}

/// Text of the label that `new` builds from its fields:
/// `[epoch ':'] version ['-' release] ['.' architecture]`.
pub open spec fn evra_label(
    epoch: Option<Seq<char>>,
    version: Seq<char>,
    release: Option<Seq<char>>,
    architecture: Option<Seq<char>>,
) -> Seq<char> {
    EvraModel { epoch, version, release, architecture }.text()
}

/// An `EVRA` package version.
#[derive(Clone, Debug, PartialEq, Eq)]
pub struct Version {
    /// Package epoch.
    pub(crate) epoch: Option<String>,
    /// Package version.
    pub(crate) version: String,
    /// Package release.
    pub(crate) release: Option<String>,
    /// Package architecture.
    pub(crate) architecture: Option<String>,
}

impl View for Version {
    type V = EvraModel;

    closed spec fn view(&self) -> EvraModel {
        EvraModel {
            epoch: opt_view(self.epoch),
            version: self.version@,
            release: opt_view(self.release),
            architecture: opt_view(self.architecture),
        }
    }
}

/// Appends `sep` then the field, when the field is present.
fn push_after(buf: &mut String, sep: &str, o: &Option<String>)
    ensures
        final(buf)@ == old(buf)@ + match o {
            Some(f) => sep@ + f@,
            None => Seq::empty(),
        },
{
    if let Some(f) = o {
        buf.append(sep);
        buf.append(f.as_str());
    }
}

/// Text of an EVRA value.
pub(crate) fn format_evra(
    epoch: &Option<String>,
    version: &str,
    release: &Option<String>,
    architecture: &Option<String>,
) -> (r: String)
    ensures
        r@ == evra_label(opt_view(*epoch), version@, opt_view(*release), opt_view(*architecture)),
{
    let mut buf = String::new();
    if let Some(e) = epoch {
        buf.append(e.as_str());
        buf.append(":");
    }
    buf.append(version);
    push_after(&mut buf, "-", release);
    push_after(&mut buf, ".", architecture);
    proof {
        reveal_strlit(":");
        reveal_strlit("-");
        reveal_strlit(".");
        assert(buf@ =~= evra_label(
            opt_view(*epoch),
            version@,
            opt_view(*release),
            opt_view(*architecture),
        ));
    }
    buf
}

/// Parses what follows the version or release, from index `p` of `s` to its end.
fn parse_architecture_at(s: &str, chars: &Vec<char>, p: usize) -> (r: Option<Option<String>>)
    requires
        chars@ == s@,
        p <= s@.len(),
    ensures
        match r {
            Some(a) => parse_architecture(s@.skip(p as int)) == Some(opt_view(a)),
            None => parse_architecture(s@.skip(p as int)) is None,
        },
{
    let ghost tail = s@.skip(p as int);
    let n = chars.len();
    if p == n {
        return Some(None);
    }
    let q = if chars[p] == '.' && p + 1 < n {
        scan_run(chars, p + 1, FieldClass::Architecture)
    } else {
        p
    };
    proof {
        assert(tail.skip(1) =~= s@.skip(p + 1));
        lemma_field_ok_run(tail.skip(1), FieldClass::Architecture);
    }
    if q != n || q == p {
        return None;
    }
    assert(tail.skip(1) =~= s@.subrange(p + 1, n as int));
    Some(Some(text_between(s, p + 1, n)))
}

/// Parses what follows the version, from index `j` of `s` to its end.
fn parse_tail_at(s: &str, chars: &Vec<char>, j: usize) -> (r: Option<
    (Option<String>, Option<String>),
>)
    requires
        chars@ == s@,
        j <= s@.len(),
    ensures
        match r {
            Some((rel, arch)) => parse_tail(s@.skip(j as int)) == Some(
                (opt_view(rel), opt_view(arch)),
            ),
            None => parse_tail(s@.skip(j as int)) is None,
        },
{
    let ghost after = s@.skip(j as int);
    let n = chars.len();
    if j < n && chars[j] == '-' {
        let m = scan_run(chars, j + 1, FieldClass::Release);
        assert(after.skip(1) =~= s@.skip(j + 1));
        if m == j + 1 {
            return None;
        }
        assert(after.skip(1).skip(m - j - 1) =~= s@.skip(m as int));
        assert(after.skip(1).take(m - j - 1) =~= s@.subrange(j + 1, m as int));
        match parse_architecture_at(s, chars, m) {
            Some(arch) => Some((Some(text_between(s, j + 1, m)), arch)),
            None => None,
        }
    } else {
        match parse_architecture_at(s, chars, j) {
            Some(arch) => Some((None, arch)),
            None => None,
        }
    }
}

/// Parses the EVRA label that starts at index `from` of `s` and runs to its end.
pub(crate) fn parse_evra_at(s: &str, chars: &Vec<char>, from: usize) -> (r: Option<Version>)
    requires
        chars@ == s@,
        from <= s@.len(),
    ensures
        match r {
            Some(v) => parse_evra(s@.skip(from as int)) == Some(v@),
            None => parse_evra(s@.skip(from as int)) is None,
        },
{
    let ghost t = s@.skip(from as int);
    let n = chars.len();
    let k = scan_run(chars, from, FieldClass::Head);
    let has_epoch = k < n && chars[k] == ':';
    if has_epoch && k == from {
        return None;
    }
    let vstart = if has_epoch {
        k + 1
    } else {
        from
    };
    let ghost rest = if has_epoch {
        t.skip(k - from + 1)
    } else {
        t
    };
    assert(rest =~= s@.skip(vstart as int));
    let j = scan_run(chars, vstart, FieldClass::Head);
    if j == vstart {
        return None;
    }
    assert(rest.skip(j - vstart) =~= s@.skip(j as int));
    match parse_tail_at(s, chars, j) {
        Some((release, architecture)) => {
            let epoch = if has_epoch {
                Some(text_between(s, from, k))
            } else {
                None
            };
            let version = text_between(s, vstart, j);
            proof {
                assert(rest.take(j - vstart) =~= s@.subrange(vstart as int, j as int));
                if has_epoch {
                    assert(t.take(k - from) =~= s@.subrange(from as int, k as int));
                }
            }
            Some(Version { epoch, version, release, architecture })
        },
        None => None,
    }
}

impl Version {
    /// The value is one that parsing can give: its fields are well-formed.
    pub open spec fn wf(&self) -> bool {
        self@.wf()
    }

    /// Construct a `Version` from its fields. An empty version is refused;
    /// otherwise the label `[epoch:]version[-release][.architecture]` is
    /// built and parsed. Well-formed fields always give back exactly
    /// themselves.
    pub fn new(
        epoch: Option<String>,
        version: &str,
        release: Option<String>,
        architecture: Option<String>,
    ) -> (r: Result<Version>)
        ensures
            version@.len() == 0 ==> r == Err::<Version, Error>(Error::EmptyVersion),
            version@.len() > 0 ==> match r {
                Ok(v) => parse_evra(
                    evra_label(opt_view(epoch), version@, opt_view(release), opt_view(architecture)),
                ) == Some(v@),
                Err(e) => e == Error::Syntax && parse_evra(
                    evra_label(opt_view(epoch), version@, opt_view(release), opt_view(architecture)),
                ) is None,
            },
            evra_fields(epoch, version@, release, architecture).wf() ==> (r matches Ok(v)
                && v@ == evra_fields(epoch, version@, release, architecture)),
    {
        if version.unicode_len() == 0 {
            return Err(Error::EmptyVersion);
        }
        let label = format_evra(&epoch, version, &release, &architecture);
        proof {
            let m = evra_fields(epoch, version@, release, architecture);
            if m.wf() {
                lemma_parse_evra_text(m);
            }
        }
        Version::parse(label.as_str())
    }

    /// Package epoch.
    pub fn epoch(&self) -> (r: &Option<String>)
        ensures
            opt_view(*r) == self@.epoch,
    {
        &self.epoch
    }

    /// Package version.
    pub fn version(&self) -> (r: &str)
        ensures
            r@ == self@.version,
    {
        self.version.as_str()
    }

    /// Package release.
    pub fn release(&self) -> (r: &Option<String>)
        ensures
            opt_view(*r) == self@.release,
    {
        &self.release
    }

    /// Package architecture.
    pub fn architecture(&self) -> (r: &Option<String>)
        ensures
            opt_view(*r) == self@.architecture,
    {
        &self.architecture
    }

    /// Parse an EVRA label. It is accepted exactly when it is the text of
    /// a well-formed value, and that value is returned.
    pub fn parse(label: &str) -> (r: Result<Version>)
        ensures
            match r {
                Ok(v) => parse_evra(label@) == Some(v@) && v.wf() && v@.text() == label@,
                Err(e) => e == Error::Syntax && parse_evra(label@) is None && forall|m: EvraModel|
                    #[trigger] m.wf() ==> m.text() != label@,
            },
    {
        let chars = chars_of(label);
        let r = parse_evra_at(label, &chars, 0);
        assert(label@.skip(0) =~= label@);
        match r {
            Some(v) => {
                proof {
                    lemma_parse_evra_sound(label@);
                }
                Ok(v)
            },
            None => {
                proof {
                    assert forall|m: EvraModel| #[trigger] m.wf() implies m.text() != label@ by {
                        lemma_parse_evra_text(m);
                    }
                }
                Err(Error::Syntax)
            },
        }
    }

    /// The label text: `[epoch:]version[-release][.architecture]`.
    pub fn to_string(&self) -> (r: String)
        ensures
            r@ == self@.text(),
    {
        format_evra(&self.epoch, self.version.as_str(), &self.release, &self.architecture)
    }
}

} // verus!
