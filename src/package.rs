//! `NEVRA` labels: a package name and its `EVRA` version.
use vstd::prelude::*;
use vstd::string::StringExecFns;
use crate::errors::{Error, Result};
use crate::grammar::{lemma_parse_nevra_sound, lemma_parse_nevra_text, parse_nevra, FieldClass, NevraModel};
use crate::scan::{chars_of, scan_run, text_between};
use crate::version::{evra_fields, format_evra, opt_view, parse_evra_at, Version};

verus! {

/// The model of the fields handed to `new`.
pub open spec fn nevra_fields(
    name: Seq<char>,
    epoch: Option<String>,
    version: Seq<char>,
    release: Option<String>,
    architecture: Option<String>,
) -> NevraModel {
    NevraModel { name, evra: evra_fields(epoch, version, release, architecture) }
}

/// A `NEVRA` package name and version.
#[derive(Clone, Debug, PartialEq, Eq)]
pub struct PackageVersion {
    pub(crate) name: String,
    pub(crate) evra: Version,
}

impl View for PackageVersion {
    type V = NevraModel;

    closed spec fn view(&self) -> NevraModel {
        NevraModel { name: self.name@, evra: self.evra@ }
    }
}

impl PackageVersion {
    /// The value is one that parsing can give: its fields are well-formed.
    pub open spec fn wf(&self) -> bool {
        self@.wf()
    }

    /// Construct a `PackageVersion` from its fields. An empty name, then
    /// an empty version, is refused; otherwise the label
    /// `name-[epoch:]version[-release][.architecture]` is built and parsed.
    /// Well-formed fields always give back exactly themselves.
    pub fn new(
        name: &str,
        epoch: Option<String>,
        version: &str,
        release: Option<String>,
        architecture: Option<String>,
    ) -> (r: Result<PackageVersion>)
        ensures
            name@.len() == 0 ==> r == Err::<PackageVersion, Error>(Error::EmptyName),
            name@.len() > 0 && version@.len() == 0 ==> r == Err::<PackageVersion, Error>(
                Error::EmptyVersion,
            ),
            name@.len() > 0 && version@.len() > 0 ==> match r {
                Ok(p) => parse_nevra(
                    nevra_fields(name@, epoch, version@, release, architecture).text(),
                ) == Some(p@),
                Err(e) => e == Error::Syntax && parse_nevra(
                    nevra_fields(name@, epoch, version@, release, architecture).text(),
                ) is None,
            },
            nevra_fields(name@, epoch, version@, release, architecture).wf() ==> (r matches Ok(p)
                && p@ == nevra_fields(name@, epoch, version@, release, architecture)),
    {
        if name.unicode_len() == 0 {
            return Err(Error::EmptyName);
        }
        if version.unicode_len() == 0 {
            return Err(Error::EmptyVersion);
        }
        let mut label = String::from_str(name);
        label.append("-");
        let evra = format_evra(&epoch, version, &release, &architecture);
        label.append(evra.as_str());
        proof {
            reveal_strlit("-");
            let m = nevra_fields(name@, epoch, version@, release, architecture);
            assert(label@ =~= m.text());
            if m.wf() {
                lemma_parse_nevra_text(m);
            }
        }
        PackageVersion::parse(label.as_str())
    }

    /// Package name.
    pub fn name(&self) -> (r: &str)
        ensures
            r@ == self@.name,
    {
        self.name.as_str()
    }

    /// Package EVRA.
    pub fn evra(&self) -> (r: &Version)
        ensures
            r@ == self@.evra,
    {
        &self.evra
    }

    /// Package epoch.
    pub fn epoch(&self) -> (r: &Option<String>)
        ensures
            opt_view(*r) == self@.evra.epoch,
    {
        self.evra.epoch()
    }

    /// Package version.
    pub fn version(&self) -> (r: &str)
        ensures
            r@ == self@.evra.version,
    {
        self.evra.version()
    }

    /// Package release.
    pub fn release(&self) -> (r: &Option<String>)
        ensures
            opt_view(*r) == self@.evra.release,
    {
        self.evra.release()
    }

    /// Package architecture.
    pub fn architecture(&self) -> (r: &Option<String>)
        ensures
            opt_view(*r) == self@.evra.architecture,
    {
        self.evra.architecture()
    }

    /// Parse a NEVRA label. It is accepted exactly when it is the text of
    /// a well-formed value, and that value is returned.
    pub fn parse(label: &str) -> (r: Result<PackageVersion>)
        ensures
            match r {
                Ok(p) => parse_nevra(label@) == Some(p@) && p.wf() && p@.text() == label@,
                Err(e) => e == Error::Syntax && parse_nevra(label@) is None && forall|m: NevraModel|
                    #[trigger] m.wf() ==> m.text() != label@,
            },
    {
        let chars = chars_of(label);
        let n = chars.len();
        let k = scan_run(&chars, 0, FieldClass::Head);
        assert(label@.skip(0) =~= label@);
        proof {
            assert forall|m: NevraModel| #[trigger] m.wf() implies parse_nevra(m.text()) == Some(m) by {
                lemma_parse_nevra_text(m);
            }
        }
        if k == 0 || k >= n || chars[k] != '-' {
            return Err(Error::Syntax);
        }
        match parse_evra_at(label, &chars, k + 1) {
            Some(evra) => {
                let name = text_between(label, 0, k);
                assert(label@.take(k as int) =~= label@.subrange(0, k as int));
                proof {
                    lemma_parse_nevra_sound(label@);
                }
                Ok(PackageVersion { name, evra })
            },
            None => Err(Error::Syntax),
        }
    }

    /// The label text: `name-[epoch:]version[-release][.architecture]`.
    pub fn to_string(&self) -> (r: String)
        ensures
            r@ == self@.text(),
    {
        let mut buf = String::from_str(self.name.as_str());
        buf.append("-");
        let evra = self.evra.to_string();
        buf.append(evra.as_str());
        proof {
            reveal_strlit("-");
            assert(buf@ =~= self@.text());
        }
        buf
    }
}

} // verus!
