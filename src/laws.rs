//! Laws that relate parsing and formatting.
use vstd::prelude::*;
use crate::grammar::{
    field_ok, lemma_parse_evra_sound, FieldClass, lemma_parse_evra_text, lemma_parse_nevra_sound,
    lemma_parse_nevra_text, parse_evra, parse_nevra, EvraModel, NevraModel,
};

verus! {

/// Well-formed fields survive a round trip: the text that `new` builds
/// from them parses back to the same fields.
pub proof fn law_fields_round_trip(m: NevraModel)
    requires
        m.wf(),
    ensures
        parse_nevra(m.text()) == Some(m),
{
    lemma_parse_nevra_text(m);
}

/// The EVRA form of the same law.
pub proof fn law_evra_fields_round_trip(m: EvraModel)
    requires
        m.wf(),
    ensures
        parse_evra(m.text()) == Some(m),
{
    lemma_parse_evra_text(m);
}

/// Formatting a parsed value and parsing the text again gives the same value.
pub proof fn law_format_then_parse(s: Seq<char>)
    requires
        parse_nevra(s) is Some,
    ensures
        parse_nevra(parse_nevra(s)->0.text()) == parse_nevra(s),
{
    lemma_parse_nevra_sound(s);
}

/// The EVRA form of the same law.
pub proof fn law_evra_format_then_parse(s: Seq<char>)
    requires
        parse_evra(s) is Some,
    ensures
        parse_evra(parse_evra(s)->0.text()) == parse_evra(s),
{
    lemma_parse_evra_sound(s);
}

/// Any accepted label is reproduced exactly by formatting what was parsed.
pub proof fn law_accepted_label_reproduced(s: Seq<char>)
    requires
        parse_nevra(s) is Some,
    ensures
        parse_nevra(s)->0.wf(),
        parse_nevra(s)->0.text() == s,
{
    lemma_parse_nevra_sound(s);
}

/// The EVRA form of the same law.
pub proof fn law_evra_accepted_label_reproduced(s: Seq<char>)
    requires
        parse_evra(s) is Some,
    ensures
        parse_evra(s)->0.wf(),
        parse_evra(s)->0.text() == s,
{
    lemma_parse_evra_sound(s);
}

/// An empty label is never accepted.
pub proof fn law_empty_label_rejected(s: Seq<char>)
    requires
        s.len() == 0,
    ensures
        parse_nevra(s) is None,
        parse_evra(s) is None,
{
}

/// The text after the first dot in `name-version.arch` is the architecture,
/// not part of the version, and may itself hold dots.
pub proof fn law_dot_introduces_architecture(name: Seq<char>, version: Seq<char>, arch: Seq<char>)
    requires
        field_ok(name, FieldClass::Head),
        field_ok(version, FieldClass::Head),
        field_ok(arch, FieldClass::Architecture),
    ensures
        parse_nevra(name.push('-') + version + seq!['.'] + arch) == Some(
            NevraModel {
                name,
                evra: EvraModel { epoch: None, version, release: None, architecture: Some(arch) },
            },
        ),
{
    let m = NevraModel {
        name,
        evra: EvraModel { epoch: None, version, release: None, architecture: Some(arch) },
    };
    assert(m.text() =~= name.push('-') + version + seq!['.'] + arch);
    lemma_parse_nevra_text(m);
}

} // verus!
