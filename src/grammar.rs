//! The label grammar, stated over sequences of characters.
//!
//! ```text
//! nevra        := name '-' evra
//! evra         := [ epoch ':' ] version [ '-' release ] [ '.' architecture ]
//! ```
//!
//! Every field is a non-empty run of token characters: characters that are
//! neither control characters nor whitespace. `name`, `epoch` and `version`
//! take no `-`, `:` or `.`; `release` takes no `.`; `architecture` takes any
//! token character, so the first `.` after the version or the release starts
//! the architecture. Parsing is the exact inverse of formatting: a label is
//! accepted if and only if it is the text of a well-formed value, and that
//! value is unique.
use vstd::prelude::*;

verus! {

/// A character that may stand in a field at all: not a control character
/// (C0, DEL, C1) and not a Unicode whitespace character.
pub open spec fn token_char(c: char) -> bool {
    let u = c as u32;
    &&& u > 0x20
    &&& !(0x7f <= u && u <= 0xa0)
    &&& u != 0x1680
    &&& !(0x2000 <= u && u <= 0x200a)
    &&& u != 0x2028
    &&& u != 0x2029
    &&& u != 0x202f
    &&& u != 0x205f
    &&& u != 0x3000
}

/// The character classes of the fields.
#[derive(Clone, Copy, PartialEq, Eq, Structural)]
pub enum FieldClass {
    /// Name, epoch and version: no `-`, `:` or `.`.
    Head,
    /// Release: no `.`.
    Release,
    /// Architecture: any token character.
    Architecture,
}

/// A character of a field of the given class.
pub open spec fn field_char(c: char, class: FieldClass) -> bool {
    token_char(c) && match class {
        FieldClass::Head => c != '.' && c != '-' && c != ':',
        FieldClass::Release => c != '.',
        FieldClass::Architecture => true,
    }
}

/// A well-formed field: non-empty, of field characters only.
pub open spec fn field_ok(s: Seq<char>, class: FieldClass) -> bool {
    s.len() > 0 && forall|i: int| 0 <= i < s.len() ==> field_char(#[trigger] s[i], class)
}

pub open spec fn opt_field_ok(o: Option<Seq<char>>, class: FieldClass) -> bool {
    match o {
        Some(s) => field_ok(s, class),
        None => true,
    }
}

/// Length of the longest prefix of `s` made of field characters.
pub open spec fn run_len(s: Seq<char>, class: FieldClass) -> nat
    decreases s.len(),
{
    if s.len() > 0 && field_char(s[0], class) {
        1 + run_len(s.drop_first(), class)
    } else {
        0
    }
}

/// Text of an optional field followed by its separator.
pub open spec fn opt_before(o: Option<Seq<char>>, sep: char) -> Seq<char> {
    match o {
        Some(s) => s.push(sep),
        None => Seq::empty(),
    }
}

/// Text of a separator followed by an optional field.
pub open spec fn opt_after(sep: char, o: Option<Seq<char>>) -> Seq<char> {
    match o {
        Some(s) => seq![sep] + s,
        None => Seq::empty(),
    }
}

/// The fields of an EVRA label.
pub struct EvraModel {
    pub epoch: Option<Seq<char>>,
    pub version: Seq<char>,
    pub release: Option<Seq<char>>,
    pub architecture: Option<Seq<char>>,
}

/// The fields of a NEVRA label.
pub struct NevraModel {
    pub name: Seq<char>,
    pub evra: EvraModel,
}

impl EvraModel {
    pub open spec fn wf(self) -> bool {
        &&& opt_field_ok(self.epoch, FieldClass::Head)
        &&& field_ok(self.version, FieldClass::Head)
        &&& opt_field_ok(self.release, FieldClass::Release)
        &&& opt_field_ok(self.architecture, FieldClass::Architecture)
    }

    /// `[epoch ':'] version ['-' release] ['.' architecture]`
    pub open spec fn text(self) -> Seq<char> {
        opt_before(self.epoch, ':') + self.version + opt_after('-', self.release) + opt_after(
            '.',
            self.architecture,
        )
    }
}

impl NevraModel {
    pub open spec fn wf(self) -> bool {
        field_ok(self.name, FieldClass::Head) && self.evra.wf()
    }

    /// `name '-' evra`
    pub open spec fn text(self) -> Seq<char> {
        self.name.push('-') + self.evra.text()
    }
}

/// What may follow the version or the release: nothing, or `.` and an
/// architecture that runs to the end.
pub open spec fn parse_architecture(s: Seq<char>) -> Option<Option<Seq<char>>> {
    if s.len() == 0 {
        Some(None)
    } else if s[0] == '.' && field_ok(s.skip(1), FieldClass::Architecture) {
        Some(Some(s.skip(1)))
    } else {
        None
    }
}

/// What may follow the version: an optional `-` release, then the
/// optional architecture.
pub open spec fn parse_tail(s: Seq<char>) -> Option<(Option<Seq<char>>, Option<Seq<char>>)> {
    if s.len() > 0 && s[0] == '-' {
        let r = s.skip(1);
        let m = run_len(r, FieldClass::Release);
        if m > 0 {
            match parse_architecture(r.skip(m as int)) {
                Some(a) => Some((Some(r.take(m as int)), a)),
                None => None,
            }
        } else {
            None
        }
    } else {
        match parse_architecture(s) {
            Some(a) => Some((None, a)),
            None => None,
        }
    }
}

/// The epoch is the head run when a `:` ends it; the version is the head
/// run of what is left.
pub open spec fn parse_evra(s: Seq<char>) -> Option<EvraModel> {
    let k = run_len(s, FieldClass::Head);
    let has_epoch = k < s.len() && s[k as int] == ':';
    let epoch = if has_epoch {
        Some(s.take(k as int))
    } else {
        None
    };
    let rest = if has_epoch {
        s.skip((k + 1) as int)
    } else {
        s
    };
    let j = run_len(rest, FieldClass::Head);
    if (has_epoch ==> k > 0) && j > 0 {
        match parse_tail(rest.skip(j as int)) {
            Some((release, architecture)) => Some(
                EvraModel { epoch, version: rest.take(j as int), release, architecture },
            ),
            None => None,
        }
    } else {
        None
    }
}

/// The name is the head run, ended by `-`; the rest is an EVRA label.
pub open spec fn parse_nevra(s: Seq<char>) -> Option<NevraModel> {
    let k = run_len(s, FieldClass::Head);
    if 0 < k < s.len() && s[k as int] == '-' {
        match parse_evra(s.skip((k + 1) as int)) {
            Some(evra) => Some(NevraModel { name: s.take(k as int), evra }),
            None => None,
        }
    } else {
        None
    }
}

/// `run_len` is the first index whose character is not a field character.
pub proof fn lemma_run_len_is(s: Seq<char>, class: FieldClass, k: int)
    requires
        0 <= k <= s.len(),
        forall|i: int| 0 <= i < k ==> field_char(#[trigger] s[i], class),
        k == s.len() || !field_char(s[k], class),
    ensures
        run_len(s, class) == k,
    decreases k,
{
    if k > 0 {
        assert(field_char(s[0], class));
        let t = s.drop_first();
        assert forall|i: int| 0 <= i < k - 1 implies field_char(#[trigger] t[i], class) by {
            assert(t[i] == s[i + 1]);
        }
        lemma_run_len_is(t, class, k - 1);
    }
}

/// The characters before `run_len` are field characters, the one at it is not.
pub proof fn lemma_run_len_facts(s: Seq<char>, class: FieldClass)
    ensures
        run_len(s, class) <= s.len(),
        forall|i: int| 0 <= i < run_len(s, class) ==> field_char(#[trigger] s[i], class),
        run_len(s, class) < s.len() ==> !field_char(s[run_len(s, class) as int], class),
    decreases s.len(),
{
    if s.len() > 0 && field_char(s[0], class) {
        let t = s.drop_first();
        lemma_run_len_facts(t, class);
        assert forall|i: int| 0 <= i < run_len(s, class) implies field_char(#[trigger] s[i], class) by {
            if i > 0 {
                assert(s[i] == t[i - 1]);
            }
        }
    }
}

/// A field is well-formed when its whole length is one run.
pub proof fn lemma_field_ok_run(s: Seq<char>, class: FieldClass)
    ensures
        field_ok(s, class) <==> (s.len() > 0 && run_len(s, class) == s.len()),
{
    lemma_run_len_facts(s, class);
    if field_ok(s, class) {
        lemma_run_len_is(s, class, s.len() as int);
    }
}

/// A well-formed field followed by a character outside its class, or by
/// nothing: `run_len` stops exactly at the field's end.
pub proof fn lemma_run_len_of_field(f: Seq<char>, after: Seq<char>, class: FieldClass)
    requires
        field_ok(f, class),
        after.len() == 0 || !field_char(after[0], class),
    ensures
        run_len(f + after, class) == f.len(),
        (f + after).take(f.len() as int) == f,
        (f + after).skip(f.len() as int) == after,
{
    let s = f + after;
    assert forall|i: int| 0 <= i < f.len() implies field_char(#[trigger] s[i], class) by {
        assert(s[i] == f[i]);
    }
    if after.len() > 0 {
        assert(s[f.len() as int] == after[0]);
    }
    lemma_run_len_is(s, class, f.len() as int);
    assert(s.take(f.len() as int) =~= f);
    assert(s.skip(f.len() as int) =~= after);
}

/// Parsing the text of a well-formed EVRA value gives it back.
pub proof fn lemma_parse_evra_text(m: EvraModel)
    requires
        m.wf(),
    ensures
        parse_evra(m.text()) == Some(m),
{
    let v = m.version;
    let ra = opt_after('-', m.release) + opt_after('.', m.architecture);
    let a = opt_after('.', m.architecture);
    // The version is ended by the tail's first separator, or by the end.
    if ra.len() > 0 {
        if m.release is Some {
            assert(ra[0] == '-');
        } else {
            assert(ra[0] == '.');
        }
    }
    lemma_run_len_of_field(v, ra, FieldClass::Head);
    assert(v + ra =~= v + opt_after('-', m.release) + a);
    // The architecture, if any, is the remainder after its `.`.
    if let Some(arch) = m.architecture {
        assert(a.skip(1) =~= arch);
    }
    assert(parse_architecture(a) == Some(m.architecture));
    // The release is ended by `.` or by the end.
    if let Some(rel) = m.release {
        if a.len() > 0 {
            assert(a[0] == '.');
        }
        lemma_run_len_of_field(rel, a, FieldClass::Release);
        assert(ra.skip(1) =~= rel + a);
    } else {
        assert(ra =~= a);
    }
    assert(parse_tail(ra) == Some((m.release, m.architecture)));
    let t = m.text();
    match m.epoch {
        Some(e) => {
            let after = seq![':'] + (v + ra);
            lemma_run_len_of_field(e, after, FieldClass::Head);
            assert(t =~= e + after);
            assert(after[0] == ':');
            assert(t.skip((e.len() + 1) as int) =~= v + ra);
        },
        None => {
            assert(t =~= v + ra);
            if ra.len() > 0 {
                assert(t[v.len() as int] == ra[0]);
            }
        },
    }
}

/// What parsing an EVRA label gives is well-formed, and its text is the label.
pub proof fn lemma_parse_evra_sound(s: Seq<char>)
    requires
        parse_evra(s) is Some,
    ensures
        parse_evra(s)->0.wf(),
        parse_evra(s)->0.text() == s,
{
    let m = parse_evra(s)->0;
    let k = run_len(s, FieldClass::Head);
    lemma_run_len_facts(s, FieldClass::Head);
    let has_epoch = k < s.len() && s[k as int] == ':';
    let rest = if has_epoch {
        s.skip((k + 1) as int)
    } else {
        s
    };
    let j = run_len(rest, FieldClass::Head);
    lemma_run_len_facts(rest, FieldClass::Head);
    let after = rest.skip(j as int);
    let ra = opt_after('-', m.release) + opt_after('.', m.architecture);
    if after.len() > 0 && after[0] == '-' {
        let r = after.skip(1);
        let n = run_len(r, FieldClass::Release);
        lemma_run_len_facts(r, FieldClass::Release);
        let b = r.skip(n as int);
        assert(opt_after('.', m.architecture) =~= b);
        assert(r =~= r.take(n as int) + b);
        assert(after =~= ra);
    } else {
        assert(opt_after('.', m.architecture) =~= after);
        assert(after =~= ra);
    }
    assert(rest =~= m.version + ra);
    if has_epoch {
        assert(s =~= s.take(k as int).push(':') + rest);
    }
    assert(s =~= m.text());
}

/// Parsing the text of a well-formed NEVRA value gives it back.
pub proof fn lemma_parse_nevra_text(m: NevraModel)
    requires
        m.wf(),
    ensures
        parse_nevra(m.text()) == Some(m),
{
    let after = seq!['-'] + m.evra.text();
    lemma_run_len_of_field(m.name, after, FieldClass::Head);
    assert(m.text() =~= m.name + after);
    assert(m.text().skip((m.name.len() + 1) as int) =~= m.evra.text());
    lemma_parse_evra_text(m.evra);
}

/// What parsing a NEVRA label gives is well-formed, and its text is the label.
pub proof fn lemma_parse_nevra_sound(s: Seq<char>)
    requires
        parse_nevra(s) is Some,
    ensures
        parse_nevra(s)->0.wf(),
        parse_nevra(s)->0.text() == s,
{
    let k = run_len(s, FieldClass::Head);
    lemma_run_len_facts(s, FieldClass::Head);
    lemma_parse_evra_sound(s.skip((k + 1) as int));
    assert(s =~= s.take(k as int).push('-') + s.skip((k + 1) as int));
}

} // verus!
