//! Domain names: normalisation of configured text to absolute lowercase form,
//! parsing through hickory's `Name`, and resolution of names relative to a
//! zone origin.

use vstd::prelude::*;

use crate::text::{
    chars_concat, chars_ends_with, chars_eq, chars_of, ends_with_char, lowercase, no_ascii_upper,
    str_to_lowercase, string_of, string_push,
};

verus! {

/// A domain name as the server reads it from hickory's `Name`: its ASCII
/// presentation form (escapes as hickory writes them), its display form (IDNA
/// labels decoded), its label count (a leading `*` not counted), its raw
/// labels and whether it is absolute.
#[derive(Clone, Debug)]
pub struct DnsName {
    pub ascii: Vec<char>,
    pub utf8: Vec<char>,
    pub labels: u8,
    pub wire: Vec<Vec<u8>>,
    pub fqdn: bool,
}

/// The mathematical value of a [`DnsName`].
pub struct NameV {
    pub ascii: Seq<char>,
    pub utf8: Seq<char>,
    pub labels: u8,
    pub wire: Seq<Seq<u8>>,
    pub fqdn: bool,
}

/// The byte strings of a list of labels.
pub open spec fn labels_view(v: Seq<Vec<u8>>) -> Seq<Seq<u8>> {
    v.map_values(|l: Vec<u8>| l@)
}

impl View for DnsName {
    type V = NameV;

    open spec fn view(&self) -> NameV {
        NameV {
            ascii: self.ascii@,
            utf8: self.utf8@,
            labels: self.labels,
            wire: labels_view(self.wire@),
            fqdn: self.fqdn,
        }
    }
}

/// A copy of a byte string.
fn copy_bytes(v: &Vec<u8>) -> (r: Vec<u8>)
    ensures
        r@ == v@,
{
    let mut out: Vec<u8> = Vec::new();
    let mut i: usize = 0;
    while i < v.len()
        invariant
            i <= v.len(),
            out@ == v@.take(i as int),
        decreases v.len() - i,
    {
        out.push(v[i]);
        i = i + 1;
        assert(out@ =~= v@.take(i as int));
    }
    assert(v@.take(v.len() as int) =~= v@);
    out
}

/// A copy of a list of labels.
fn copy_labels(v: &Vec<Vec<u8>>) -> (r: Vec<Vec<u8>>)
    ensures
        labels_view(r@) == labels_view(v@),
{
    let mut out: Vec<Vec<u8>> = Vec::new();
    let mut i: usize = 0;
    while i < v.len()
        invariant
            i <= v.len(),
            labels_view(out@) == labels_view(v@).take(i as int),
        decreases v.len() - i,
    {
        let ghost before = labels_view(out@);
        out.push(copy_bytes(&v[i]));
        assert(labels_view(out@) =~= before.push(v@[i as int]@));
        i = i + 1;
        assert(labels_view(out@) =~= labels_view(v@).take(i as int));
    }
    assert(labels_view(v@).take(v.len() as int) =~= labels_view(v@));
    out
}

impl DnsName {
    /// An independent copy of this name.
    pub fn copy(&self) -> (r: DnsName)
        ensures
            r@ == self@,
    {
        DnsName {
            ascii: crate::text::chars_copy(&self.ascii),
            utf8: crate::text::chars_copy(&self.utf8),
            labels: self.labels,
            wire: copy_labels(&self.wire),
            fqdn: self.fqdn,
        }
    }

    /// The ASCII presentation form as a `String`.
    pub fn to_ascii(&self) -> (r: String)
        ensures
            r@ == self@.ascii,
    {
        string_of(&self.ascii)
    }

    /// Whether two names are the same name, as hickory compares them: both
    /// absolute or both relative, with the same labels up to ASCII case.
    pub fn same_name(&self, other: &DnsName) -> (r: bool)
        ensures
            r == names_eq(self@, other@),
    {
        if self.fqdn != other.fqdn || self.wire.len() != other.wire.len() {
            proof {
                if self.wire.len() != other.wire.len() {
                    assert(labels_lower(self@.wire).len() != labels_lower(other@.wire).len());
                }
            }
            return false;
        }
        let ghost a = self@.wire;
        let ghost b = other@.wire;
        let mut i: usize = 0;
        while i < self.wire.len()
            invariant
                i <= self.wire.len(),
                self.wire.len() == other.wire.len(),
                a == labels_view(self.wire@),
                b == labels_view(other.wire@),
                forall|j: int| 0 <= j < i ==> label_lower(#[trigger] a[j]) == label_lower(b[j]),
            decreases self.wire.len() - i,
        {
            if !label_eq_ignore_ascii_case(&self.wire[i], &other.wire[i]) {
                assert(labels_lower(a)[i as int] != labels_lower(b)[i as int]);
                return false;
            }
            i = i + 1;
        }
        assert(labels_lower(a) =~= labels_lower(b)) by {
            assert forall|j: int| 0 <= j < a.len() implies #[trigger] labels_lower(a)[j]
                == labels_lower(b)[j] by {
                assert(label_lower(a[j]) == label_lower(b[j]));
            }
        }
        true
    }
}

/// ASCII lowercase of one byte: `A`..`Z` become `a`..`z`, all else is kept.
pub open spec fn byte_lower(b: u8) -> u8 {
    if 65 <= b && b <= 90 {
        (b + 32) as u8
    } else {
        b
    }
}

/// ASCII lowercase of a label's bytes.
pub open spec fn label_lower(l: Seq<u8>) -> Seq<u8> {
    l.map_values(|b: u8| byte_lower(b))
}

/// ASCII lowercase of each label.
pub open spec fn labels_lower(ls: Seq<Seq<u8>>) -> Seq<Seq<u8>> {
    ls.map_values(|l: Seq<u8>| label_lower(l))
}

/// Two names are the same name when both are absolute (or both relative) and
/// their labels agree up to ASCII case.
pub open spec fn names_eq(a: NameV, b: NameV) -> bool {
    a.fqdn == b.fqdn && labels_lower(a.wire) == labels_lower(b.wire)
}

/// `origin` is `name` or one of its ancestors: its labels are the last labels
/// of `name`, compared without regard to ASCII case.
pub open spec fn in_zone(name: NameV, origin: NameV) -> bool {
    &&& origin.wire.len() <= name.wire.len()
    &&& labels_lower(name.wire).subrange(
        name.wire.len() - origin.wire.len(),
        name.wire.len() as int,
    ) == labels_lower(origin.wire)
}

/// ASCII lowercase of one byte.
fn u8_ascii_lower(b: u8) -> (r: u8)
    ensures
        r == byte_lower(b),
{
    if 65 <= b && b <= 90 {
        b + 32
    } else {
        b
    }
}

/// Equality of two labels up to ASCII case.
fn label_eq_ignore_ascii_case(a: &Vec<u8>, b: &Vec<u8>) -> (r: bool)
    ensures
        r == (label_lower(a@) == label_lower(b@)),
{
    if a.len() != b.len() {
        assert(label_lower(a@).len() != label_lower(b@).len());
        return false;
    }
    let mut i: usize = 0;
    while i < a.len()
        invariant
            i <= a.len(),
            a.len() == b.len(),
            forall|j: int| 0 <= j < i ==> byte_lower(a@[j]) == byte_lower(b@[j]),
        decreases a.len() - i,
    {
        if u8_ascii_lower(a[i]) != u8_ascii_lower(b[i]) {
            assert(label_lower(a@)[i as int] != label_lower(b@)[i as int]);
            return false;
        }
        i = i + 1;
    }
    assert(label_lower(a@) =~= label_lower(b@));
    true
}

/// Whether `origin` is `name` or one of its ancestors (labels compared without
/// regard to ASCII case).
pub fn name_in_zone(name: &DnsName, origin: &DnsName) -> (r: bool)
    ensures
        r == in_zone(name@, origin@),
{
    if origin.wire.len() > name.wire.len() {
        return false;
    }
    let ghost q = name@.wire;
    let ghost o = origin@.wire;
    let off = name.wire.len() - origin.wire.len();
    let mut i: usize = 0;
    while i < origin.wire.len()
        invariant
            i <= origin.wire.len(),
            off + origin.wire.len() == name.wire.len(),
            q == labels_view(name.wire@),
            o == labels_view(origin.wire@),
            forall|j: int| 0 <= j < i ==> label_lower(#[trigger] q[off + j]) == label_lower(o[j]),
        decreases origin.wire.len() - i,
    {
        if !label_eq_ignore_ascii_case(&name.wire[off + i], &origin.wire[i]) {
            assert(labels_lower(q).subrange(off as int, q.len() as int)[i as int]
                != labels_lower(o)[i as int]);
            return false;
        }
        i = i + 1;
    }
    assert(labels_lower(q).subrange(off as int, q.len() as int) =~= labels_lower(o)) by {
        assert forall|j: int| 0 <= j < o.len() implies #[trigger] labels_lower(q).subrange(
            off as int,
            q.len() as int,
        )[j] == labels_lower(o)[j] by {
            assert(label_lower(q[off + j]) == label_lower(o[j]));
        }
    }
    true
}

// ---------------------------------------------------------------------------
// hickory's name parser
// ---------------------------------------------------------------------------

/// What `hickory_proto::rr::Name::from_ascii` makes of a text, read back as
/// its `to_ascii` form, its `to_utf8` form, its `num_labels`, its labels and
/// its `is_fqdn` flag; `None` where hickory rejects the text.
pub uninterp spec fn hickory_name_from_ascii(text: Seq<char>) -> Option<NameV>;

/// Calls `hickory_proto::rr::Name::from_ascii` and reads the parsed name back
/// through `to_ascii`, `to_utf8`, `num_labels`, its labels and `is_fqdn`. The
/// contract only names the outcome: which texts hickory accepts and how it
/// prints them is left to hickory's label rules (length limits, escapes,
/// allowed characters).
#[verifier::external_body]
fn name_from_ascii(text: &str) -> (r: Option<DnsName>)
    ensures
        match r {
            Some(n) => hickory_name_from_ascii(text@) == Some(n@),
            None => hickory_name_from_ascii(text@) is None,
        },
{
    match hickory_proto::rr::Name::from_ascii(text) {
        Ok(n) => Some(DnsName {
            ascii: n.to_ascii().chars().collect(),
            utf8: n.to_utf8().chars().collect(),
            labels: n.num_labels(),
            wire: n.iter().map(|l| l.to_vec()).collect(),
            fqdn: n.is_fqdn(),
        }),
        Err(_) => None,
    }
}

// ---------------------------------------------------------------------------
// Normalisation
// ---------------------------------------------------------------------------

/// The absolute form of a text: the text itself if it ends with `.`, else the
/// text with a `.` appended.
pub open spec fn absolute_form(t: Seq<char>) -> Seq<char> {
    if ends_with_char(t, '.') {
        t
    } else {
        t.push('.')
    }
}

/// The absolute lowercase form of a configured name: the absolute form of the
/// text's lowercase (what `str::to_lowercase` returns).
pub open spec fn ensure_fqdn_spec(s: Seq<char>) -> Seq<char> {
    absolute_form(lowercase(s))
}

/// The name hickory parses from the absolute lowercase form of `s`; `None`
/// where hickory rejects it (the server treats that as a fatal error).
pub open spec fn parse_name_spec(s: Seq<char>) -> Option<NameV> {
    hickory_name_from_ascii(ensure_fqdn_spec(s))
}

/// The name that `value` denotes inside a zone with the given origin: `@` is
/// the origin itself, a text ending in `.` is absolute, anything else is
/// relative to the origin (joined with the origin's display form).
pub open spec fn value_to_name_spec(value: Seq<char>, origin: NameV) -> Option<NameV> {
    if value == "@"@ {
        Some(origin)
    } else if ends_with_char(value, '.') {
        parse_name_spec(value)
    } else {
        parse_name_spec(value + seq!['.'] + origin.utf8)
    }
}

/// Lowercases `s` and makes it absolute by appending a `.` if it has none.
/// The result always ends with `.` and holds no ASCII capital letter.
pub fn ensure_fqdn(s: &str) -> (r: String)
    ensures
        r@ == ensure_fqdn_spec(s@),
        ends_with_char(r@, '.'),
        no_ascii_upper(r@),
{
    let chars = chars_of(s);
    let lower = str_to_lowercase(s);
    if chars_ends_with(&chars, '.') {
        lower
    } else {
        let mut out = lower;
        let ghost before = out@;
        string_push(&mut out, '.');
        assert(no_ascii_upper(out@)) by {
            assert forall|i: int| 0 <= i < out@.len() implies !('A' <= #[trigger] out@[i]
                && out@[i] <= 'Z') by {
                if i < before.len() {
                    assert(out@[i] == before[i]);
                }
            }
        }
        out
    }
}

/// Parses the absolute lowercase form of a character text.
pub(crate) fn parse_chars(text: &Vec<char>) -> (r: Option<DnsName>)
    ensures
        match r {
            Some(n) => parse_name_spec(text@) == Some(n@),
            None => parse_name_spec(text@) is None,
        },
{
    let s = string_of(text);
    let fqdn = ensure_fqdn(s.as_str());
    name_from_ascii(fqdn.as_str())
}

/// Parses a configured name; `None` where hickory rejects its absolute
/// lowercase form.
pub fn parse_name_checked(s: &str) -> (r: Option<DnsName>)
    ensures
        match r {
            Some(n) => parse_name_spec(s@) == Some(n@),
            None => parse_name_spec(s@) is None,
        },
{
    let text = chars_of(s);
    parse_chars(&text)
}

/// The empty relative name (no characters, no labels), used as a placeholder
/// in branches that a `requires` clause rules out.
pub open spec fn empty_name() -> NameV {
    NameV {
        ascii: Seq::<char>::empty(),
        utf8: Seq::<char>::empty(),
        labels: 0,
        wire: Seq::<Seq<u8>>::empty(),
        fqdn: false,
    }
}

/// A placeholder for branches that a `requires` clause rules out.
fn unreachable_name() -> (r: DnsName)
    ensures
        r@ == empty_name(),
{
    let r = DnsName { ascii: Vec::new(), utf8: Vec::new(), labels: 0, wire: Vec::new(), fqdn: false };
    assert(labels_view(r.wire@) =~= Seq::<Seq<u8>>::empty());
    r
}

/// Parses a configured name that hickory accepts.
pub fn parse_name(s: &str) -> (r: DnsName)
    requires
        parse_name_spec(s@) is Some,
    ensures
        parse_name_spec(s@) == Some(r@),
{
    match parse_name_checked(s) {
        Some(n) => n,
        None => unreachable_name(),
    }
}

/// Resolves `value` inside a zone; `None` where the resulting text is not a
/// name hickory accepts.
pub(crate) fn value_chars_to_name(value: &Vec<char>, origin: &DnsName) -> (r: Option<DnsName>)
    ensures
        match r {
            Some(n) => value_to_name_spec(value@, origin@) == Some(n@),
            None => value_to_name_spec(value@, origin@) is None,
        },
{
    let at = chars_of("@");
    if chars_eq(value, &at) {
        Some(origin.copy())
    } else if chars_ends_with(value, '.') {
        parse_chars(value)
    } else {
        let mut dotted = crate::text::chars_copy(value);
        dotted.push('.');
        let full = chars_concat(&dotted, &origin.utf8);
        assert(full@ =~= value@ + seq!['.'] + origin@.utf8);
        parse_chars(&full)
    }
}

/// Resolves `value` inside the zone with the given origin; `None` where the
/// resulting text is not a name hickory accepts.
pub fn value_to_name_checked(value: &str, origin: &DnsName) -> (r: Option<DnsName>)
    ensures
        match r {
            Some(n) => value_to_name_spec(value@, origin@) == Some(n@),
            None => value_to_name_spec(value@, origin@) is None,
        },
{
    let v = chars_of(value);
    value_chars_to_name(&v, origin)
}

/// Resolves `value` inside the zone with the given origin, where the result
/// is a name hickory accepts.
pub fn value_to_name(value: &str, origin: &DnsName) -> (r: DnsName)
    requires
        value_to_name_spec(value@, origin@) is Some,
    ensures
        value_to_name_spec(value@, origin@) == Some(r@),
{
    match value_to_name_checked(value, origin) {
        Some(n) => n,
        None => unreachable_name(),
    }
}

} // verus!
