//! Structural parsing of one batch of device text.
//!
//! A batch is a sequence of sibling fragments with no enclosing root:
//! each fragment is `<Tag>` followed by leaf child elements of the shape
//! `<Name>text</Name>` and a matching `</Tag>`. Child text never contains
//! `<`; whitespace may stand between fragments and between children. The
//! grammar is defined by the `spec_parse_*` functions; the executable
//! parser is proved to return exactly what they describe.

use vstd::prelude::*;

verus! {

/// A tag or field name character: an ASCII letter or digit.
pub open spec fn is_name_char(c: char) -> bool {
    (65 <= c as u32 && c as u32 <= 90)  // 'A' ..= 'Z'
    || (97 <= c as u32 && c as u32 <= 122)  // 'a' ..= 'z'
    || (48 <= c as u32 && c as u32 <= 57)  // '0' ..= '9'

}

/// ASCII whitespace as the device may emit it between fragments.
pub open spec fn is_space_char(c: char) -> bool {
    c == ' ' || c == '\t' || c == '\r' || c == '\n'
}

/// One leaf child of a fragment: a named field with its verbatim text.
pub struct RawField {
    pub name: Vec<char>,
    pub value: Vec<char>,
}

/// Mathematical image of a [`RawField`].
#[verifier::ext_equal]
pub struct RawFieldV {
    pub name: Seq<char>,
    pub value: Seq<char>,
}

impl View for RawField {
    type V = RawFieldV;

    open spec fn view(&self) -> RawFieldV {
        RawFieldV { name: self.name@, value: self.value@ }
    }
}

/// One top-level fragment: its tag and its fields in text order.
pub struct RawElement {
    pub tag: Vec<char>,
    pub fields: Vec<RawField>,
}

/// Mathematical image of a [`RawElement`].
#[verifier::ext_equal]
pub struct RawElementV {
    pub tag: Seq<char>,
    pub fields: Seq<RawFieldV>,
}

pub open spec fn fields_view(fs: Seq<RawField>) -> Seq<RawFieldV> {
    fs.map_values(|f: RawField| f@)
}

impl View for RawElement {
    type V = RawElementV;

    open spec fn view(&self) -> RawElementV {
        RawElementV { tag: self.tag@, fields: fields_view(self.fields@) }
    }
}

pub open spec fn elements_view(es: Seq<RawElement>) -> Seq<RawElementV> {
    es.map_values(|e: RawElement| e@)
}

/// First position at or after `i` that does not hold a name character.
pub open spec fn spec_scan_name(s: Seq<char>, i: int) -> int
    decreases s.len() - i,
    when 0 <= i <= s.len()
{
    if i == s.len() {
        i
    } else if is_name_char(s[i]) {
        spec_scan_name(s, i + 1)
    } else {
        i
    }
}

/// First position at or after `i` that does not hold whitespace.
pub open spec fn spec_scan_space(s: Seq<char>, i: int) -> int
    decreases s.len() - i,
    when 0 <= i <= s.len()
{
    if i == s.len() {
        i
    } else if is_space_char(s[i]) {
        spec_scan_space(s, i + 1)
    } else {
        i
    }
}

/// First position at or after `i` that holds `<`, or the end.
pub open spec fn spec_scan_text(s: Seq<char>, i: int) -> int
    decreases s.len() - i,
    when 0 <= i <= s.len()
{
    if i == s.len() {
        i
    } else if s[i] == '<' {
        i
    } else {
        spec_scan_text(s, i + 1)
    }
}

pub proof fn lemma_scan_name_bounds(s: Seq<char>, i: int)
    requires
        0 <= i <= s.len(),
    ensures
        i <= spec_scan_name(s, i) <= s.len(),
        spec_scan_name(s, i) == s.len() || !is_name_char(s[spec_scan_name(s, i)]),
        forall|k: int| i <= k < spec_scan_name(s, i) ==> is_name_char(s[k]),
    decreases s.len() - i,
{
    if i < s.len() && is_name_char(s[i]) {
        lemma_scan_name_bounds(s, i + 1);
    }
}

pub proof fn lemma_scan_space_bounds(s: Seq<char>, i: int)
    requires
        0 <= i <= s.len(),
    ensures
        i <= spec_scan_space(s, i) <= s.len(),
        spec_scan_space(s, i) == s.len() || !is_space_char(s[spec_scan_space(s, i)]),
        forall|k: int| i <= k < spec_scan_space(s, i) ==> is_space_char(s[k]),
    decreases s.len() - i,
{
    if i < s.len() && is_space_char(s[i]) {
        lemma_scan_space_bounds(s, i + 1);
    }
}

pub proof fn lemma_scan_text_bounds(s: Seq<char>, i: int)
    requires
        0 <= i <= s.len(),
    ensures
        i <= spec_scan_text(s, i) <= s.len(),
        spec_scan_text(s, i) == s.len() || s[spec_scan_text(s, i)] == '<',
        forall|k: int| i <= k < spec_scan_text(s, i) ==> s[k] != '<',
    decreases s.len() - i,
{
    if i < s.len() && s[i] != '<' {
        lemma_scan_text_bounds(s, i + 1);
    }
}

/// One field: `<Name>text</Name>` starting exactly at `i`, where the
/// closing name repeats the opening one and the text holds no `<`.
pub open spec fn spec_parse_field(s: Seq<char>, i: int) -> Option<(RawFieldV, int)> {
    if !(0 <= i && i < s.len() && s[i] == '<') {
        None
    } else {
        let n0 = i + 1;
        let n1 = spec_scan_name(s, n0);
        if n1 == n0 || n1 >= s.len() || s[n1] != '>' {
            None
        } else {
            let v0 = n1 + 1;
            let v1 = spec_scan_text(s, v0);
            if v1 + 1 >= s.len() || s[v1] != '<' || s[v1 + 1] != '/' {
                None
            } else {
                let c0 = v1 + 2;
                let c1 = spec_scan_name(s, c0);
                if s.subrange(c0, c1) != s.subrange(n0, n1) || c1 >= s.len() || s[c1] != '>' {
                    None
                } else {
                    Some(
                        (
                            RawFieldV { name: s.subrange(n0, n1), value: s.subrange(v0, v1) },
                            c1 + 1,
                        ),
                    )
                }
            }
        }
    }
}

pub proof fn lemma_parse_field_advances(s: Seq<char>, i: int)
    requires
        spec_parse_field(s, i) is Some,
    ensures
        i < spec_parse_field(s, i)->Some_0.1 <= s.len(),
{
    lemma_scan_name_bounds(s, i + 1);
    let n1 = spec_scan_name(s, i + 1);
    lemma_scan_text_bounds(s, n1 + 1);
    let v1 = spec_scan_text(s, n1 + 1);
    lemma_scan_name_bounds(s, v1 + 2);
}

/// The fields inside a fragment, from `i` up to (but not through) the
/// first `</`; whitespace may stand between them. Fails at the end of
/// the text (no closing tag) and on any stray text.
pub open spec fn spec_parse_fields(s: Seq<char>, i: int) -> Option<(Seq<RawFieldV>, int)>
    decreases s.len() - i,
    when 0 <= i <= s.len()
{
    let w = spec_scan_space(s, i);
    if w >= s.len() {
        None
    } else if s[w] != '<' {
        None
    } else if w + 1 < s.len() && s[w + 1] == '/' {
        Some((Seq::<RawFieldV>::empty(), w))
    } else {
        match spec_parse_field(s, w) {
            None => None,
            Some((f, j)) => {
                proof {
                    lemma_scan_space_bounds(s, i);
                    lemma_parse_field_advances(s, w);
                }
                match spec_parse_fields(s, j) {
                    None => None,
                    Some((fs, e)) => Some((seq![f] + fs, e)),
                }
            },
        }
    }
}

pub proof fn lemma_parse_fields_props(s: Seq<char>, i: int)
    requires
        0 <= i <= s.len(),
        spec_parse_fields(s, i) is Some,
    ensures
        ({
            let e = spec_parse_fields(s, i)->Some_0.1;
            i <= e && e + 1 < s.len() && s[e] == '<' && s[e + 1] == '/'
        }),
    decreases s.len() - i,
{
    let w = spec_scan_space(s, i);
    lemma_scan_space_bounds(s, i);
    if !(w >= s.len() || s[w] != '<' || (w + 1 < s.len() && s[w + 1] == '/')) {
        match spec_parse_field(s, w) {
            None => {},
            Some((f, j)) => {
                lemma_parse_field_advances(s, w);
                lemma_parse_fields_props(s, j);
            },
        }
    }
}

/// One fragment: `<Tag>`, its fields, `</Tag>` with the same tag.
pub open spec fn spec_parse_element(s: Seq<char>, i: int) -> Option<(RawElementV, int)> {
    if !(0 <= i && i < s.len() && s[i] == '<') {
        None
    } else {
        let n0 = i + 1;
        let n1 = spec_scan_name(s, n0);
        if n1 == n0 || n1 >= s.len() || s[n1] != '>' {
            None
        } else {
            match spec_parse_fields(s, n1 + 1) {
                None => None,
                Some((fs, k)) => {
                    let c0 = k + 2;
                    let c1 = spec_scan_name(s, c0);
                    if s.subrange(c0, c1) != s.subrange(n0, n1) || c1 >= s.len() || s[c1]
                        != '>' {
                        None
                    } else {
                        Some((RawElementV { tag: s.subrange(n0, n1), fields: fs }, c1 + 1))
                    }
                },
            }
        }
    }
}

pub proof fn lemma_parse_element_advances(s: Seq<char>, i: int)
    requires
        spec_parse_element(s, i) is Some,
    ensures
        i < spec_parse_element(s, i)->Some_0.1 <= s.len(),
{
    lemma_scan_name_bounds(s, i + 1);
    let n1 = spec_scan_name(s, i + 1);
    lemma_parse_fields_props(s, n1 + 1);
    let k = spec_parse_fields(s, n1 + 1)->Some_0.1;
    lemma_scan_name_bounds(s, k + 2);
}

/// All fragments of a batch, separated by optional whitespace, ending
/// exactly at the end of the text.
pub open spec fn spec_parse_elements(s: Seq<char>, i: int) -> Option<(Seq<RawElementV>, int)>
    decreases s.len() - i,
    when 0 <= i <= s.len()
{
    let w = spec_scan_space(s, i);
    if w == s.len() {
        Some((Seq::<RawElementV>::empty(), w))
    } else {
        match spec_parse_element(s, w) {
            None => None,
            Some((e, j)) => {
                proof {
                    lemma_scan_space_bounds(s, i);
                    lemma_parse_element_advances(s, w);
                }
                match spec_parse_elements(s, j) {
                    None => None,
                    Some((es, end)) => Some((seq![e] + es, end)),
                }
            },
        }
    }
}

/// The fragments of a whole batch of text, when it parses.
pub open spec fn spec_parse_batch(s: Seq<char>) -> Option<Seq<RawElementV>> {
    match spec_parse_elements(s, 0) {
        None => None,
        Some((es, _)) => Some(es),
    }
}

fn name_char(c: char) -> (b: bool)
    ensures
        b == is_name_char(c),
{
    let u = c as u32;
    (65 <= u && u <= 90) || (97 <= u && u <= 122) || (48 <= u && u <= 57)
}

fn space_char(c: char) -> (b: bool)
    ensures
        b == is_space_char(c),
{
    c == ' ' || c == '\t' || c == '\r' || c == '\n'
}

/// Executable mirror of [`spec_scan_name`].
pub fn scan_name(s: &Vec<char>, i: usize) -> (j: usize)
    requires
        i <= s@.len(),
    ensures
        j as int == spec_scan_name(s@, i as int),
    decreases s@.len() - i,
{
    if i == s.len() {
        i
    } else if name_char(s[i]) {
        scan_name(s, i + 1)
    } else {
        i
    }
}

/// Executable mirror of [`spec_scan_space`].
pub fn scan_space(s: &Vec<char>, i: usize) -> (j: usize)
    requires
        i <= s@.len(),
    ensures
        j as int == spec_scan_space(s@, i as int),
    decreases s@.len() - i,
{
    if i == s.len() {
        i
    } else if space_char(s[i]) {
        scan_space(s, i + 1)
    } else {
        i
    }
}

/// Executable mirror of [`spec_scan_text`].
pub fn scan_text(s: &Vec<char>, i: usize) -> (j: usize)
    requires
        i <= s@.len(),
    ensures
        j as int == spec_scan_text(s@, i as int),
    decreases s@.len() - i,
{
    if i == s.len() {
        i
    } else if s[i] == '<' {
        i
    } else {
        scan_text(s, i + 1)
    }
}

/// True when two ranges of the text hold the same characters.
fn ranges_eq(s: &Vec<char>, a0: usize, a1: usize, b0: usize, b1: usize) -> (r: bool)
    requires
        a0 <= a1 <= s@.len(),
        b0 <= b1 <= s@.len(),
    ensures
        r == (s@.subrange(a0 as int, a1 as int) == s@.subrange(b0 as int, b1 as int)),
{
    let ghost aseq: Seq<char> = s@.subrange(a0 as int, a1 as int);
    let ghost bseq: Seq<char> = s@.subrange(b0 as int, b1 as int);
    if a1 - a0 != b1 - b0 {
        proof {
            assert(aseq.len() != bseq.len());
        }
        return false;
    }
    let n: usize = a1 - a0;
    let mut k: usize = 0;
    while k < n
        invariant
            k <= n,
            a0 + n == a1 <= s@.len(),
            b0 + n == b1 <= s@.len(),
            aseq == s@.subrange(a0 as int, a1 as int),
            bseq == s@.subrange(b0 as int, b1 as int),
            forall|t: int| 0 <= t < k ==> aseq[t] == bseq[t],
        decreases n - k,
    {
        if s[a0 + k] != s[b0 + k] {
            proof {
                assert(aseq[k as int] != bseq[k as int]);
            }
            return false;
        }
        k = k + 1;
    }
    proof {
        assert(aseq =~= bseq);
    }
    true
}

/// Executable mirror of [`spec_parse_field`].
pub fn parse_field(s: &Vec<char>, i: usize) -> (r: Option<(RawField, usize)>)
    requires
        i <= s@.len(),
    ensures
        match r {
            Some((f, j)) => spec_parse_field(s@, i as int) == Some((f@, j as int)),
            None => spec_parse_field(s@, i as int) is None,
        },
{
    if i >= s.len() || s[i] != '<' {
        return None;
    }
    let n0: usize = i + 1;
    let n1: usize = scan_name(s, n0);
    proof {
        lemma_scan_name_bounds(s@, n0 as int);
    }
    if n1 == n0 || n1 >= s.len() || s[n1] != '>' {
        return None;
    }
    let v0: usize = n1 + 1;
    let v1: usize = scan_text(s, v0);
    proof {
        lemma_scan_text_bounds(s@, v0 as int);
    }
    if s.len() - v1 < 2 || s[v1] != '<' || s[v1 + 1] != '/' {
        return None;
    }
    let c0: usize = v1 + 2;
    let c1: usize = scan_name(s, c0);
    proof {
        lemma_scan_name_bounds(s@, c0 as int);
    }
    if !ranges_eq(s, c0, c1, n0, n1) || c1 >= s.len() || s[c1] != '>' {
        return None;
    }
    let name: Vec<char> = crate::text::copy_range(s, n0, n1);
    let value: Vec<char> = crate::text::copy_range(s, v0, v1);
    Some((RawField { name, value }, c1 + 1))
}

/// Executable mirror of [`spec_parse_fields`].
pub fn parse_fields(s: &Vec<char>, i: usize) -> (r: Option<(Vec<RawField>, usize)>)
    requires
        i <= s@.len(),
    ensures
        match r {
            Some((fs, e)) => spec_parse_fields(s@, i as int) == Some((fields_view(fs@), e as int)),
            None => spec_parse_fields(s@, i as int) is None,
        },
    decreases s@.len() - i,
{
    let w: usize = scan_space(s, i);
    proof {
        lemma_scan_space_bounds(s@, i as int);
    }
    if w >= s.len() {
        return None;
    }
    if s[w] != '<' {
        return None;
    }
    if w + 1 < s.len() && s[w + 1] == '/' {
        let out: Vec<RawField> = Vec::new();
        proof {
            assert(fields_view(out@) =~= Seq::<RawFieldV>::empty());
        }
        return Some((out, w));
    }
    match parse_field(s, w) {
        None => None,
        Some((f, j)) => {
            proof {
                lemma_parse_field_advances(s@, w as int);
            }
            match parse_fields(s, j) {
                None => None,
                Some((fs, e)) => {
                    let ghost fv: RawFieldV = f@;
                    let ghost fsv: Seq<RawFieldV> = fields_view(fs@);
                    let mut out: Vec<RawField> = Vec::new();
                    out.push(f);
                    let mut rest: Vec<RawField> = fs;
                    out.append(&mut rest);
                    proof {
                        assert(fields_view(out@) =~= seq![fv] + fsv);
                    }
                    Some((out, e))
                },
            }
        },
    }
}

/// Executable mirror of [`spec_parse_element`].
pub fn parse_element(s: &Vec<char>, i: usize) -> (r: Option<(RawElement, usize)>)
    requires
        i <= s@.len(),
    ensures
        match r {
            Some((e, j)) => spec_parse_element(s@, i as int) == Some((e@, j as int)),
            None => spec_parse_element(s@, i as int) is None,
        },
{
    if i >= s.len() || s[i] != '<' {
        return None;
    }
    let n0: usize = i + 1;
    let n1: usize = scan_name(s, n0);
    proof {
        lemma_scan_name_bounds(s@, n0 as int);
    }
    if n1 == n0 || n1 >= s.len() || s[n1] != '>' {
        return None;
    }
    match parse_fields(s, n1 + 1) {
        None => None,
        Some((fs, k)) => {
            proof {
                lemma_parse_fields_props(s@, n1 as int + 1);
            }
            let c0: usize = k + 2;
            let c1: usize = scan_name(s, c0);
            proof {
                lemma_scan_name_bounds(s@, c0 as int);
            }
            if !ranges_eq(s, c0, c1, n0, n1) || c1 >= s.len() || s[c1] != '>' {
                return None;
            }
            let tag: Vec<char> = crate::text::copy_range(s, n0, n1);
            Some((RawElement { tag, fields: fs }, c1 + 1))
        },
    }
}

/// Executable mirror of [`spec_parse_elements`].
pub fn parse_elements(s: &Vec<char>, i: usize) -> (r: Option<(Vec<RawElement>, usize)>)
    requires
        i <= s@.len(),
    ensures
        match r {
            Some((es, e)) => spec_parse_elements(s@, i as int) == Some(
                (elements_view(es@), e as int),
            ),
            None => spec_parse_elements(s@, i as int) is None,
        },
    decreases s@.len() - i,
{
    let w: usize = scan_space(s, i);
    proof {
        lemma_scan_space_bounds(s@, i as int);
    }
    if w == s.len() {
        let out: Vec<RawElement> = Vec::new();
        proof {
            assert(elements_view(out@) =~= Seq::<RawElementV>::empty());
        }
        return Some((out, w));
    }
    match parse_element(s, w) {
        None => None,
        Some((e, j)) => {
            proof {
                lemma_parse_element_advances(s@, w as int);
            }
            match parse_elements(s, j) {
                None => None,
                Some((es, end)) => {
                    let ghost ev: RawElementV = e@;
                    let ghost esv: Seq<RawElementV> = elements_view(es@);
                    let mut out: Vec<RawElement> = Vec::new();
                    out.push(e);
                    let mut rest: Vec<RawElement> = es;
                    out.append(&mut rest);
                    proof {
                        assert(elements_view(out@) =~= seq![ev] + esv);
                    }
                    Some((out, end))
                },
            }
        },
    }
}

/// Parses a whole batch of text into its fragments.
pub fn parse_batch(s: &Vec<char>) -> (r: Option<Vec<RawElement>>)
    ensures
        match r {
            Some(es) => spec_parse_batch(s@) == Some(elements_view(es@)),
            None => spec_parse_batch(s@) is None,
        },
{
    match parse_elements(s, 0) {
        None => None,
        Some((es, _)) => Some(es),
    }
}

} // verus!
