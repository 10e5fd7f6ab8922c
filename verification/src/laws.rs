//! Composition of batches.
//!
//! The device emits fragments back to back; a batch boundary is only a
//! pause. The law proved here says that framing cannot invent or reorder
//! events: when two texts each decode successfully, their concatenation
//! — with no separator — decodes to the events of the first followed by
//! the events of the second, in order.
//!
//! The proof goes through two families of locality lemmas about the
//! grammar: parsing is unchanged by extending the text past a successful
//! parse (`*_prefix`), and parsing a suffix is unchanged by what stands
//! before it (`*_shift`).

use vstd::prelude::*;
use crate::decode::spec_decode_element;
use crate::decode::spec_decode_elements;
use crate::decode::spec_decode_text;
use crate::decode::DecodeErrorV;
use crate::parse::lemma_parse_element_advances;
use crate::parse::lemma_parse_field_advances;
use crate::parse::lemma_parse_fields_props;
use crate::parse::lemma_scan_name_bounds;
use crate::parse::lemma_scan_space_bounds;
use crate::parse::lemma_scan_text_bounds;
use crate::parse::spec_parse_batch;
use crate::parse::spec_parse_element;
use crate::parse::spec_parse_elements;
use crate::parse::spec_parse_field;
use crate::parse::spec_parse_fields;
use crate::parse::spec_scan_name;
use crate::parse::spec_scan_space;
use crate::parse::spec_scan_text;
use crate::parse::RawElementV;
use crate::parse::RawFieldV;
use crate::types::MessageV;

verus! {

proof fn lemma_scan_name_shift(s1: Seq<char>, s2: Seq<char>, d: int)
    requires
        0 <= d <= s2.len(),
    ensures
        spec_scan_name(s1 + s2, s1.len() + d) == s1.len() + spec_scan_name(s2, d),
    decreases s2.len() - d,
{
    if d < s2.len() {
        assert((s1 + s2)[s1.len() + d] == s2[d]);
        if crate::parse::is_name_char(s2[d]) {
            lemma_scan_name_shift(s1, s2, d + 1);
        }
    }
}

proof fn lemma_scan_space_shift(s1: Seq<char>, s2: Seq<char>, d: int)
    requires
        0 <= d <= s2.len(),
    ensures
        spec_scan_space(s1 + s2, s1.len() + d) == s1.len() + spec_scan_space(s2, d),
    decreases s2.len() - d,
{
    if d < s2.len() {
        assert((s1 + s2)[s1.len() + d] == s2[d]);
        if crate::parse::is_space_char(s2[d]) {
            lemma_scan_space_shift(s1, s2, d + 1);
        }
    }
}

proof fn lemma_scan_text_shift(s1: Seq<char>, s2: Seq<char>, d: int)
    requires
        0 <= d <= s2.len(),
    ensures
        spec_scan_text(s1 + s2, s1.len() + d) == s1.len() + spec_scan_text(s2, d),
    decreases s2.len() - d,
{
    if d < s2.len() {
        assert((s1 + s2)[s1.len() + d] == s2[d]);
        if s2[d] != '<' {
            lemma_scan_text_shift(s1, s2, d + 1);
        }
    }
}

proof fn lemma_scan_name_prefix(s1: Seq<char>, s2: Seq<char>, i: int)
    requires
        0 <= i <= s1.len(),
        spec_scan_name(s1, i) < s1.len(),
    ensures
        spec_scan_name(s1 + s2, i) == spec_scan_name(s1, i),
    decreases s1.len() - i,
{
    lemma_scan_name_bounds(s1, i);
    assert((s1 + s2)[i] == s1[i]);
    if i < s1.len() && crate::parse::is_name_char(s1[i]) {
        lemma_scan_name_prefix(s1, s2, i + 1);
    }
}

proof fn lemma_scan_space_prefix(s1: Seq<char>, s2: Seq<char>, i: int)
    requires
        0 <= i <= s1.len(),
        spec_scan_space(s1, i) < s1.len(),
    ensures
        spec_scan_space(s1 + s2, i) == spec_scan_space(s1, i),
    decreases s1.len() - i,
{
    lemma_scan_space_bounds(s1, i);
    assert((s1 + s2)[i] == s1[i]);
    if i < s1.len() && crate::parse::is_space_char(s1[i]) {
        lemma_scan_space_prefix(s1, s2, i + 1);
    }
}

proof fn lemma_scan_text_prefix(s1: Seq<char>, s2: Seq<char>, i: int)
    requires
        0 <= i <= s1.len(),
        spec_scan_text(s1, i) < s1.len(),
    ensures
        spec_scan_text(s1 + s2, i) == spec_scan_text(s1, i),
    decreases s1.len() - i,
{
    lemma_scan_text_bounds(s1, i);
    assert((s1 + s2)[i] == s1[i]);
    if i < s1.len() && s1[i] != '<' {
        lemma_scan_text_prefix(s1, s2, i + 1);
    }
}

/// A run of whitespace reaching the end of the first text continues into
/// the second: scanning the concatenation lands where the second scans.
proof fn lemma_scan_space_run(s1: Seq<char>, s2: Seq<char>, i: int)
    requires
        0 <= i <= s1.len(),
        spec_scan_space(s1, i) == s1.len(),
    ensures
        spec_scan_space(s1 + s2, i) == s1.len() + spec_scan_space(s2, 0),
    decreases s1.len() - i,
{
    if i == s1.len() {
        lemma_scan_space_shift(s1, s2, 0);
    } else {
        lemma_scan_space_bounds(s1, i);
        assert((s1 + s2)[i] == s1[i]);
        lemma_scan_space_run(s1, s2, i + 1);
    }
}

proof fn lemma_parse_field_shift(s1: Seq<char>, s2: Seq<char>, d: int)
    requires
        0 <= d <= s2.len(),
    ensures
        spec_parse_field(s1 + s2, s1.len() + d) == (match spec_parse_field(s2, d) {
            None => None::<(RawFieldV, int)>,
            Some((f, j)) => Some((f, s1.len() + j)),
        }),
{
    let t = s1 + s2;
    let ll = s1.len() as int;
    if 0 <= d && d < s2.len() && s2[d] == '<' {
        assert(t[ll + d] == s2[d]);
        let n0 = d + 1;
        lemma_scan_name_shift(s1, s2, n0);
        let n1 = spec_scan_name(s2, n0);
        lemma_scan_name_bounds(s2, n0);
        if !(n1 == n0 || n1 >= s2.len() || s2[n1] != '>') {
            assert(t[ll + n1] == s2[n1]);
            let v0 = n1 + 1;
            lemma_scan_text_shift(s1, s2, v0);
            let v1 = spec_scan_text(s2, v0);
            lemma_scan_text_bounds(s2, v0);
            if !(v1 + 1 >= s2.len() || s2[v1] != '<' || s2[v1 + 1] != '/') {
                assert(t[ll + v1] == s2[v1]);
                assert(t[ll + v1 + 1] == s2[v1 + 1]);
                let c0 = v1 + 2;
                lemma_scan_name_shift(s1, s2, c0);
                let c1 = spec_scan_name(s2, c0);
                lemma_scan_name_bounds(s2, c0);
                assert(t.subrange(ll + c0, ll + c1) =~= s2.subrange(c0, c1));
                assert(t.subrange(ll + n0, ll + n1) =~= s2.subrange(n0, n1));
                if !(s2.subrange(c0, c1) != s2.subrange(n0, n1) || c1 >= s2.len() || s2[c1]
                    != '>') {
                    assert(t[ll + c1] == s2[c1]);
                    assert(t.subrange(ll + v0, ll + v1) =~= s2.subrange(v0, v1));
                } else {
                    if c1 < s2.len() {
                        assert(t[ll + c1] == s2[c1]);
                    }
                }
            } else {
                if v1 < s2.len() {
                    assert(t[ll + v1] == s2[v1]);
                }
                if v1 + 1 < s2.len() {
                    assert(t[ll + v1 + 1] == s2[v1 + 1]);
                }
            }
        } else {
            if n1 < s2.len() {
                assert(t[ll + n1] == s2[n1]);
            }
        }
    }
}

proof fn lemma_parse_fields_shift(s1: Seq<char>, s2: Seq<char>, d: int)
    requires
        0 <= d <= s2.len(),
    ensures
        spec_parse_fields(s1 + s2, s1.len() + d) == (match spec_parse_fields(s2, d) {
            None => None::<(Seq<RawFieldV>, int)>,
            Some((fs, e)) => Some((fs, s1.len() + e)),
        }),
    decreases s2.len() - d,
{
    let t = s1 + s2;
    let ll = s1.len() as int;
    lemma_scan_space_shift(s1, s2, d);
    let w = spec_scan_space(s2, d);
    lemma_scan_space_bounds(s2, d);
    if w < s2.len() {
        assert(t[ll + w] == s2[w]);
        if w + 1 < s2.len() {
            assert(t[ll + w + 1] == s2[w + 1]);
        }
        if s2[w] == '<' && !(w + 1 < s2.len() && s2[w + 1] == '/') {
            lemma_parse_field_shift(s1, s2, w);
            match spec_parse_field(s2, w) {
                None => {},
                Some((f, j)) => {
                    lemma_parse_field_advances(s2, w);
                    lemma_parse_fields_shift(s1, s2, j);
                },
            }
        }
    }
}

proof fn lemma_parse_element_shift(s1: Seq<char>, s2: Seq<char>, d: int)
    requires
        0 <= d <= s2.len(),
    ensures
        spec_parse_element(s1 + s2, s1.len() + d) == (match spec_parse_element(s2, d) {
            None => None::<(RawElementV, int)>,
            Some((e, j)) => Some((e, s1.len() + j)),
        }),
{
    let t = s1 + s2;
    let ll = s1.len() as int;
    if 0 <= d && d < s2.len() && s2[d] == '<' {
        assert(t[ll + d] == s2[d]);
        let n0 = d + 1;
        lemma_scan_name_shift(s1, s2, n0);
        let n1 = spec_scan_name(s2, n0);
        lemma_scan_name_bounds(s2, n0);
        if !(n1 == n0 || n1 >= s2.len() || s2[n1] != '>') {
            assert(t[ll + n1] == s2[n1]);
            lemma_parse_fields_shift(s1, s2, n1 + 1);
            match spec_parse_fields(s2, n1 + 1) {
                None => {},
                Some((fs, k)) => {
                    lemma_parse_fields_props(s2, n1 + 1);
                    let c0 = k + 2;
                    lemma_scan_name_shift(s1, s2, c0);
                    let c1 = spec_scan_name(s2, c0);
                    lemma_scan_name_bounds(s2, c0);
                    assert(t.subrange(ll + c0, ll + c1) =~= s2.subrange(c0, c1));
                    assert(t.subrange(ll + n0, ll + n1) =~= s2.subrange(n0, n1));
                    if !(s2.subrange(c0, c1) != s2.subrange(n0, n1) || c1 >= s2.len() || s2[c1]
                        != '>') {
                        assert(t[ll + c1] == s2[c1]);
                    } else {
                        if c1 < s2.len() {
                            assert(t[ll + c1] == s2[c1]);
                        }
                    }
                },
            }
        } else {
            if n1 < s2.len() {
                assert(t[ll + n1] == s2[n1]);
            }
        }
    }
}

proof fn lemma_parse_elements_shift(s1: Seq<char>, s2: Seq<char>, d: int)
    requires
        0 <= d <= s2.len(),
    ensures
        spec_parse_elements(s1 + s2, s1.len() + d) == (match spec_parse_elements(s2, d) {
            None => None::<(Seq<RawElementV>, int)>,
            Some((es, e)) => Some((es, s1.len() + e)),
        }),
    decreases s2.len() - d,
{
    let t = s1 + s2;
    let ll = s1.len() as int;
    lemma_scan_space_shift(s1, s2, d);
    let w = spec_scan_space(s2, d);
    lemma_scan_space_bounds(s2, d);
    if w < s2.len() {
        lemma_parse_element_shift(s1, s2, w);
        match spec_parse_element(s2, w) {
            None => {},
            Some((e, j)) => {
                lemma_parse_element_advances(s2, w);
                lemma_parse_elements_shift(s1, s2, j);
            },
        }
    }
}

proof fn lemma_parse_field_prefix(s1: Seq<char>, s2: Seq<char>, i: int)
    requires
        spec_parse_field(s1, i) is Some,
    ensures
        spec_parse_field(s1 + s2, i) == spec_parse_field(s1, i),
{
    let t = s1 + s2;
    assert(t[i] == s1[i]);
    let n0 = i + 1;
    let n1 = spec_scan_name(s1, n0);
    lemma_scan_name_bounds(s1, n0);
    lemma_scan_name_prefix(s1, s2, n0);
    assert(t[n1] == s1[n1]);
    let v0 = n1 + 1;
    let v1 = spec_scan_text(s1, v0);
    lemma_scan_text_bounds(s1, v0);
    lemma_scan_text_prefix(s1, s2, v0);
    assert(t[v1] == s1[v1]);
    assert(t[v1 + 1] == s1[v1 + 1]);
    let c0 = v1 + 2;
    let c1 = spec_scan_name(s1, c0);
    lemma_scan_name_bounds(s1, c0);
    lemma_scan_name_prefix(s1, s2, c0);
    assert(t[c1] == s1[c1]);
    assert(t.subrange(c0, c1) =~= s1.subrange(c0, c1));
    assert(t.subrange(n0, n1) =~= s1.subrange(n0, n1));
    assert(t.subrange(v0, v1) =~= s1.subrange(v0, v1));
}

proof fn lemma_parse_fields_prefix(s1: Seq<char>, s2: Seq<char>, i: int)
    requires
        0 <= i <= s1.len(),
        spec_parse_fields(s1, i) is Some,
    ensures
        spec_parse_fields(s1 + s2, i) == spec_parse_fields(s1, i),
    decreases s1.len() - i,
{
    let t = s1 + s2;
    let w = spec_scan_space(s1, i);
    lemma_scan_space_bounds(s1, i);
    lemma_scan_space_prefix(s1, s2, i);
    assert(t[w] == s1[w]);
    if w + 1 < s1.len() && s1[w + 1] == '/' {
        assert(t[w + 1] == s1[w + 1]);
    } else {
        match spec_parse_field(s1, w) {
            None => {},
            Some((f, j)) => {
                lemma_scan_name_bounds(s1, w + 1);
                assert(t[w + 1] == s1[w + 1]);
                lemma_parse_field_prefix(s1, s2, w);
                lemma_parse_field_advances(s1, w);
                lemma_parse_fields_prefix(s1, s2, j);
            },
        }
    }
}

proof fn lemma_parse_element_prefix(s1: Seq<char>, s2: Seq<char>, i: int)
    requires
        spec_parse_element(s1, i) is Some,
    ensures
        spec_parse_element(s1 + s2, i) == spec_parse_element(s1, i),
{
    let t = s1 + s2;
    assert(t[i] == s1[i]);
    let n0 = i + 1;
    let n1 = spec_scan_name(s1, n0);
    lemma_scan_name_bounds(s1, n0);
    lemma_scan_name_prefix(s1, s2, n0);
    assert(t[n1] == s1[n1]);
    lemma_parse_fields_props(s1, n1 + 1);
    lemma_parse_fields_prefix(s1, s2, n1 + 1);
    let k = spec_parse_fields(s1, n1 + 1)->Some_0.1;
    let c0 = k + 2;
    let c1 = spec_scan_name(s1, c0);
    lemma_scan_name_bounds(s1, c0);
    lemma_scan_name_prefix(s1, s2, c0);
    assert(t[c1] == s1[c1]);
    assert(t.subrange(c0, c1) =~= s1.subrange(c0, c1));
    assert(t.subrange(n0, n1) =~= s1.subrange(n0, n1));
}

/// A successful parse of the first text composes with a successful parse
/// of the second: the concatenation parses to the two fragment lists in
/// order.
proof fn lemma_parse_elements_concat(s1: Seq<char>, s2: Seq<char>, i: int)
    requires
        0 <= i <= s1.len(),
        spec_parse_elements(s1, i) is Some,
        spec_parse_elements(s2, 0) is Some,
    ensures
        spec_parse_elements(s1 + s2, i) == Some(
            (
                spec_parse_elements(s1, i)->Some_0.0 + spec_parse_elements(s2, 0)->Some_0.0,
                s1.len() + spec_parse_elements(s2, 0)->Some_0.1,
            ),
        ),
    decreases s1.len() - i,
{
    let t = s1 + s2;
    let w = spec_scan_space(s1, i);
    lemma_scan_space_bounds(s1, i);
    if w == s1.len() {
        lemma_scan_space_run(s1, s2, i);
        lemma_scan_space_shift(s1, s2, 0);
        let w2 = spec_scan_space(s2, 0);
        lemma_scan_space_bounds(s2, 0);
        if w2 == s2.len() {
            assert(spec_parse_elements(s1, i)->Some_0.0 + spec_parse_elements(s2, 0)->Some_0.0
                =~= Seq::<RawElementV>::empty());
        } else {
            lemma_parse_element_shift(s1, s2, w2);
            match spec_parse_element(s2, w2) {
                None => {},
                Some((e, j2)) => {
                    lemma_parse_element_advances(s2, w2);
                    lemma_parse_elements_shift(s1, s2, j2);
                    match spec_parse_elements(s2, j2) {
                        None => {},
                        Some((es2, end2)) => {
                            assert(spec_parse_elements(t, i) == Some(
                                (seq![e] + es2, s1.len() + end2),
                            ));
                            assert(spec_parse_elements(s1, i)->Some_0.0 + (seq![e] + es2) =~= seq![
                                e,
                            ] + es2);
                        },
                    }
                },
            }
        }
    } else {
        lemma_scan_space_prefix(s1, s2, i);
        match spec_parse_element(s1, w) {
            None => {},
            Some((e, j)) => {
                lemma_parse_element_prefix(s1, s2, w);
                lemma_parse_element_advances(s1, w);
                lemma_parse_elements_concat(s1, s2, j);
                let es1rest = spec_parse_elements(s1, j)->Some_0.0;
                let es2 = spec_parse_elements(s2, 0)->Some_0.0;
                assert((seq![e] + es1rest) + es2 =~= seq![e] + (es1rest + es2));
            },
        }
    }
}

proof fn lemma_decode_elements_shift(es1: Seq<RawElementV>, es2: Seq<RawElementV>, d: int)
    requires
        0 <= d <= es2.len(),
    ensures
        spec_decode_elements(es1 + es2, es1.len() + d) == spec_decode_elements(es2, d),
    decreases es2.len() - d,
{
    if d < es2.len() {
        assert((es1 + es2)[es1.len() + d] == es2[d]);
        lemma_decode_elements_shift(es1, es2, d + 1);
    }
}

proof fn lemma_decode_elements_concat(es1: Seq<RawElementV>, es2: Seq<RawElementV>, i: int)
    requires
        0 <= i <= es1.len(),
        spec_decode_elements(es1, i) is Ok,
        spec_decode_elements(es2, 0) is Ok,
    ensures
        spec_decode_elements(es1 + es2, i) == Ok::<Seq<MessageV>, DecodeErrorV>(
            spec_decode_elements(es1, i)->Ok_0 + spec_decode_elements(es2, 0)->Ok_0,
        ),
    decreases es1.len() - i,
{
    if i == es1.len() {
        lemma_decode_elements_shift(es1, es2, 0);
        assert(spec_decode_elements(es1, i)->Ok_0 + spec_decode_elements(es2, 0)->Ok_0
            =~= spec_decode_elements(es2, 0)->Ok_0);
    } else {
        assert((es1 + es2)[i] == es1[i]);
        match spec_decode_element(es1[i]) {
            Err(_) => {},
            Ok(m) => {
                lemma_decode_elements_concat(es1, es2, i + 1);
                let ms1rest = spec_decode_elements(es1, i + 1)->Ok_0;
                let ms2 = spec_decode_elements(es2, 0)->Ok_0;
                assert((seq![m] + ms1rest) + ms2 =~= seq![m] + (ms1rest + ms2));
            },
        }
    }
}

/// Law: two texts that each decode successfully decode, concatenated
/// with no separator, to the events of the first followed by the events
/// of the second, in text order.
pub proof fn lemma_batch_concat(s1: Seq<char>, s2: Seq<char>)
    requires
        spec_decode_text(s1) is Ok,
        spec_decode_text(s2) is Ok,
    ensures
        spec_decode_text(s1 + s2) == Ok::<Seq<MessageV>, DecodeErrorV>(
            spec_decode_text(s1)->Ok_0 + spec_decode_text(s2)->Ok_0,
        ),
{
    let es1 = spec_parse_batch(s1)->Some_0;
    let es2 = spec_parse_batch(s2)->Some_0;
    lemma_parse_elements_concat(s1, s2, 0);
    lemma_decode_elements_concat(es1, es2, 0);
}

} // verus!
