//! The canonical serialized form of a document: a JSON object carrying
//! `title`, `author`, `contact` and `elements`, each element a pair of its
//! type name and its content. The emitter and the parser are both written
//! here, against the same grammar; the transient `file_path` and `modified`
//! fields are never part of the serialized form.

use vstd::prelude::*;
use vstd::string::StringExecFns;
use crate::element::{Element, ElementType, ElementView};
use crate::error::ScreenplayError;
use crate::screenplay::{elems_view, Screenplay};
use crate::text::{chars_to_string, str_to_chars};

verus! {

/// The lowercase hexadecimal digit for a value below sixteen.
pub open spec fn hex_digit(n: int) -> char {
    if n == 0 { '0' } else if n == 1 { '1' } else if n == 2 { '2' } else if n == 3 { '3' }
    else if n == 4 { '4' } else if n == 5 { '5' } else if n == 6 { '6' } else if n == 7 { '7' }
    else if n == 8 { '8' } else if n == 9 { '9' } else if n == 10 { 'a' } else if n == 11 { 'b' }
    else if n == 12 { 'c' } else if n == 13 { 'd' } else if n == 14 { 'e' } else { 'f' }
}

/// How one character is written inside a JSON string: quotes and
/// backslashes get a backslash escape, control characters a `\u00XX`
/// escape, and every other character stands for itself.
pub open spec fn esc_char(c: char) -> Seq<char> {
    if c == '"' {
        seq!['\\', '"']
    } else if c == '\\' {
        seq!['\\', '\\']
    } else if (c as u32) < 32 {
        seq!['\\', 'u', '0', '0', hex_digit((c as u32) as int / 16), hex_digit((c as u32) as int % 16)]
    } else {
        seq![c]
    }
}

/// A text written inside a JSON string, character by character.
pub open spec fn esc(s: Seq<char>) -> Seq<char>
    decreases s.len(),
{
    if s.len() == 0 {
        Seq::<char>::empty()
    } else {
        esc_char(s[0]) + esc(s.drop_first())
    }
}

/// A JSON string token: the escaped text between double quotes.
pub open spec fn jstr(s: Seq<char>) -> Seq<char> {
    seq!['"'] + esc(s) + seq!['"']
}

/// An optional text: `null` when absent, a string token otherwise.
pub open spec fn jopt(o: Option<Seq<char>>) -> Seq<char> {
    match o {
        Option::None => "null"@,
        Option::Some(s) => jstr(s),
    }
}

/// The serialized name of each element type.
pub open spec fn type_json_name(t: ElementType) -> Seq<char> {
    match t {
        ElementType::SceneHeading => "SceneHeading"@,
        ElementType::Action => "Action"@,
        ElementType::Character => "Character"@,
        ElementType::Dialogue => "Dialogue"@,
        ElementType::Parenthetical => "Parenthetical"@,
        ElementType::Transition => "Transition"@,
    }
}

/// One serialized element: its type name and its content.
pub open spec fn elem_json(e: ElementView) -> Seq<char> {
    "{\"element_type\":\""@ + type_json_name(e.element_type) + "\",\"content\":"@ + jstr(e.content)
        + seq!['}']
}

/// The serialized element list, comma-separated.
pub open spec fn elems_json(es: Seq<ElementView>) -> Seq<char>
    decreases es.len(),
{
    if es.len() == 0 {
        Seq::<char>::empty()
    } else if es.len() == 1 {
        elem_json(es[0])
    } else {
        elem_json(es[0]) + seq![','] + elems_json(es.drop_first())
    }
}

pub open spec fn opt_view(o: Option<String>) -> Option<Seq<char>> {
    match o {
        Option::None => Option::None,
        Option::Some(s) => Option::Some(s@),
    }
}

/// The canonical serialized form of a document.
pub open spec fn json_of(sp: Screenplay) -> Seq<char> {
    "{\"title\":"@ + jstr(sp.title@) + ",\"author\":"@ + jopt(opt_view(sp.author))
        + ",\"contact\":"@ + jopt(opt_view(sp.contact)) + ",\"elements\":["@ + elems_json(
        elems_view(sp.elements@),
    ) + "]}"@
}

/// The value of a lowercase hexadecimal digit.
pub open spec fn hexv(c: char) -> Option<int> {
    if c == '0' { Some(0) } else if c == '1' { Some(1) } else if c == '2' { Some(2) }
    else if c == '3' { Some(3) } else if c == '4' { Some(4) } else if c == '5' { Some(5) }
    else if c == '6' { Some(6) } else if c == '7' { Some(7) } else if c == '8' { Some(8) }
    else if c == '9' { Some(9) } else if c == 'a' { Some(10) } else if c == 'b' { Some(11) }
    else if c == 'c' { Some(12) } else if c == 'd' { Some(13) } else if c == 'e' { Some(14) }
    else if c == 'f' { Some(15) } else { None }
}

/// Consumes the exact literal `lit` at position `i`, or fails.
pub open spec fn parse_lit(s: Seq<char>, i: int, lit: Seq<char>) -> Option<int> {
    if 0 <= i && i + lit.len() <= s.len() && s.subrange(i, i + lit.len()) == lit {
        Some(i + lit.len())
    } else {
        None
    }
}

/// Consumes the body of a string token up to and including the closing
/// quote, undoing the escapes the emitter writes: `\"`, `\\` and `\u00XX`
/// with two lowercase hexadecimal digits.
pub open spec fn parse_jstr_body(s: Seq<char>, i: int) -> Option<(Seq<char>, int)>
    decreases s.len() - i,
{
    if i < 0 || i >= s.len() {
        None
    } else if s[i] == '"' {
        Some((Seq::<char>::empty(), i + 1))
    } else if s[i] == '\\' {
        if i + 1 < s.len() && (s[i + 1] == '"' || s[i + 1] == '\\') {
            match parse_jstr_body(s, i + 2) {
                Some(p) => Some((seq![s[i + 1]] + p.0, p.1)),
                None => None,
            }
        } else if i + 5 < s.len() && s[i + 1] == 'u' && s[i + 2] == '0' && s[i + 3] == '0'
            && hexv(s[i + 4]) is Some && hexv(s[i + 5]) is Some {
            let code = match (hexv(s[i + 4]), hexv(s[i + 5])) {
                (Some(h), Some(l)) => 16 * h + l,
                _ => 0,
            };
            match parse_jstr_body(s, i + 6) {
                Some(p) => Some((seq![((code as u8) as char)] + p.0, p.1)),
                None => None,
            }
        } else {
            None
        }
    } else {
        match parse_jstr_body(s, i + 1) {
            Some(p) => Some((seq![s[i]] + p.0, p.1)),
            None => None,
        }
    }
}

/// Consumes a whole string token, opening quote included.
pub open spec fn parse_jstr(s: Seq<char>, i: int) -> Option<(Seq<char>, int)> {
    if 0 <= i < s.len() && s[i] == '"' {
        parse_jstr_body(s, i + 1)
    } else {
        None
    }
}

/// Consumes an optional text: the literal `null`, or a string token.
pub open spec fn parse_opt(s: Seq<char>, i: int) -> Option<(Option<Seq<char>>, int)> {
    match parse_lit(s, i, "null"@) {
        Some(j) => Some((Option::None, j)),
        None => match parse_jstr(s, i) {
            Some(p) => Some((Option::Some(p.0), p.1)),
            None => None,
        },
    }
}

/// The element type named by a serialized type name, if any.
pub open spec fn type_of_name(n: Seq<char>) -> Option<ElementType> {
    if n == type_json_name(ElementType::SceneHeading) {
        Some(ElementType::SceneHeading)
    } else if n == type_json_name(ElementType::Action) {
        Some(ElementType::Action)
    } else if n == type_json_name(ElementType::Character) {
        Some(ElementType::Character)
    } else if n == type_json_name(ElementType::Dialogue) {
        Some(ElementType::Dialogue)
    } else if n == type_json_name(ElementType::Parenthetical) {
        Some(ElementType::Parenthetical)
    } else if n == type_json_name(ElementType::Transition) {
        Some(ElementType::Transition)
    } else {
        None
    }
}

/// Consumes one serialized element.
pub open spec fn parse_elem(s: Seq<char>, i: int) -> Option<(ElementView, int)> {
    match parse_lit(s, i, "{\"element_type\":"@) {
        None => None,
        Some(j1) => match parse_jstr(s, j1) {
            None => None,
            Some((name, j2)) => match type_of_name(name) {
                None => None,
                Some(t) => match parse_lit(s, j2, ",\"content\":"@) {
                    None => None,
                    Some(j3) => match parse_jstr(s, j3) {
                        None => None,
                        Some((content, j4)) => match parse_lit(s, j4, "}"@) {
                            None => None,
                            Some(j5) => Some((ElementView { element_type: t, content }, j5)),
                        },
                    },
                },
            },
        },
    }
}

/// Consumes the element list after the opening bracket, closing bracket
/// included.
pub open spec fn parse_elems(s: Seq<char>, i: int) -> Option<(Seq<ElementView>, int)> {
    match parse_lit(s, i, "]"@) {
        Some(j) => Some((Seq::<ElementView>::empty(), j)),
        None => parse_elems_more(s, i),
    }
}

/// Consumes one or more comma-separated elements and the closing bracket.
pub open spec fn parse_elems_more(s: Seq<char>, i: int) -> Option<(Seq<ElementView>, int)>
    decreases s.len() - i,
{
    match parse_elem(s, i) {
        None => None,
        Some((e, j)) => match parse_lit(s, j, "]"@) {
            Some(j2) => Some((seq![e], j2)),
            None => match parse_lit(s, j, ","@) {
                None => None,
                Some(j2) => if i < j2 {
                    match parse_elems_more(s, j2) {
                        Some((es, j3)) => Some((seq![e] + es, j3)),
                        None => None,
                    }
                } else {
                    None
                },
            },
        },
    }
}

/// The parsed shape of a serialized document.
pub ghost struct DocModel {
    pub title: Seq<char>,
    pub author: Option<Seq<char>>,
    pub contact: Option<Seq<char>>,
    pub elements: Seq<ElementView>,
}

/// The grammar `from_json` accepts: exactly the canonical serialized form,
/// with the fields in their canonical order and nothing after the closing
/// brace.
pub open spec fn parse_doc(s: Seq<char>) -> Option<DocModel> {
    match parse_lit(s, 0, "{\"title\":"@) {
        None => None,
        Some(i1) => match parse_jstr(s, i1) {
            None => None,
            Some((title, i2)) => match parse_lit(s, i2, ",\"author\":"@) {
                None => None,
                Some(i3) => match parse_opt(s, i3) {
                    None => None,
                    Some((author, i4)) => match parse_lit(s, i4, ",\"contact\":"@) {
                        None => None,
                        Some(i5) => match parse_opt(s, i5) {
                            None => None,
                            Some((contact, i6)) => match parse_lit(s, i6, ",\"elements\":["@) {
                                None => None,
                                Some(i7) => match parse_elems(s, i7) {
                                    None => None,
                                    Some((elements, i8)) => match parse_lit(s, i8, "}"@) {
                                        None => None,
                                        Some(i9) => if i9 == s.len() {
                                            Some(DocModel { title, author, contact, elements })
                                        } else {
                                            None
                                        },
                                    },
                                },
                            },
                        },
                    },
                },
            },
        },
    }
}

proof fn lemma_esc_push(a: Seq<char>, c: char)
    ensures
        esc(a.push(c)) == esc(a) + esc_char(c),
    decreases a.len(),
{
    if a.len() == 0 {
        assert(a.push(c)[0] == c);
        assert(esc(Seq::<char>::empty()) == Seq::<char>::empty());
        assert(a.push(c).drop_first() =~= Seq::<char>::empty());
        assert(esc(a) + esc_char(c) =~= esc_char(c));
        assert(esc(a.push(c)) =~= esc_char(c));
    } else {
        lemma_esc_push(a.drop_first(), c);
        assert(a.push(c).drop_first() =~= a.drop_first().push(c));
        assert(esc(a.push(c)) =~= esc_char(a[0]) + (esc(a.drop_first()) + esc_char(c)));
        assert(esc_char(a[0]) + (esc(a.drop_first()) + esc_char(c)) =~= esc(a) + esc_char(c));
    }
}

proof fn lemma_elems_json_push(es: Seq<ElementView>, e: ElementView)
    ensures
        es.len() == 0 ==> elems_json(es.push(e)) == elem_json(e),
        es.len() > 0 ==> elems_json(es.push(e)) == elems_json(es) + seq![','] + elem_json(e),
    decreases es.len(),
{
    if es.len() == 0 {
        assert(es.push(e)[0] == e);
    } else {
        lemma_elems_json_push(es.drop_first(), e);
        assert(es.push(e).drop_first() =~= es.drop_first().push(e));
        assert(es.push(e)[0] == es[0]);
        if es.len() == 1 {
            assert(elems_json(es.push(e)) =~= elem_json(es[0]) + seq![','] + elem_json(e));
            assert(elems_json(es) + seq![','] + elem_json(e) =~= elem_json(es[0]) + seq![',']
                + elem_json(e));
        } else {
            assert(elems_json(es.push(e)) =~= elem_json(es[0]) + seq![','] + (elems_json(
                es.drop_first(),
            ) + seq![','] + elem_json(e)));
            assert(elems_json(es) + seq![','] + elem_json(e) =~= elem_json(es[0]) + seq![','] + (
            elems_json(es.drop_first()) + seq![','] + elem_json(e)));
        }
    }
}

fn hex_char(n: u8) -> (c: char)
    requires
        n < 16,
    ensures
        c == hex_digit(n as int),
{
    match n {
        0 => '0',
        1 => '1',
        2 => '2',
        3 => '3',
        4 => '4',
        5 => '5',
        6 => '6',
        7 => '7',
        8 => '8',
        9 => '9',
        10 => 'a',
        11 => 'b',
        12 => 'c',
        13 => 'd',
        14 => 'e',
        _ => 'f',
    }
}

fn push_escaped(out: &mut String, v: &Vec<char>)
    ensures
        final(out)@ == old(out)@ + esc(v@),
{
    let mut k: usize = 0;
    while k < v.len()
        invariant
            k <= v@.len(),
            out@ == old(out)@ + esc(v@.subrange(0, k as int)),
        decreases v@.len() - k,
    {
        let c = v[k];
        let code = c as u32;
        if c == '"' {
            out.push('\\');
            out.push('"');
        } else if c == '\\' {
            out.push('\\');
            out.push('\\');
        } else if code < 32 {
            out.push('\\');
            out.push('u');
            out.push('0');
            out.push('0');
            out.push(hex_char((code / 16) as u8));
            out.push(hex_char((code % 16) as u8));
        } else {
            out.push(c);
        }
        proof {
            lemma_esc_push(v@.subrange(0, k as int), c);
            assert(v@.subrange(0, k as int).push(c) =~= v@.subrange(0, k + 1));
            assert(out@ =~= old(out)@ + esc(v@.subrange(0, k + 1)));
        }
        k += 1;
    }
    proof {
        assert(v@.subrange(0, v@.len() as int) =~= v@);
    }
}

fn push_jstr(out: &mut String, v: &Vec<char>)
    ensures
        final(out)@ == old(out)@ + jstr(v@),
{
    out.push('"');
    push_escaped(out, v);
    out.push('"');
    proof {
        assert(out@ =~= old(out)@ + jstr(v@));
    }
}

fn type_json_name_str(t: ElementType) -> (r: &'static str)
    ensures
        r@ == type_json_name(t),
{
    match t {
        ElementType::SceneHeading => "SceneHeading",
        ElementType::Action => "Action",
        ElementType::Character => "Character",
        ElementType::Dialogue => "Dialogue",
        ElementType::Parenthetical => "Parenthetical",
        ElementType::Transition => "Transition",
    }
}

fn expect_lit(v: &Vec<char>, i: usize, lit: &str) -> (r: Option<usize>)
    ensures
        match r {
            Some(j) => parse_lit(v@, i as int, lit@) == Some(j as int) && i <= j <= v@.len(),
            None => parse_lit(v@, i as int, lit@) is None,
        },
{
    let litc = str_to_chars(lit);
    if litc.len() > v.len() || i > v.len() - litc.len() {
        return None;
    }
    let mut k: usize = 0;
    while k < litc.len()
        invariant
            k <= litc@.len(),
            i + litc@.len() <= v@.len(),
            v@.len() <= usize::MAX,
            litc@ == lit@,
            forall|m: int| 0 <= m < k ==> v@[i + m] == litc@[m],
        decreases litc@.len() - k,
    {
        if v[i + k] != litc[k] {
            proof {
                assert(v@.subrange(i as int, i + lit@.len())[k as int] != lit@[k as int]);
            }
            return None;
        }
        k += 1;
    }
    proof {
        assert(v@.subrange(i as int, i + lit@.len()) =~= lit@);
    }
    Some(i + litc.len())
}

fn hex_val(c: char) -> (r: Option<u8>)
    ensures
        match r {
            Some(h) => hexv(c) == Some(h as int) && h < 16,
            None => hexv(c) is None,
        },
{
    match c {
        '0' => Some(0),
        '1' => Some(1),
        '2' => Some(2),
        '3' => Some(3),
        '4' => Some(4),
        '5' => Some(5),
        '6' => Some(6),
        '7' => Some(7),
        '8' => Some(8),
        '9' => Some(9),
        'a' => Some(10),
        'b' => Some(11),
        'c' => Some(12),
        'd' => Some(13),
        'e' => Some(14),
        'f' => Some(15),
        _ => None,
    }
}

fn scan_jstr_body(v: &Vec<char>, start: usize) -> (r: Option<(Vec<char>, usize)>)
    ensures
        match r {
            Some(p) => parse_jstr_body(v@, start as int) == Some((p.0@, p.1 as int)) && start
                < p.1 <= v@.len(),
            None => parse_jstr_body(v@, start as int) is None,
        },
{
    let mut acc: Vec<char> = Vec::new();
    let mut k: usize = start;
    loop
        invariant
            start <= k,
            (parse_jstr_body(v@, k as int) matches Some(p) ==> parse_jstr_body(
                v@,
                start as int,
            ) == Some((acc@ + p.0, p.1))),
            (parse_jstr_body(v@, k as int) is None ==> parse_jstr_body(v@, start as int) is None),
        decreases v@.len() - k,
    {
        if k >= v.len() {
            return None;
        }
        let c = v[k];
        if c == '"' {
            proof {
                assert(acc@ + Seq::<char>::empty() =~= acc@);
            }
            return Some((acc, k + 1));
        } else if c == '\\' {
            if k + 1 < v.len() && (v[k + 1] == '"' || v[k + 1] == '\\') {
                let ch = v[k + 1];
                proof {
                    match parse_jstr_body(v@, k + 2) {
                        Some(p) => {
                            assert(parse_jstr_body(v@, k as int) == Some((seq![ch] + p.0, p.1)));
                            assert(acc@ + (seq![ch] + p.0) =~= acc@.push(ch) + p.0);
                        },
                        None => {
                            assert(parse_jstr_body(v@, k as int) is None);
                        },
                    }
                }
                acc.push(ch);
                k += 2;
            } else if v.len() - k > 5 && v[k + 1] == 'u' && v[k + 2] == '0' && v[k + 3] == '0' {
                let h = match hex_val(v[k + 4]) {
                    Some(h) => h,
                    None => {
                        return None;
                    },
                };
                let l = match hex_val(v[k + 5]) {
                    Some(l) => l,
                    None => {
                        return None;
                    },
                };
                let code: u8 = 16 * h + l;
                let ch = code as char;
                proof {
                    match parse_jstr_body(v@, k + 6) {
                        Some(p) => {
                            assert(parse_jstr_body(v@, k as int) == Some((seq![ch] + p.0, p.1)));
                            assert(acc@ + (seq![ch] + p.0) =~= acc@.push(ch) + p.0);
                        },
                        None => {
                            assert(parse_jstr_body(v@, k as int) is None);
                        },
                    }
                }
                acc.push(ch);
                k += 6;
            } else {
                return None;
            }
        } else {
            proof {
                match parse_jstr_body(v@, k + 1) {
                    Some(p) => {
                        assert(parse_jstr_body(v@, k as int) == Some((seq![c] + p.0, p.1)));
                        assert(acc@ + (seq![c] + p.0) =~= acc@.push(c) + p.0);
                    },
                    None => {
                        assert(parse_jstr_body(v@, k as int) is None);
                    },
                }
            }
            acc.push(c);
            k += 1;
        }
    }
}

fn scan_jstr(v: &Vec<char>, i: usize) -> (r: Option<(Vec<char>, usize)>)
    ensures
        match r {
            Some(p) => parse_jstr(v@, i as int) == Some((p.0@, p.1 as int)) && i < p.1 <= v@.len(),
            None => parse_jstr(v@, i as int) is None,
        },
{
    if i < v.len() && v[i] == '"' {
        scan_jstr_body(v, i + 1)
    } else {
        None
    }
}

/// The text carried by an optional content vector.
pub open spec fn opt_chars_view(o: Option<Vec<char>>) -> Option<Seq<char>> {
    match o {
        Option::None => Option::None,
        Option::Some(t) => Option::Some(t@),
    }
}

fn scan_opt(v: &Vec<char>, i: usize) -> (r: Option<(Option<Vec<char>>, usize)>)
    ensures
        match r {
            Some(p) => parse_opt(v@, i as int) == Some((opt_chars_view(p.0), p.1 as int)) && p.1
                <= v@.len(),
            None => parse_opt(v@, i as int) is None,
        },
{
    match expect_lit(v, i, "null") {
        Some(j) => Some((None, j)),
        None => match scan_jstr(v, i) {
            Some((t, j)) => Some((Some(t), j)),
            None => None,
        },
    }
}

fn chars_eq_str(v: &Vec<char>, s: &str) -> (r: bool)
    ensures
        r == (v@ == s@),
{
    let sc = str_to_chars(s);
    if v.len() != sc.len() {
        return false;
    }
    let mut k: usize = 0;
    while k < v.len()
        invariant
            k <= v@.len(),
            v@.len() == sc@.len(),
            sc@ == s@,
            forall|m: int| 0 <= m < k ==> v@[m] == sc@[m],
        decreases v@.len() - k,
    {
        if v[k] != sc[k] {
            return false;
        }
        k += 1;
    }
    proof {
        assert(v@ =~= s@);
    }
    true
}

fn elem_type_of_name(name: &Vec<char>) -> (r: Option<ElementType>)
    ensures
        r == type_of_name(name@),
{
    if chars_eq_str(name, "SceneHeading") {
        Some(ElementType::SceneHeading)
    } else if chars_eq_str(name, "Action") {
        Some(ElementType::Action)
    } else if chars_eq_str(name, "Character") {
        Some(ElementType::Character)
    } else if chars_eq_str(name, "Dialogue") {
        Some(ElementType::Dialogue)
    } else if chars_eq_str(name, "Parenthetical") {
        Some(ElementType::Parenthetical)
    } else if chars_eq_str(name, "Transition") {
        Some(ElementType::Transition)
    } else {
        None
    }
}

fn scan_elem(v: &Vec<char>, i: usize) -> (r: Option<(Element, usize)>)
    ensures
        match r {
            Some(p) => parse_elem(v@, i as int) == Some((p.0@, p.1 as int)) && i <= p.1
                <= v@.len(),
            None => parse_elem(v@, i as int) is None,
        },
{
    let j1 = match expect_lit(v, i, "{\"element_type\":") {
        Some(j) => j,
        None => {
            return None;
        },
    };
    let (name, j2) = match scan_jstr(v, j1) {
        Some(p) => p,
        None => {
            return None;
        },
    };
    let t = match elem_type_of_name(&name) {
        Some(t) => t,
        None => {
            return None;
        },
    };
    let j3 = match expect_lit(v, j2, ",\"content\":") {
        Some(j) => j,
        None => {
            return None;
        },
    };
    let (content, j4) = match scan_jstr(v, j3) {
        Some(p) => p,
        None => {
            return None;
        },
    };
    let j5 = match expect_lit(v, j4, "}") {
        Some(j) => j,
        None => {
            return None;
        },
    };
    Some((Element { element_type: t, content }, j5))
}

fn scan_elems(v: &Vec<char>, start: usize) -> (r: Option<(Vec<Element>, usize)>)
    ensures
        match r {
            Some(p) => parse_elems(v@, start as int) == Some((elems_view(p.0@), p.1 as int)) && p.1
                <= v@.len(),
            None => parse_elems(v@, start as int) is None,
        },
{
    match expect_lit(v, start, "]") {
        Some(j) => {
            proof {
                assert(elems_view(Seq::<Element>::empty()) =~= Seq::<ElementView>::empty());
            }
            return Some((Vec::new(), j));
        },
        None => {},
    }
    let mut es: Vec<Element> = Vec::new();
    let mut k: usize = start;
    loop
        invariant
            start <= k,
            (parse_elems_more(v@, k as int) matches Some(p) ==> parse_elems(v@, start as int)
                == Some((elems_view(es@) + p.0, p.1))),
            (parse_elems_more(v@, k as int) is None ==> parse_elems(v@, start as int) is None),
        decreases v@.len() - k,
    {
        let (elem, j) = match scan_elem(v, k) {
            Some(p) => p,
            None => {
                return None;
            },
        };
        match expect_lit(v, j, "]") {
            Some(j2) => {
                proof {
                    assert(parse_elems_more(v@, k as int) == Some((seq![elem@], j2 as int)));
                    assert(elems_view(es@.push(elem)) =~~= elems_view(es@).push(elem@));
                    assert(elems_view(es@) + seq![elem@] =~= elems_view(es@).push(elem@));
                }
                es.push(elem);
                return Some((es, j2));
            },
            None => {},
        }
        let j2 = match expect_lit(v, j, ",") {
            Some(j2) => j2,
            None => {
                return None;
            },
        };
        if j2 <= k {
            // A literal always advances the position, so this cannot happen;
            // it keeps the parse loop visibly bounded.
            return None;
        }
        proof {
            match parse_elems_more(v@, j2 as int) {
                Some(p) => {
                    assert(parse_elems_more(v@, k as int) == Some((seq![elem@] + p.0, p.1)));
                    assert(elems_view(es@) + (seq![elem@] + p.0) =~~= elems_view(es@.push(elem))
                        + p.0);
                },
                None => {
                    assert(parse_elems_more(v@, k as int) is None);
                },
            }
        }
        es.push(elem);
        k = j2;
    }
}

fn parse_error() -> (e: ScreenplayError)
    ensures
        e is JsonParse,
{
    ScreenplayError::JsonParse(String::from_str("malformed screenplay document"))
}

impl Screenplay {
    /// Serializes the document to its canonical form. Serialization cannot
    /// fail; the `Result` mirrors the persistence boundary's shape.
    pub fn to_json(&self) -> (r: Result<String, ScreenplayError>)
        ensures
            r matches Ok(s) && s@ == json_of(*self),
    {
        let mut out = String::new();
        out.append("{\"title\":");
        let title_chars = str_to_chars(self.title.as_str());
        push_jstr(&mut out, &title_chars);
        out.append(",\"author\":");
        match &self.author {
            None => out.append("null"),
            Some(a) => {
                let chars = str_to_chars(a.as_str());
                push_jstr(&mut out, &chars);
            },
        }
        out.append(",\"contact\":");
        match &self.contact {
            None => out.append("null"),
            Some(c) => {
                let chars = str_to_chars(c.as_str());
                push_jstr(&mut out, &chars);
            },
        }
        out.append(",\"elements\":[");
        proof {
            assert(out@ =~= "{\"title\":"@ + jstr(self.title@) + ",\"author\":"@ + jopt(
                opt_view(self.author),
            ) + ",\"contact\":"@ + jopt(opt_view(self.contact)) + ",\"elements\":["@);
        }
        let ghost head = out@;
        let mut k: usize = 0;
        while k < self.elements.len()
            invariant
                k <= self.elements@.len(),
                out@ == head + elems_json(elems_view(self.elements@).subrange(0, k as int)),
            decreases self.elements@.len() - k,
        {
            if k > 0 {
                out.push(',');
            }
            out.append("{\"element_type\":\"");
            out.append(type_json_name_str(self.elements[k].element_type));
            out.append("\",\"content\":");
            push_jstr(&mut out, &self.elements[k].content);
            out.push('}');
            proof {
                let views = elems_view(self.elements@);
                let prefix = views.subrange(0, k as int);
                lemma_elems_json_push(prefix, views[k as int]);
                assert(prefix.push(views[k as int]) =~= views.subrange(0, k + 1));
                assert(out@ =~= head + elems_json(views.subrange(0, k + 1)));
            }
            k += 1;
        }
        out.append("]}");
        proof {
            let views = elems_view(self.elements@);
            assert(views.subrange(0, views.len() as int) =~= views);
            assert(out@ =~= json_of(*self));
        }
        Ok(out)
    }

    /// Parses a document from its canonical serialized form. Exactly the
    /// texts that `parse_doc` accepts are parsed; everything else is a
    /// parse failure, and no document is produced from it. A parsed
    /// document carries no file path and is not marked modified.
    pub fn from_json(json: &str) -> (r: Result<Screenplay, ScreenplayError>)
        ensures
            r matches Ok(sp) ==> (parse_doc(json@) matches Some(m) && sp.title@ == m.title
                && opt_view(sp.author) == m.author && opt_view(sp.contact) == m.contact
                && elems_view(sp.elements@) == m.elements && sp.file_path is None
                && !sp.modified),
            r matches Err(e) ==> parse_doc(json@) is None && e is JsonParse,
            parse_doc(json@) is Some ==> r is Ok,
    {
        let v = str_to_chars(json);
        let i1 = match expect_lit(&v, 0, "{\"title\":") {
            Some(j) => j,
            None => {
                return Err(parse_error());
            },
        };
        let (title, i2) = match scan_jstr(&v, i1) {
            Some(p) => p,
            None => {
                return Err(parse_error());
            },
        };
        let i3 = match expect_lit(&v, i2, ",\"author\":") {
            Some(j) => j,
            None => {
                return Err(parse_error());
            },
        };
        let (author, i4) = match scan_opt(&v, i3) {
            Some(p) => p,
            None => {
                return Err(parse_error());
            },
        };
        let i5 = match expect_lit(&v, i4, ",\"contact\":") {
            Some(j) => j,
            None => {
                return Err(parse_error());
            },
        };
        let (contact, i6) = match scan_opt(&v, i5) {
            Some(p) => p,
            None => {
                return Err(parse_error());
            },
        };
        let i7 = match expect_lit(&v, i6, ",\"elements\":[") {
            Some(j) => j,
            None => {
                return Err(parse_error());
            },
        };
        let (elements, i8) = match scan_elems(&v, i7) {
            Some(p) => p,
            None => {
                return Err(parse_error());
            },
        };
        let i9 = match expect_lit(&v, i8, "}") {
            Some(j) => j,
            None => {
                return Err(parse_error());
            },
        };
        if i9 != v.len() {
            return Err(parse_error());
        }
        let author_string = match author {
            None => None,
            Some(chars) => Some(chars_to_string(&chars)),
        };
        let contact_string = match contact {
            None => None,
            Some(chars) => Some(chars_to_string(&chars)),
        };
        Ok(
            Screenplay {
                title: chars_to_string(&title),
                author: author_string,
                contact: contact_string,
                elements,
                file_path: None,
                modified: false,
            },
        )
    }
}

/// A character the emitter writes into a string token unchanged.
pub open spec fn plain_char(c: char) -> bool {
    c != '"' && c != '\\' && (c as u32) >= 32
}

pub open spec fn plain_seq(t: Seq<char>) -> bool {
    forall|i: int| 0 <= i < t.len() ==> plain_char(t[i])
}

/// A text of plain characters is written as itself.
proof fn lemma_esc_plain(t: Seq<char>)
    requires
        plain_seq(t),
    ensures
        esc(t) == t,
    decreases t.len(),
{
    if t.len() == 0 {
        assert(esc(t) =~= t);
    } else {
        assert(plain_char(t[0]));
        assert(plain_seq(t.drop_first()));
        lemma_esc_plain(t.drop_first());
        assert(esc(t) =~= seq![t[0]] + t.drop_first());
        assert(seq![t[0]] + t.drop_first() =~= t);
    }
}

/// A code point below thirty-two survives the trip through `u8`.
proof fn lemma_small_char_cast(c: char)
    requires
        (c as u32) < 32,
    ensures
        (((c as u32) as u8) as char) == c,
{
}

/// Reading a hexadecimal digit back gives the value it was written from.
proof fn lemma_hexv_digit(n: int)
    requires
        0 <= n < 16,
    ensures
        hexv(hex_digit(n)) == Some(n),
{
}

/// A subrange match carries down to matches of its parts.
proof fn lemma_subrange_of_match(s: Seq<char>, i: int, whole: Seq<char>, a: int, b: int)
    requires
        0 <= i,
        i + whole.len() <= s.len(),
        s.subrange(i, i + whole.len()) == whole,
        0 <= a <= b <= whole.len(),
    ensures
        s.subrange(i + a, i + b) == whole.subrange(a, b),
{
    assert forall|k: int| 0 <= k < b - a implies s.subrange(i + a, i + b)[k] == whole.subrange(
        a,
        b,
    )[k] by {
        assert(s.subrange(i, i + whole.len())[a + k] == whole[a + k]);
    }
    assert(s.subrange(i + a, i + b) =~= whole.subrange(a, b));
}

/// The parser reads back exactly the text an escaped string was written
/// from, stopping at the closing quote.
proof fn lemma_parse_jstr_body_of_esc(s: Seq<char>, i: int, t: Seq<char>)
    requires
        0 <= i,
        i + esc(t).len() < s.len(),
        s.subrange(i, i + esc(t).len()) == esc(t),
        s[i + esc(t).len()] == '"',
    ensures
        parse_jstr_body(s, i) == Some((t, i + esc(t).len() + 1)),
    decreases t.len(),
{
    if t.len() == 0 {
        assert(s.subrange(i, i + esc(t).len()) =~= Seq::<char>::empty());
        assert(s[i] == '"');
    } else {
        let c = t[0];
        let rest = t.drop_first();
        let e0 = esc_char(c);
        let n = esc(t).len() as int;
        assert(esc(t) == e0 + esc(rest));
        assert forall|k: int| 0 <= k < e0.len() implies s[i + k] == e0[k] by {
            assert(s.subrange(i, i + n)[k] == esc(t)[k]);
            assert((e0 + esc(rest))[k] == e0[k]);
        }
        lemma_subrange_of_match(s, i, esc(t), e0.len() as int, n);
        assert(esc(t).subrange(e0.len() as int, n) =~= esc(rest));
        lemma_parse_jstr_body_of_esc(s, i + e0.len() as int, rest);
        if c == '"' {
            assert(s[i + 0] == '\\' && s[i + 1] == '"');
            assert(s[i] == '\\');
            assert(seq![s[i + 1]] + rest =~= t);
        } else if c == '\\' {
            assert(s[i + 0] == '\\' && s[i + 1] == '\\');
            assert(s[i] == '\\');
            assert(seq![s[i + 1]] + rest =~= t);
        } else if (c as u32) < 32 {
            let code = (c as u32) as int;
            assert(s[i + 0] == '\\' && s[i + 1] == 'u' && s[i + 2] == '0' && s[i + 3] == '0');
            assert(s[i] == '\\');
            assert(s[i + 4] == hex_digit(code / 16) && s[i + 5] == hex_digit(code % 16));
            lemma_hexv_digit(code / 16);
            lemma_hexv_digit(code % 16);
            assert(16 * (code / 16) + code % 16 == code);
            lemma_small_char_cast(c);
            assert(code as u8 == (c as u32) as u8);
            assert(seq![c] + rest =~= t);
        } else {
            assert(e0[0] == c);
            assert(s[i + 0] == e0[0]);
            assert(s[i] == c);
            assert(s[i] != '"' && s[i] != '\\');
            assert(seq![s[i]] + rest =~= t);
        }
    }
}

/// The parser reads back exactly the text a string token was written from.
proof fn lemma_parse_jstr_of_jstr(s: Seq<char>, i: int, t: Seq<char>)
    requires
        0 <= i,
        i + jstr(t).len() <= s.len(),
        s.subrange(i, i + jstr(t).len()) == jstr(t),
    ensures
        parse_jstr(s, i) == Some((t, i + jstr(t).len())),
{
    let n = jstr(t).len() as int;
    assert forall|k: int| 0 <= k < n implies s[i + k] == jstr(t)[k] by {
        assert(s.subrange(i, i + n)[k] == jstr(t)[k]);
    }
    assert(jstr(t)[0] == '"');
    assert(s[i + 0] == '"');
    assert(s[i] == '"');
    lemma_subrange_of_match(s, i, jstr(t), 1, 1 + esc(t).len() as int);
    assert(jstr(t).subrange(1, 1 + esc(t).len() as int) =~= esc(t));
    assert(s[i + 1 + esc(t).len() as int] == jstr(t)[1 + esc(t).len() as int]);
    assert(jstr(t)[1 + esc(t).len() as int] == '"');
    lemma_parse_jstr_body_of_esc(s, i + 1, t);
}

/// Every serialized type name is plain, is its own escape, and names its
/// type back.
proof fn lemma_type_name_plain(t: ElementType)
    ensures
        plain_seq(type_json_name(t)),
        esc(type_json_name(t)) == type_json_name(t),
        type_of_name(type_json_name(t)) == Some(t),
{
    reveal_strlit("SceneHeading");
    reveal_strlit("Action");
    reveal_strlit("Character");
    reveal_strlit("Dialogue");
    reveal_strlit("Parenthetical");
    reveal_strlit("Transition");
    assert(plain_seq(type_json_name(t)));
    lemma_esc_plain(type_json_name(t));
}

/// A serialized element splits into the pieces the parser consumes.
proof fn lemma_elem_json_pieces(e: ElementView)
    ensures
        elem_json(e) == "{\"element_type\":"@ + jstr(type_json_name(e.element_type))
            + ",\"content\":"@ + jstr(e.content) + seq!['}'],
{
    reveal_strlit("{\"element_type\":\"");
    reveal_strlit("{\"element_type\":");
    reveal_strlit("\",\"content\":");
    reveal_strlit(",\"content\":");
    lemma_type_name_plain(e.element_type);
    assert(elem_json(e) =~= "{\"element_type\":"@ + jstr(type_json_name(e.element_type))
        + ",\"content\":"@ + jstr(e.content) + seq!['}']);
}

/// The parser reads back exactly the element a serialized element was
/// written from.
proof fn lemma_parse_elem_of_json(s: Seq<char>, i: int, e: ElementView)
    requires
        0 <= i,
        i + elem_json(e).len() <= s.len(),
        s.subrange(i, i + elem_json(e).len()) == elem_json(e),
    ensures
        parse_elem(s, i) == Some((e, i + elem_json(e).len())),
{
    lemma_elem_json_pieces(e);
    let whole = elem_json(e);
    let w = whole.len() as int;
    let p17 = "{\"element_type\":"@;
    let p11 = ",\"content\":"@;
    let name = type_json_name(e.element_type);
    let jn = jstr(name);
    let jc = jstr(e.content);
    reveal_strlit("{\"element_type\":");
    reveal_strlit(",\"content\":");
    reveal_strlit("}");
    let a1 = p17.len() as int;
    let a2 = a1 + jn.len() as int;
    let a3 = a2 + p11.len() as int;
    let a4 = a3 + jc.len() as int;
    assert(w == a4 + 1);
    lemma_subrange_of_match(s, i, whole, 0, a1);
    assert(whole.subrange(0, a1) =~= p17);
    lemma_subrange_of_match(s, i, whole, a1, a2);
    assert(whole.subrange(a1, a2) =~= jn);
    lemma_subrange_of_match(s, i, whole, a2, a3);
    assert(whole.subrange(a2, a3) =~= p11);
    lemma_subrange_of_match(s, i, whole, a3, a4);
    assert(whole.subrange(a3, a4) =~= jc);
    lemma_subrange_of_match(s, i, whole, a4, w);
    assert(whole.subrange(a4, w) =~= "}"@);
    lemma_type_name_plain(e.element_type);
    lemma_parse_jstr_of_jstr(s, i + a1, name);
    lemma_parse_jstr_of_jstr(s, i + a3, e.content);
}

/// The parser reads back exactly the elements a non-empty serialized list
/// was written from, closing bracket included.
proof fn lemma_parse_elems_more_of_json(s: Seq<char>, i: int, es: Seq<ElementView>)
    requires
        es.len() >= 1,
        0 <= i,
        i + elems_json(es).len() + 1 <= s.len(),
        s.subrange(i, i + elems_json(es).len() + 1) == elems_json(es) + seq![']'],
    ensures
        parse_elems_more(s, i) == Some((es, i + elems_json(es).len() + 1)),
    decreases es.len(),
{
    reveal_strlit("]");
    reveal_strlit(",");
    let whole = elems_json(es) + seq![']'];
    let w = whole.len() as int;
    let e = es[0];
    let je = elem_json(e);
    let jl = je.len() as int;
    if es.len() == 1 {
        assert(whole.subrange(0, jl) =~= je);
        lemma_subrange_of_match(s, i, whole, 0, jl);
        lemma_parse_elem_of_json(s, i, e);
        lemma_subrange_of_match(s, i, whole, jl, jl + 1);
        assert(whole.subrange(jl, jl + 1) =~= "]"@);
        assert(parse_lit(s, i + jl, "]"@) == Some(i + jl + 1));
        assert(seq![e] =~= es);
    } else {
        let rest = es.drop_first();
        assert(elems_json(es) == je + seq![','] + elems_json(rest));
        assert(whole.subrange(0, jl) =~= je);
        lemma_subrange_of_match(s, i, whole, 0, jl);
        lemma_parse_elem_of_json(s, i, e);
        lemma_subrange_of_match(s, i, whole, jl, jl + 1);
        assert(whole.subrange(jl, jl + 1) =~= ","@);
        assert(parse_lit(s, i + jl, ","@) == Some(i + jl + 1));
        // After the comma the tail is the serialized rest with the bracket.
        lemma_subrange_of_match(s, i, whole, jl + 1, w);
        assert(whole.subrange(jl + 1, w) =~= elems_json(rest) + seq![']']);
        lemma_parse_elems_more_of_json(s, i + jl + 1, rest);
        // The comma is not a closing bracket, so the single-element exit is
        // not taken.
        assert(s.subrange(i, i + whole.len())[jl] == whole[jl]);
        assert(s[i + jl] == ',');
        if parse_lit(s, i + jl, "]"@) is Some {
            assert(s.subrange(i + jl, i + jl + 1)[0] == s[i + jl]);
            assert(false);
        }
        assert(seq![e] + rest =~= es);
    }
}

/// The parser reads back exactly the elements any serialized list was
/// written from.
proof fn lemma_parse_elems_of_json(s: Seq<char>, i: int, es: Seq<ElementView>)
    requires
        0 <= i,
        i + elems_json(es).len() + 1 <= s.len(),
        s.subrange(i, i + elems_json(es).len() + 1) == elems_json(es) + seq![']'],
    ensures
        parse_elems(s, i) == Some((es, i + elems_json(es).len() + 1)),
{
    reveal_strlit("]");
    let whole = elems_json(es) + seq![']'];
    if es.len() == 0 {
        assert(whole =~= seq![']']);
        assert(s.subrange(i, i + 1)[0] == s[i]);
        assert(s.subrange(i, i + 1) =~= "]"@);
        assert(parse_lit(s, i, "]"@) == Some(i + 1));
        assert(Seq::<ElementView>::empty() =~= es);
    } else {
        // The first character is an opening brace, so the empty exit is not
        // taken.
        reveal_strlit("{\"element_type\":");
        lemma_elem_json_pieces(es[0]);
        assert(s.subrange(i, i + whole.len())[0] == whole[0]);
        assert(whole[0] == '{');
        if parse_lit(s, i, "]"@) is Some {
            assert(s.subrange(i, i + 1)[0] == s[i]);
            assert(false);
        }
        lemma_parse_elems_more_of_json(s, i, es);
    }
}

/// Serializing a document and parsing the result recovers exactly its
/// persistent fields: the round trip through the canonical form is
/// lossless. Together with the contracts of `to_json` and `from_json`,
/// parsing a document's serialized form always succeeds and returns a
/// document with the same title, author, contact and elements.
/// The parser reads back exactly the optional text it was written from.
proof fn lemma_parse_opt_of_jopt(s: Seq<char>, i: int, o: Option<Seq<char>>)
    requires
        0 <= i,
        i + jopt(o).len() <= s.len(),
        s.subrange(i, i + jopt(o).len()) == jopt(o),
    ensures
        parse_opt(s, i) == Some((o, i + jopt(o).len())),
{
    reveal_strlit("null");
    match o {
        Option::None => {
            assert(parse_lit(s, i, "null"@) == Some(i + 4));
        },
        Option::Some(t) => {
            // A string token opens with a quote, never with the letter `n`,
            // so the `null` branch is not taken.
            assert(s.subrange(i, i + jopt(o).len())[0] == jopt(o)[0]);
            assert(jstr(t)[0] == '"');
            assert(s[i] == '"');
            if parse_lit(s, i, "null"@) is Some {
                assert(s.subrange(i, i + 4)[0] == s[i]);
                assert(false);
            }
            lemma_parse_jstr_of_jstr(s, i, t);
        },
    }
}

/// Splitting a concatenation at the seam gives back its parts.
proof fn lemma_concat_parts(a: Seq<char>, b: Seq<char>)
    ensures
        (a + b).subrange(0, a.len() as int) == a,
        (a + b).subrange(a.len() as int, (a + b).len() as int) == b,
{
    assert((a + b).subrange(0, a.len() as int) =~= a);
    assert((a + b).subrange(a.len() as int, (a + b).len() as int) =~= b);
}

#[verifier::rlimit(100)]
pub proof fn lemma_json_round_trip(sp: Screenplay)
    ensures
        parse_doc(json_of(sp)) == Some(
            DocModel {
                title: sp.title@,
                author: opt_view(sp.author),
                contact: opt_view(sp.contact),
                elements: elems_view(sp.elements@),
            },
        ),
{
    reveal_strlit("null");
    reveal_strlit("]}");
    reveal_strlit("}");
    let s = json_of(sp);
    let h1 = "{\"title\":"@;
    let h2 = ",\"author\":"@;
    let h3 = ",\"contact\":"@;
    let h4 = ",\"elements\":["@;
    let jt = jstr(sp.title@);
    let ja = jopt(opt_view(sp.author));
    let jc = jopt(opt_view(sp.contact));
    let ej = elems_json(elems_view(sp.elements@));
    let z6 = h1 + jt;
    let z5 = z6 + h2;
    let z4 = z5 + ja;
    let z3 = z4 + h3;
    let z2 = z3 + jc;
    let z1 = z2 + h4;
    let y = z1 + ej;
    assert(s == y + "]}"@);
    let a1 = h1.len() as int;
    let a2 = a1 + jt.len() as int;
    let a3 = a2 + h2.len() as int;
    let a4 = a3 + ja.len() as int;
    let a5 = a4 + h3.len() as int;
    let a6 = a5 + jc.len() as int;
    let a7 = a6 + h4.len() as int;
    let a8 = a7 + ej.len() as int;
    let w = s.len() as int;
    assert(w == a8 + 2);
    // Peel the concatenation apart, outermost seam first.
    lemma_concat_parts(y, "]}"@);
    lemma_concat_parts(z1, ej);
    lemma_subrange_of_match(s, 0, y, a7, a8);
    lemma_subrange_of_match(s, 0, y, 0, a7);
    lemma_concat_parts(z2, h4);
    lemma_subrange_of_match(s, 0, z1, a6, a7);
    lemma_subrange_of_match(s, 0, z1, 0, a6);
    lemma_concat_parts(z3, jc);
    lemma_subrange_of_match(s, 0, z2, a5, a6);
    lemma_subrange_of_match(s, 0, z2, 0, a5);
    lemma_concat_parts(z4, h3);
    lemma_subrange_of_match(s, 0, z3, a4, a5);
    lemma_subrange_of_match(s, 0, z3, 0, a4);
    lemma_concat_parts(z5, ja);
    lemma_subrange_of_match(s, 0, z4, a3, a4);
    lemma_subrange_of_match(s, 0, z4, 0, a3);
    lemma_concat_parts(z6, h2);
    lemma_subrange_of_match(s, 0, z5, a2, a3);
    lemma_subrange_of_match(s, 0, z5, 0, a2);
    lemma_concat_parts(h1, jt);
    lemma_subrange_of_match(s, 0, z6, a1, a2);
    lemma_subrange_of_match(s, 0, z6, 0, a1);
    // The element list region together with its closing bracket.
    assert(s.subrange(a8, w) == "]}"@);
    assert forall|k: int| 0 <= k < a8 + 1 - a7 implies s.subrange(a7, a8 + 1)[k] == (ej
        + seq![']'])[k] by {
        if k < ej.len() {
            assert(s.subrange(a7, a8)[k] == ej[k]);
        } else {
            assert(s.subrange(a8, w)[0] == "]}"@[0]);
        }
    }
    assert(s.subrange(a7, a8 + 1) =~= ej + seq![']']);
    // The closing brace region.
    assert(s.subrange(a8, w)[1] == "]}"@[1]);
    assert(s.subrange(a8 + 1, w) =~= "}"@);
    // Run the parser over the pieces.
    lemma_parse_jstr_of_jstr(s, a1, sp.title@);
    lemma_parse_opt_of_jopt(s, a3, opt_view(sp.author));
    lemma_parse_opt_of_jopt(s, a5, opt_view(sp.contact));
    lemma_parse_elems_of_json(s, a7, elems_view(sp.elements@));
    assert(parse_lit(s, a8 + 1, "}"@) == Some(w));
}

} // verus!

