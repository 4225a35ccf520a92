//! The two pure element-type transition rules: manual cycling through the
//! six types, and contextual inference of the type of the next line when a
//! line is finalized.

use vstd::prelude::*;
use crate::element::ElementType;
use crate::text::{alpha_char, str_to_chars, upper_char};

verus! {

/// The fixed manual cycling order:
/// Action -> SceneHeading -> Character -> Dialogue -> Parenthetical ->
/// Transition -> Action.
pub open spec fn next_element_type_spec(current: ElementType) -> ElementType {
    match current {
        ElementType::Action => ElementType::SceneHeading,
        ElementType::SceneHeading => ElementType::Character,
        ElementType::Character => ElementType::Dialogue,
        ElementType::Dialogue => ElementType::Parenthetical,
        ElementType::Parenthetical => ElementType::Transition,
        ElementType::Transition => ElementType::Action,
    }
}

/// The element type reached by one manual type change.
pub fn next_element_type(current: ElementType) -> (r: ElementType)
    ensures
        r == next_element_type_spec(current),
{
    match current {
        ElementType::Action => ElementType::SceneHeading,
        ElementType::SceneHeading => ElementType::Character,
        ElementType::Character => ElementType::Dialogue,
        ElementType::Dialogue => ElementType::Parenthetical,
        ElementType::Parenthetical => ElementType::Transition,
        ElementType::Transition => ElementType::Action,
    }
}

/// Manual cycling is a permutation cycle of period six: starting from any
/// type, six applications return to the start, the six types visited are
/// pairwise distinct, and every element type is among them.
pub proof fn lemma_next_element_type_cycle(t: ElementType)
    ensures
        ({
            let t1 = next_element_type_spec(t);
            let t2 = next_element_type_spec(t1);
            let t3 = next_element_type_spec(t2);
            let t4 = next_element_type_spec(t3);
            let t5 = next_element_type_spec(t4);
            let t6 = next_element_type_spec(t5);
            &&& t6 == t
            &&& t1 != t && t2 != t && t3 != t && t4 != t && t5 != t
            &&& t2 != t1 && t3 != t1 && t4 != t1 && t5 != t1
            &&& t3 != t2 && t4 != t2 && t5 != t2
            &&& t4 != t3 && t5 != t3
            &&& t5 != t4
            &&& ElementType::SceneHeading == t || ElementType::SceneHeading == t1
                || ElementType::SceneHeading == t2 || ElementType::SceneHeading == t3
                || ElementType::SceneHeading == t4 || ElementType::SceneHeading == t5
            &&& ElementType::Action == t || ElementType::Action == t1 || ElementType::Action == t2
                || ElementType::Action == t3 || ElementType::Action == t4 || ElementType::Action
                == t5
            &&& ElementType::Character == t || ElementType::Character == t1
                || ElementType::Character == t2 || ElementType::Character == t3
                || ElementType::Character == t4 || ElementType::Character == t5
            &&& ElementType::Dialogue == t || ElementType::Dialogue == t1 || ElementType::Dialogue
                == t2 || ElementType::Dialogue == t3 || ElementType::Dialogue == t4
                || ElementType::Dialogue == t5
            &&& ElementType::Parenthetical == t || ElementType::Parenthetical == t1
                || ElementType::Parenthetical == t2 || ElementType::Parenthetical == t3
                || ElementType::Parenthetical == t4 || ElementType::Parenthetical == t5
            &&& ElementType::Transition == t || ElementType::Transition == t1
                || ElementType::Transition == t2 || ElementType::Transition == t3
                || ElementType::Transition == t4 || ElementType::Transition == t5
        }),
{
}

/// Whether every alphabetic character of the text is uppercase. A text with
/// no alphabetic characters at all satisfies this vacuously; in particular
/// the empty text does.
pub open spec fn all_letters_upper(s: Seq<char>) -> bool {
    forall|i: int| 0 <= i < s.len() && alpha_char(s[i]) ==> upper_char(s[i])
}

/// Whether the text begins with the given prefix.
pub open spec fn has_prefix(s: Seq<char>, p: Seq<char>) -> bool {
    p.len() <= s.len() && s.subrange(0, p.len() as int) == p
}

/// The prefixes that mark a scene heading rather than a character cue.
pub open spec fn scene_prefix_int() -> Seq<char> {
    seq!['I', 'N', 'T', '.']
}

pub open spec fn scene_prefix_ext() -> Seq<char> {
    seq!['E', 'X', 'T', '.']
}

/// The contextual inference of the type of the next line, given the type
/// and content of the line just finalized. From an action line it infers a
/// character cue exactly when every alphabetic character of the text is
/// uppercase and the text does not start with "INT." or "EXT.".
pub open spec fn detect_next_element_type_spec(current: ElementType, text: Seq<char>) -> ElementType {
    match current {
        ElementType::SceneHeading => ElementType::Action,
        ElementType::Character => ElementType::Dialogue,
        ElementType::Dialogue => ElementType::Action,
        ElementType::Parenthetical => ElementType::Dialogue,
        ElementType::Transition => ElementType::SceneHeading,
        ElementType::Action => if all_letters_upper(text) && !has_prefix(text, scene_prefix_int())
            && !has_prefix(text, scene_prefix_ext()) {
            ElementType::Character
        } else {
            ElementType::Action
        },
    }
}

fn chars_have_prefix(v: &Vec<char>, a: char, b: char, c: char, d: char) -> (r: bool)
    ensures
        r == has_prefix(v@, seq![a, b, c, d]),
{
    let r = v.len() >= 4 && v[0] == a && v[1] == b && v[2] == c && v[3] == d;
    proof {
        if r {
            assert(v@.subrange(0, 4) =~= seq![a, b, c, d]);
        } else if v@.len() >= 4 {
            assert(v@.subrange(0, 4) =~= seq![v@[0], v@[1], v@[2], v@[3]]);
        }
    }
    r
}

fn chars_all_letters_upper(v: &Vec<char>) -> (r: bool)
    ensures
        r == all_letters_upper(v@),
{
    let mut k: usize = 0;
    while k < v.len()
        invariant
            k <= v@.len(),
            forall|i: int| 0 <= i < k && alpha_char(v@[i]) ==> upper_char(v@[i]),
        decreases v@.len() - k,
    {
        let c = v[k];
        if c.is_alphabetic() && !c.is_uppercase() {
            return false;
        }
        k += 1;
    }
    true
}

/// The element type to give the line created after finalizing `text` on a
/// line of type `current`.
pub fn detect_next_element_type(current: ElementType, text: &str) -> (r: ElementType)
    ensures
        r == detect_next_element_type_spec(current, text@),
{
    match current {
        ElementType::SceneHeading => ElementType::Action,
        ElementType::Character => ElementType::Dialogue,
        ElementType::Dialogue => ElementType::Action,
        ElementType::Parenthetical => ElementType::Dialogue,
        ElementType::Transition => ElementType::SceneHeading,
        ElementType::Action => {
            let chars = str_to_chars(text);
            if chars_all_letters_upper(&chars) && !chars_have_prefix(&chars, 'I', 'N', 'T', '.')
                && !chars_have_prefix(&chars, 'E', 'X', 'T', '.') {
                ElementType::Character
            } else {
                ElementType::Action
            }
        },
    }
}

} // verus!
