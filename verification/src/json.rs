use vstd::prelude::*;
use crate::context::{JSContext, JsCell, JsProp, alloc_cell, heap_ok};
use crate::model::{JsonMember, JsonVal, heap_models, lemma_heap_models_grow};
use crate::decimal::{decimal_chars, lemma_decimal_injective, spec_decimal};
use crate::text::{JSString, chars_eq, str_chars};

verus! {

broadcast use vstd::std_specs::vec::axiom_spec_len;

/// Whether a character is JSON whitespace.
pub open spec fn spec_is_ws(c: char) -> bool {
    c == ' ' || c == '\t' || c == '\n' || c == '\r'
}

/// The first position at or after `i` that does not hold whitespace: where
/// a JSON text's next significant character stands.
pub open spec fn spec_skip_ws(s: Seq<char>, i: int) -> int
    decreases s.len() - i,
{
    if 0 <= i < s.len() && spec_is_ws(s[i]) {
        spec_skip_ws(s, i + 1)
    } else {
        i
    }
}

/// Whether the character at `k` is JSON whitespace.
fn is_ws(s: &Vec<char>, k: usize) -> (r: bool)
    requires
        k < s@.len(),
    ensures
        r == spec_is_ws(s@[k as int]),
{
    let c = s[k];
    c == ' ' || c == '\t' || c == '\n' || c == '\r'
}

/// The first position at or after `i` that does not hold whitespace.
fn skip_ws(s: &Vec<char>, i: usize) -> (j: usize)
    requires
        i <= s@.len(),
    ensures
        i <= j <= s@.len(),
        j == spec_skip_ws(s@, i as int),
{
    let mut k = i;
    while k < s.len() && is_ws(s, k)
        invariant
            i <= k <= s@.len(),
            spec_skip_ws(s@, i as int) == spec_skip_ws(s@, k as int),
        decreases s@.len() - k,
    {
        k = k + 1;
    }
    k
}

/// The numeric value of a decimal digit character, or nothing for any
/// other character.
pub open spec fn spec_digit_val(c: char) -> Option<i64> {
    if c == '0' {
        Some(0)
    } else if c == '1' {
        Some(1)
    } else if c == '2' {
        Some(2)
    } else if c == '3' {
        Some(3)
    } else if c == '4' {
        Some(4)
    } else if c == '5' {
        Some(5)
    } else if c == '6' {
        Some(6)
    } else if c == '7' {
        Some(7)
    } else if c == '8' {
        Some(8)
    } else if c == '9' {
        Some(9)
    } else {
        None
    }
}

/// The position of the quote closing the string literal whose body
/// starts at `k`, scanning over plain characters only: a backslash or a
/// missing closing quote is not accepted.
pub open spec fn spec_scan_string(s: Seq<char>, k: int) -> Option<int>
    decreases s.len() - k,
{
    if !(0 <= k < s.len()) {
        None
    } else if s[k] == '"' {
        Some(k)
    } else if s[k] == '\\' {
        None
    } else {
        spec_scan_string(s, k + 1)
    }
}

/// The string literal whose opening quote sits at `q`: its text and the
/// position after its closing quote.
pub open spec fn spec_parse_string(s: Seq<char>, q: int) -> Option<(Seq<char>, int)> {
    match spec_scan_string(s, q + 1) {
        Some(c) => Some((s.subrange(q + 1, c), c + 1)),
        None => None,
    }
}

/// The run of digits from `k` folded onto `acc`, and the position after
/// the run; nothing when the value would leave the signed 64-bit range.
pub open spec fn spec_parse_digits(s: Seq<char>, k: int, acc: int) -> Option<(int, int)>
    decreases s.len() - k,
{
    if 0 <= k < s.len() && spec_digit_val(s[k]) is Some {
        let d = spec_digit_val(s[k]).unwrap();
        if acc > 922_337_203_685_477_580 {
            None
        } else if acc == 922_337_203_685_477_580 && d > 7 {
            None
        } else {
            spec_parse_digits(s, k + 1, acc * 10 + d)
        }
    } else {
        Some((acc, k))
    }
}

/// The integer literal at `p`: an optional minus sign and a digit run
/// with no leading zero, not followed by a fraction or exponent mark,
/// whose value fits the signed 64-bit range.
pub open spec fn spec_parse_number(s: Seq<char>, p: int) -> Option<(i64, int)> {
    let neg = s[p] == '-';
    let k0 = if neg {
        p + 1
    } else {
        p
    };
    if !(0 <= k0 < s.len()) || spec_digit_val(s[k0]) is None {
        None
    } else if s[k0] == '0' && k0 + 1 < s.len() && spec_digit_val(s[k0 + 1]) is Some {
        None
    } else {
        match spec_parse_digits(s, k0, 0) {
            None => None,
            Some((v, e)) => {
                if e < s.len() && (s[e] == '.' || s[e] == 'e' || s[e] == 'E') {
                    None
                } else {
                    Some(
                        (
                            if neg {
                                (-v) as i64
                            } else {
                                v as i64
                            },
                            e,
                        ),
                    )
                }
            },
        }
    }
}

/// The numeric value of a decimal digit character.
fn char_digit(c: char) -> (r: Option<i64>)
    ensures
        r == spec_digit_val(c),
        r is Some ==> 0 <= r.unwrap() <= 9,
{
    if c == '0' {
        Some(0)
    } else if c == '1' {
        Some(1)
    } else if c == '2' {
        Some(2)
    } else if c == '3' {
        Some(3)
    } else if c == '4' {
        Some(4)
    } else if c == '5' {
        Some(5)
    } else if c == '6' {
        Some(6)
    } else if c == '7' {
        Some(7)
    } else if c == '8' {
        Some(8)
    } else if c == '9' {
        Some(9)
    } else {
        None
    }
}

/// Reads a string literal whose opening quote sits at `q`; yields its
/// text and the position after the closing quote.  Escape sequences are
/// not accepted.
fn parse_string_body(s: &Vec<char>, q: usize) -> (r: Option<(Vec<char>, usize)>)
    requires
        q < s@.len(),
    ensures
        r is Some ==> q + 2 <= r.unwrap().1 <= s@.len(),
        r is None ==> spec_parse_string(s@, q as int) is None,
        r is Some ==> spec_parse_string(s@, q as int) == Some(
            (r.unwrap().0@, r.unwrap().1 as int),
        ),
{
    let n = s.len();
    let mut k = q + 1;
    let mut text: Vec<char> = Vec::new();
    while k < n
        invariant
            n == s@.len(),
            q + 1 <= k <= s@.len(),
            text@ =~= s@.subrange(q + 1, k as int),
            spec_scan_string(s@, q + 1) == spec_scan_string(s@, k as int),
        decreases s@.len() - k,
    {
        let c = s[k];
        if c == '"' {
            return Some((text, k + 1));
        }
        if c == '\\' {
            return None;
        }
        text.push(c);
        proof {
            assert(text@ =~= s@.subrange(q + 1, k + 1));
        }
        k = k + 1;
    }
    None
}

/// Reads the integer literal starting at `p`; yields its value and the
/// position after its last digit.  Leading zeros, fractions and
/// exponents are not accepted, and neither is a value outside the
/// signed 64-bit range.
fn parse_number(s: &Vec<char>, p: usize) -> (r: Option<(i64, usize)>)
    requires
        p < s@.len(),
    ensures
        r is Some ==> p < r.unwrap().1 <= s@.len(),
        r is None ==> spec_parse_number(s@, p as int) is None,
        r is Some ==> spec_parse_number(s@, p as int) == Some(
            (r.unwrap().0, r.unwrap().1 as int),
        ),
{
    let n = s.len();
    let mut k = p;
    let mut neg = false;
    if s[k] == '-' {
        neg = true;
        k = k + 1;
    }
    if k >= n {
        return None;
    }
    let first = char_digit(s[k]);
    let d0 = match first {
        None => { return None; },
        Some(d) => d,
    };
    if s[k] == '0' && k + 1 < n && char_digit(s[k + 1]).is_some() {
        return None;
    }
    let ghost k0 = k as int;
    let mut acc: i64 = d0;
    proof {
        assert(spec_parse_digits(s@, k0, 0) == spec_parse_digits(s@, k0 + 1, d0 as int));
    }
    k = k + 1;
    while k < n
        invariant
            n == s@.len(),
            p < k <= s@.len(),
            0 <= acc <= i64::MAX,
            neg == (s@[p as int] == '-'),
            k0 == if neg {
                p + 1
            } else {
                p as int
            },
            spec_digit_val(s@[k0]) is Some,
            !(s@[k0] == '0' && k0 + 1 < s@.len() && spec_digit_val(s@[k0 + 1]) is Some),
            spec_parse_digits(s@, k0, 0) == spec_parse_digits(s@, k as int, acc as int),
        ensures
            n == s@.len(),
            p < k <= s@.len(),
            0 <= acc <= i64::MAX,
            neg == (s@[p as int] == '-'),
            k0 == if neg {
                p + 1
            } else {
                p as int
            },
            spec_digit_val(s@[k0]) is Some,
            !(s@[k0] == '0' && k0 + 1 < s@.len() && spec_digit_val(s@[k0 + 1]) is Some),
            spec_parse_digits(s@, k0, 0) == Some((acc as int, k as int)),
        decreases s@.len() - k,
    {
        match char_digit(s[k]) {
            None => { break ; },
            Some(d) => {
                if acc > 922_337_203_685_477_580i64 {
                    proof {
                        assert(spec_parse_digits(s@, k as int, acc as int) is None);
                    }
                    return None;
                }
                if acc == 922_337_203_685_477_580i64 && d > 7 {
                    proof {
                        assert(spec_parse_digits(s@, k as int, acc as int) is None);
                    }
                    return None;
                }
                acc = acc * 10 + d;
                k = k + 1;
            },
        }
    }
    if k < n {
        let c = s[k];
        if c == '.' || c == 'e' || c == 'E' {
            return None;
        }
    }
    let v = if neg {
        -acc
    } else {
        acc
    };
    Some((v, k))
}

/// The position of the property of the given name, if the list holds one.
fn find_prop_idx(props: &Vec<JsProp>, name: &Vec<char>) -> (r: Option<usize>)
    ensures
        r is Some ==> r.unwrap() < props@.len() && props@[r.unwrap() as int].name@ == name@,
        r is None ==> forall|m: int| 0 <= m < props@.len() ==> (#[trigger] props@[m]).name@ != name@,
{
    let mut i: usize = 0;
    while i < props.len()
        invariant
            i <= props@.len(),
            forall|m: int| 0 <= m < i ==> (#[trigger] props@[m]).name@ != name@,
        decreases props@.len() - i,
    {
        if chars_eq(&props[i].name.text, name) {
            return Some(i);
        }
        i = i + 1;
    }
    None
}


/// The JSON value whose text starts at `i` (after whitespace): the value
/// tree it denotes and the position after it.  An array denotes an
/// object whose member names are the canonical decimal texts of its
/// element indices.
pub open spec fn spec_parse_value(s: Seq<char>, i: int) -> Option<(JsonVal, int)>
    decreases s.len() - i, 0int,
{
    let j = spec_skip_ws(s, i);
    if !(i <= j < s.len()) {
        None
    } else {
        let c = s[j];
        if c == '{' {
            let k0 = spec_skip_ws(s, j + 1);
            if !(i < k0 <= s.len()) {
                None
            } else if k0 < s.len() && s[k0] == '}' {
                Some((JsonVal::Object(Seq::empty()), k0 + 1))
            } else {
                match spec_parse_members(s, k0, Seq::empty()) {
                    Some((members, e)) => Some((JsonVal::Object(members), e)),
                    None => None,
                }
            }
        } else if c == '[' {
            let k0 = spec_skip_ws(s, j + 1);
            if !(i < k0 <= s.len()) {
                None
            } else if k0 < s.len() && s[k0] == ']' {
                Some((JsonVal::Object(Seq::empty()), k0 + 1))
            } else {
                match spec_parse_elements(s, k0, Seq::empty(), 0) {
                    Some((members, e)) => Some((JsonVal::Object(members), e)),
                    None => None,
                }
            }
        } else if c == '"' {
            match spec_parse_string(s, j) {
                Some((t, e)) => Some((JsonVal::Text(t), e)),
                None => None,
            }
        } else if c == 't' {
            if s.len() - j > 3 && s[j + 1] == 'r' && s[j + 2] == 'u' && s[j + 3] == 'e' {
                Some((JsonVal::Boolean(true), j + 4))
            } else {
                None
            }
        } else if c == 'f' {
            if s.len() - j > 4 && s[j + 1] == 'a' && s[j + 2] == 'l' && s[j + 3] == 's'
                && s[j + 4] == 'e' {
                Some((JsonVal::Boolean(false), j + 5))
            } else {
                None
            }
        } else if c == 'n' {
            if s.len() - j > 3 && s[j + 1] == 'u' && s[j + 2] == 'l' && s[j + 3] == 'l' {
                Some((JsonVal::Null, j + 4))
            } else {
                None
            }
        } else {
            match spec_parse_number(s, j) {
                Some((v, e)) => Some((JsonVal::Number(v), e)),
                None => None,
            }
        }
    }
}

/// The members of an object from `k` (a member's opening quote) to the
/// closing brace, appended to `acc`; a repeated member name is not
/// accepted.
pub open spec fn spec_parse_members(s: Seq<char>, k: int, acc: Seq<JsonMember>) -> Option<
    (Seq<JsonMember>, int),
>
    decreases s.len() - k, 1int,
{
    if !(0 <= k < s.len() && s[k] == '"') {
        None
    } else {
        match spec_parse_string(s, k) {
            None => None,
            Some((key, k2)) => {
                if !(k2 > k) {
                    None
                } else {
                    let k3 = spec_skip_ws(s, k2);
                    if !(k3 >= k2 && k3 < s.len() && s[k3] == ':') {
                        None
                    } else {
                        let k4 = spec_skip_ws(s, k3 + 1);
                        if !(k3 + 1 <= k4 <= s.len()) {
                            None
                        } else {
                            spec_parse_member_value(s, k, k4, key, acc)
                        }
                    }
                }
            },
        }
    }
}

/// The continuation of `spec_parse_members` once a member's name and the
/// position of its value are known.
pub open spec fn spec_parse_member_value(
    s: Seq<char>,
    k: int,
    k4: int,
    key: Seq<char>,
    acc: Seq<JsonMember>,
) -> Option<(Seq<JsonMember>, int)>
    decreases s.len() - k, 0int,
{
    if !(k < k4 <= s.len()) {
        None
    } else {
        match spec_parse_value(s, k4) {
            None => None,
            Some((v, k5)) => {
                if exists|m: int| 0 <= m < acc.len() && (#[trigger] acc[m]).name == key {
                    None
                } else {
                    let acc2 = acc.push(JsonMember { name: key, value: v });
                    if !(k5 > k4) {
                        None
                    } else {
                        let k6 = spec_skip_ws(s, k5);
                        if !(k5 <= k6 <= s.len()) {
                            None
                        } else if k6 < s.len() && s[k6] == ',' {
                            let k7 = spec_skip_ws(s, k6 + 1);
                            if !(k < k7 <= s.len()) {
                                None
                            } else {
                                spec_parse_members(s, k7, acc2)
                            }
                        } else if k6 < s.len() && s[k6] == '}' {
                            Some((acc2, k6 + 1))
                        } else {
                            None
                        }
                    }
                }
            },
        }
    }
}

/// The elements of an array from `k` (an element's first character) to
/// the closing bracket, appended to `acc` under decimal index names
/// starting at `idx`.
pub open spec fn spec_parse_elements(s: Seq<char>, k: int, acc: Seq<JsonMember>, idx: int) -> Option<
    (Seq<JsonMember>, int),
>
    decreases s.len() - k, 1int,
{
    if !(0 <= k <= s.len()) {
        None
    } else {
        match spec_parse_value(s, k) {
            None => None,
            Some((v, k5)) => {
                if idx == u32::MAX {
                    None
                } else {
                    let acc2 = acc.push(JsonMember { name: spec_decimal(idx as nat), value: v });
                    if !(k5 > k) {
                        None
                    } else {
                        let k6 = spec_skip_ws(s, k5);
                        if !(k5 <= k6 <= s.len()) {
                            None
                        } else if k6 < s.len() && s[k6] == ',' {
                            let k7 = spec_skip_ws(s, k6 + 1);
                            if !(k < k7 <= s.len()) {
                                None
                            } else {
                                spec_parse_elements(s, k7, acc2, idx + 1)
                            }
                        } else if k6 < s.len() && s[k6] == ']' {
                            Some((acc2, k6 + 1))
                        } else {
                            None
                        }
                    }
                }
            },
        }
    }
}

/// The value denoted by a complete JSON text: the value at its start,
/// with nothing but whitespace after it.
pub open spec fn spec_parse_text(s: Seq<char>) -> Option<JsonVal> {
    match spec_parse_value(s, 0) {
        Some((v, e)) => if spec_skip_ws(s, e) == s.len() {
            Some(v)
        } else {
            None
        },
        None => None,
    }
}

/// Reads the JSON value starting at `i` and allocates it in the heap.
/// Yields the handle of the new cell and the position after the value;
/// the cell stores exactly the value tree the text denotes.  The heap
/// only ever grows and every cell already allocated keeps its place, so
/// handles given out earlier stay valid.
fn parse_value(s: &Vec<char>, i: usize, heap: &mut Vec<JsCell>) -> (r: Option<(usize, usize)>)
    requires
        heap_ok(old(heap)@),
        i <= s@.len(),
    ensures
        heap_ok(final(heap)@),
        old(heap)@.len() <= final(heap)@.len(),
        forall|k: int| 0 <= k < old(heap)@.len() ==> final(heap)@[k] == old(heap)@[k],
        r is Some ==> r.unwrap().0 < final(heap)@.len() && i < r.unwrap().1 <= s@.len(),
        r is None ==> spec_parse_value(s@, i as int) is None,
        r is Some ==> spec_parse_value(s@, i as int) is Some && spec_parse_value(
            s@,
            i as int,
        ).unwrap().1 == r.unwrap().1 && heap_models(
            final(heap)@,
            r.unwrap().0 as int,
            spec_parse_value(s@, i as int).unwrap().0,
        ),
    decreases s@.len() - i, 1int,
{
    let j = skip_ws(s, i);
    if j >= s.len() {
        return None;
    }
    let c = s[j];
    if c == '{' {
        parse_object_body(s, i, j, heap)
    } else if c == '[' {
        parse_array_body(s, i, j, heap)
    } else if c == '"' {
        match parse_string_body(s, j) {
            Some((text, next)) => {
                let ghost t = text@;
                let h = alloc_cell(heap, JsCell::Text(JSString::from_chars(text)));
                proof {
                    assert(heap_models(heap@, h as int, JsonVal::Text(t)));
                }
                Some((h, next))
            },
            None => None,
        }
    } else if c == 't' {
        if s.len() - j > 3 && s[j + 1] == 'r' && s[j + 2] == 'u' && s[j + 3] == 'e' {
            let h = alloc_cell(heap, JsCell::Boolean(true));
            Some((h, j + 4))
        } else {
            None
        }
    } else if c == 'f' {
        if s.len() - j > 4 && s[j + 1] == 'a' && s[j + 2] == 'l' && s[j + 3] == 's' && s[j + 4]
            == 'e' {
            let h = alloc_cell(heap, JsCell::Boolean(false));
            Some((h, j + 5))
        } else {
            None
        }
    } else if c == 'n' {
        if s.len() - j > 3 && s[j + 1] == 'u' && s[j + 2] == 'l' && s[j + 3] == 'l' {
            let h = alloc_cell(heap, JsCell::Null);
            Some((h, j + 4))
        } else {
            None
        }
    } else {
        match parse_number(s, j) {
            Some((v, next)) => {
                let h = alloc_cell(heap, JsCell::Number(v));
                Some((h, next))
            },
            None => None,
        }
    }
}

/// Reads the members of the object whose `{` sits at `j` and allocates
/// the object cell.  A repeated member name is not accepted.
fn parse_object_body(s: &Vec<char>, i: usize, j: usize, heap: &mut Vec<JsCell>) -> (r: Option<
    (usize, usize),
>)
    requires
        heap_ok(old(heap)@),
        i <= j < s@.len(),
        j == spec_skip_ws(s@, i as int),
        s@[j as int] == '{',
    ensures
        heap_ok(final(heap)@),
        old(heap)@.len() <= final(heap)@.len(),
        forall|k: int| 0 <= k < old(heap)@.len() ==> final(heap)@[k] == old(heap)@[k],
        r is Some ==> r.unwrap().0 < final(heap)@.len() && i < r.unwrap().1 <= s@.len(),
        r is None ==> spec_parse_value(s@, i as int) is None,
        r is Some ==> spec_parse_value(s@, i as int) is Some && spec_parse_value(
            s@,
            i as int,
        ).unwrap().1 == r.unwrap().1 && heap_models(
            final(heap)@,
            r.unwrap().0 as int,
            spec_parse_value(s@, i as int).unwrap().0,
        ),
    decreases s@.len() - i, 0int,
{
    let mut props: Vec<JsProp> = Vec::new();
    let n = s.len();
    let mut k = skip_ws(s, j + 1);
    if k < n && s[k] == '}' {
        let h = alloc_cell(heap, JsCell::Object(props));
        proof {
            assert(heap_models(heap@, h as int, JsonVal::Object(Seq::empty())));
        }
        return Some((h, k + 1));
    }
    let ghost mut members: Seq<JsonMember> = Seq::empty();
    loop
        invariant
            i <= j < s@.len(),
            j == spec_skip_ws(s@, i as int),
            s@[j as int] == '{',
            j < k <= s@.len(),
            n == s@.len(),
            heap_ok(heap@),
            old(heap)@.len() <= heap@.len(),
            forall|m: int| 0 <= m < old(heap)@.len() ==> heap@[m] == old(heap)@[m],
            props@.len() == members.len(),
            forall|m: int| 0 <= m < props@.len() ==> (#[trigger] props@[m]).value < heap@.len(),
            forall|m: int| 0 <= m < props@.len() ==> (#[trigger] props@[m].name@) == members[m].name,
            forall|m: int|
                0 <= m < props@.len() ==> heap_models(
                    heap@,
                    (#[trigger] props@[m]).value as int,
                    members[m].value,
                ),
            forall|a: int, b: int|
                0 <= a < b < props@.len() ==> (#[trigger] props@[a].name@) != (
                #[trigger] props@[b].name@),
            ({
                let pv = spec_parse_value(s@, i as int);
                let pm = spec_parse_members(s@, k as int, members);
                &&& (pm is None ==> pv is None)
                &&& (pm is Some ==> pv == Some(
                    (JsonVal::Object(pm.unwrap().0), pm.unwrap().1),
                ))
            }),
        decreases s@.len() - k,
    {
        if !(k < n && s[k] == '"') {
            return None;
        }
        let parsed_key = parse_string_body(s, k);
        let (key, k2) = match parsed_key {
            Some(p) => p,
            None => { return None; },
        };
        let ghost key_view = key@;
        let k3 = skip_ws(s, k2);
        if !(k3 < n && s[k3] == ':') {
            return None;
        }
        let k4 = skip_ws(s, k3 + 1);
        let ghost heap_before = heap@;
        let parsed_val = parse_value(s, k4, heap);
        proof {
            assert forall|m: int| 0 <= m < props@.len() implies heap_models(
                heap@,
                (#[trigger] props@[m]).value as int,
                members[m].value,
            ) by {
                lemma_heap_models_grow(
                    heap_before,
                    heap@,
                    props@[m].value as int,
                    members[m].value,
                );
            }
        }
        let (hval, k5) = match parsed_val {
            Some(p) => p,
            None => { return None; },
        };
        let ghost v_spec = spec_parse_value(s@, k4 as int).unwrap().0;
        let prop = JsProp { name: JSString::from_chars(key), value: hval };
        let found = find_prop_idx(&props, &prop.name.text);
        if found.is_some() {
            proof {
                let idx = found.unwrap() as int;
                assert(0 <= idx < members.len() && members[idx].name == key_view);
                assert(spec_parse_member_value(s@, k as int, k4 as int, key_view, members)
                    is None);
                assert(spec_parse_members(s@, k as int, members) is None);
            }
            return None;
        }
        let ghost props_before = props@;
        props.push(prop);
        let ghost members_before = members;
        proof {
            members = members.push(JsonMember { name: key_view, value: v_spec });
            assert forall|m: int| 0 <= m < members_before.len() implies (
            #[trigger] members_before[m]).name != key_view by {
                assert(props_before[m].name@ == members_before[m].name);
                assert(props_before[m].name@ != key_view);
            }
            assert(spec_parse_members(s@, k as int, members_before) == spec_parse_member_value(
                s@,
                k as int,
                k4 as int,
                key_view,
                members_before,
            ));
        }
        let k6 = skip_ws(s, k5);
        if k6 < n && s[k6] == ',' {
            let k_next = skip_ws(s, k6 + 1);
            proof {
                assert(spec_parse_member_value(s@, k as int, k4 as int, key_view, members_before)
                    == spec_parse_members(s@, k_next as int, members));
                assert(spec_parse_members(s@, k as int, members_before) == spec_parse_members(
                    s@,
                    k_next as int,
                    members,
                ));
            }
            k = k_next;
        } else if k6 < n && s[k6] == '}' {
            proof {
                assert(spec_parse_member_value(s@, k as int, k4 as int, key_view, members_before)
                    == Some((members, k6 + 1 as int)));
                assert(spec_parse_members(s@, k as int, members_before) == Some(
                    (members, k6 + 1 as int),
                ));
            }
            let ghost heap_at_close = heap@;
            let h = alloc_cell(heap, JsCell::Object(props));
            proof {
                assert forall|m: int| 0 <= m < members.len() implies heap_models(
                    heap@,
                    heap@[h as int]->Object_0@[m].value as int,
                    #[trigger] members[m].value,
                ) by {
                    lemma_heap_models_grow(
                        heap_at_close,
                        heap@,
                        heap@[h as int]->Object_0@[m].value as int,
                        members[m].value,
                    );
                }
                assert(heap_models(heap@, h as int, JsonVal::Object(members)));
            }
            return Some((h, k6 + 1));
        } else {
            return None;
        }
    }
}

/// Reads the elements of the array whose `[` sits at `j` and allocates
/// the array's object cell: element `m` is stored under the property
/// name that is the canonical decimal text of `m`.
fn parse_array_body(s: &Vec<char>, i: usize, j: usize, heap: &mut Vec<JsCell>) -> (r: Option<
    (usize, usize),
>)
    requires
        heap_ok(old(heap)@),
        i <= j < s@.len(),
        j == spec_skip_ws(s@, i as int),
        s@[j as int] == '[',
    ensures
        heap_ok(final(heap)@),
        old(heap)@.len() <= final(heap)@.len(),
        forall|k: int| 0 <= k < old(heap)@.len() ==> final(heap)@[k] == old(heap)@[k],
        r is Some ==> r.unwrap().0 < final(heap)@.len() && i < r.unwrap().1 <= s@.len(),
        r is None ==> spec_parse_value(s@, i as int) is None,
        r is Some ==> spec_parse_value(s@, i as int) is Some && spec_parse_value(
            s@,
            i as int,
        ).unwrap().1 == r.unwrap().1 && heap_models(
            final(heap)@,
            r.unwrap().0 as int,
            spec_parse_value(s@, i as int).unwrap().0,
        ),
    decreases s@.len() - i, 0int,
{
    let mut props: Vec<JsProp> = Vec::new();
    let mut count: u32 = 0;
    let n = s.len();
    let mut k = skip_ws(s, j + 1);
    if k < n && s[k] == ']' {
        let h = alloc_cell(heap, JsCell::Object(props));
        proof {
            assert(heap_models(heap@, h as int, JsonVal::Object(Seq::empty())));
        }
        return Some((h, k + 1));
    }
    let ghost mut members: Seq<JsonMember> = Seq::empty();
    loop
        invariant
            i <= j < s@.len(),
            j == spec_skip_ws(s@, i as int),
            s@[j as int] == '[',
            j < k <= s@.len(),
            n == s@.len(),
            heap_ok(heap@),
            old(heap)@.len() <= heap@.len(),
            forall|m: int| 0 <= m < old(heap)@.len() ==> heap@[m] == old(heap)@[m],
            props@.len() == members.len(),
            props@.len() == count,
            forall|m: int| 0 <= m < props@.len() ==> (#[trigger] props@[m]).value < heap@.len(),
            forall|m: int| 0 <= m < props@.len() ==> (#[trigger] props@[m].name@) == members[m].name,
            forall|m: int|
                0 <= m < members.len() ==> (#[trigger] members[m].name) == spec_decimal(m as nat),
            forall|m: int|
                0 <= m < props@.len() ==> heap_models(
                    heap@,
                    (#[trigger] props@[m]).value as int,
                    members[m].value,
                ),
            ({
                let pv = spec_parse_value(s@, i as int);
                let pe = spec_parse_elements(s@, k as int, members, count as int);
                &&& (pe is None ==> pv is None)
                &&& (pe is Some ==> pv == Some(
                    (JsonVal::Object(pe.unwrap().0), pe.unwrap().1),
                ))
            }),
        decreases s@.len() - k,
    {
        let ghost heap_before = heap@;
        let parsed_val = parse_value(s, k, heap);
        proof {
            assert forall|m: int| 0 <= m < props@.len() implies heap_models(
                heap@,
                (#[trigger] props@[m]).value as int,
                members[m].value,
            ) by {
                lemma_heap_models_grow(
                    heap_before,
                    heap@,
                    props@[m].value as int,
                    members[m].value,
                );
            }
        }
        let (hval, k5) = match parsed_val {
            Some(p) => p,
            None => { return None; },
        };
        let ghost v_spec = spec_parse_value(s@, k as int).unwrap().0;
        if count == u32::MAX {
            return None;
        }
        let name = JSString::from_chars(decimal_chars(count));
        props.push(JsProp { name, value: hval });
        let ghost members_before = members;
        proof {
            members = members.push(
                JsonMember { name: spec_decimal(count as nat), value: v_spec },
            );
        }
        count = count + 1;
        let k6 = skip_ws(s, k5);
        if k6 < n && s[k6] == ',' {
            let k_next = skip_ws(s, k6 + 1);
            proof {
                assert(spec_parse_elements(s@, k as int, members_before, count - 1)
                    == spec_parse_elements(s@, k_next as int, members, count as int));
            }
            k = k_next;
        } else if k6 < n && s[k6] == ']' {
            proof {
                assert(spec_parse_elements(s@, k as int, members_before, count - 1) == Some(
                    (members, k6 + 1 as int),
                ));
                assert forall|a: int, b: int|
                    0 <= a < b < props@.len() implies (#[trigger] props@[a].name@) != (
                #[trigger] props@[b].name@) by {
                    if props@[a].name@ == props@[b].name@ {
                        lemma_decimal_injective(a as nat, b as nat);
                    }
                }
            }
            let ghost heap_at_close = heap@;
            let h = alloc_cell(heap, JsCell::Object(props));
            proof {
                assert forall|m: int| 0 <= m < members.len() implies heap_models(
                    heap@,
                    heap@[h as int]->Object_0@[m].value as int,
                    #[trigger] members[m].value,
                ) by {
                    lemma_heap_models_grow(
                        heap_at_close,
                        heap@,
                        heap@[h as int]->Object_0@[m].value as int,
                        members[m].value,
                    );
                }
                assert(heap_models(heap@, h as int, JsonVal::Object(members)));
            }
            return Some((h, k6 + 1));
        } else {
            return None;
        }
    }
}

/// Parses a complete piece of JSON text into the context's heap: the
/// engine's parse-and-allocate entry point.  Yields the handle of a cell
/// storing exactly the value the text denotes; trailing content other
/// than whitespace is rejected.
pub(crate) fn parse_text(ctx: &mut JSContext, text: &str) -> (r: Option<usize>)
    requires
        old(ctx).wf(),
    ensures
        final(ctx).wf(),
        old(ctx).heap@.len() <= final(ctx).heap@.len(),
        forall|k: int| 0 <= k < old(ctx).heap@.len() ==> final(ctx).heap@[k] == old(ctx).heap@[k],
        r is Some ==> r.unwrap() < final(ctx).heap@.len(),
        r is None ==> spec_parse_text(text@) is None,
        r is Some ==> spec_parse_text(text@) is Some && heap_models(
            final(ctx).heap@,
            r.unwrap() as int,
            spec_parse_text(text@).unwrap(),
        ),
{
    let s = str_chars(text);
    let parsed = parse_value(&s, 0, &mut ctx.heap);
    match parsed {
        Some((h, next)) => {
            let k = skip_ws(&s, next);
            if k == s.len() {
                Some(h)
            } else {
                None
            }
        },
        None => None,
    }
}

} // verus!
