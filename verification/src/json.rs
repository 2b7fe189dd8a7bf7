use vstd::prelude::*;
use crate::event::{doc_of, docs_of, entries_of, lemma_docs_of, lemma_entries_of, Doc, Event};

verus! {

broadcast use vstd::std_specs::vec::group_vec_axioms, vstd::seq::group_seq_axioms;

// Byte values of the frame grammar, named for readability.
pub const B_QUOTE: u8 = 0x22;
pub const B_BACKSLASH: u8 = 0x5c;
pub const B_COMMA: u8 = 0x2c;
pub const B_COLON: u8 = 0x3a;
pub const B_LBRACKET: u8 = 0x5b;
pub const B_RBRACKET: u8 = 0x5d;
pub const B_LBRACE: u8 = 0x7b;
pub const B_RBRACE: u8 = 0x7d;
pub const B_MINUS: u8 = 0x2d;

/// Frame whitespace: space, tab, line feed, carriage return.
pub open spec fn is_ws(b: u8) -> bool {
    b == 0x20 || b == 0x09 || b == 0x0a || b == 0x0d
}

/// An ASCII decimal digit.
pub open spec fn is_digit(b: u8) -> bool {
    0x30 <= b <= 0x39
}

/// An ASCII hexadecimal digit, either case.
pub open spec fn is_hex(b: u8) -> bool {
    is_digit(b) || (0x41 <= b <= 0x46) || (0x61 <= b <= 0x66)
}

/// A byte allowed directly after a backslash in a string.
pub open spec fn is_simple_escape(b: u8) -> bool {
    b == B_QUOTE || b == B_BACKSLASH || b == 0x2f || b == 0x62 || b == 0x66 || b == 0x6e || b
        == 0x72 || b == 0x74
}

/// First index at or after `i` holding no whitespace.
pub open spec fn sp_ws(s: Seq<u8>, i: int) -> int
    decreases s.len() - i
        when 0 <= i <= s.len()
{
    if i < s.len() && is_ws(s[i]) {
        sp_ws(s, i + 1)
    } else {
        i
    }
}

/// First index at or after `i` holding no digit.
pub open spec fn sp_digits(s: Seq<u8>, i: int) -> int
    decreases s.len() - i
        when 0 <= i <= s.len()
{
    if i < s.len() && is_digit(s[i]) {
        sp_digits(s, i + 1)
    } else {
        i
    }
}

/// Scan the body of a string from `i` (just past the opening quote):
/// the index just past the closing quote, or `None` when the string is
/// unterminated, holds a control byte, or holds a bad escape.
pub open spec fn sp_str_end(s: Seq<u8>, i: int) -> Option<int>
    decreases s.len() - i
        when 0 <= i <= s.len()
{
    if i >= s.len() {
        None
    } else if s[i] == B_QUOTE {
        Some(i + 1)
    } else if s[i] == B_BACKSLASH {
        if i + 2 <= s.len() && is_simple_escape(s[i + 1]) {
            sp_str_end(s, i + 2)
        } else if i + 6 <= s.len() && s[i + 1] == 0x75 && is_hex(s[i + 2]) && is_hex(s[i + 3])
            && is_hex(s[i + 4]) && is_hex(s[i + 5]) {
            sp_str_end(s, i + 6)
        } else {
            None
        }
    } else if s[i] < 0x20 {
        None
    } else {
        sp_str_end(s, i + 1)
    }
}

/// End of an exponent part starting at `j`, if the token continues there.
pub open spec fn sp_exp_end(s: Seq<u8>, j: int) -> Option<int> {
    if j < s.len() && (s[j] == 0x65 || s[j] == 0x45) {
        let k = if j + 1 < s.len() && (s[j + 1] == 0x2b || s[j + 1] == B_MINUS) {
            j + 2
        } else {
            j + 1
        };
        if k < s.len() && is_digit(s[k]) {
            Some(sp_digits(s, k))
        } else {
            None
        }
    } else {
        Some(j)
    }
}

/// Scan a number token starting at `i`: the index just past it, or
/// `None` when no valid token starts there.
pub open spec fn sp_num_end(s: Seq<u8>, i: int) -> Option<int> {
    let j = if i < s.len() && s[i] == B_MINUS {
        i + 1
    } else {
        i
    };
    if !(j < s.len() && is_digit(s[j])) {
        None
    } else {
        let j2 = if s[j] == 0x30 {
            j + 1
        } else {
            sp_digits(s, j)
        };
        if j2 < s.len() && s[j2] == 0x2e {
            if j2 + 1 < s.len() && is_digit(s[j2 + 1]) {
                sp_exp_end(s, sp_digits(s, j2 + 1))
            } else {
                None
            }
        } else {
            sp_exp_end(s, j2)
        }
    }
}

/// Parse one document starting at the non-whitespace index `i`.
///
/// `fuel` bounds the recursion; [`spec_parse`] supplies enough of it for
/// any input of the given length, so the fuel never decides the result.
pub open spec fn sp_value(s: Seq<u8>, i: int, fuel: nat) -> Option<(Doc, int)>
    decreases fuel,
{
    if fuel == 0 {
        None
    } else if !(0 <= i < s.len()) {
        None
    } else if s[i] == 0x6e {
        if i + 4 <= s.len() && s[i + 1] == 0x75 && s[i + 2] == 0x6c && s[i + 3] == 0x6c {
            Some((Doc::Null, i + 4))
        } else {
            None
        }
    } else if s[i] == 0x74 {
        if i + 4 <= s.len() && s[i + 1] == 0x72 && s[i + 2] == 0x75 && s[i + 3] == 0x65 {
            Some((Doc::Bool(true), i + 4))
        } else {
            None
        }
    } else if s[i] == 0x66 {
        if i + 5 <= s.len() && s[i + 1] == 0x61 && s[i + 2] == 0x6c && s[i + 3] == 0x73 && s[i + 4]
            == 0x65 {
            Some((Doc::Bool(false), i + 5))
        } else {
            None
        }
    } else if s[i] == B_QUOTE {
        match sp_str_end(s, i + 1) {
            Some(e) => Some((Doc::Str(s.subrange(i + 1, e - 1)), e)),
            None => None,
        }
    } else if s[i] == B_MINUS || is_digit(s[i]) {
        match sp_num_end(s, i) {
            Some(e) => Some((Doc::Num(s.subrange(i, e)), e)),
            None => None,
        }
    } else if s[i] == B_LBRACKET {
        let j = sp_ws(s, i + 1);
        if j < s.len() && s[j] == B_RBRACKET {
            Some((Doc::Arr(Seq::empty()), j + 1))
        } else {
            match sp_arr(s, j, (fuel - 1) as nat) {
                Some((ds, e)) => Some((Doc::Arr(ds), e)),
                None => None,
            }
        }
    } else if s[i] == B_LBRACE {
        let j = sp_ws(s, i + 1);
        if j < s.len() && s[j] == B_RBRACE {
            Some((Doc::Obj(Seq::empty()), j + 1))
        } else {
            match sp_obj(s, j, (fuel - 1) as nat) {
                Some((es, e)) => Some((Doc::Obj(es), e)),
                None => None,
            }
        }
    } else {
        None
    }
}

/// Parse the elements of a non-empty array, starting at the first
/// element's non-whitespace index.
pub open spec fn sp_arr(s: Seq<u8>, i: int, fuel: nat) -> Option<(Seq<Doc>, int)>
    decreases fuel,
{
    if fuel == 0 {
        None
    } else {
        match sp_value(s, i, (fuel - 1) as nat) {
            Some((d, j)) => {
                let k = sp_ws(s, j);
                if k < s.len() && s[k] == B_COMMA {
                    match sp_arr(s, sp_ws(s, k + 1), (fuel - 1) as nat) {
                        Some((ds, e)) => Some((seq![d] + ds, e)),
                        None => None,
                    }
                } else if k < s.len() && s[k] == B_RBRACKET {
                    Some((seq![d], k + 1))
                } else {
                    None
                }
            },
            None => None,
        }
    }
}

/// Parse the members of a non-empty object, starting at the first key's
/// non-whitespace index.
pub open spec fn sp_obj(s: Seq<u8>, i: int, fuel: nat) -> Option<(Seq<(Seq<u8>, Doc)>, int)>
    decreases fuel,
{
    if fuel == 0 {
        None
    } else if !(0 <= i < s.len() && s[i] == B_QUOTE) {
        None
    } else {
        match sp_str_end(s, i + 1) {
            Some(ke) => {
                let key = s.subrange(i + 1, ke - 1);
                let c = sp_ws(s, ke);
                if c < s.len() && s[c] == B_COLON {
                    match sp_value(s, sp_ws(s, c + 1), (fuel - 1) as nat) {
                        Some((d, j)) => {
                            let k = sp_ws(s, j);
                            if k < s.len() && s[k] == B_COMMA {
                                match sp_obj(s, sp_ws(s, k + 1), (fuel - 1) as nat) {
                                    Some((es, e)) => Some((seq![(key, d)] + es, e)),
                                    None => None,
                                }
                            } else if k < s.len() && s[k] == B_RBRACE {
                                Some((seq![(key, d)], k + 1))
                            } else {
                                None
                            }
                        },
                        None => None,
                    }
                } else {
                    None
                }
            },
            None => None,
        }
    }
}

/// Fuel that suffices for any frame of this length: nesting one level
/// deeper always consumes input, so depth can never exceed it.
pub open spec fn parse_fuel(s: Seq<u8>) -> nat {
    2 * s.len() + 2
}

/// The document a frame carries: whitespace, one document, whitespace,
/// nothing else; or `None` when the frame is malformed.
pub open spec fn spec_parse(s: Seq<u8>) -> Option<Doc> {
    match sp_value(s, sp_ws(s, 0), parse_fuel(s)) {
        Some((d, j)) => if sp_ws(s, j) == s.len() {
            Some(d)
        } else {
            None
        },
        None => None,
    }
}

// ---------------------------------------------------------------------
// Executable decoder, proved equal to the grammar above.
// ---------------------------------------------------------------------
/// Whether `b` is frame whitespace.
fn ws_byte(b: u8) -> (r: bool)
    ensures
        r == is_ws(b),
{
    b == 0x20 || b == 0x09 || b == 0x0a || b == 0x0d
}

/// Whether `b` is an ASCII digit.
fn digit_byte(b: u8) -> (r: bool)
    ensures
        r == is_digit(b),
{
    0x30 <= b && b <= 0x39
}

/// Whether `b` is an ASCII hexadecimal digit.
fn hex_byte(b: u8) -> (r: bool)
    ensures
        r == is_hex(b),
{
    (0x30 <= b && b <= 0x39) || (0x41 <= b && b <= 0x46) || (0x61 <= b && b <= 0x66)
}

/// Whether `b` may follow a backslash on its own.
fn simple_escape_byte(b: u8) -> (r: bool)
    ensures
        r == is_simple_escape(b),
{
    b == B_QUOTE || b == B_BACKSLASH || b == 0x2f || b == 0x62 || b == 0x66 || b == 0x6e || b
        == 0x72 || b == 0x74
}

/// Skip whitespace from `i`.
fn ws_from(s: &[u8], i: usize) -> (j: usize)
    requires
        i <= s@.len(),
    ensures
        j as int == sp_ws(s@, i as int),
        i <= j <= s@.len(),
{
    let mut j = i;
    while j < s.len() && ws_byte(s[j])
        invariant
            i <= j <= s@.len(),
            sp_ws(s@, i as int) == sp_ws(s@, j as int),
        decreases s@.len() - j,
    {
        j = j + 1;
    }
    j
}

/// Skip digits from `i`.
fn digits_from(s: &[u8], i: usize) -> (j: usize)
    requires
        i <= s@.len(),
    ensures
        j as int == sp_digits(s@, i as int),
        i <= j <= s@.len(),
        i < s@.len() && is_digit(s@[i as int]) ==> i < j,
{
    let mut j = i;
    while j < s.len() && digit_byte(s[j])
        invariant
            i <= j <= s@.len(),
            sp_digits(s@, i as int) == sp_digits(s@, j as int),
        decreases s@.len() - j,
    {
        j = j + 1;
    }
    j
}

/// Scan a string body from `i`, as [`sp_str_end`] describes.
fn str_end_from(s: &[u8], i: usize) -> (r: Option<usize>)
    requires
        i <= s@.len(),
    ensures
        match r {
            Some(e) => sp_str_end(s@, i as int) == Some(e as int) && i < e <= s@.len(),
            None => sp_str_end(s@, i as int) is None,
        },
{
    let mut j = i;
    loop
        invariant
            i <= j <= s@.len(),
            sp_str_end(s@, i as int) == sp_str_end(s@, j as int),
        decreases s@.len() - j,
    {
        if j >= s.len() {
            return None;
        }
        let b = s[j];
        if b == B_QUOTE {
            return Some(j + 1);
        }
        if b == B_BACKSLASH {
            if s.len() - j >= 2 && simple_escape_byte(s[j + 1]) {
                j = j + 2;
            } else if s.len() - j >= 6 && s[j + 1] == 0x75 && hex_byte(s[j + 2]) && hex_byte(
                s[j + 3],
            ) && hex_byte(s[j + 4]) && hex_byte(s[j + 5]) {
                j = j + 6;
            } else {
                return None;
            }
        } else if b < 0x20 {
            return None;
        } else {
            j = j + 1;
        }
    }
}

/// Scan a number token from `i`, as [`sp_num_end`] describes.
fn num_end_from(s: &[u8], i: usize) -> (r: Option<usize>)
    requires
        i <= s@.len(),
    ensures
        match r {
            Some(e) => sp_num_end(s@, i as int) == Some(e as int) && i < e <= s@.len(),
            None => sp_num_end(s@, i as int) is None,
        },
{
    let j = if i < s.len() && s[i] == B_MINUS {
        i + 1
    } else {
        i
    };
    if !(j < s.len() && digit_byte(s[j])) {
        return None;
    }
    let j2 = if s[j] == 0x30 {
        j + 1
    } else {
        digits_from(s, j)
    };
    if j2 < s.len() && s[j2] == 0x2e {
        if j2 + 1 < s.len() && digit_byte(s[j2 + 1]) {
            let j3 = digits_from(s, j2 + 1);
            exp_end_from(s, j3)
        } else {
            None
        }
    } else {
        exp_end_from(s, j2)
    }
}

/// Scan an exponent part from `j`, as [`sp_exp_end`] describes.
fn exp_end_from(s: &[u8], j: usize) -> (r: Option<usize>)
    requires
        j <= s@.len(),
    ensures
        match r {
            Some(e) => sp_exp_end(s@, j as int) == Some(e as int) && j <= e <= s@.len(),
            None => sp_exp_end(s@, j as int) is None,
        },
{
    if j < s.len() && (s[j] == 0x65 || s[j] == 0x45) {
        let k = if j + 1 < s.len() && (s[j + 1] == 0x2b || s[j + 1] == B_MINUS) {
            j + 2
        } else {
            j + 1
        };
        if k < s.len() && digit_byte(s[k]) {
            Some(digits_from(s, k))
        } else {
            None
        }
    } else {
        Some(j)
    }
}

/// Copy the bytes of `s` between `a` and `b`.
fn bytes_range(s: &[u8], a: usize, b: usize) -> (r: Vec<u8>)
    requires
        a <= b <= s@.len(),
    ensures
        r@ == s@.subrange(a as int, b as int),
{
    let mut r: Vec<u8> = Vec::new();
    let mut i = a;
    while i < b
        invariant
            a <= i <= b <= s@.len(),
            r@ =~= s@.subrange(a as int, i as int),
        decreases b - i,
    {
        r.push(s[i]);
        proof {
            assert(r@ =~= s@.subrange(a as int, i + 1 as int));
        }
        i = i + 1;
    }
    r
}

/// Parse one document from the non-whitespace index `i`, exactly as
/// [`sp_value`] describes.
fn parse_value(s: &[u8], i: usize, fuel: usize) -> (r: Option<(Event, usize)>)
    requires
        i <= s@.len(),
    ensures
        match r {
            Some(p) => sp_value(s@, i as int, fuel as nat) == Some((p.0@, p.1 as int)) && i < p.1
                <= s@.len(),
            None => sp_value(s@, i as int, fuel as nat) is None,
        },
    decreases fuel,
{
    if fuel == 0 {
        return None;
    }
    if i >= s.len() {
        return None;
    }
    let b = s[i];
    if b == 0x6e {
        if s.len() - i >= 4 && s[i + 1] == 0x75 && s[i + 2] == 0x6c && s[i + 3] == 0x6c {
            Some((Event::Null, i + 4))
        } else {
            None
        }
    } else if b == 0x74 {
        if s.len() - i >= 4 && s[i + 1] == 0x72 && s[i + 2] == 0x75 && s[i + 3] == 0x65 {
            Some((Event::Bool(true), i + 4))
        } else {
            None
        }
    } else if b == 0x66 {
        if s.len() - i >= 5 && s[i + 1] == 0x61 && s[i + 2] == 0x6c && s[i + 3] == 0x73 && s[i + 4]
            == 0x65 {
            Some((Event::Bool(false), i + 5))
        } else {
            None
        }
    } else if b == B_QUOTE {
        match str_end_from(s, i + 1) {
            Some(e) => Some((Event::Str(bytes_range(s, i + 1, e - 1)), e)),
            None => None,
        }
    } else if b == B_MINUS || digit_byte(b) {
        match num_end_from(s, i) {
            Some(e) => Some((Event::Num(bytes_range(s, i, e)), e)),
            None => None,
        }
    } else if b == B_LBRACKET {
        let j = ws_from(s, i + 1);
        if j < s.len() && s[j] == B_RBRACKET {
            let r = Event::Arr(Vec::new());
            proof {
                assert(docs_of(Seq::<Event>::empty()) =~= Seq::<Doc>::empty());
            }
            Some((r, j + 1))
        } else {
            match parse_arr(s, j, fuel - 1) {
                Some(p) => Some((Event::Arr(p.0), p.1)),
                None => None,
            }
        }
    } else if b == B_LBRACE {
        let j = ws_from(s, i + 1);
        if j < s.len() && s[j] == B_RBRACE {
            let r = Event::Obj(Vec::new());
            proof {
                assert(entries_of(Seq::<(Vec<u8>, Event)>::empty()) =~= Seq::<
                    (Seq<u8>, Doc),
                >::empty());
            }
            Some((r, j + 1))
        } else {
            match parse_obj(s, j, fuel - 1) {
                Some(p) => Some((Event::Obj(p.0), p.1)),
                None => None,
            }
        }
    } else {
        None
    }
}

/// Parse the elements of a non-empty array, exactly as [`sp_arr`]
/// describes.
fn parse_arr(s: &[u8], i: usize, fuel: usize) -> (r: Option<(Vec<Event>, usize)>)
    requires
        i <= s@.len(),
    ensures
        match r {
            Some(p) => sp_arr(s@, i as int, fuel as nat) == Some((docs_of(p.0@), p.1 as int)) && i
                < p.1 <= s@.len(),
            None => sp_arr(s@, i as int, fuel as nat) is None,
        },
    decreases fuel,
{
    if fuel == 0 {
        return None;
    }
    match parse_value(s, i, fuel - 1) {
        Some((d, j)) => {
            let k = ws_from(s, j);
            if k < s.len() && s[k] == B_COMMA {
                let k2 = ws_from(s, k + 1);
                match parse_arr(s, k2, fuel - 1) {
                    Some((mut ds, e)) => {
                        let ghost pre = ds@;
                        ds.insert(0, d);
                        proof {
                            assert(ds@ =~= seq![d] + pre);
                            lemma_docs_of_cons(d, pre);
                        }
                        Some((ds, e))
                    },
                    None => None,
                }
            } else if k < s.len() && s[k] == B_RBRACKET {
                let mut one: Vec<Event> = Vec::new();
                one.push(d);
                proof {
                    assert(one@ =~= seq![d] + Seq::<Event>::empty());
                    lemma_docs_of_cons(d, Seq::<Event>::empty());
                    assert(docs_of(one@) =~= seq![doc_of(d)]);
                }
                Some((one, k + 1))
            } else {
                None
            }
        },
        None => None,
    }
}

/// Parse the members of a non-empty object, exactly as [`sp_obj`]
/// describes.
fn parse_obj(s: &[u8], i: usize, fuel: usize) -> (r: Option<(Vec<(Vec<u8>, Event)>, usize)>)
    requires
        i <= s@.len(),
    ensures
        match r {
            Some(p) => sp_obj(s@, i as int, fuel as nat) == Some((entries_of(p.0@), p.1 as int))
                && i < p.1 <= s@.len(),
            None => sp_obj(s@, i as int, fuel as nat) is None,
        },
    decreases fuel,
{
    if fuel == 0 {
        return None;
    }
    if !(i < s.len() && s[i] == B_QUOTE) {
        return None;
    }
    match str_end_from(s, i + 1) {
        Some(ke) => {
            let key = bytes_range(s, i + 1, ke - 1);
            let c = ws_from(s, ke);
            if c < s.len() && s[c] == B_COLON {
                let v0 = ws_from(s, c + 1);
                match parse_value(s, v0, fuel - 1) {
                    Some((d, j)) => {
                        let k = ws_from(s, j);
                        if k < s.len() && s[k] == B_COMMA {
                            let k2 = ws_from(s, k + 1);
                            match parse_obj(s, k2, fuel - 1) {
                                Some((mut es, e)) => {
                                    let ghost pre = es@;
                                    let ghost kd = (key@, d@);
                                    es.insert(0, (key, d));
                                    proof {
                                        assert(es@[0].0@ == kd.0 && es@[0].1@ == kd.1);
                                        assert(es@ =~= seq![es@[0]] + pre);
                                        lemma_entries_of_cons(es@[0], pre);
                                    }
                                    Some((es, e))
                                },
                                None => None,
                            }
                        } else if k < s.len() && s[k] == B_RBRACE {
                            let mut one: Vec<(Vec<u8>, Event)> = Vec::new();
                            one.push((key, d));
                            proof {
                                assert(one@ =~= seq![one@[0]] + Seq::<(Vec<u8>, Event)>::empty());
                                lemma_entries_of_cons(one@[0], Seq::<(Vec<u8>, Event)>::empty());
                                assert(entries_of(one@) =~= seq![
                                    (one@[0].0@, doc_of(one@[0].1)),
                                ]);
                            }
                            Some((one, k + 1))
                        } else {
                            None
                        }
                    },
                    None => None,
                }
            } else {
                None
            }
        },
        None => None,
    }
}

/// Unfolding `docs_of` over a first element.
proof fn lemma_docs_of_cons(d: Event, rest: Seq<Event>)
    ensures
        docs_of(seq![d] + rest) == seq![doc_of(d)] + docs_of(rest),
{
    let s = seq![d] + rest;
    assert(s[0] == d);
    assert(s.subrange(1, s.len() as int) =~= rest);
}

/// Unfolding `entries_of` over a first entry.
proof fn lemma_entries_of_cons(en: (Vec<u8>, Event), rest: Seq<(Vec<u8>, Event)>)
    ensures
        entries_of(seq![en] + rest) == seq![(en.0@, doc_of(en.1))] + entries_of(rest),
{
    let s = seq![en] + rest;
    assert(s[0] == en);
    assert(s.subrange(1, s.len() as int) =~= rest);
}

/// Decode one frame: the structured document it carries, or `None` when
/// the frame is malformed.
pub fn parse_event(s: &[u8]) -> (r: Option<Event>)
    requires
        s@.len() <= (usize::MAX - 2) / 2,
    ensures
        match r {
            Some(e) => spec_parse(s@) == Some(e@),
            None => spec_parse(s@) is None,
        },
{
    let fuel: usize = 2 * s.len() + 2;
    let i = ws_from(s, 0);
    match parse_value(s, i, fuel) {
        Some((e, j)) => {
            let k = ws_from(s, j);
            if k == s.len() {
                Some(e)
            } else {
                None
            }
        },
        None => None,
    }
}

// ---------------------------------------------------------------------
// Serializer: the canonical frame for a document.
// ---------------------------------------------------------------------
/// The canonical byte encoding of a document: no whitespace, string and
/// number tokens verbatim.
pub open spec fn ser(d: Doc) -> Seq<u8>
    decreases d,
{
    match d {
        Doc::Null => seq![0x6eu8, 0x75u8, 0x6cu8, 0x6cu8],
        Doc::Bool(b) => if b {
            seq![0x74u8, 0x72u8, 0x75u8, 0x65u8]
        } else {
            seq![0x66u8, 0x61u8, 0x6cu8, 0x73u8, 0x65u8]
        },
        Doc::Num(n) => n,
        Doc::Str(s) => seq![B_QUOTE] + s + seq![B_QUOTE],
        Doc::Arr(ds) => seq![B_LBRACKET] + ser_list(ds) + seq![B_RBRACKET],
        Doc::Obj(es) => seq![B_LBRACE] + ser_entries(es) + seq![B_RBRACE],
    }
}

/// The elements of an array, joined by commas.
pub open spec fn ser_list(ds: Seq<Doc>) -> Seq<u8>
    decreases ds,
{
    if ds.len() == 0 {
        Seq::empty()
    } else if ds.len() == 1 {
        ser(ds[0])
    } else {
        ser(ds[0]) + seq![B_COMMA] + ser_list(ds.subrange(1, ds.len() as int))
    }
}

/// The members of an object, joined by commas.
pub open spec fn ser_entries(es: Seq<(Seq<u8>, Doc)>) -> Seq<u8>
    decreases es,
{
    if es.len() == 0 {
        Seq::empty()
    } else if es.len() == 1 {
        ser_entry(es[0])
    } else {
        ser_entry(es[0]) + seq![B_COMMA] + ser_entries(es.subrange(1, es.len() as int))
    }
}

/// One object member: quoted key, colon, value.
pub open spec fn ser_entry(en: (Seq<u8>, Doc)) -> Seq<u8>
    decreases en,
{
    seq![B_QUOTE] + en.0 + seq![B_QUOTE, B_COLON] + ser(en.1)
}

/// Appending one more element to a serialized list.
proof fn lemma_ser_list_snoc(ds: Seq<Doc>, d: Doc)
    ensures
        ser_list(ds.push(d)) == if ds.len() == 0 {
            ser(d)
        } else {
            ser_list(ds) + seq![B_COMMA] + ser_list(seq![d])
        },
    decreases ds.len(),
{
    let s = ds.push(d);
    if ds.len() == 0 {
        assert(s.len() == 1 && s[0] == d);
    } else {
        assert(s[0] == ds[0]);
        assert(s.subrange(1, s.len() as int) =~= ds.subrange(1, ds.len() as int).push(d));
        lemma_ser_list_snoc(ds.subrange(1, ds.len() as int), d);
        if ds.len() == 1 {
            assert(ds.subrange(1, ds.len() as int) =~= Seq::<Doc>::empty());
        }
    }
}

/// Appending one more member to a serialized object body.
proof fn lemma_ser_entries_snoc(es: Seq<(Seq<u8>, Doc)>, en: (Seq<u8>, Doc))
    ensures
        ser_entries(es.push(en)) == if es.len() == 0 {
            ser_entry(en)
        } else {
            ser_entries(es) + seq![B_COMMA] + ser_entries(seq![en])
        },
    decreases es.len(),
{
    let s = es.push(en);
    if es.len() == 0 {
        assert(s.len() == 1 && s[0] == en);
    } else {
        assert(s[0] == es[0]);
        assert(s.subrange(1, s.len() as int) =~= es.subrange(1, es.len() as int).push(en));
        lemma_ser_entries_snoc(es.subrange(1, es.len() as int), en);
        if es.len() == 1 {
            assert(es.subrange(1, es.len() as int) =~= Seq::<(Seq<u8>, Doc)>::empty());
        }
    }
}

/// Append the canonical encoding of `e` to `out`.
fn write_event(e: &Event, out: &mut Vec<u8>)
    ensures
        final(out)@ == old(out)@ + ser(e@),
    decreases *e,
{
    match e {
        Event::Null => {
            out.push(0x6e);
            out.push(0x75);
            out.push(0x6c);
            out.push(0x6c);
            proof {
                assert(out@ =~= old(out)@ + ser(e@));
            }
        },
        Event::Bool(b) => {
            if *b {
                out.push(0x74);
                out.push(0x72);
                out.push(0x75);
                out.push(0x65);
            } else {
                out.push(0x66);
                out.push(0x61);
                out.push(0x6c);
                out.push(0x73);
                out.push(0x65);
            }
            proof {
                assert(out@ =~= old(out)@ + ser(e@));
            }
        },
        Event::Num(n) => {
            append_bytes(out, n);
            proof {
                assert(out@ =~= old(out)@ + ser(e@));
            }
        },
        Event::Str(s) => {
            out.push(B_QUOTE);
            append_bytes(out, s);
            out.push(B_QUOTE);
            proof {
                assert(out@ =~= old(out)@ + ser(e@));
            }
        },
        Event::Arr(v) => {
            out.push(B_LBRACKET);
            proof {
                assert(decreases_to!(*v => v@));
            }
            write_list(v, out);
            out.push(B_RBRACKET);
            proof {
                assert(out@ =~= old(out)@ + ser(e@));
            }
        },
        Event::Obj(m) => {
            out.push(B_LBRACE);
            write_members(m, out);
            out.push(B_RBRACE);
            proof {
                assert(out@ =~= old(out)@ + ser(e@));
            }
        },
    }
}

/// Append the comma-joined encodings of the elements of `v` to `out`.
fn write_list(v: &Vec<Event>, out: &mut Vec<u8>)
    ensures
        final(out)@ == old(out)@ + ser_list(docs_of(v@)),
    decreases *v,
{
    let mut i: usize = 0;
    proof {
        lemma_docs_of(v@);
    }
    while i < v.len()
        invariant
            i <= v.len(),
            docs_of(v@).len() == v@.len(),
            forall|j: int| 0 <= j < v@.len() ==> docs_of(v@)[j] == doc_of(v@[j]),
            out@ == old(out)@ + ser_list(docs_of(v@).take(i as int)),
        decreases v.len() - i,
    {
        if i > 0 {
            out.push(B_COMMA);
        }
        proof {
            assert(decreases_to!(*v => v@));
            assert(decreases_to!(v@ => v@[i as int]));
        }
        write_event(&v[i], out);
        proof {
            let pre = docs_of(v@).take(i as int);
            lemma_ser_list_snoc(pre, docs_of(v@)[i as int]);
            assert(docs_of(v@).take(i + 1 as int) =~= pre.push(docs_of(v@)[i as int]));
            assert(ser_list(seq![docs_of(v@)[i as int]]) == ser(docs_of(v@)[i as int]));
        }
        i = i + 1;
    }
    proof {
        assert(docs_of(v@).take(docs_of(v@).len() as int) =~= docs_of(v@));
    }
}

/// Append the comma-joined encodings of the members of `m` to `out`.
fn write_members(m: &Vec<(Vec<u8>, Event)>, out: &mut Vec<u8>)
    ensures
        final(out)@ == old(out)@ + ser_entries(entries_of(m@)),
    decreases *m,
{
    let mut i: usize = 0;
    proof {
        lemma_entries_of(m@);
    }
    while i < m.len()
        invariant
            i <= m.len(),
            entries_of(m@).len() == m@.len(),
            forall|j: int|
                0 <= j < m@.len() ==> entries_of(m@)[j] == (m@[j].0@, doc_of(m@[j].1)),
            out@ == old(out)@ + ser_entries(entries_of(m@).take(i as int)),
        decreases m.len() - i,
    {
        if i > 0 {
            out.push(B_COMMA);
        }
        out.push(B_QUOTE);
        append_bytes(out, &m[i].0);
        out.push(B_QUOTE);
        out.push(B_COLON);
        proof {
            assert(decreases_to!(*m => m@));
            assert(decreases_to!(m@ => m@[i as int]));
            assert(decreases_to!(m@[i as int] => m@[i as int].1));
        }
        write_event(&m[i].1, out);
        proof {
            let pre = entries_of(m@).take(i as int);
            lemma_ser_entries_snoc(pre, entries_of(m@)[i as int]);
            assert(entries_of(m@).take(i + 1 as int) =~= pre.push(entries_of(m@)[i as int]));
            assert(ser_entries(seq![entries_of(m@)[i as int]]) == ser_entry(
                entries_of(m@)[i as int],
            ));
            assert(out@ =~= old(out)@ + ser_entries(entries_of(m@).take(i + 1 as int)));
        }
        i = i + 1;
    }
    proof {
        assert(entries_of(m@).take(entries_of(m@).len() as int) =~= entries_of(m@));
    }
}

/// Append every byte of `src` to `out`.
pub(crate) fn append_bytes(out: &mut Vec<u8>, src: &Vec<u8>)
    ensures
        final(out)@ == old(out)@ + src@,
{
    let mut i: usize = 0;
    while i < src.len()
        invariant
            i <= src.len(),
            out@ =~= old(out)@ + src@.take(i as int),
        decreases src.len() - i,
    {
        out.push(src[i]);
        proof {
            assert(out@ =~= old(out)@ + src@.take(i + 1 as int));
        }
        i = i + 1;
    }
    proof {
        assert(old(out)@ + src@.take(src@.len() as int) =~= old(out)@ + src@);
    }
}

/// The canonical frame for an event.
pub fn event_to_bytes(e: &Event) -> (r: Vec<u8>)
    ensures
        r@ == ser(e@),
{
    let mut out: Vec<u8> = Vec::new();
    write_event(e, &mut out);
    proof {
        assert(Seq::<u8>::empty() + ser(e@) =~= ser(e@));
    }
    out
}

/// The escaped string-body form of one raw byte: quote and backslash get
/// a backslash escape, control bytes a `\u00XX` escape, all else passes
/// through.
pub open spec fn esc_byte(b: u8) -> Seq<u8> {
    if b == B_QUOTE {
        seq![B_BACKSLASH, B_QUOTE]
    } else if b == B_BACKSLASH {
        seq![B_BACKSLASH, B_BACKSLASH]
    } else if b < 0x20 {
        seq![B_BACKSLASH, 0x75u8, 0x30u8, 0x30u8, crate::urlenc::hex_digit(b / 16), crate::urlenc::hex_digit(b % 16)]
    } else {
        seq![b]
    }
}

/// The escaped string-body form of a raw byte sequence, byte by byte.
pub open spec fn esc(bs: Seq<u8>) -> Seq<u8>
    decreases bs.len(),
{
    if bs.len() == 0 {
        Seq::empty()
    } else {
        esc_byte(bs[0]) + esc(bs.subrange(1, bs.len() as int))
    }
}

/// Appending one more byte to an escaped body.
proof fn lemma_esc_snoc(bs: Seq<u8>, b: u8)
    ensures
        esc(bs.push(b)) == esc(bs) + esc_byte(b),
    decreases bs.len(),
{
    let s = bs.push(b);
    if bs.len() == 0 {
        assert(s[0] == b);
        assert(s.subrange(1, s.len() as int) =~= Seq::<u8>::empty());
        assert(esc(Seq::<u8>::empty()) == Seq::<u8>::empty());
        assert(esc(s) =~= esc(bs) + esc_byte(b));
    } else {
        assert(s[0] == bs[0]);
        assert(s.subrange(1, s.len() as int) =~= bs.subrange(1, bs.len() as int).push(b));
        lemma_esc_snoc(bs.subrange(1, bs.len() as int), b);
        assert(esc(s) =~= esc(bs) + esc_byte(b));
    }
}

/// Escape raw bytes into a valid string body for a frame: the result can
/// stand between quotes in an encoded document.
pub fn escape_bytes(src: &[u8]) -> (r: Vec<u8>)
    ensures
        r@ == esc(src@),
{
    let mut r: Vec<u8> = Vec::new();
    let mut i: usize = 0;
    while i < src.len()
        invariant
            i <= src.len(),
            r@ == esc(src@.take(i as int)),
        decreases src.len() - i,
    {
        let b = src[i];
        if b == B_QUOTE {
            r.push(B_BACKSLASH);
            r.push(B_QUOTE);
        } else if b == B_BACKSLASH {
            r.push(B_BACKSLASH);
            r.push(B_BACKSLASH);
        } else if b < 0x20 {
            r.push(B_BACKSLASH);
            r.push(0x75);
            r.push(0x30);
            r.push(0x30);
            r.push(crate::urlenc::hex_digit_exec(b / 16));
            r.push(crate::urlenc::hex_digit_exec(b % 16));
        } else {
            r.push(b);
        }
        proof {
            lemma_esc_snoc(src@.take(i as int), b);
            assert(src@.take(i + 1 as int) =~= src@.take(i as int).push(b));
            assert(r@ =~= esc(src@.take(i as int)) + esc_byte(b));
        }
        i = i + 1;
    }
    proof {
        assert(src@.take(src@.len() as int) =~= src@);
    }
    r
}

} // verus!
