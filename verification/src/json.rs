//! Scanner for the JSON object frames the exchange feeds send.
//!
//! A frame is accepted when it is a single JSON object: optional
//! whitespace, `{`, string-keyed members, `}`, optional whitespace, end.
//! Member values may be strings, numbers, literals (`true`, `false`,
//! `null`), or nested objects and arrays.  The scanner returns the
//! top-level members in order; string values are returned as their raw
//! bytes (escape sequences are kept verbatim, two bytes each), every
//! other value shape is reported as [`FrameField::Composite`].  Anything
//! outside this grammar is malformed, which downstream decoding treats
//! as a dropped frame, never as a connection-ending error.

use vstd::prelude::*;

verus! {

/// Whitespace accepted between JSON tokens: space, tab, LF, CR.
pub open spec fn is_json_ws(b: u8) -> bool {
    b == 32 || b == 9 || b == 10 || b == 13
}

/// A byte that may appear in an unquoted scalar token: digits, letters,
/// `+`, `-`, `.`.  This covers numbers (including exponents) and the
/// literals `true`, `false` and `null`; the token's spelling is not
/// validated further, since non-string values are never examined — the
/// scanner only needs their extent.
pub open spec fn is_prim_byte(b: u8) -> bool {
    (48 <= b && b <= 57) || (97 <= b && b <= 122) || (65 <= b && b <= 90) || b == 43 || b == 45
        || b == 46
}

/// A top-level member value as the decoders see it: the raw bytes of a
/// string value, or an unexamined value of any other shape.
pub enum SpecField {
    Text(Seq<u8>),
    Composite,
}

/// Executable counterpart of [`SpecField`].
#[derive(Clone, Debug, PartialEq, Eq)]
pub enum FrameField {
    Text(Vec<u8>),
    Composite,
}

impl View for FrameField {
    type V = SpecField;

    open spec fn view(&self) -> SpecField {
        match *self {
            FrameField::Text(ref v) => SpecField::Text(v@),
            FrameField::Composite => SpecField::Composite,
        }
    }
}

/// The members of a parsed frame, as the specification sees them.
pub open spec fn fields_view(fs: Seq<(Vec<u8>, FrameField)>) -> Seq<(Seq<u8>, SpecField)> {
    fs.map_values(|p: (Vec<u8>, FrameField)| (p.0@, p.1@))
}

/// The first position at or after `i` holding a non-whitespace byte (or
/// the end of the input).
pub open spec fn skip_ws(s: Seq<u8>, i: int) -> int
    decreases s.len() - i,
{
    if 0 <= i && i < s.len() && is_json_ws(s[i]) {
        skip_ws(s, i + 1)
    } else {
        i
    }
}

/// Scans a string body starting just after the opening quote at
/// `i - 1`: returns the raw content bytes and the position just after
/// the closing quote.  A backslash escapes the following byte; both
/// bytes are kept verbatim in the content.
pub open spec fn scan_string(s: Seq<u8>, i: int) -> Option<(Seq<u8>, int)>
    decreases s.len() - i,
{
    if i < 0 || i >= s.len() {
        None
    } else if s[i] == 34 {  // closing quote
        Some((Seq::empty(), i + 1))
    } else if s[i] == 92 {  // backslash: keep the escape pair
        if i + 1 < s.len() {
            match scan_string(s, i + 2) {
                None => None,
                Some((c, j)) => Some((seq![s[i], s[i + 1]] + c, j)),
            }
        } else {
            None
        }
    } else {
        match scan_string(s, i + 1) {
            None => None,
            Some((c, j)) => Some((seq![s[i]] + c, j)),
        }
    }
}

/// The end of the run of scalar-token bytes starting at `i`.
pub open spec fn skip_prim(s: Seq<u8>, i: int) -> int
    decreases s.len() - i,
{
    if 0 <= i && i < s.len() && is_prim_byte(s[i]) {
        skip_prim(s, i + 1)
    } else {
        i
    }
}

/// The position just after the complete JSON value starting at `i`
/// (which must not be whitespace), or `None` if no value of the grammar
/// starts there.
pub open spec fn skip_value(s: Seq<u8>, i: int) -> Option<int>
    decreases s.len() - i, 0int,
{
    if i < 0 || i >= s.len() {
        None
    } else if s[i] == 34 {  // string
        match scan_string(s, i + 1) {
            None => None,
            Some((c, j)) => Some(j),
        }
    } else if s[i] == 123 {  // '{'
        skip_object_body(s, i + 1)
    } else if s[i] == 91 {  // '['
        skip_array_body(s, i + 1)
    } else if is_prim_byte(s[i]) {
        Some(skip_prim(s, i + 1))
    } else {
        None
    }
}

/// The position just after the `}` closing an object whose `{` stood at
/// `i - 1`.
pub open spec fn skip_object_body(s: Seq<u8>, i: int) -> Option<int>
    decreases s.len() - i, 1int,
{
    let j = skip_ws(s, i);
    if j >= s.len() {
        None
    } else if s[j] == 125 {  // '}'
        Some(j + 1)
    } else if j < i {
        None
    } else {
        match parse_pairs(s, j) {
            None => None,
            Some((fs, k)) => if k < s.len() && s[k] == 125 {
                Some(k + 1)
            } else {
                None
            },
        }
    }
}

/// The position just after the `]` closing an array whose `[` stood at
/// `i - 1`.
pub open spec fn skip_array_body(s: Seq<u8>, i: int) -> Option<int>
    decreases s.len() - i, 2int,
{
    let j = skip_ws(s, i);
    if j >= s.len() {
        None
    } else if s[j] == 93 {  // ']'
        Some(j + 1)
    } else if j < i {
        None
    } else {
        skip_elems(s, j)
    }
}

/// Scans array elements starting at the element at `i`; returns the
/// position just after the closing `]`.
pub open spec fn skip_elems(s: Seq<u8>, i: int) -> Option<int>
    decreases s.len() - i, 1int,
{
    match skip_value(s, i) {
        None => None,
        Some(k) => {
            let k2 = skip_ws(s, k);
            if k2 >= s.len() {
                None
            } else if s[k2] == 93 {  // ']'
                Some(k2 + 1)
            } else if s[k2] == 44 {  // ','
                let m = skip_ws(s, k2 + 1);
                if m <= i || m > s.len() {
                    None
                } else {
                    skip_elems(s, m)
                }
            } else {
                None
            }
        },
    }
}

/// Parses the member list of an object starting at the opening quote of
/// a key at `i`: returns the members and the position of the byte that
/// ended the list (expected to be the closing `}`).
pub open spec fn parse_pairs(s: Seq<u8>, i: int) -> Option<(Seq<(Seq<u8>, SpecField)>, int)>
    decreases s.len() - i, 0int,
{
    if i < 0 || i >= s.len() || s[i] != 34 {
        None
    } else {
        match scan_string(s, i + 1) {
            None => None,
            Some((key, j)) => {
                let j2 = skip_ws(s, j);
                if j2 >= s.len() || s[j2] != 58 {  // ':'
                    None
                } else {
                    let v = skip_ws(s, j2 + 1);
                    if v <= i || v > s.len() {
                        None
                    } else {
                        let fv = if v < s.len() && s[v] == 34 {
                            match scan_string(s, v + 1) {
                                None => None,
                                Some((c, k)) => Some((SpecField::Text(c), k)),
                            }
                        } else {
                            match skip_value(s, v) {
                                None => None,
                                Some(k) => Some((SpecField::Composite, k)),
                            }
                        };
                        match fv {
                            None => None,
                            Some((field, k)) => {
                                let k2 = skip_ws(s, k);
                                if k2 >= s.len() {
                                    None
                                } else if s[k2] == 44 {  // ','
                                    let n = skip_ws(s, k2 + 1);
                                    if n <= i || n > s.len() {
                                        None
                                    } else {
                                        match parse_pairs(s, n) {
                                            None => None,
                                            Some((rest, end)) => Some(
                                                (seq![(key, field)] + rest, end),
                                            ),
                                        }
                                    }
                                } else {
                                    Some((seq![(key, field)], k2))
                                }
                            },
                        }
                    }
                }
            },
        }
    }
}

/// Parses a whole frame: one JSON object, surrounded by nothing but
/// whitespace.  Returns the top-level members in order, or `None` if the
/// frame is malformed.
pub open spec fn parse_frame(s: Seq<u8>) -> Option<Seq<(Seq<u8>, SpecField)>> {
    let i = skip_ws(s, 0);
    if i >= s.len() || s[i] != 123 {
        None
    } else {
        let j = skip_ws(s, i + 1);
        if j >= s.len() {
            None
        } else if s[j] == 125 {
            if skip_ws(s, j + 1) == s.len() {
                Some(Seq::empty())
            } else {
                None
            }
        } else {
            match parse_pairs(s, j) {
                None => None,
                Some((fs, k)) => if k < s.len() && s[k] == 125 && skip_ws(s, k + 1) == s.len() {
                    Some(fs)
                } else {
                    None
                },
            }
        }
    }
}

/// Executable whitespace skip.
fn skip_ws_e(s: &Vec<u8>, i: usize) -> (r: usize)
    requires
        i <= s@.len(),
    ensures
        r == skip_ws(s@, i as int),
        i <= r <= s@.len(),
{
    let mut cur: usize = i;
    loop
        invariant
            i <= cur <= s@.len(),
            skip_ws(s@, i as int) == skip_ws(s@, cur as int),
        decreases s@.len() - cur,
    {
        if cur == s.len() {
            return cur;
        }
        let b = s[cur];
        if b == 32 || b == 9 || b == 10 || b == 13 {
            cur += 1;
        } else {
            return cur;
        }
    }
}

/// Executable scalar-token skip.
fn skip_prim_e(s: &Vec<u8>, i: usize) -> (r: usize)
    requires
        i <= s@.len(),
    ensures
        r == skip_prim(s@, i as int),
        i <= r <= s@.len(),
{
    let mut cur: usize = i;
    loop
        invariant
            i <= cur <= s@.len(),
            skip_prim(s@, i as int) == skip_prim(s@, cur as int),
        decreases s@.len() - cur,
    {
        if cur == s.len() {
            return cur;
        }
        let b = s[cur];
        if (48 <= b && b <= 57) || (97 <= b && b <= 122) || (65 <= b && b <= 90) || b == 43
            || b == 45 || b == 46 {
            cur += 1;
        } else {
            return cur;
        }
    }
}

/// Executable string-body scan.
fn scan_string_e(s: &Vec<u8>, start: usize) -> (r: Option<(Vec<u8>, usize)>)
    requires
        start <= s@.len(),
    ensures
        match r {
            None => scan_string(s@, start as int) is None,
            Some(p) => scan_string(s@, start as int) == Some((p.0@, p.1 as int)) && start < p.1
                <= s@.len(),
        },
{
    let mut cur: usize = start;
    let mut content: Vec<u8> = Vec::new();
    loop
        invariant
            start <= cur <= s@.len(),
            (match scan_string(s@, cur as int) {
                None => scan_string(s@, start as int) is None,
                Some(p) => scan_string(s@, start as int) == Some((content@ + p.0, p.1)),
            }),
        decreases s@.len() - cur,
    {
        if cur == s.len() {
            return None;
        }
        let b = s[cur];
        if b == 34 {
            proof {
                assert(scan_string(s@, cur as int) == Some(
                    (Seq::<u8>::empty(), cur + 1 as int),
                ));
                assert(content@ + Seq::<u8>::empty() =~= content@);
            }
            return Some((content, cur + 1));
        } else if b == 92 {
            if cur + 1 < s.len() {
                let b2 = s[cur + 1];
                proof {
                    let rec = scan_string(s@, cur as int + 2);
                    match rec {
                        None => {},
                        Some((c2, j)) => {
                            assert(scan_string(s@, cur as int) == Some((seq![b, b2] + c2, j)));
                            assert(content@ + (seq![b, b2] + c2) =~= (content@ + seq![b, b2])
                                + c2);
                            assert(content@.push(b).push(b2) =~= content@ + seq![b, b2]);
                        },
                    }
                }
                content.push(b);
                content.push(b2);
                cur += 2;
            } else {
                return None;
            }
        } else {
            proof {
                let rec = scan_string(s@, cur as int + 1);
                match rec {
                    None => {},
                    Some((c2, j)) => {
                        assert(scan_string(s@, cur as int) == Some((seq![b] + c2, j)));
                        assert(content@ + (seq![b] + c2) =~= content@.push(b) + c2);
                    },
                }
            }
            content.push(b);
            cur += 1;
        }
    }
}

/// Executable value skip.
fn skip_value_e(s: &Vec<u8>, i: usize) -> (r: Option<usize>)
    requires
        i <= s@.len(),
    ensures
        match r {
            None => skip_value(s@, i as int) is None,
            Some(j) => skip_value(s@, i as int) == Some(j as int) && i < j <= s@.len(),
        },
    decreases s@.len() - i, 0int,
{
    if i == s.len() {
        return None;
    }
    let b = s[i];
    if b == 34 {
        match scan_string_e(s, i + 1) {
            None => None,
            Some((_c, j)) => Some(j),
        }
    } else if b == 123 {
        skip_object_body_e(s, i + 1)
    } else if b == 91 {
        skip_array_body_e(s, i + 1)
    } else if (48 <= b && b <= 57) || (97 <= b && b <= 122) || (65 <= b && b <= 90) || b == 43
        || b == 45 || b == 46 {
        let j = skip_prim_e(s, i + 1);
        Some(j)
    } else {
        None
    }
}

/// Executable object-body skip (after the opening `{`).
fn skip_object_body_e(s: &Vec<u8>, i: usize) -> (r: Option<usize>)
    requires
        i <= s@.len(),
    ensures
        match r {
            None => skip_object_body(s@, i as int) is None,
            Some(j) => skip_object_body(s@, i as int) == Some(j as int) && i < j <= s@.len(),
        },
    decreases s@.len() - i, 1int,
{
    let j = skip_ws_e(s, i);
    if j == s.len() {
        return None;
    }
    if s[j] == 125 {
        return Some(j + 1);
    }
    match parse_pairs_e(s, j) {
        None => None,
        Some((_fs, k)) => {
            if k < s.len() {
                if s[k] == 125 {
                    Some(k + 1)
                } else {
                    None
                }
            } else {
                None
            }
        },
    }
}

/// Executable array-body skip (after the opening `[`).
fn skip_array_body_e(s: &Vec<u8>, i: usize) -> (r: Option<usize>)
    requires
        i <= s@.len(),
    ensures
        match r {
            None => skip_array_body(s@, i as int) is None,
            Some(j) => skip_array_body(s@, i as int) == Some(j as int) && i < j <= s@.len(),
        },
    decreases s@.len() - i, 2int,
{
    let j = skip_ws_e(s, i);
    if j == s.len() {
        return None;
    }
    if s[j] == 93 {
        return Some(j + 1);
    }
    skip_elems_e(s, j)
}

/// Executable array-element scan.
fn skip_elems_e(s: &Vec<u8>, i: usize) -> (r: Option<usize>)
    requires
        i <= s@.len(),
    ensures
        match r {
            None => skip_elems(s@, i as int) is None,
            Some(j) => skip_elems(s@, i as int) == Some(j as int) && i < j <= s@.len(),
        },
    decreases s@.len() - i, 1int,
{
    match skip_value_e(s, i) {
        None => None,
        Some(k) => {
            let k2 = skip_ws_e(s, k);
            if k2 == s.len() {
                return None;
            }
            if s[k2] == 93 {
                Some(k2 + 1)
            } else if s[k2] == 44 {
                let m = skip_ws_e(s, k2 + 1);
                skip_elems_e(s, m)
            } else {
                None
            }
        },
    }
}

/// Executable member-list parse.
fn parse_pairs_e(s: &Vec<u8>, i: usize) -> (r: Option<(Vec<(Vec<u8>, FrameField)>, usize)>)
    requires
        i <= s@.len(),
    ensures
        match r {
            None => parse_pairs(s@, i as int) is None,
            Some(p) => parse_pairs(s@, i as int) == Some((fields_view(p.0@), p.1 as int)) && i
                < p.1 <= s@.len(),
        },
    decreases s@.len() - i, 0int,
{
    if i == s.len() {
        return None;
    }
    if s[i] != 34 {
        return None;
    }
    let (key, j) = match scan_string_e(s, i + 1) {
        None => {
            return None;
        },
        Some(p) => p,
    };
    let j2 = skip_ws_e(s, j);
    if j2 == s.len() {
        return None;
    }
    if s[j2] != 58 {
        return None;
    }
    let v = skip_ws_e(s, j2 + 1);
    let field: FrameField;
    let k: usize;
    if v < s.len() && s[v] == 34 {
        match scan_string_e(s, v + 1) {
            None => {
                return None;
            },
            Some((c, kk)) => {
                field = FrameField::Text(c);
                k = kk;
            },
        }
    } else {
        match skip_value_e(s, v) {
            None => {
                return None;
            },
            Some(kk) => {
                field = FrameField::Composite;
                k = kk;
            },
        }
    }
    let ghost key_v: Seq<u8> = key@;
    let ghost field_v: SpecField = field@;
    let k2 = skip_ws_e(s, k);
    if k2 == s.len() {
        return None;
    }
    if s[k2] == 44 {
        let n = skip_ws_e(s, k2 + 1);
        match parse_pairs_e(s, n) {
            None => None,
            Some((rest, end)) => {
                let ghost rest_v: Seq<(Seq<u8>, SpecField)> = fields_view(rest@);
                let mut out: Vec<(Vec<u8>, FrameField)> = Vec::new();
                out.push((key, field));
                let mut rest = rest;
                out.append(&mut rest);
                proof {
                    assert(fields_view(out@) =~= seq![(key_v, field_v)] + rest_v);
                }
                Some((out, end))
            },
        }
    } else {
        let mut out: Vec<(Vec<u8>, FrameField)> = Vec::new();
        out.push((key, field));
        proof {
            assert(fields_view(out@) =~= seq![(key_v, field_v)]);
        }
        Some((out, k2))
    }
}

/// Parses a frame into its top-level members, or `None` if the frame is
/// not a single well-formed JSON object.
pub fn parse_frame_e(s: &Vec<u8>) -> (r: Option<Vec<(Vec<u8>, FrameField)>>)
    ensures
        match r {
            None => parse_frame(s@) is None,
            Some(fs) => parse_frame(s@) == Some(fields_view(fs@)),
        },
{
    let i = skip_ws_e(s, 0);
    if i == s.len() {
        return None;
    }
    if s[i] != 123 {
        return None;
    }
    let j = skip_ws_e(s, i + 1);
    if j == s.len() {
        return None;
    }
    if s[j] == 125 {
        let e = skip_ws_e(s, j + 1);
        if e == s.len() {
            let out: Vec<(Vec<u8>, FrameField)> = Vec::new();
            proof {
                assert(fields_view(out@) =~= Seq::<(Seq<u8>, SpecField)>::empty());
            }
            return Some(out);
        } else {
            return None;
        }
    }
    match parse_pairs_e(s, j) {
        None => None,
        Some((fs, k)) => {
            if k < s.len() {
                if s[k] == 125 {
                    let e = skip_ws_e(s, k + 1);
                    if e == s.len() {
                        Some(fs)
                    } else {
                        None
                    }
                } else {
                    None
                }
            } else {
                None
            }
        },
    }
}

} // verus!
