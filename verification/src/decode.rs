//! Wire decoders: from a raw text frame to a canonical [`PriceUpdate`]
//! or the signal that the frame carries no price.
//!
//! A Binance ticker frame is a JSON object whose `c` member (the current
//! price) is a decimal string; the update's symbol is the upper-cased
//! subscription symbol.  A Coinbase frame carries a price only when its
//! `type` member is `ticker`; the `product_id` member (default
//! `unknown` when absent or not a string) becomes the canonical symbol
//! by dropping the `-` separator.  Malformed frames are reported as
//! [`DecodeOutcome::Malformed`] and dropped; valid JSON that is not a
//! price frame — or whose price is not a plain decimal that fits the
//! price type — is ignored.  Neither case ever terminates a connection.

use vstd::prelude::*;
use crate::bytes::{ascii_bytes, bytes_eq, lit_bytes, spec_strip_dashes, spec_upper_ascii,
    strip_dashes, upper_ascii};
use crate::json::{FrameField, SpecField, fields_view, parse_frame, parse_frame_e};
use crate::models::{ExchangeId, Price, PriceUpdate};

verus! {

/// What looking a key up among a frame's members can yield.
pub enum Lookup {
    /// No member has the key.
    Absent,
    /// The first member with the key holds a non-string value.
    NonText,
    /// The first member with the key holds this string value.
    Text(Seq<u8>),
}

/// Looks `key` up among the members, first occurrence first.
pub open spec fn field_of(fs: Seq<(Seq<u8>, SpecField)>, key: Seq<u8>) -> Lookup
    decreases fs.len(),
{
    if fs.len() == 0 {
        Lookup::Absent
    } else if fs[0].0 == key {
        match fs[0].1 {
            SpecField::Text(t) => Lookup::Text(t),
            SpecField::Composite => Lookup::NonText,
        }
    } else {
        field_of(fs.drop_first(), key)
    }
}

/// Finds the first member whose key is `key`, returning its index.
fn find_field(fs: &Vec<(Vec<u8>, FrameField)>, key: &Vec<u8>) -> (r: Option<usize>)
    ensures
        match r {
            None => field_of(fields_view(fs@), key@) is Absent,
            Some(idx) => idx < fs@.len() && fs@[idx as int].0@ == key@ && (
                match fs@[idx as int].1@ {
                    SpecField::Text(t) => field_of(fields_view(fs@), key@) == Lookup::Text(t),
                    SpecField::Composite => field_of(fields_view(fs@), key@) is NonText,
                }),
        },
{
    proof {
        assert(fields_view(fs@).skip(0) =~= fields_view(fs@));
    }
    let mut i: usize = 0;
    while i < fs.len()
        invariant
            i <= fs@.len(),
            field_of(fields_view(fs@), key@) == field_of(
                fields_view(fs@).skip(i as int),
                key@,
            ),
        decreases fs@.len() - i,
    {
        if bytes_eq(&fs[i].0, key) {
            proof {
                assert(fields_view(fs@).skip(i as int)[0]
                    == (fs@[i as int].0@, fs@[i as int].1@));
            }
            return Some(i);
        }
        proof {
            assert(fields_view(fs@).skip(i as int)[0] == (fs@[i as int].0@, fs@[i as int].1@));
            assert(fields_view(fs@).skip(i as int).drop_first() =~= fields_view(fs@).skip(
                i as int + 1,
            ));
        }
        i += 1;
    }
    proof {
        assert(fields_view(fs@).skip(i as int) =~= Seq::<(Seq<u8>, SpecField)>::empty());
    }
    None
}

/// Whether every byte of `s` is a decimal digit.
pub open spec fn all_digits(s: Seq<u8>) -> bool {
    forall|i: int| 0 <= i < s.len() ==> 48 <= #[trigger] s[i] <= 57
}

/// The integer value of a digit string (most significant digit first).
pub open spec fn digits_val(s: Seq<u8>) -> int
    decreases s.len(),
{
    if s.len() == 0 {
        0
    } else {
        digits_val(s.drop_last()) * 10 + (s.last() - 48)
    }
}

/// The position of the first `.` in `s` at or after `i`.
pub open spec fn first_dot(s: Seq<u8>, i: int) -> Option<int>
    decreases s.len() - i,
{
    if i < 0 || i >= s.len() {
        None
    } else if s[i] == 46 {
        Some(i)
    } else {
        first_dot(s, i + 1)
    }
}

/// The price a quoted decimal string denotes: `digits` or
/// `digits.digits`, where all digits (with the point removed) must fit
/// in the mantissa.  Anything else — empty parts, other characters, a
/// second point, too many digits — is not a price.
pub open spec fn spec_parse_price(s: Seq<u8>) -> Option<Price> {
    match first_dot(s, 0) {
        None => if s.len() > 0 && all_digits(s) && digits_val(s) <= u64::MAX as int {
            Some(Price { mantissa: digits_val(s) as u64, scale: 0 })
        } else {
            None
        },
        Some(k) => {
            let ip = s.subrange(0, k);
            let fp = s.subrange(k + 1, s.len() as int);
            if ip.len() > 0 && fp.len() > 0 && all_digits(ip) && all_digits(fp) && digits_val(
                ip + fp,
            ) <= u64::MAX as int && fp.len() <= u32::MAX as nat {
                Some(
                    Price {
                        mantissa: digits_val(ip + fp) as u64,
                        scale: fp.len() as u32,
                    },
                )
            } else {
                None
            }
        },
    }
}

/// A digit string's value is never negative.
proof fn lemma_digits_val_nonneg(s: Seq<u8>)
    requires
        all_digits(s),
    ensures
        digits_val(s) >= 0,
    decreases s.len(),
{
    if s.len() > 0 {
        assert(all_digits(s.drop_last()));
        lemma_digits_val_nonneg(s.drop_last());
    }
}

/// Extending a digit string never shrinks its value.
proof fn lemma_digits_val_prefix(s: Seq<u8>, i: int)
    requires
        all_digits(s),
        0 <= i <= s.len(),
    ensures
        digits_val(s.subrange(0, i)) <= digits_val(s),
    decreases s.len() - i,
{
    if i < s.len() {
        let a = s.subrange(0, i);
        let b = s.subrange(0, i + 1);
        assert(b.drop_last() =~= a);
        assert(all_digits(a));
        lemma_digits_val_nonneg(a);
        assert(digits_val(b) == digits_val(a) * 10 + (b.last() - 48));
        lemma_digits_val_prefix(s, i + 1);
    } else {
        assert(s.subrange(0, i) =~= s);
    }
}

/// The position of the first `.` in `s`, if any.
fn find_dot(s: &Vec<u8>) -> (r: Option<usize>)
    ensures
        match r {
            None => first_dot(s@, 0) is None,
            Some(k) => first_dot(s@, 0) == Some(k as int) && k < s@.len() && s@[k as int] == 46,
        },
{
    let mut cur: usize = 0;
    while cur < s.len()
        invariant
            cur <= s@.len(),
            first_dot(s@, 0) == first_dot(s@, cur as int),
        decreases s@.len() - cur,
    {
        if s[cur] == 46 {
            return Some(cur);
        }
        cur += 1;
    }
    None
}

/// Parses a quoted decimal price string into an exact [`Price`].
pub fn parse_price(s: &Vec<u8>) -> (r: Option<Price>)
    ensures
        r == spec_parse_price(s@),
{
    let n = s.len();
    let dot = find_dot(s);
    // Collect the digits (everything but the point) and check them.
    let mut d: Vec<u8> = Vec::new();
    let scale: u32;
    match dot {
        None => {
            if n == 0 {
                return None;
            }
            let mut i: usize = 0;
            while i < n
                invariant
                    i <= n,
                    n == s@.len(),
                    first_dot(s@, 0) is None,
                    forall|j: int| 0 <= j < i ==> 48 <= #[trigger] s@[j] <= 57,
                    d@ == s@.subrange(0, i as int),
                decreases n - i,
            {
                let b = s[i];
                if b < 48 || b > 57 {
                    proof {
                        assert(!all_digits(s@));
                    }
                    return None;
                }
                d.push(b);
                proof {
                    assert(d@ =~= s@.subrange(0, i + 1 as int));
                }
                i += 1;
            }
            scale = 0;
            proof {
                assert(d@ =~= s@);
                assert(all_digits(d@));
                assert(spec_parse_price(s@) == (if digits_val(d@) <= u64::MAX as int {
                    Some(Price { mantissa: digits_val(d@) as u64, scale })
                } else {
                    None::<Price>
                }));
            }
        },
        Some(k) => {
            if k == 0 || k + 1 == n {
                // Empty integer or fractional part.
                return None;
            }
            if n - 1 - k > u32::MAX as usize {
                proof {
                    let fp = s@.subrange(k as int + 1, n as int);
                    assert(fp.len() > u32::MAX as nat);
                }
                return None;
            }
            scale = (n - 1 - k) as u32;
            let ghost ip: Seq<u8> = s@.subrange(0, k as int);
            let ghost fp: Seq<u8> = s@.subrange(k as int + 1, n as int);
            let mut i: usize = 0;
            while i < n
                invariant
                    i <= n,
                    n == s@.len(),
                    0 < k < n,
                    k + 1 < n,
                    first_dot(s@, 0) == Some(k as int),
                    s@[k as int] == 46,
                    ip == s@.subrange(0, k as int),
                    fp == s@.subrange(k as int + 1, n as int),
                    forall|j: int| 0 <= j < i && j != k ==> 48 <= #[trigger] s@[j] <= 57,
                    d@ == (if i <= k {
                        s@.subrange(0, i as int)
                    } else {
                        ip + s@.subrange(k as int + 1, i as int)
                    }),
                decreases n - i,
            {
                if i == k {
                    proof {
                        assert(s@.subrange(k as int + 1, k as int + 1) =~= Seq::<u8>::empty());
                        assert(d@ =~= ip + s@.subrange(k as int + 1, i + 1 as int));
                    }
                    i += 1;
                } else {
                    let b = s[i];
                    if b < 48 || b > 57 {
                        proof {
                            if i < k {
                                assert(ip[i as int] == s@[i as int]);
                                assert(!all_digits(ip));
                            } else {
                                assert(fp[i - (k + 1) as int] == s@[i as int]);
                                assert(!all_digits(fp));
                            }
                        }
                        return None;
                    }
                    d.push(b);
                    proof {
                        if i < k {
                            assert(d@ =~= s@.subrange(0, i + 1 as int));
                        } else {
                            assert(s@.subrange(k as int + 1, i + 1 as int) =~= s@.subrange(
                                k as int + 1,
                                i as int,
                            ).push(s@[i as int]));
                            assert(d@ =~= ip + s@.subrange(k as int + 1, i + 1 as int));
                        }
                    }
                    i += 1;
                }
            }
            proof {
                assert(d@ == ip + fp);
                assert forall|j: int| 0 <= j < ip.len() implies 48 <= #[trigger] ip[j] <= 57 by {
                    assert(ip[j] == s@[j]);
                }
                assert forall|j: int| 0 <= j < fp.len() implies 48 <= #[trigger] fp[j] <= 57 by {
                    assert(fp[j] == s@[k as int + 1 + j]);
                }
                assert forall|j: int| 0 <= j < d@.len() implies 48 <= #[trigger] d@[j] <= 57 by {
                    if j < ip.len() {
                        assert(d@[j] == ip[j]);
                    } else {
                        assert(d@[j] == fp[j - ip.len()]);
                    }
                }
                assert(all_digits(d@));
                assert(spec_parse_price(s@) == (if digits_val(d@) <= u64::MAX as int {
                    Some(Price { mantissa: digits_val(d@) as u64, scale })
                } else {
                    None::<Price>
                }));
            }
        },
    }
    // Accumulate the mantissa, rejecting values that overflow it.
    let mut m: u64 = 0;
    let mut i: usize = 0;
    while i < d.len()
        invariant
            i <= d@.len(),
            all_digits(d@),
            m == digits_val(d@.subrange(0, i as int)),
            spec_parse_price(s@) == (if digits_val(d@) <= u64::MAX as int {
                Some(Price { mantissa: digits_val(d@) as u64, scale })
            } else {
                None::<Price>
            }),
        decreases d@.len() - i,
    {
        let b = d[i];
        proof {
            assert(d@.subrange(0, i + 1 as int).drop_last() =~= d@.subrange(0, i as int));
            assert(d@.subrange(0, i + 1 as int).last() == d@[i as int]);
            lemma_digits_val_nonneg(d@.subrange(0, i as int));
        }
        let m10 = match m.checked_mul(10) {
            Some(x) => x,
            None => {
                proof {
                    lemma_digits_val_prefix(d@, i + 1 as int);
                }
                return None;
            },
        };
        let m2 = match m10.checked_add((b - 48) as u64) {
            Some(x) => x,
            None => {
                proof {
                    lemma_digits_val_prefix(d@, i + 1 as int);
                }
                return None;
            },
        };
        m = m2;
        i += 1;
    }
    proof {
        assert(d@.subrange(0, d@.len() as int) =~= d@);
    }
    Some(Price { mantissa: m, scale })
}

/// The decoding outcome of one frame, as the specification sees it.
pub enum SpecOutcome {
    Update { symbol: Seq<u8>, price: Price, source: ExchangeId },
    Ignored,
    Malformed,
}

/// The decoding outcome of one frame: a canonical update, a valid frame
/// that carries no price (ignored), or a malformed frame (dropped).
#[derive(Clone, Debug, PartialEq, Eq)]
pub enum DecodeOutcome {
    Update(PriceUpdate),
    Ignored,
    Malformed,
}

impl View for DecodeOutcome {
    type V = SpecOutcome;

    open spec fn view(&self) -> SpecOutcome {
        match *self {
            DecodeOutcome::Update(ref u) => SpecOutcome::Update {
                symbol: u.symbol@,
                price: u.price,
                source: u.source,
            },
            DecodeOutcome::Ignored => SpecOutcome::Ignored,
            DecodeOutcome::Malformed => SpecOutcome::Malformed,
        }
    }
}

/// How a Binance ticker frame for the subscribed `sym` decodes: the
/// frame must be a JSON object; a price update exists exactly when its
/// `c` member is a string holding a decimal price, and the update's
/// symbol is the upper-cased subscription symbol.
pub open spec fn spec_decode_binance(sym: Seq<u8>, frame: Seq<u8>) -> SpecOutcome {
    match parse_frame(frame) {
        None => SpecOutcome::Malformed,
        Some(fs) => match field_of(fs, ascii_bytes("c"@)) {
            Lookup::Text(p) => match spec_parse_price(p) {
                Some(price) => SpecOutcome::Update {
                    symbol: spec_upper_ascii(sym),
                    price,
                    source: ExchangeId::Binance,
                },
                None => SpecOutcome::Ignored,
            },
            Lookup::Absent => SpecOutcome::Ignored,
            Lookup::NonText => SpecOutcome::Ignored,
        },
    }
}

/// How a Coinbase frame decodes: only objects whose `type` member is
/// the string `ticker` carry prices; the canonical symbol is the
/// `product_id` member (`unknown` when absent or not a string) with
/// every `-` removed, and the price comes from the `price` member.
pub open spec fn spec_decode_coinbase(frame: Seq<u8>) -> SpecOutcome {
    match parse_frame(frame) {
        None => SpecOutcome::Malformed,
        Some(fs) => if field_of(fs, ascii_bytes("type"@)) == Lookup::Text(
            ascii_bytes("ticker"@),
        ) {
            let pid = match field_of(fs, ascii_bytes("product_id"@)) {
                Lookup::Text(t) => t,
                Lookup::Absent => ascii_bytes("unknown"@),
                Lookup::NonText => ascii_bytes("unknown"@),
            };
            match field_of(fs, ascii_bytes("price"@)) {
                Lookup::Text(p) => match spec_parse_price(p) {
                    Some(price) => SpecOutcome::Update {
                        symbol: spec_strip_dashes(pid),
                        price,
                        source: ExchangeId::Coinbase,
                    },
                    None => SpecOutcome::Ignored,
                },
                Lookup::Absent => SpecOutcome::Ignored,
                Lookup::NonText => SpecOutcome::Ignored,
            }
        } else {
            SpecOutcome::Ignored
        },
    }
}

/// Decodes one Binance text frame received on the connection subscribed
/// to `symbol`.
pub fn decode_binance(symbol: &Vec<u8>, frame: &Vec<u8>) -> (r: DecodeOutcome)
    ensures
        r@ == spec_decode_binance(symbol@, frame@),
{
    proof {
        reveal_strlit("c");
    }
    let key = lit_bytes("c");
    match parse_frame_e(frame) {
        None => DecodeOutcome::Malformed,
        Some(fs) => match find_field(&fs, &key) {
            None => DecodeOutcome::Ignored,
            Some(idx) => match &fs[idx].1 {
                FrameField::Composite => DecodeOutcome::Ignored,
                FrameField::Text(p) => match parse_price(p) {
                    None => DecodeOutcome::Ignored,
                    Some(price) => DecodeOutcome::Update(
                        PriceUpdate {
                            symbol: upper_ascii(symbol),
                            price,
                            source: ExchangeId::Binance,
                        },
                    ),
                },
            },
        },
    }
}

/// Decodes one Coinbase text frame.
pub fn decode_coinbase(frame: &Vec<u8>) -> (r: DecodeOutcome)
    ensures
        r@ == spec_decode_coinbase(frame@),
{
    proof {
        reveal_strlit("type");
        reveal_strlit("ticker");
        reveal_strlit("product_id");
        reveal_strlit("price");
        reveal_strlit("unknown");
    }
    let type_key = lit_bytes("type");
    let ticker = lit_bytes("ticker");
    let pid_key = lit_bytes("product_id");
    let price_key = lit_bytes("price");
    let unknown = lit_bytes("unknown");
    match parse_frame_e(frame) {
        None => DecodeOutcome::Malformed,
        Some(fs) => {
            let is_ticker = match find_field(&fs, &type_key) {
                None => false,
                Some(idx) => match &fs[idx].1 {
                    FrameField::Composite => false,
                    FrameField::Text(t) => bytes_eq(t, &ticker),
                },
            };
            if !is_ticker {
                return DecodeOutcome::Ignored;
            }
            let pid: &Vec<u8> = match find_field(&fs, &pid_key) {
                None => &unknown,
                Some(idx) => match &fs[idx].1 {
                    FrameField::Composite => &unknown,
                    FrameField::Text(t) => t,
                },
            };
            let symbol = strip_dashes(pid);
            match find_field(&fs, &price_key) {
                None => DecodeOutcome::Ignored,
                Some(idx) => match &fs[idx].1 {
                    FrameField::Composite => DecodeOutcome::Ignored,
                    FrameField::Text(p) => match parse_price(p) {
                        None => DecodeOutcome::Ignored,
                        Some(price) => DecodeOutcome::Update(
                            PriceUpdate { symbol, price, source: ExchangeId::Coinbase },
                        ),
                    },
                },
            }
        },
    }
}

} // verus!
