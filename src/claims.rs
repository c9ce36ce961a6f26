//! The identity carried by a session token and the signed payload that holds
//! it: the subject string `"{id}:{name}"` and the compact JSON text of the
//! claims.
use vstd::prelude::*;

use crate::text::{
    all_digits, chars_of, decimal, digit_char, digits_value, is_digit, lemma_decimal_digits,
    push_chars, push_decimal, string_of_range,
};

verus! {

/// The character that separates id and name inside a subject.
pub const SUBJECT_SEPARATOR: char = ':';

/// An authenticated identity: an opaque unique id and a display name.
#[derive(Debug, Clone)]
pub struct Principal {
    pub id: String,
    pub name: String,
}

/// One half of a subject: not empty, and free of the separator.
pub open spec fn is_subject_part(s: Seq<char>) -> bool {
    &&& s.len() > 0
    &&& forall|i: int| 0 <= i < s.len() ==> s[i] != SUBJECT_SEPARATOR
}

/// The subject that names the identity `(id, name)`.
pub open spec fn subject_of(id: Seq<char>, name: Seq<char>) -> Seq<char> {
    id + seq![SUBJECT_SEPARATOR] + name
}

/// `s` holds a separator at `k` that splits it into two subject parts.
pub open spec fn splits_at(s: Seq<char>, k: int) -> bool {
    &&& 0 <= k < s.len()
    &&& s[k] == SUBJECT_SEPARATOR
    &&& is_subject_part(s.subrange(0, k))
    &&& is_subject_part(s.subrange(k + 1, s.len() as int))
}

/// The `(id, name)` that a subject names: present exactly when the subject
/// holds one separator, with a non-empty part on each side.
pub open spec fn subject_parts(s: Seq<char>) -> Option<(Seq<char>, Seq<char>)> {
    if exists|k: int| splits_at(s, k) {
        let k = choose|k: int| splits_at(s, k);
        Some((s.subrange(0, k), s.subrange(k + 1, s.len() as int)))
    } else {
        None
    }
}

/// A subject splits in one place at most.
pub proof fn lemma_split_unique(s: Seq<char>, k1: int, k2: int)
    requires
        splits_at(s, k1),
        splits_at(s, k2),
    ensures
        k1 == k2,
{
    if k1 < k2 {
        assert(s.subrange(0, k2)[k1] == s[k1]);
    } else if k2 < k1 {
        assert(s.subrange(0, k1)[k2] == s[k2]);
    }
}

/// The subject of two subject parts splits back into them.
pub proof fn lemma_subject_round_trip(id: Seq<char>, name: Seq<char>)
    requires
        is_subject_part(id),
        is_subject_part(name),
    ensures
        subject_parts(subject_of(id, name)) == Some((id, name)),
{
    let s = subject_of(id, name);
    let k = id.len() as int;
    assert(s.subrange(0, k) =~= id);
    assert(s.subrange(k + 1, s.len() as int) =~= name);
    assert(splits_at(s, k));
    let k2 = choose|k2: int| splits_at(s, k2);
    lemma_split_unique(s, k, k2);
}

impl Principal {
    /// Both halves of the identity can stand in a subject.
    pub open spec fn is_encodable(&self) -> bool {
        is_subject_part(self.id@) && is_subject_part(self.name@)
    }

    /// Whether both id and name are non-empty and free of the separator.
    pub fn encodable(&self) -> (r: bool)
        ensures
            r == self.is_encodable(),
    {
        is_part(&self.id) && is_part(&self.name)
    }

    /// The subject `"{id}:{name}"` of this identity.
    pub fn subject(&self) -> (r: String)
        ensures
            r@ == subject_of(self.id@, self.name@),
    {
        let mut r = self.id.clone();
        r.push(SUBJECT_SEPARATOR);
        crate::text::push_all(&mut r, self.name.as_str());
        r
    }

    /// The identity named by `sub`, when it holds exactly one separator with a
    /// non-empty part on each side.
    pub fn from_subject(sub: &str) -> (r: Option<Principal>)
        ensures
            r is None <==> subject_parts(sub@) is None,
            r matches Some(p) ==> subject_parts(sub@) == Some((p.id@, p.name@)),
    {
        let cs = chars_of(sub);
        let n = cs.len();
        let mut k: usize = 0;
        while k < n && cs[k] != SUBJECT_SEPARATOR
            invariant
                cs@ == sub@,
                n == cs.len(),
                0 <= k <= n,
                forall|j: int| 0 <= j < k ==> cs@[j] != SUBJECT_SEPARATOR,
            decreases n - k,
        {
            k += 1;
        }
        if k == n {
            proof {
                if exists|k2: int| splits_at(sub@, k2) {
                    let k2 = choose|k2: int| splits_at(sub@, k2);
                    assert(cs@[k2] == SUBJECT_SEPARATOR);
                }
            }
            return None;
        }
        let mut j: usize = k + 1;
        while j < n && cs[j] != SUBJECT_SEPARATOR
            invariant
                cs@ == sub@,
                n == cs.len(),
                k < j <= n,
                forall|i: int| k < i < j ==> cs@[i] != SUBJECT_SEPARATOR,
            decreases n - j,
        {
            j += 1;
        }
        let ok = k > 0 && j == n && k + 1 < n;
        proof {
            let s = sub@;
            if ok {
                assert(s.subrange(0, k as int).len() > 0);
                let a = s.subrange(0, k as int);
                let b = s.subrange(k + 1, n as int);
                assert forall|i: int| 0 <= i < a.len() implies #[trigger] a[i]
                    != SUBJECT_SEPARATOR by {
                    assert(a[i] == s[i]);
                }
                assert forall|i: int| 0 <= i < b.len() implies #[trigger] b[i]
                    != SUBJECT_SEPARATOR by {
                    assert(b[i] == s[k + 1 + i]);
                }
                assert(splits_at(s, k as int));
                let k2 = choose|k2: int| splits_at(s, k2);
                lemma_split_unique(s, k as int, k2);
            } else if exists|k2: int| splits_at(s, k2) {
                let k2 = choose|k2: int| splits_at(s, k2);
                // the first separator is the only one
                if k2 > k {
                    assert(s.subrange(0, k2)[k as int] == s[k as int]);
                }
                assert(k2 == k);
                if j < n {
                    assert(s.subrange(k2 + 1, n as int)[j - k2 - 1] == s[j as int]);
                }
                assert(s.subrange(k2 + 1, n as int).len() > 0);
                assert(s.subrange(0, k2).len() > 0);
            }
        }
        if !ok {
            return None;
        }
        let id = string_of_range(&cs, 0, k);
        let name = string_of_range(&cs, k + 1, n);
        Some(Principal { id, name })
    }
}

/// Whether `s` is non-empty and free of the separator.
fn is_part(s: &String) -> (r: bool)
    ensures
        r == is_subject_part(s@),
{
    let cs = chars_of(s.as_str());
    if cs.len() == 0 {
        return false;
    }
    let mut i: usize = 0;
    while i < cs.len()
        invariant
            cs@ == s@,
            0 <= i <= cs.len(),
            forall|j: int| 0 <= j < i ==> cs@[j] != SUBJECT_SEPARATOR,
        decreases cs.len() - i,
    {
        if cs[i] == SUBJECT_SEPARATOR {
            return false;
        }
        i += 1;
    }
    true
}

/// The signed payload of a session token.
#[derive(Debug, Clone)]
pub struct Claims {
    pub sub: String,
    pub exp: u64,
    pub iat: u64,
}

/// The lower-case hexadecimal digit for `d < 16`.
pub open spec fn hex_char(d: nat) -> char {
    if d < 10 {
        digit_char(d)
    } else {
        ((87 + d) as u32) as char
    }
}

pub open spec fn is_hex(c: char) -> bool {
    ('0' <= c <= '9') || ('a' <= c <= 'f')
}

pub open spec fn hex_value(c: char) -> nat {
    if c <= '9' {
        ((c as u32) - 48) as nat
    } else {
        ((c as u32) - 87) as nat
    }
}

/// Characters that a JSON string cannot hold as they are.
pub open spec fn must_escape(c: char) -> bool {
    (c as u32) < 32 || c == '"' || c == '\\'
}

/// A character as it stands inside a JSON string: itself, or `\u00XX`.
pub open spec fn escape_char(c: char) -> Seq<char> {
    if must_escape(c) {
        seq!['\\', 'u', '0', '0', hex_char((c as u32 / 16) as nat), hex_char((c as u32 % 16) as nat)]
    } else {
        seq![c]
    }
}

/// The body of a JSON string holding `s`.
pub open spec fn escape(s: Seq<char>) -> Seq<char>
    decreases s.len(),
{
    if s.len() == 0 {
        Seq::empty()
    } else {
        escape_char(s[0]) + escape(s.drop_first())
    }
}

/// `{"sub":"`, up to the opening quote of the subject.
pub open spec fn sub_open() -> Seq<char> {
    seq!['{', '"', 's', 'u', 'b', '"', ':', '"']
}

/// `","exp":`, from the closing quote of the subject.
pub open spec fn exp_key() -> Seq<char> {
    seq!['"', ',', '"', 'e', 'x', 'p', '"', ':']
}

/// `,"iat":`.
pub open spec fn iat_key() -> Seq<char> {
    seq![',', '"', 'i', 'a', 't', '"', ':']
}

/// The payload text of claims: `{"sub":"...","exp":N,"iat":N}`.
pub open spec fn claims_json(sub: Seq<char>, exp: nat, iat: nat) -> Seq<char> {
    sub_open() + escape(sub) + exp_key() + decimal(exp) + iat_key() + decimal(iat) + seq!['}']
}

/// What follows `lit` at the start of `t`, if `t` starts with it.
pub open spec fn after_lit(t: Seq<char>, lit: Seq<char>) -> Option<Seq<char>> {
    if t.len() >= lit.len() && t.subrange(0, lit.len() as int) == lit {
        Some(t.subrange(lit.len() as int, t.len() as int))
    } else {
        None
    }
}

/// Reads the body of a JSON string up to its closing quote: the characters it
/// holds, and what follows the quote.
pub open spec fn parse_str(t: Seq<char>) -> Option<(Seq<char>, Seq<char>)>
    decreases t.len(),
{
    if t.len() == 0 {
        None
    } else if t[0] == '"' {
        Some((Seq::empty(), t.drop_first()))
    } else if t[0] == '\\' {
        if t.len() >= 6 && t[1] == 'u' && t[2] == '0' && t[3] == '0' && is_hex(t[4]) && is_hex(
            t[5],
        ) {
            match parse_str(t.subrange(6, t.len() as int)) {
                Some(p) => Some(
                    (seq![((hex_value(t[4]) * 16 + hex_value(t[5])) as u32) as char] + p.0, p.1),
                ),
                None => None,
            }
        } else {
            None
        }
    } else if (t[0] as u32) < 32 {
        None
    } else {
        match parse_str(t.drop_first()) {
            Some(p) => Some((seq![t[0]] + p.0, p.1)),
            None => None,
        }
    }
}

/// The number of decimal digits at the start of `t`.
pub open spec fn digit_run(t: Seq<char>) -> nat
    decreases t.len(),
{
    if t.len() > 0 && is_digit(t[0]) {
        1 + digit_run(t.drop_first())
    } else {
        0
    }
}

/// Reads an unsigned decimal number that fits in 64 bits, and what follows it.
pub open spec fn parse_num(t: Seq<char>) -> Option<(nat, Seq<char>)> {
    let k = digit_run(t);
    let v = digits_value(t.subrange(0, k as int));
    if k == 0 || v > u64::MAX {
        None
    } else {
        Some((v, t.subrange(k as int, t.len() as int)))
    }
}

/// The `(sub, exp, iat)` that a payload text holds.
pub open spec fn parse_claims(t: Seq<char>) -> Option<(Seq<char>, nat, nat)> {
    match after_lit(t, sub_open()) {
        None => None,
        Some(r0) => match parse_str(r0) {
            None => None,
            Some((sub, r1)) => match after_lit(r1, exp_key().drop_first()) {
                None => None,
                Some(r2) => match parse_num(r2) {
                    None => None,
                    Some((exp, r3)) => match after_lit(r3, iat_key()) {
                        None => None,
                        Some(r4) => match parse_num(r4) {
                            None => None,
                            Some((iat, r5)) => if r5 == seq!['}'] {
                                Some((sub, exp, iat))
                            } else {
                                None
                            },
                        },
                    },
                },
            },
        },
    }
}

proof fn lemma_hex(d: nat)
    requires
        d < 16,
    ensures
        is_hex(hex_char(d)),
        hex_value(hex_char(d)) == d,
{
}

proof fn lemma_char_code(c: char)
    requires
        (c as u32) < 256,
    ensures
        ((c as u32) as char) == c,
{
}

proof fn lemma_after_lit(lit: Seq<char>, rest: Seq<char>)
    ensures
        after_lit(lit + rest, lit) == Some(rest),
{
    assert((lit + rest).subrange(0, lit.len() as int) =~= lit);
    assert((lit + rest).subrange(lit.len() as int, (lit + rest).len() as int) =~= rest);
}

/// A JSON string body, then its closing quote, reads back as the string.
proof fn lemma_parse_escaped(s: Seq<char>, rest: Seq<char>)
    ensures
        parse_str(escape(s) + seq!['"'] + rest) == Some((s, rest)),
    decreases s.len(),
{
    let t = escape(s) + seq!['"'] + rest;
    if s.len() == 0 {
        assert(escape(s) =~= Seq::<char>::empty());
        assert(t =~= seq!['"'] + rest);
        assert(t.drop_first() =~= rest);
    } else {
        let c = s[0];
        let tail = s.drop_first();
        lemma_parse_escaped(tail, rest);
        let t2 = escape(tail) + seq!['"'] + rest;
        assert(t =~= escape_char(c) + t2);
        if must_escape(c) {
            let v = c as u32;
            assert(v < 256);
            lemma_char_code(c);
            lemma_hex((v / 16) as nat);
            lemma_hex((v % 16) as nat);
            assert(t.subrange(6, t.len() as int) =~= t2);
            assert(t[4] == hex_char((v / 16) as nat));
            assert(t[5] == hex_char((v % 16) as nat));
            assert(hex_value(t[4]) * 16 + hex_value(t[5]) == v);
            assert((v as char) == c);
            assert(seq![c] + tail =~= s);
        } else {
            assert(t.drop_first() =~= t2);
            assert(seq![c] + tail =~= s);
        }
    }
}

proof fn lemma_digit_run(ds: Seq<char>, rest: Seq<char>)
    requires
        all_digits(ds),
        rest.len() == 0 || !is_digit(rest[0]),
    ensures
        digit_run(ds + rest) == ds.len(),
    decreases ds.len(),
{
    if ds.len() > 0 {
        assert(is_digit(ds[0]));
        assert((ds + rest).drop_first() =~= ds.drop_first() + rest);
        assert forall|i: int| 0 <= i < ds.drop_first().len() implies is_digit(
            #[trigger] ds.drop_first()[i],
        ) by {
            assert(ds.drop_first()[i] == ds[i + 1]);
        }
        lemma_digit_run(ds.drop_first(), rest);
    } else {
        assert(ds + rest =~= rest);
    }
}

proof fn lemma_parse_decimal(n: nat, rest: Seq<char>)
    requires
        n <= u64::MAX,
        rest.len() == 0 || !is_digit(rest[0]),
    ensures
        parse_num(decimal(n) + rest) == Some((n, rest)),
{
    lemma_decimal_digits(n);
    lemma_digit_run(decimal(n), rest);
    let t = decimal(n) + rest;
    assert(t.subrange(0, decimal(n).len() as int) =~= decimal(n));
    assert(t.subrange(decimal(n).len() as int, t.len() as int) =~= rest);
}

/// A payload text reads back as the claims it was written from.
pub proof fn lemma_claims_round_trip(sub: Seq<char>, exp: nat, iat: nat)
    requires
        exp <= u64::MAX,
        iat <= u64::MAX,
    ensures
        parse_claims(claims_json(sub, exp, iat)) == Some((sub, exp, iat)),
{
    let d_exp = decimal(exp);
    let d_iat = decimal(iat);
    let tail4 = d_iat + seq!['}'];
    let tail3 = iat_key() + tail4;
    let tail2 = d_exp + tail3;
    let tail1 = exp_key().drop_first() + tail2;
    let body = escape(sub) + seq!['"'] + tail1;
    assert(claims_json(sub, exp, iat) =~= sub_open() + body);
    lemma_after_lit(sub_open(), body);
    lemma_parse_escaped(sub, tail1);
    lemma_after_lit(exp_key().drop_first(), tail2);
    lemma_parse_decimal(exp, tail3);
    lemma_after_lit(iat_key(), tail4);
    lemma_parse_decimal(iat, seq!['}']);
}

proof fn lemma_escape_push(a: Seq<char>, c: char)
    ensures
        escape(a.push(c)) == escape(a) + escape_char(c),
    decreases a.len(),
{
    if a.len() == 0 {
        assert(a.push(c).drop_first() =~= Seq::<char>::empty());
        assert(escape(a.push(c)) =~= escape_char(c) + escape(Seq::<char>::empty()));
        assert(escape(a) =~= Seq::<char>::empty());
        assert(escape(Seq::<char>::empty()) =~= Seq::<char>::empty());
        assert(escape(a.push(c)) =~= escape(a) + escape_char(c));
    } else {
        assert(a.push(c).drop_first() =~= a.drop_first().push(c));
        lemma_escape_push(a.drop_first(), c);
        assert(escape(a.push(c)) =~= escape(a) + escape_char(c));
    }
}

proof fn lemma_digit_run_digits(t: Seq<char>)
    ensures
        digit_run(t) <= t.len(),
        all_digits(t.subrange(0, digit_run(t) as int)),
    decreases t.len(),
{
    if t.len() > 0 && is_digit(t[0]) {
        lemma_digit_run_digits(t.drop_first());
        let k = digit_run(t) as int;
        assert forall|i: int| 0 <= i < k implies is_digit(#[trigger] t.subrange(0, k)[i]) by {
            if i > 0 {
                assert(t.subrange(0, k)[i] == t.drop_first().subrange(0, k - 1)[i - 1]);
            }
        }
    }
}

proof fn lemma_digits_value_prefix(ds: Seq<char>, k: int)
    requires
        all_digits(ds),
        0 <= k <= ds.len(),
    ensures
        digits_value(ds.subrange(0, k)) <= digits_value(ds),
    decreases ds.len() - k,
{
    if k < ds.len() {
        let dl = ds.drop_last();
        assert(is_digit(ds.last()));
        assert forall|i: int| 0 <= i < dl.len() implies is_digit(#[trigger] dl[i]) by {
            assert(dl[i] == ds[i]);
        }
        lemma_digits_value_prefix(dl, k);
        assert(dl.subrange(0, k) =~= ds.subrange(0, k));
    } else {
        assert(ds.subrange(0, k) =~= ds);
    }
}

/// The JSON string body of `c`, appended to `s`.
fn push_escaped_char(s: &mut String, c: char)
    ensures
        final(s)@ == old(s)@ + escape_char(c),
{
    let v = c as u32;
    if v < 32 || c == '"' || c == '\\' {
        s.push('\\');
        s.push('u');
        s.push('0');
        s.push('0');
        s.push(hex_digit(v / 16));
        s.push(hex_digit(v % 16));
    } else {
        s.push(c);
    }
    assert(final(s)@ =~= old(s)@ + escape_char(c));
}

fn hex_digit(d: u32) -> (c: char)
    requires
        d < 16,
    ensures
        c == hex_char(d as nat),
{
    if d < 10 {
        crate::text::char_of_digit(d)
    } else {
        let b: u8 = (87 + d) as u8;
        b as char
    }
}

fn is_hex_char(c: char) -> (r: bool)
    ensures
        r == is_hex(c),
{
    ('0' <= c && c <= '9') || ('a' <= c && c <= 'f')
}

fn hex_value_of(c: char) -> (r: u32)
    requires
        is_hex(c),
    ensures
        r == hex_value(c),
        r < 16,
{
    if c <= '9' {
        (c as u32) - 48
    } else {
        (c as u32) - 87
    }
}

/// Whether the characters of `lit` stand in `cs` from `i` on.
fn lit_at(cs: &Vec<char>, i: usize, lit: &Vec<char>) -> (r: bool)
    requires
        i <= cs.len(),
    ensures
        r ==> i + lit.len() <= cs.len() && after_lit(cs@.subrange(i as int, cs.len() as int), lit@)
            == Some(cs@.subrange(i + lit.len(), cs.len() as int)),
        !r ==> after_lit(cs@.subrange(i as int, cs.len() as int), lit@) is None,
{
    let n = cs.len();
    let t = Ghost(cs@.subrange(i as int, n as int));
    if lit.len() > n - i {
        return false;
    }
    let mut k: usize = 0;
    while k < lit.len()
        invariant
            n == cs.len(),
            i + lit.len() <= n,
            t@ == cs@.subrange(i as int, n as int),
            0 <= k <= lit.len(),
            forall|j: int| 0 <= j < k ==> cs@[i + j] == lit@[j],
        decreases lit.len() - k,
    {
        if cs[i + k] != lit[k] {
            assert(t@.subrange(0, lit.len() as int)[k as int] == cs@[i + k]);
            return false;
        }
        k += 1;
    }
    assert(t@.subrange(0, lit.len() as int) =~= lit@);
    assert(t@.subrange(lit.len() as int, t@.len() as int) =~= cs@.subrange(
        i + lit.len(),
        n as int,
    ));
    true
}

/// Reads the body of a JSON string that starts at `i`: the characters it
/// holds, and the position after its closing quote.
fn parse_str_at(cs: &Vec<char>, i: usize) -> (r: Option<(String, usize)>)
    requires
        i <= cs.len(),
    ensures
        match parse_str(cs@.subrange(i as int, cs.len() as int)) {
            Some((body, rest)) => r matches Some((out, j)) && out@ == body && j <= cs.len()
                && rest == cs@.subrange(j as int, cs.len() as int),
            None => r is None,
        },
{
    let n = cs.len();
    let mut out = String::new();
    let mut k = i;
    while k < n
        invariant
            n == cs.len(),
            i <= k <= n,
            parse_str(cs@.subrange(i as int, n as int)) == match parse_str(
                cs@.subrange(k as int, n as int),
            ) {
                Some(p) => Some((out@ + p.0, p.1)),
                None => None,
            },
        decreases n - k,
    {
        let t = Ghost(cs@.subrange(k as int, n as int));
        let c = cs[k];
        assert(t@[0] == c);
        if c == '"' {
            assert(t@.drop_first() =~= cs@.subrange(k + 1, n as int));
            assert(out@ + Seq::<char>::empty() =~= out@);
            return Some((out, k + 1));
        } else if c == '\\' {
            if n - k >= 6 && cs[k + 1] == 'u' && cs[k + 2] == '0' && cs[k + 3] == '0' && is_hex_char(
                cs[k + 4],
            ) && is_hex_char(cs[k + 5]) {
                let code: u32 = hex_value_of(cs[k + 4]) * 16 + hex_value_of(cs[k + 5]);
                let d: char = (code as u8) as char;
                proof {
                    assert(t@[4] == cs@[k + 4] && t@[5] == cs@[k + 5]);
                    assert(t@[1] == cs@[k + 1] && t@[2] == cs@[k + 2] && t@[3] == cs@[k + 3]);
                    let sc = ((hex_value(t@[4]) * 16 + hex_value(t@[5])) as u32) as char;
                    assert((sc as u32) == code);
                    assert(d == sc);
                    assert(t@.subrange(6, t@.len() as int) =~= cs@.subrange(k + 6, n as int));
                    let old_out = out@;
                    assert(old_out.push(d) =~= old_out + seq![d]);
                    match parse_str(cs@.subrange(k + 6, n as int)) {
                        Some(p) => {
                            assert(old_out + (seq![d] + p.0) =~= old_out.push(d) + p.0);
                        },
                        None => {},
                    }
                }
                out.push(d);
                k += 6;
            } else {
                return None;
            }
        } else if (c as u32) < 32 {
            return None;
        } else {
            proof {
                assert(t@.drop_first() =~= cs@.subrange(k + 1, n as int));
                let old_out = out@;
                match parse_str(cs@.subrange(k + 1, n as int)) {
                    Some(p) => {
                        assert(old_out + (seq![c] + p.0) =~= old_out.push(c) + p.0);
                    },
                    None => {},
                }
            }
            out.push(c);
            k += 1;
        }
    }
    None
}

/// Reads an unsigned decimal number that starts at `i` and fits in 64 bits,
/// and the position after it.
fn parse_num_at(cs: &Vec<char>, i: usize) -> (r: Option<(u64, usize)>)
    requires
        i <= cs.len(),
    ensures
        match parse_num(cs@.subrange(i as int, cs.len() as int)) {
            Some((v, rest)) => r matches Some((x, j)) && x == v && j <= cs.len() && rest
                == cs@.subrange(j as int, cs.len() as int),
            None => r is None,
        },
{
    let n = cs.len();
    let ghost t = cs@.subrange(i as int, n as int);
    let mut acc: u64 = 0;
    let mut k = i;
    while k < n && '0' <= cs[k] && cs[k] <= '9'
        invariant
            n == cs.len(),
            i <= k <= n,
            t == cs@.subrange(i as int, n as int),
            acc == digits_value(cs@.subrange(i as int, k as int)),
            all_digits(cs@.subrange(i as int, k as int)),
            digit_run(t) == (k - i) + digit_run(cs@.subrange(k as int, n as int)),
        decreases n - k,
    {
        let c = cs[k];
        let d: u32 = (c as u32) - 48;
        let ghost pre = cs@.subrange(i as int, k as int);
        let ghost next = cs@.subrange(i as int, k + 1);
        proof {
            assert(next.drop_last() =~= pre);
            assert(next.last() == c);
            assert(cs@.subrange(k as int, n as int).drop_first() =~= cs@.subrange(k + 1, n as int));
            assert forall|j: int| 0 <= j < next.len() implies is_digit(#[trigger] next[j]) by {
                if j < pre.len() {
                    assert(next[j] == pre[j]);
                }
            }
        }
        if acc > (u64::MAX - d as u64) / 10 {
            proof {
                lemma_digit_run_digits(t);
                let run = t.subrange(0, digit_run(t) as int);
                assert(run.subrange(0, (k + 1 - i) as int) =~= next);
                lemma_digits_value_prefix(run, (k + 1 - i) as int);
            }
            return None;
        }
        acc = acc * 10 + d as u64;
        k += 1;
    }
    proof {
        if k < n {
            assert(cs@.subrange(k as int, n as int)[0] == cs@[k as int]);
        }
        assert(t.subrange(0, (k - i) as int) =~= cs@.subrange(i as int, k as int));
        assert(t.subrange((k - i) as int, t.len() as int) =~= cs@.subrange(k as int, n as int));
    }
    if k == i {
        return None;
    }
    Some((acc, k))
}

impl Claims {
    /// A token expires no earlier than it is issued.
    pub open spec fn is_consistent(&self) -> bool {
        self.exp >= self.iat
    }

    /// The payload text of these claims, `{"sub":"...","exp":N,"iat":N}`,
    /// with `"`, `\` and control characters of the subject written `\u00XX`.
    pub fn to_json(&self) -> (r: String)
        ensures
            r@ == claims_json(self.sub@, self.exp as nat, self.iat as nat),
    {
        let mut r = String::new();
        push_chars(&mut r, &vec!['{', '"', 's', 'u', 'b', '"', ':', '"']);
        let cs = chars_of(self.sub.as_str());
        let mut i: usize = 0;
        while i < cs.len()
            invariant
                cs@ == self.sub@,
                0 <= i <= cs.len(),
                r@ == sub_open() + escape(cs@.subrange(0, i as int)),
            decreases cs.len() - i,
        {
            proof {
                assert(cs@.subrange(0, i + 1) =~= cs@.subrange(0, i as int).push(cs@[i as int]));
                lemma_escape_push(cs@.subrange(0, i as int), cs@[i as int]);
            }
            push_escaped_char(&mut r, cs[i]);
            i += 1;
        }
        assert(cs@.subrange(0, cs@.len() as int) =~= self.sub@);
        push_chars(&mut r, &vec!['"', ',', '"', 'e', 'x', 'p', '"', ':']);
        push_decimal(&mut r, self.exp);
        push_chars(&mut r, &vec![',', '"', 'i', 'a', 't', '"', ':']);
        push_decimal(&mut r, self.iat);
        r.push('}');
        assert(r@ =~= claims_json(self.sub@, self.exp as nat, self.iat as nat));
        r
    }

    /// The claims that a payload text holds, when it has exactly the shape
    /// that `to_json` writes.
    pub fn from_json(text: &str) -> (r: Option<Claims>)
        ensures
            match parse_claims(text@) {
                Some((sub, exp, iat)) => r matches Some(c) && c.sub@ == sub && c.exp == exp
                    && c.iat == iat,
                None => r is None,
            },
    {
        let cs = chars_of(text);
        let n = cs.len();
        assert(cs@.subrange(0, n as int) =~= text@);
        let open = vec!['{', '"', 's', 'u', 'b', '"', ':', '"'];
        if !lit_at(&cs, 0, &open) {
            return None;
        }
        let (sub, j1) = match parse_str_at(&cs, 8) {
            Some(p) => p,
            None => return None,
        };
        let exp_lit = vec![',', '"', 'e', 'x', 'p', '"', ':'];
        assert(exp_lit@ =~= exp_key().drop_first());
        if !lit_at(&cs, j1, &exp_lit) {
            return None;
        }
        let (exp, j2) = match parse_num_at(&cs, j1 + 7) {
            Some(p) => p,
            None => return None,
        };
        let iat_lit = vec![',', '"', 'i', 'a', 't', '"', ':'];
        if !lit_at(&cs, j2, &iat_lit) {
            return None;
        }
        let (iat, j3) = match parse_num_at(&cs, j2 + 7) {
            Some(p) => p,
            None => return None,
        };
        if j3 < n && n - j3 == 1 && cs[j3] == '}' {
            assert(cs@.subrange(j3 as int, n as int) =~= seq!['}']);
            Some(Claims { sub, exp, iat })
        } else {
            proof {
                if cs@.subrange(j3 as int, n as int) == seq!['}'] {
                    assert(cs@.subrange(j3 as int, n as int).len() == 1);
                    assert(cs@.subrange(j3 as int, n as int)[0] == cs@[j3 as int]);
                }
            }
            None
        }
    }
}

} // verus!
