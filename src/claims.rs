//! Claims carried by a session token, and their compact JSON text.
use vstd::prelude::*;
use crate::chars::{push_str, string_of};

verus! {

/// The payload of a signed session token.
pub struct Claims {
    pub authorized: bool,
    pub access_session_id: Option<String>,
    pub refresh_session_id: Option<String>,
    pub user_id: String,
    pub exp: i64,
}

/// Mathematical model of `Claims`.
pub struct ClaimsModel {
    pub authorized: bool,
    pub access_session_id: Option<Seq<char>>,
    pub refresh_session_id: Option<Seq<char>>,
    pub user_id: Seq<char>,
    pub exp: i64,
}

/// The characters of an optional string.
pub open spec fn opt_view(o: Option<String>) -> Option<Seq<char>> {
    match o {
        Some(s) => Some(s@),
        None => None,
    }
}

impl View for Claims {
    type V = ClaimsModel;

    open spec fn view(&self) -> ClaimsModel {
        ClaimsModel {
            authorized: self.authorized,
            access_session_id: opt_view(self.access_session_id),
            refresh_session_id: opt_view(self.refresh_session_id),
            user_id: self.user_id@,
            exp: self.exp,
        }
    }
}

pub open spec fn key_authorized() -> Seq<char> {
    "{\"authorized\":"@
}

pub open spec fn key_access() -> Seq<char> {
    ",\"access_session_id\":"@
}

pub open spec fn key_refresh() -> Seq<char> {
    ",\"refresh_session_id\":"@
}

pub open spec fn key_user() -> Seq<char> {
    ",\"user_id\":"@
}

pub open spec fn key_exp() -> Seq<char> {
    ",\"exp\":"@
}

/// Lower-case hexadecimal digit of `n < 16`.
pub open spec fn hex_digit(n: int) -> char {
    if n < 10 {
        ((n + 48) as u8) as char
    } else {
        ((n + 87) as u8) as char
    }
}

/// Value of a lower-case hexadecimal digit.
pub open spec fn hex_value(c: char) -> Option<int> {
    if '0' <= c && c <= '9' {
        Some(c as int - 48)
    } else if 'a' <= c && c <= 'f' {
        Some(c as int - 87)
    } else {
        None
    }
}

/// How one character is written inside a JSON string.
pub open spec fn esc_char(c: char) -> Seq<char> {
    if c == '"' {
        seq!['\\', '"']
    } else if c == '\\' {
        seq!['\\', '\\']
    } else if (c as u32) < 0x20 {
        seq!['\\', 'u', '0', '0', hex_digit((c as u32 / 16) as int), hex_digit((c as u32 % 16) as int)]
    } else {
        seq![c]
    }
}

/// The body of a JSON string holding `s`.
pub open spec fn esc(s: Seq<char>) -> Seq<char>
    decreases s.len(),
{
    if s.len() == 0 {
        seq![]
    } else {
        esc_char(s[0]) + esc(s.drop_first())
    }
}

pub open spec fn quoted(s: Seq<char>) -> Seq<char> {
    seq!['"'] + esc(s) + seq!['"']
}

pub open spec fn bool_text(b: bool) -> Seq<char> {
    if b {
        "true"@
    } else {
        "false"@
    }
}

pub open spec fn opt_text(o: Option<Seq<char>>) -> Seq<char> {
    match o {
        Some(s) => quoted(s),
        None => "null"@,
    }
}

pub open spec fn digit_char(d: int) -> char {
    ((d + 48) as u8) as char
}

/// Decimal digits of `n`, most significant first.
pub open spec fn nat_text(n: nat) -> Seq<char>
    decreases n,
{
    if n < 10 {
        seq![digit_char(n as int)]
    } else {
        nat_text(n / 10).push(digit_char((n % 10) as int))
    }
}

pub open spec fn int_text(n: int) -> Seq<char> {
    if n < 0 {
        seq!['-'] + nat_text((-n) as nat)
    } else {
        nat_text(n as nat)
    }
}

/// The compact JSON object that a token carries for `c`.
pub open spec fn claims_text(c: ClaimsModel) -> Seq<char> {
    key_authorized() + bool_text(c.authorized) + key_access() + opt_text(c.access_session_id)
        + key_refresh() + opt_text(c.refresh_session_id) + key_user() + quoted(c.user_id)
        + key_exp() + int_text(c.exp as int) + seq!['}']
}

// ---- reading the text back ----

pub open spec fn starts_with(t: Seq<char>, p: Seq<char>) -> bool {
    p.len() <= t.len() && t.take(p.len() as int) == p
}

/// The character a short JSON escape `\\c` stands for.
pub open spec fn short_escape(c: char) -> Option<char> {
    if c == 'b' {
        Some('\u{8}')
    } else if c == 'f' {
        Some('\u{c}')
    } else if c == 'n' {
        Some('\n')
    } else if c == 'r' {
        Some('\r')
    } else if c == 't' {
        Some('\t')
    } else if c == '/' {
        Some('/')
    } else {
        None
    }
}

/// Reads the body of a JSON string up to and including its closing quote:
/// the characters held and the number of characters read.
pub open spec fn unesc(t: Seq<char>) -> Option<(Seq<char>, int)>
    decreases t.len(),
{
    if t.len() == 0 {
        None
    } else if t[0] == '"' {
        Some((seq![], 1))
    } else if t[0] == '\\' {
        if t.len() < 2 {
            None
        } else if t[1] == '"' || t[1] == '\\' {
            match unesc(t.skip(2)) {
                Some((s, n)) => Some((seq![t[1]] + s, n + 2)),
                None => None,
            }
        } else if short_escape(t[1]) is Some {
            match unesc(t.skip(2)) {
                Some((s, n)) => Some((seq![short_escape(t[1])->Some_0] + s, n + 2)),
                None => None,
            }
        } else if t.len() >= 6 && t[1] == 'u' && t[2] == '0' && t[3] == '0' && (t[4] == '0'
            || t[4] == '1') && hex_value(t[5]) is Some {
            let v = hex_value(t[4])->Some_0 * 16 + hex_value(t[5])->Some_0;
            match unesc(t.skip(6)) {
                Some((s, n)) => Some((seq![(v as u8) as char] + s, n + 6)),
                None => None,
            }
        } else {
            None
        }
    } else if (t[0] as u32) < 0x20 {
        None
    } else {
        match unesc(t.skip(1)) {
            Some((s, n)) => Some((seq![t[0]] + s, n + 1)),
            None => None,
        }
    }
}

/// Reads a quoted JSON string: what it holds and what follows it.
pub open spec fn read_quoted(t: Seq<char>) -> Option<(Seq<char>, Seq<char>)> {
    if t.len() > 0 && t[0] == '"' {
        match unesc(t.skip(1)) {
            Some((s, n)) => Some((s, t.skip(1 + n))),
            None => None,
        }
    } else {
        None
    }
}

pub open spec fn read_bool(t: Seq<char>) -> Option<(bool, Seq<char>)> {
    if starts_with(t, "true"@) {
        Some((true, t.skip(4)))
    } else if starts_with(t, "false"@) {
        Some((false, t.skip(5)))
    } else {
        None
    }
}

pub open spec fn read_opt(t: Seq<char>) -> Option<(Option<Seq<char>>, Seq<char>)> {
    if starts_with(t, "null"@) {
        Some((None, t.skip(4)))
    } else {
        match read_quoted(t) {
            Some((s, r)) => Some((Some(s), r)),
            None => None,
        }
    }
}

pub open spec fn is_digit(c: char) -> bool {
    '0' <= c && c <= '9'
}

/// Value of a sequence of decimal digits.
pub open spec fn digits_value(d: Seq<char>) -> int
    decreases d.len(),
{
    if d.len() == 0 {
        0
    } else {
        digits_value(d.drop_last()) * 10 + (d.last() as int - 48)
    }
}

pub open spec fn read_digits(d: Seq<char>) -> Option<int> {
    if 1 <= d.len() <= 19 && (forall|i: int| 0 <= i < d.len() ==> is_digit(#[trigger] d[i])) {
        Some(digits_value(d))
    } else {
        None
    }
}

/// Reads an integer in decimal that fits in an `i64`.
pub open spec fn read_int(d: Seq<char>) -> Option<i64> {
    let v = if d.len() > 0 && d[0] == '-' {
        match read_digits(d.skip(1)) {
            Some(m) => Some(-m),
            None => None,
        }
    } else {
        read_digits(d)
    };
    match v {
        Some(x) => if i64::MIN <= x <= i64::MAX {
            Some(x as i64)
        } else {
            None
        },
        None => None,
    }
}

/// Reads the last field and the closing brace.
#[verifier::opaque]
pub open spec fn read_exp_tail(t: Seq<char>) -> Option<i64> {
    if !starts_with(t, key_exp()) {
        None
    } else {
        let r = t.skip(key_exp().len() as int);
        if r.len() == 0 || r.last() != '}' {
            None
        } else {
            read_int(r.drop_last())
        }
    }
}

/// Reads `key` followed by a quoted string.
#[verifier::opaque]
pub open spec fn read_key_quoted(t: Seq<char>, key: Seq<char>) -> Option<(Seq<char>, Seq<char>)> {
    if starts_with(t, key) {
        read_quoted(t.skip(key.len() as int))
    } else {
        None
    }
}

/// Reads `key` followed by a quoted string or `null`.
#[verifier::opaque]
pub open spec fn read_key_opt(t: Seq<char>, key: Seq<char>) -> Option<(Option<Seq<char>>, Seq<char>)> {
    if starts_with(t, key) {
        read_opt(t.skip(key.len() as int))
    } else {
        None
    }
}

/// Reads `key` followed by `true` or `false`.
#[verifier::opaque]
pub open spec fn read_key_bool(t: Seq<char>, key: Seq<char>) -> Option<(bool, Seq<char>)> {
    if starts_with(t, key) {
        read_bool(t.skip(key.len() as int))
    } else {
        None
    }
}

/// Reads a claims object written as `claims_text` writes it.
pub open spec fn read_claims(t: Seq<char>) -> Option<ClaimsModel> {
    match read_key_bool(t, key_authorized()) {
        None => None,
        Some((a, t1)) => match read_key_opt(t1, key_access()) {
            None => None,
            Some((acc, t2)) => match read_key_opt(t2, key_refresh()) {
                None => None,
                Some((rf, t3)) => match read_key_quoted(t3, key_user()) {
                    None => None,
                    Some((u, t4)) => match read_exp_tail(t4) {
                        None => None,
                        Some(e) => Some(
                            ClaimsModel {
                                authorized: a,
                                access_session_id: acc,
                                refresh_session_id: rf,
                                user_id: u,
                                exp: e,
                            },
                        ),
                    },
                },
            },
        },
    }
}

// ---- writing ----

proof fn lemma_esc_push(a: Seq<char>, c: char)
    ensures
        esc(a.push(c)) == esc(a) + esc_char(c),
    decreases a.len(),
{
    if a.len() == 0 {
        assert(a.push(c).drop_first() =~= Seq::<char>::empty());
        assert(esc(a.push(c)) =~= esc_char(c) + esc(Seq::<char>::empty()));
    } else {
        assert(a.push(c).drop_first() =~= a.drop_first().push(c));
        lemma_esc_push(a.drop_first(), c);
        assert(esc(a.push(c)) =~= esc(a) + esc_char(c));
    }
}

fn hex_char(n: u32) -> (r: char)
    requires
        n < 16,
    ensures
        r == hex_digit(n as int),
{
    if n < 10 {
        ((n as u8) + 48) as char
    } else {
        ((n as u8) + 87) as char
    }
}

/// Appends how `c` is written inside a JSON string.
fn push_esc_char(out: &mut Vec<char>, c: char)
    ensures
        final(out)@ == old(out)@ + esc_char(c),
{
    let v = c as u32;
    if c == '"' || c == '\\' {
        out.push('\\');
        out.push(c);
    } else if v < 0x20 {
        out.push('\\');
        out.push('u');
        out.push('0');
        out.push('0');
        out.push(hex_char(v / 16));
        out.push(hex_char(v % 16));
    } else {
        out.push(c);
    }
    assert(final(out)@ =~= old(out)@ + esc_char(c));
}

/// Appends `s` as a quoted JSON string.
fn push_quoted(out: &mut Vec<char>, s: &String)
    ensures
        final(out)@ == old(out)@ + quoted(s@),
{
    let cs = crate::chars::chars_of(s.as_str());
    out.push('"');
    let ghost start = out@;
    let mut i: usize = 0;
    while i < cs.len()
        invariant
            i <= cs.len(),
            cs@ == s@,
            out@ == start + esc(cs@.take(i as int)),
        decreases cs.len() - i,
    {
        proof {
            assert(cs@.take(i + 1) =~= cs@.take(i as int).push(cs[i as int]));
            lemma_esc_push(cs@.take(i as int), cs[i as int]);
        }
        push_esc_char(out, cs[i]);
        i = i + 1;
    }
    assert(cs@.take(i as int) =~= cs@);
    out.push('"');
    assert(out@ =~= old(out)@ + quoted(s@));
}

fn digit_of(d: u64) -> (r: char)
    requires
        d < 10,
    ensures
        r == digit_char(d as int),
{
    ((d as u8) + 48) as char
}

/// Appends the decimal digits of `n`.
fn push_nat(out: &mut Vec<char>, n: u64)
    ensures
        final(out)@ == old(out)@ + nat_text(n as nat),
    decreases n,
{
    if n < 10 {
        out.push(digit_of(n));
        assert(out@ =~= old(out)@ + nat_text(n as nat));
    } else {
        push_nat(out, n / 10);
        out.push(digit_of(n % 10));
        assert(out@ =~= old(out)@ + nat_text(n as nat));
    }
}

/// Appends `n` in decimal.
fn push_int(out: &mut Vec<char>, n: i64)
    ensures
        final(out)@ == old(out)@ + int_text(n as int),
{
    if n < 0 {
        out.push('-');
        let m: u64 = if n == i64::MIN {
            9_223_372_036_854_775_808u64
        } else {
            (-n) as u64
        };
        push_nat(out, m);
    } else {
        push_nat(out, n as u64);
    }
    assert(out@ =~= old(out)@ + int_text(n as int));
}

fn push_opt(out: &mut Vec<char>, o: &Option<String>)
    ensures
        final(out)@ == old(out)@ + opt_text(opt_view(*o)),
{
    match o {
        Some(s) => push_quoted(out, s),
        None => push_str(out, "null"),
    }
}

impl Claims {
    /// The compact JSON object that a token carries for these claims.
    pub fn to_text(&self) -> (r: String)
        ensures
            r@ == claims_text(self@),
    {
        let mut out: Vec<char> = Vec::new();
        push_str(&mut out, "{\"authorized\":");
        if self.authorized {
            push_str(&mut out, "true");
        } else {
            push_str(&mut out, "false");
        }
        push_str(&mut out, ",\"access_session_id\":");
        push_opt(&mut out, &self.access_session_id);
        push_str(&mut out, ",\"refresh_session_id\":");
        push_opt(&mut out, &self.refresh_session_id);
        push_str(&mut out, ",\"user_id\":");
        push_quoted(&mut out, &self.user_id);
        push_str(&mut out, ",\"exp\":");
        push_int(&mut out, self.exp);
        out.push('}');
        assert(out@ =~= claims_text(self@));
        string_of(&out)
    }
}

// ---- reading, executable ----

pub open spec fn shifted(o: Seq<char>, r: Option<(Seq<char>, int)>, k: int) -> Option<(Seq<char>, int)> {
    match r {
        Some((s, n)) => Some((o + s, n + k)),
        None => None,
    }
}

proof fn lemma_shift_step(o: Seq<char>, c: char, r: Option<(Seq<char>, int)>, k: int, w: int)
    ensures
        shifted(o, shifted(seq![c], r, w), k) == shifted(o.push(c), r, k + w),
{
    match r {
        Some((s, n)) => {
            assert(o + (seq![c] + s) =~= o.push(c) + s);
        },
        None => {},
    }
}

fn short_escape_of(c: char) -> (r: Option<char>)
    ensures
        r == short_escape(c),
{
    if c == 'b' {
        Some('\u{8}')
    } else if c == 'f' {
        Some('\u{c}')
    } else if c == 'n' {
        Some('\n')
    } else if c == 'r' {
        Some('\r')
    } else if c == 't' {
        Some('\t')
    } else if c == '/' {
        Some('/')
    } else {
        None
    }
}

fn hex_val(c: char) -> (r: Option<u32>)
    ensures
        match hex_value(c) {
            Some(v) => r == Some(v as u32),
            None => r is None,
        },
{
    if '0' <= c && c <= '9' {
        Some(c as u32 - 48)
    } else if 'a' <= c && c <= 'f' {
        Some(c as u32 - 87)
    } else {
        None
    }
}

/// Reads the body of a JSON string that starts at `i`, just after its opening quote.
fn read_body_at(t: &Vec<char>, i: usize) -> (r: Option<(Vec<char>, usize)>)
    requires
        i <= t.len(),
    ensures
        match unesc(t@.skip(i as int)) {
            Some((s, n)) => r matches Some((v, j)) && v@ == s && j == i + n && j <= t.len(),
            None => r is None,
        },
        r matches Some((v, j)) ==> i < j,
{
    let mut out: Vec<char> = Vec::new();
    let mut j: usize = i;
    loop
        invariant
            i <= j <= t.len(),
            unesc(t@.skip(i as int)) == shifted(out@, unesc(t@.skip(j as int)), j - i),
        decreases t.len() - j,
    {
        let ghost u = t@.skip(j as int);
        if j >= t.len() {
            assert(u.len() == 0);
            return None;
        }
        let c = t[j];
        assert(u[0] == c);
        if c == '"' {
            assert(out@ + seq![] =~= out@);
            return Some((out, j + 1));
        } else if c == '\\' {
            if j + 1 >= t.len() {
                return None;
            }
            let d = t[j + 1];
            assert(u[1] == d);
            if d == '"' || d == '\\' {
                proof {
                    assert(u.skip(2) =~= t@.skip(j + 2));
                    lemma_shift_step(out@, d, unesc(t@.skip(j + 2)), j - i, 2);
                }
                out.push(d);
                j = j + 2;
            } else if let Some(e) = short_escape_of(d) {
                proof {
                    assert(u.skip(2) =~= t@.skip(j + 2));
                    lemma_shift_step(out@, e, unesc(t@.skip(j + 2)), j - i, 2);
                }
                out.push(e);
                j = j + 2;
            } else if t.len() - j > 5 && d == 'u' && t[j + 2] == '0' && t[j + 3] == '0' && (t[j + 4]
                == '0' || t[j + 4] == '1') {
                match hex_val(t[j + 5]) {
                    Some(lo) => {
                        let hi: u32 = if t[j + 4] == '0' {
                            0
                        } else {
                            1
                        };
                        let v: u32 = hi * 16 + lo;
                        let ch = (v as u8) as char;
                        proof {
                            assert(u[2] == '0' && u[3] == '0' && u[4] == t[j + 4] && u[5] == t[j + 5]);
                            assert(u.skip(6) =~= t@.skip(j + 6));
                            lemma_shift_step(out@, ch, unesc(t@.skip(j + 6)), j - i, 6);
                        }
                        out.push(ch);
                        j = j + 6;
                    },
                    None => {
                        return None;
                    },
                }
            } else {
                return None;
            }
        } else if (c as u32) < 0x20 {
            return None;
        } else {
            proof {
                assert(u.skip(1) =~= t@.skip(j + 1));
                lemma_shift_step(out@, c, unesc(t@.skip(j + 1)), j - i, 1);
            }
            out.push(c);
            j = j + 1;
        }
    }
}

/// Whether the text from `i` on starts with `lit`.
pub(crate) fn starts_at(t: &Vec<char>, i: usize, lit: &str) -> (r: bool)
    requires
        i <= t.len(),
    ensures
        r == starts_with(t@.skip(i as int), lit@),
{
    let p = crate::chars::chars_of(lit);
    if t.len() - i < p.len() {
        return false;
    }
    let mut k: usize = 0;
    while k < p.len()
        invariant
            k <= p.len(),
            i + p.len() <= t.len(),
            p@ == lit@,
            forall|m: int| 0 <= m < k ==> t@[i + m] == p@[m],
        decreases p.len() - k,
    {
        if t[i + k] != p[k] {
            assert(t@.skip(i as int).take(p.len() as int)[k as int] != p@[k as int]);
            return false;
        }
        k = k + 1;
    }
    assert(t@.skip(i as int).take(p.len() as int) =~= p@);
    true
}

/// Reads a quoted string at `i`: what it holds and where what follows begins.
fn read_quoted_at(t: &Vec<char>, i: usize) -> (r: Option<(String, usize)>)
    requires
        i <= t.len(),
    ensures
        match read_quoted(t@.skip(i as int)) {
            Some((s, rest)) => r matches Some((v, j)) && v@ == s && i <= j <= t.len() && t@.skip(
                j as int,
            ) == rest,
            None => r is None,
        },
{
    if i < t.len() && t[i] == '"' {
        assert(t@.skip(i as int).skip(1) =~= t@.skip(i + 1));
        let ghost res = unesc(t@.skip(i + 1));
        match read_body_at(t, i + 1) {
            Some((v, j)) => {
                assert(res is Some);
                assert(j - i == 1 + res->Some_0.1);
                assert(i < j <= t.len());
                assert(t@.skip(i as int).skip(j - i) =~= t@.skip(j as int));
                Some((string_of(&v), j))
            },
            None => None,
        }
    } else {
        None
    }
}

fn read_bool_at(t: &Vec<char>, i: usize) -> (r: Option<(bool, usize)>)
    requires
        i <= t.len(),
    ensures
        match read_bool(t@.skip(i as int)) {
            Some((b, rest)) => r matches Some((v, j)) && v == b && i <= j <= t.len() && t@.skip(
                j as int,
            ) == rest,
            None => r is None,
        },
{
    proof {
        reveal_strlit("true");
        reveal_strlit("false");
    }
    if starts_at(t, i, "true") {
        assert(t@.skip(i as int).skip(4) =~= t@.skip(i + 4));
        Some((true, i + 4))
    } else if starts_at(t, i, "false") {
        assert(t@.skip(i as int).skip(5) =~= t@.skip(i + 5));
        Some((false, i + 5))
    } else {
        None
    }
}

fn read_opt_at(t: &Vec<char>, i: usize) -> (r: Option<(Option<String>, usize)>)
    requires
        i <= t.len(),
    ensures
        match read_opt(t@.skip(i as int)) {
            Some((o, rest)) => r matches Some((v, j)) && opt_view(v) == o && i <= j <= t.len()
                && t@.skip(j as int) == rest,
            None => r is None,
        },
{
    proof {
        reveal_strlit("null");
    }
    if starts_at(t, i, "null") {
        assert(t@.skip(i as int).skip(4) =~= t@.skip(i + 4));
        Some((None, i + 4))
    } else {
        match read_quoted_at(t, i) {
            Some((s, j)) => Some((Some(s), j)),
            None => None,
        }
    }
}

/// Skips `key` at `i`, if it is there.
fn skip_key(t: &Vec<char>, i: usize, key: &str) -> (r: Option<usize>)
    requires
        i <= t.len(),
    ensures
        starts_with(t@.skip(i as int), key@) ==> r == Some((i + key@.len()) as usize) && i
            + key@.len() <= t.len() && t@.skip(i as int).skip(key@.len() as int) == t@.skip(
            i + key@.len(),
        ),
        !starts_with(t@.skip(i as int), key@) ==> r is None,
{
    if starts_at(t, i, key) {
        let n = crate::chars::chars_of(key).len();
        assert(t@.skip(i as int).skip(n as int) =~= t@.skip(i + n));
        Some(i + n)
    } else {
        None
    }
}

fn read_key_bool_at(t: &Vec<char>, i: usize, key: &str) -> (r: Option<(bool, usize)>)
    requires
        i <= t.len(),
    ensures
        match read_key_bool(t@.skip(i as int), key@) {
            Some((b, rest)) => r matches Some((v, j)) && v == b && i <= j <= t.len() && t@.skip(
                j as int,
            ) == rest,
            None => r is None,
        },
{
    reveal(read_key_bool);
    match skip_key(t, i, key) {
        Some(k) => read_bool_at(t, k),
        None => None,
    }
}

fn read_key_opt_at(t: &Vec<char>, i: usize, key: &str) -> (r: Option<(Option<String>, usize)>)
    requires
        i <= t.len(),
    ensures
        match read_key_opt(t@.skip(i as int), key@) {
            Some((o, rest)) => r matches Some((v, j)) && opt_view(v) == o && i <= j <= t.len()
                && t@.skip(j as int) == rest,
            None => r is None,
        },
{
    reveal(read_key_opt);
    match skip_key(t, i, key) {
        Some(k) => read_opt_at(t, k),
        None => None,
    }
}

fn read_key_quoted_at(t: &Vec<char>, i: usize, key: &str) -> (r: Option<(String, usize)>)
    requires
        i <= t.len(),
    ensures
        match read_key_quoted(t@.skip(i as int), key@) {
            Some((s, rest)) => r matches Some((v, j)) && v@ == s && i <= j <= t.len() && t@.skip(
                j as int,
            ) == rest,
            None => r is None,
        },
{
    reveal(read_key_quoted);
    match skip_key(t, i, key) {
        Some(k) => read_quoted_at(t, k),
        None => None,
    }
}

/// Reads the decimal integer held by `t[a..b]`.
fn read_int_at(t: &Vec<char>, a: usize, b: usize) -> (r: Option<i64>)
    requires
        a <= b <= t.len(),
    ensures
        r == read_int(t@.subrange(a as int, b as int)),
{
    let ghost d = t@.subrange(a as int, b as int);
    let neg = a < b && t[a] == '-';
    let start: usize = if neg {
        a + 1
    } else {
        a
    };
    let ghost ds = t@.subrange(start as int, b as int);
    assert(a < b ==> d[0] == t@[a as int]);
    assert(neg ==> d.skip(1) =~= ds);
    assert(!neg ==> d =~= ds);
    if b - start < 1 || b - start > 19 {
        return None;
    }
    proof {
        reveal_with_fuel(pow10, 20);
    }
    let mut acc: u64 = 0;
    let mut k: usize = start;
    while k < b
        invariant
            start <= k <= b <= t.len(),
            b - start <= 19,
            ds == t@.subrange(start as int, b as int),
            d == t@.subrange(a as int, b as int),
            neg == (d.len() > 0 && d[0] == '-'),
            neg ==> d.skip(1) == ds,
            !neg ==> d == ds,
            forall|m: int| start <= m < k ==> is_digit(#[trigger] t@[m]),
            acc == digits_value(t@.subrange(start as int, k as int)),
            acc < pow10((k - start) as nat),
            pow10(19) == 10_000_000_000_000_000_000,
            pow10(18) == 1_000_000_000_000_000_000,
        decreases b - k,
    {
        let c = t[k];
        if !('0' <= c && c <= '9') {
            assert(ds[k - start] == c);
            assert(!is_digit(ds[k - start]));
            assert(read_digits(ds) is None);
            assert(neg ==> read_digits(d.skip(1)) is None);
            assert(!neg ==> read_digits(d) is None);
            return None;
        }
        let ghost p = pow10((k - start) as nat);
        proof {
            lemma_pow10_mono((k - start) as nat, 18);
            assert(t@.subrange(start as int, k + 1).drop_last() =~= t@.subrange(start as int, k as int));
            assert(acc * 10 + 9 < 10 * p) by (nonlinear_arith)
                requires
                    acc < p,
            ;
            assert(ds[k - start] == c);
        }
        acc = acc * 10 + (c as u64 - 48);
        k = k + 1;
    }
    assert(t@.subrange(start as int, k as int) =~= ds);
    let v: i128 = if neg {
        -(acc as i128)
    } else {
        acc as i128
    };
    if v < i64::MIN as i128 || v > i64::MAX as i128 {
        None
    } else {
        Some(v as i64)
    }
}

proof fn lemma_pow10_mono(j: nat, k: nat)
    requires
        j <= k,
    ensures
        pow10(j) <= pow10(k),
    decreases k,
{
    if j < k {
        lemma_pow10_mono(j, (k - 1) as nat);
    }
}

fn read_exp_tail_at(t: &Vec<char>, i: usize) -> (r: Option<i64>)
    requires
        i <= t.len(),
    ensures
        r == read_exp_tail(t@.skip(i as int)),
{
    reveal(read_exp_tail);
    match skip_key(t, i, ",\"exp\":") {
        Some(k) => {
            let ghost rest = t@.skip(k as int);
            if k < t.len() && t[t.len() - 1] == '}' {
                assert(rest.last() == '}');
                assert(rest.drop_last() =~= t@.subrange(k as int, t.len() - 1));
                read_int_at(t, k, t.len() - 1)
            } else {
                None
            }
        },
        None => None,
    }
}

impl Claims {
    /// Reads claims from the text that `to_text` writes; `None` for any other text.
    pub fn from_text(text: &str) -> (r: Option<Claims>)
        ensures
            match read_claims(text@) {
                Some(m) => r matches Some(c) && c@ == m,
                None => r is None,
            },
    {
        let t = crate::chars::chars_of(text);
        assert(t@.skip(0) =~= text@);
        let (authorized, i1) = match read_key_bool_at(&t, 0, "{\"authorized\":") {
            Some(x) => x,
            None => return None,
        };
        let (access_session_id, i2) = match read_key_opt_at(&t, i1, ",\"access_session_id\":") {
            Some(x) => x,
            None => return None,
        };
        let (refresh_session_id, i3) = match read_key_opt_at(&t, i2, ",\"refresh_session_id\":") {
            Some(x) => x,
            None => return None,
        };
        let (user_id, i4) = match read_key_quoted_at(&t, i3, ",\"user_id\":") {
            Some(x) => x,
            None => return None,
        };
        let exp = match read_exp_tail_at(&t, i4) {
            Some(e) => e,
            None => return None,
        };
        Some(Claims { authorized, access_session_id, refresh_session_id, user_id, exp })
    }
}

// ---- the text reads back as written ----

proof fn lemma_hex_round_trip(n: int)
    requires
        0 <= n < 16,
    ensures
        hex_value(hex_digit(n)) == Some(n),
{
}

/// A string body followed by its closing quote reads back to the string.
pub proof fn lemma_unesc_esc(s: Seq<char>, rest: Seq<char>)
    ensures
        unesc(esc(s) + seq!['"'] + rest) == Some((s, esc(s).len() + 1 as int)),
    decreases s.len(),
{
    let t = esc(s) + seq!['"'] + rest;
    if s.len() == 0 {
        assert(esc(s) =~= Seq::<char>::empty());
        assert(t[0] == '"');
    } else {
        let c = s[0];
        let s1 = s.drop_first();
        let e = esc_char(c);
        let tail = esc(s1) + seq!['"'] + rest;
        assert(esc(s) == e + esc(s1));
        assert(t =~= e + tail);
        lemma_unesc_esc(s1, rest);
        assert(t.skip(e.len() as int) =~= tail);
        assert(seq![c] + s1 =~= s);
        if c == '"' || c == '\\' {
            assert(t[0] == '\\' && t[1] == c);
        } else if (c as u32) < 0x20 {
            let hi = (c as u32 / 16) as int;
            let lo = (c as u32 % 16) as int;
            lemma_hex_round_trip(hi);
            lemma_hex_round_trip(lo);
            assert(t[0] == '\\' && t[1] == 'u' && t[2] == '0' && t[3] == '0');
            assert(t[4] == hex_digit(hi) && t[5] == hex_digit(lo));
            assert(hi == 0 || hi == 1);
            assert(hi * 16 + lo == c as u32);
            vstd::utf8::char_u32_cast(c, c as u32);
            assert(((c as u32) as u32) as char == c);
            assert(((c as u32) as u8) as char == ((c as u32) as u32) as char);
        } else {
            assert(t[0] == c);
        }
    }
}

/// A quoted string followed by anything reads back to the string and what follows.
pub proof fn lemma_read_quoted(s: Seq<char>, rest: Seq<char>)
    ensures
        read_quoted(quoted(s) + rest) == Some((s, rest)),
{
    let t = quoted(s) + rest;
    lemma_unesc_esc(s, rest);
    assert(t.skip(1) =~= esc(s) + seq!['"'] + rest);
    assert(t.skip(1 + (esc(s).len() + 1) as int) =~= rest);
}

proof fn lemma_starts_with(p: Seq<char>, rest: Seq<char>)
    ensures
        starts_with(p + rest, p),
        (p + rest).skip(p.len() as int) == rest,
{
    assert((p + rest).take(p.len() as int) =~= p);
    assert((p + rest).skip(p.len() as int) =~= rest);
}

pub open spec fn pow10(k: nat) -> nat
    decreases k,
{
    if k == 0 {
        1
    } else {
        10 * pow10((k - 1) as nat)
    }
}

proof fn lemma_nat_text(n: nat)
    ensures
        nat_text(n).len() >= 1,
        forall|i: int| 0 <= i < nat_text(n).len() ==> is_digit(#[trigger] nat_text(n)[i]),
        digits_value(nat_text(n)) == n,
    decreases n,
{
    if n >= 10 {
        lemma_nat_text(n / 10);
        let d = nat_text(n);
        assert(d.drop_last() =~= nat_text(n / 10));
        assert(d.last() == digit_char((n % 10) as int));
        assert(digit_char((n % 10) as int) as int == n % 10 + 48);
        assert(digits_value(d) == digits_value(nat_text(n / 10)) * 10 + (n % 10));
        assert((n / 10) * 10 + n % 10 == n);
    } else {
        let d = nat_text(n);
        assert(digit_char(n as int) as int == n + 48);
        assert(d.drop_last() =~= Seq::<char>::empty());
        assert(digits_value(d.drop_last()) == 0);
        assert(d.last() == digit_char(n as int));
    }
}

proof fn lemma_nat_text_len(n: nat, k: nat)
    requires
        1 <= k,
        n < pow10(k),
    ensures
        nat_text(n).len() <= k,
    decreases k,
{
    if n >= 10 {
        if k == 1 {
            assert(pow10(1) == 10 * pow10(0));
        } else {
            let p = pow10((k - 1) as nat);
            assert(n / 10 < p) by (nonlinear_arith)
                requires
                    n < 10 * p,
            ;
            lemma_nat_text_len(n / 10, (k - 1) as nat);
        }
    }
}

/// An integer written in decimal reads back to itself.
pub proof fn lemma_read_int(n: i64)
    ensures
        read_int(int_text(n as int)) == Some(n),
{
    if n < 0 {
        let m = (-(n as int)) as nat;
        lemma_nat_text(m);
        reveal_with_fuel(pow10, 20);
        lemma_nat_text_len(m, 19);
        let d = int_text(n as int);
        assert(d.skip(1) =~= nat_text(m));
    } else {
        lemma_nat_text(n as nat);
        reveal_with_fuel(pow10, 20);
        lemma_nat_text_len(n as nat, 19);
        assert(nat_text(n as nat)[0] != '-');
    }
}

proof fn lemma_read_bool(b: bool, rest: Seq<char>)
    ensures
        read_bool(bool_text(b) + rest) == Some((b, rest)),
{
    reveal_strlit("true");
    reveal_strlit("false");
    lemma_starts_with(bool_text(b), rest);
    if !b {
        let t = bool_text(b) + rest;
        assert(t[1] == 'a');
        assert("true"@[1] == 'r');
        assert(t.take(4)[1] != "true"@[1]);
    }
}

proof fn lemma_read_opt(o: Option<Seq<char>>, rest: Seq<char>)
    ensures
        read_opt(opt_text(o) + rest) == Some((o, rest)),
{
    reveal_strlit("null");
    match o {
        Some(s) => {
            let t = opt_text(o) + rest;
            assert(t[0] == '"');
            assert(t.len() >= 4 ==> t.take(4)[0] != "null"@[0]);
            lemma_read_quoted(s, rest);
        },
        None => {
            lemma_starts_with(opt_text(o), rest);
        },
    }
}

proof fn lemma_read_key_bool(key: Seq<char>, b: bool, rest: Seq<char>)
    ensures
        read_key_bool(key + (bool_text(b) + rest), key) == Some((b, rest)),
{
    reveal(read_key_bool);
    lemma_starts_with(key, bool_text(b) + rest);
    lemma_read_bool(b, rest);
}

proof fn lemma_read_key_opt(key: Seq<char>, o: Option<Seq<char>>, rest: Seq<char>)
    ensures
        read_key_opt(key + (opt_text(o) + rest), key) == Some((o, rest)),
{
    reveal(read_key_opt);
    lemma_starts_with(key, opt_text(o) + rest);
    lemma_read_opt(o, rest);
}

proof fn lemma_read_key_quoted(key: Seq<char>, s: Seq<char>, rest: Seq<char>)
    ensures
        read_key_quoted(key + (quoted(s) + rest), key) == Some((s, rest)),
{
    reveal(read_key_quoted);
    lemma_starts_with(key, quoted(s) + rest);
    lemma_read_quoted(s, rest);
}

proof fn lemma_read_exp_tail(e: i64)
    ensures
        read_exp_tail(key_exp() + (int_text(e as int) + seq!['}'])) == Some(e),
{
    reveal(read_exp_tail);
    let r5 = int_text(e as int) + seq!['}'];
    lemma_starts_with(key_exp(), r5);
    assert(r5.drop_last() =~= int_text(e as int));
    lemma_read_int(e);
}

/// The text of a claims object reads back to the same claims.
#[verifier::rlimit(40)]
pub proof fn lemma_read_claims(c: ClaimsModel)
    ensures
        read_claims(claims_text(c)) == Some(c),
{
    let r4 = key_exp() + (int_text(c.exp as int) + seq!['}']);
    let r3 = key_user() + (quoted(c.user_id) + r4);
    let r2 = key_refresh() + (opt_text(c.refresh_session_id) + r3);
    let r1 = key_access() + (opt_text(c.access_session_id) + r2);
    let t = key_authorized() + (bool_text(c.authorized) + r1);
    assert(claims_text(c) =~= t);
    lemma_read_key_bool(key_authorized(), c.authorized, r1);
    lemma_read_key_opt(key_access(), c.access_session_id, r2);
    lemma_read_key_opt(key_refresh(), c.refresh_session_id, r3);
    lemma_read_key_quoted(key_user(), c.user_id, r4);
    lemma_read_exp_tail(c.exp);
}

} // verus!
