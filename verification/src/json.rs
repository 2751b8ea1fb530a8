//! The wire format for request and response bodies.
//!
//! Bodies are JSON-shaped text in one fixed spelling: no extra whitespace,
//! fields in a fixed order, and `"` and `\` the only escaped characters
//! (written `\"` and `\\`). The encoders produce exactly this spelling and
//! the parsers accept exactly the encoders' image, so a parser returns
//! `Some` precisely on the bodies this service itself produces.

use crate::user::NewUser;
use crate::user::NewUserV;
use crate::user::User;
use crate::user::UserV;
use vstd::prelude::*;

verus! {

/// Relies on `String::push`: appends the character to the end of the string.
pub assume_specification[ String::push ](s: &mut String, ch: char)
    ensures
        final(s)@ == old(s)@.push(ch),
;

// ------------------------------------------------------------- decimals

/// Does `c` stand for a decimal digit?
pub open spec fn is_digit(c: char) -> bool {
    48 <= c as u32 && c as u32 <= 57
}

/// The numeric value of a digit character.
pub open spec fn digit_val(c: char) -> int {
    c as u32 - 48
}

/// The digit character for a value below ten.
pub open spec fn digit_char(d: int) -> char {
    if d == 0 {
        '0'
    } else if d == 1 {
        '1'
    } else if d == 2 {
        '2'
    } else if d == 3 {
        '3'
    } else if d == 4 {
        '4'
    } else if d == 5 {
        '5'
    } else if d == 6 {
        '6'
    } else if d == 7 {
        '7'
    } else if d == 8 {
        '8'
    } else {
        '9'
    }
}

/// The decimal spelling of `n`, most significant digit first.
pub open spec fn dec_rep(n: nat) -> Seq<char>
    decreases n,
{
    if n < 10 {
        seq![digit_char(n as int)]
    } else {
        dec_rep(n / 10).push(digit_char((n % 10) as int))
    }
}

/// The numeric value of a digit string.
pub open spec fn dec_val(s: Seq<char>) -> int
    decreases s.len(),
{
    if s.len() == 0 {
        0
    } else {
        dec_val(s.drop_last()) * 10 + digit_val(s.last())
    }
}

pub open spec fn all_digits(s: Seq<char>) -> bool {
    forall|i: int| 0 <= i < s.len() ==> is_digit(#[trigger] s[i])
}

proof fn lemma_dec_val_single(c: char)
    ensures
        dec_val(seq![c]) == digit_val(c),
{
    assert(seq![c].drop_last() =~= Seq::<char>::empty());
    assert(dec_val(Seq::<char>::empty()) == 0);
    assert(seq![c].last() == c);
}

proof fn lemma_digit_char_val(d: int)
    requires
        0 <= d < 10,
    ensures
        is_digit(digit_char(d)),
        digit_val(digit_char(d)) == d,
{
}

proof fn lemma_digit_char_inverse(c: char)
    requires
        is_digit(c),
    ensures
        digit_char(digit_val(c)) == c,
{
    let u = c as u32;
    vstd::utf8::char_u32_cast(c, u);
    if u == 48 {
        vstd::utf8::char_u32_cast('0', 48);
    } else if u == 49 {
        vstd::utf8::char_u32_cast('1', 49);
    } else if u == 50 {
        vstd::utf8::char_u32_cast('2', 50);
    } else if u == 51 {
        vstd::utf8::char_u32_cast('3', 51);
    } else if u == 52 {
        vstd::utf8::char_u32_cast('4', 52);
    } else if u == 53 {
        vstd::utf8::char_u32_cast('5', 53);
    } else if u == 54 {
        vstd::utf8::char_u32_cast('6', 54);
    } else if u == 55 {
        vstd::utf8::char_u32_cast('7', 55);
    } else if u == 56 {
        vstd::utf8::char_u32_cast('8', 56);
    } else {
        vstd::utf8::char_u32_cast('9', 57);
    }
}

/// The decimal spelling of a number is made of digits, is never empty,
/// spells that number, and starts with a zero only for zero itself.
pub proof fn lemma_dec_rep_props(n: nat)
    ensures
        all_digits(dec_rep(n)),
        dec_rep(n).len() >= 1,
        dec_val(dec_rep(n)) == n,
        dec_rep(n)[0] == '0' <==> n == 0,
    decreases n,
{
    if n < 10 {
        lemma_digit_char_val(n as int);
        lemma_dec_val_single(digit_char(n as int));
        assert(dec_rep(n) =~= seq![digit_char(n as int)]);
    } else {
        lemma_dec_rep_props(n / 10);
        lemma_digit_char_val((n % 10) as int);
        let p = dec_rep(n / 10);
        let c = digit_char((n % 10) as int);
        assert(p.push(c).drop_last() =~= p);
        assert(p.push(c).last() == c);
        vstd::arithmetic::div_mod::lemma_fundamental_div_mod(n as int, 10);
    }
}

/// The value of a digit string is not negative.
pub proof fn lemma_dec_val_nonneg(s: Seq<char>)
    requires
        all_digits(s),
    ensures
        dec_val(s) >= 0,
    decreases s.len(),
{
    if s.len() > 0 {
        lemma_dec_val_nonneg(s.drop_last());
    }
}

/// A digit string without a leading zero is the decimal spelling of its
/// own value: spelling and value determine each other.
pub proof fn lemma_dec_canon(s: Seq<char>)
    requires
        all_digits(s),
        s.len() >= 1,
        s[0] != '0' || s.len() == 1,
    ensures
        dec_val(s) >= 0,
        s == dec_rep(dec_val(s) as nat),
    decreases s.len(),
{
    lemma_dec_val_nonneg(s);
    if s.len() == 1 {
        assert(s =~= seq![s[0]]);
        lemma_dec_val_single(s[0]);
        lemma_digit_char_inverse(s[0]);
        assert(s =~= dec_rep(dec_val(s) as nat));
    } else {
        let p = s.drop_last();
        lemma_dec_val_nonneg(p);
        lemma_dec_canon(p);
        let m = dec_val(p) as nat;
        lemma_dec_rep_props(m);
        // `p` starts with the same character as `s` and is not "0",
        // so its value is at least one.
        assert(p[0] == s[0]);
        assert(m >= 1) by {
            if m == 0 {
                assert(p[0] == '0');
            }
        }
        let n = dec_val(s);
        assert(n == 10 * m + digit_val(s.last()));
        assert(n / 10 == m && n % 10 == digit_val(s.last())) by {
            vstd::arithmetic::div_mod::lemma_fundamental_div_mod_converse(
                n,
                10,
                m as int,
                digit_val(s.last()),
            );
        }
        lemma_digit_char_inverse(s.last());
        assert(s =~= dec_rep(n as nat));
    }
}

// ------------------------------------------------------- exec: decimals

/// The digit character for a value below ten.
fn digit_to_char(d: u8) -> (r: char)
    requires
        d < 10,
    ensures
        r == digit_char(d as int),
{
    match d {
        0 => '0',
        1 => '1',
        2 => '2',
        3 => '3',
        4 => '4',
        5 => '5',
        6 => '6',
        7 => '7',
        8 => '8',
        _ => '9',
    }
}

/// The decimal spelling of `n`.
pub fn u64_to_string(n: u64) -> (r: String)
    ensures
        r@ == dec_rep(n as nat),
    decreases n,
{
    if n < 10 {
        let mut s = String::new();
        s.push(digit_to_char(n as u8));
        proof {
            assert(s@ =~= dec_rep(n as nat));
        }
        s
    } else {
        let mut s = u64_to_string(n / 10);
        s.push(digit_to_char((n % 10) as u8));
        s
    }
}

// ------------------------------------------------------------- escaping

/// How a single character is written inside a quoted string: `"` and `\`
/// get a leading backslash, every other character stands for itself.
pub open spec fn esc_char(c: char) -> Seq<char> {
    if c == '"' || c == '\\' {
        seq!['\\', c]
    } else {
        seq![c]
    }
}

/// The escaped form of a string.
pub open spec fn esc(s: Seq<char>) -> Seq<char>
    decreases s.len(),
{
    if s.len() == 0 {
        Seq::empty()
    } else {
        esc_char(s[0]) + esc(s.drop_first())
    }
}

pub proof fn lemma_esc_append(a: Seq<char>, b: Seq<char>)
    ensures
        esc(a + b) == esc(a) + esc(b),
    decreases a.len(),
{
    if a.len() == 0 {
        assert(a + b =~= b);
        assert(esc(a) + esc(b) =~= esc(b));
    } else {
        assert((a + b).drop_first() =~= a.drop_first() + b);
        lemma_esc_append(a.drop_first(), b);
        assert(esc(a + b) =~= esc(a) + esc(b));
    }
}

pub proof fn lemma_esc_push(a: Seq<char>, c: char)
    ensures
        esc(a.push(c)) == esc(a) + esc_char(c),
{
    assert(a.push(c) =~= a + seq![c]);
    lemma_esc_append(a, seq![c]);
    assert(seq![c].drop_first() =~= Seq::<char>::empty());
    assert(esc(Seq::<char>::empty()) =~= Seq::<char>::empty());
    assert(seq![c][0] == c);
    assert(esc(seq![c]) =~= esc_char(c));
}

/// Reading a quoted string from position `i`: the characters up to the
/// first unescaped `"`, unescaped, together with the position just past
/// that quote; `None` when the text ends first or an escape is malformed.
pub open spec fn scan_str(s: Seq<char>, i: int) -> Option<(Seq<char>, int)>
    decreases s.len() - i,
{
    if i < 0 || i >= s.len() {
        None
    } else if s[i] == '"' {
        Some((Seq::empty(), i + 1))
    } else if s[i] == '\\' {
        if i + 1 < s.len() && (s[i + 1] == '"' || s[i + 1] == '\\') {
            match scan_str(s, i + 2) {
                Some((t, j)) => Some((seq![s[i + 1]] + t, j)),
                None => None,
            }
        } else {
            None
        }
    } else {
        match scan_str(s, i + 1) {
            Some((t, j)) => Some((seq![s[i]] + t, j)),
            None => None,
        }
    }
}

/// Scanning the escaped form of `e` followed by a closing quote finds
/// exactly `e` and stops just past the quote.
pub proof fn lemma_scan_of_esc(s: Seq<char>, i: int, e: Seq<char>, rest: Seq<char>)
    requires
        0 <= i <= s.len(),
        s.subrange(i, s.len() as int) == esc(e) + seq!['"'] + rest,
    ensures
        scan_str(s, i) == Some((e, i + esc(e).len() + 1)),
    decreases e.len(),
{
    let tail = s.subrange(i, s.len() as int);
    assert(tail.len() == s.len() - i);
    assert(tail.len() == esc(e).len() + 1 + rest.len());
    if e.len() == 0 {
        assert(esc(e).len() == 0);
        assert(tail[0] == '"');
        assert(s[i] == '"');
        assert(e =~= Seq::<char>::empty());
    } else {
        let c = e[0];
        let e1 = e.drop_first();
        assert(esc(e) == esc_char(c) + esc(e1));
        if c == '"' || c == '\\' {
            assert(esc(e).len() == 2 + esc(e1).len());
            assert(tail[0] == '\\' && tail[1] == c);
            assert(s[i] == '\\' && s[i + 1] == c);
            assert(s.subrange(i + 2, s.len() as int) =~= tail.subrange(2, tail.len() as int));
            assert(tail.subrange(2, tail.len() as int) =~= esc(e1) + seq!['"'] + rest);
            lemma_scan_of_esc(s, i + 2, e1, rest);
            assert(seq![s[i + 1]] + e1 =~= e);
        } else {
            assert(esc(e).len() == 1 + esc(e1).len());
            assert(tail[0] == c);
            assert(s[i] == c);
            assert(s.subrange(i + 1, s.len() as int) =~= tail.subrange(1, tail.len() as int));
            assert(tail.subrange(1, tail.len() as int) =~= esc(e1) + seq!['"'] + rest);
            lemma_scan_of_esc(s, i + 1, e1, rest);
            assert(seq![s[i]] + e1 =~= e);
        }
    }
}

/// What a successful scan found is the escaped form of its result,
/// closed by a quote.
pub proof fn lemma_scan_sound(s: Seq<char>, i: int)
    requires
        scan_str(s, i) is Some,
    ensures
        ({
            let (t, j) = scan_str(s, i)->Some_0;
            &&& 0 <= i < j <= s.len()
            &&& s.subrange(i, j) == esc(t) + seq!['"']
        }),
    decreases s.len() - i,
{
    let (t, j) = scan_str(s, i)->Some_0;
    if s[i] == '"' {
        assert(t =~= Seq::<char>::empty());
        assert(esc(t).len() == 0);
        assert(s.subrange(i, j) =~= esc(t) + seq!['"']);
    } else if s[i] == '\\' {
        lemma_scan_sound(s, i + 2);
        let (t1, j1) = scan_str(s, i + 2)->Some_0;
        assert(t == seq![s[i + 1]] + t1 && j == j1);
        assert(t[0] == s[i + 1]);
        assert(t.drop_first() =~= t1);
        assert(esc(t) == esc_char(t[0]) + esc(t1));
        assert(s.subrange(i, i + 2) =~= esc_char(t[0]));
        assert(s.subrange(i, j) =~= s.subrange(i, i + 2) + s.subrange(i + 2, j));
        assert(s.subrange(i, j) =~= esc(t) + seq!['"']);
    } else {
        lemma_scan_sound(s, i + 1);
        let (t1, j1) = scan_str(s, i + 1)->Some_0;
        assert(t == seq![s[i]] + t1 && j == j1);
        assert(t[0] == s[i]);
        assert(t.drop_first() =~= t1);
        assert(esc(t) == esc_char(t[0]) + esc(t1));
        assert(s.subrange(i, i + 1) =~= esc_char(t[0]));
        assert(s.subrange(i, j) =~= s.subrange(i, i + 1) + s.subrange(i + 1, j));
        assert(s.subrange(i, j) =~= esc(t) + seq!['"']);
    }
}

// ------------------------------------------------------- fixed tokens

/// The opening of a user body, up to the id value: `{"id":`.
pub open spec fn user_pre() -> Seq<char> {
    seq!['{', '"', 'i', 'd', '"', ':']
}

/// Between the id value and the e-mail value: `,"email":"`.
pub open spec fn user_mid() -> Seq<char> {
    seq![',', '"', 'e', 'm', 'a', 'i', 'l', '"', ':', '"']
}

/// The opening of a creation-request body: `{"email":"`.
pub open spec fn new_user_pre() -> Seq<char> {
    seq!['{', '"', 'e', 'm', 'a', 'i', 'l', '"', ':', '"']
}

/// The opening of an error body: `{"error":"`.
pub open spec fn error_pre() -> Seq<char> {
    seq!['{', '"', 'e', 'r', 'r', 'o', 'r', '"', ':', '"']
}

/// What closes each of these bodies after the final string value: `"}`,
/// with the closing quote read by the string scanner.
pub open spec fn obj_end() -> Seq<char> {
    seq!['}']
}

fn user_pre_token() -> (r: Vec<char>)
    ensures
        r@ == user_pre(),
{
    let v = vec!['{', '"', 'i', 'd', '"', ':'];
    proof {
        assert(v@ =~= user_pre());
    }
    v
}

fn user_mid_token() -> (r: Vec<char>)
    ensures
        r@ == user_mid(),
{
    let v = vec![',', '"', 'e', 'm', 'a', 'i', 'l', '"', ':', '"'];
    proof {
        assert(v@ =~= user_mid());
    }
    v
}

fn new_user_pre_token() -> (r: Vec<char>)
    ensures
        r@ == new_user_pre(),
{
    let v = vec!['{', '"', 'e', 'm', 'a', 'i', 'l', '"', ':', '"'];
    proof {
        assert(v@ =~= new_user_pre());
    }
    v
}

fn error_pre_token() -> (r: Vec<char>)
    ensures
        r@ == error_pre(),
{
    let v = vec!['{', '"', 'e', 'r', 'r', 'o', 'r', '"', ':', '"'];
    proof {
        assert(v@ =~= error_pre());
    }
    v
}

// ------------------------------------------------------- exec helpers

/// The characters of `s`, as a vector.
fn str_to_chars(s: &str) -> (r: Vec<char>)
    ensures
        r@ == s@,
{
    let n = s.unicode_len();
    let mut v: Vec<char> = Vec::new();
    let mut i: usize = 0;
    while i < n
        invariant
            i <= n,
            n == s@.len(),
            v@ == s@.subrange(0, i as int),
        decreases n - i,
    {
        let c = s.get_char(i);
        v.push(c);
        proof {
            assert(s@.subrange(0, i as int).push(c) =~= s@.subrange(0, i + 1 as int));
        }
        i += 1;
    }
    proof {
        assert(s@.subrange(0, n as int) =~= s@);
    }
    v
}

/// Does `v` carry exactly the characters of `tok` starting at `at`?
fn match_token(v: &Vec<char>, at: usize, tok: &Vec<char>) -> (r: bool)
    requires
        at <= v@.len(),
    ensures
        r == (at + tok@.len() <= v@.len() && v@.subrange(
            at as int,
            at as int + tok@.len() as int,
        ) == tok@),
{
    if tok.len() > v.len() - at {
        return false;
    }
    let mut i: usize = 0;
    while i < tok.len()
        invariant
            at + tok@.len() <= v@.len(),
            v@.len() <= usize::MAX,
            i <= tok@.len(),
            forall|k: int| 0 <= k < i ==> v@[at + k] == tok@[k],
        decreases tok@.len() - i,
    {
        if v[at + i] != tok[i] {
            proof {
                assert(v@.subrange(at as int, at as int + tok@.len() as int)[i as int] != tok@[i as int]);
            }
            return false;
        }
        i += 1;
    }
    proof {
        assert(v@.subrange(at as int, at as int + tok@.len() as int) =~= tok@);
    }
    true
}

/// Appends the characters of `tok` to `out`.
fn append_chars(out: &mut String, tok: &Vec<char>)
    ensures
        final(out)@ == old(out)@ + tok@,
{
    let mut i: usize = 0;
    while i < tok.len()
        invariant
            i <= tok@.len(),
            out@ == old(out)@ + tok@.subrange(0, i as int),
        decreases tok@.len() - i,
    {
        out.push(tok[i]);
        proof {
            assert((old(out)@ + tok@.subrange(0, i as int)).push(tok@[i as int]) =~= old(out)@
                + tok@.subrange(0, i + 1 as int));
        }
        i += 1;
    }
    proof {
        assert(tok@.subrange(0, tok@.len() as int) =~= tok@);
        assert(out@ =~= old(out)@ + tok@);
    }
}

/// Appends the escaped form of `s` to `out`.
fn append_escaped(out: &mut String, s: &str)
    ensures
        final(out)@ == old(out)@ + esc(s@),
{
    let n = s.unicode_len();
    let mut i: usize = 0;
    proof {
        assert(esc(s@.subrange(0, 0)) =~= Seq::<char>::empty());
        assert(out@ =~= old(out)@ + esc(s@.subrange(0, 0)));
    }
    while i < n
        invariant
            i <= n,
            n == s@.len(),
            out@ == old(out)@ + esc(s@.subrange(0, i as int)),
        decreases n - i,
    {
        let c = s.get_char(i);
        let ghost pre = s@.subrange(0, i as int);
        if c == '"' || c == '\\' {
            out.push('\\');
            out.push(c);
            proof {
                assert(out@ =~= old(out)@ + (esc(pre) + seq!['\\', c]));
            }
        } else {
            out.push(c);
            proof {
                assert(out@ =~= old(out)@ + (esc(pre) + seq![c]));
            }
        }
        proof {
            lemma_esc_push(pre, c);
            assert(pre.push(c) =~= s@.subrange(0, i + 1 as int));
        }
        i += 1;
    }
    proof {
        assert(s@.subrange(0, n as int) =~= s@);
    }
}

/// Reads a run of digits starting at `start`: returns the position of the
/// first character that is not a digit (or the end), and the value of the
/// run when it fits in a `u64`.
fn scan_digits(v: &Vec<char>, start: usize) -> (r: (usize, Option<u64>))
    requires
        start <= v@.len(),
    ensures
        ({
            let (j, val) = r;
            &&& start <= j <= v@.len()
            &&& all_digits(v@.subrange(start as int, j as int))
            &&& (j < v@.len() ==> !is_digit(v@[j as int]))
            &&& match val {
                Some(n) => n == dec_val(v@.subrange(start as int, j as int)),
                None => dec_val(v@.subrange(start as int, j as int)) > u64::MAX,
            }
        }),
{
    let mut j = start;
    let mut acc: Option<u64> = Some(0);
    proof {
        assert(v@.subrange(start as int, start as int) =~= Seq::<char>::empty());
    }
    while j < v.len() && 48 <= (v[j] as u32) && (v[j] as u32) <= 57
        invariant
            start <= j <= v@.len(),
            all_digits(v@.subrange(start as int, j as int)),
            match acc {
                Some(n) => n == dec_val(v@.subrange(start as int, j as int)),
                None => dec_val(v@.subrange(start as int, j as int)) > u64::MAX,
            },
        decreases v@.len() - j,
    {
        let c = v[j];
        let d = (c as u32 - 48) as u64;
        let ghost pre = v@.subrange(start as int, j as int);
        proof {
            lemma_dec_val_nonneg(pre);
            assert(pre.push(c) =~= v@.subrange(start as int, j + 1 as int));
            assert(pre.push(c).drop_last() =~= pre);
            assert(pre.push(c).last() == c);
        }
        acc = match acc {
            Some(a) => match a.checked_mul(10) {
                Some(m) => m.checked_add(d),
                None => None,
            },
            None => None,
        };
        j += 1;
    }
    (j, acc)
}

/// Reads a quoted string value starting at `start`, as [`scan_str`] does.
fn scan_string(v: &Vec<char>, start: usize) -> (r: Option<(String, usize)>)
    requires
        start <= v@.len(),
    ensures
        match r {
            Some(p) => scan_str(v@, start as int) == Some((p.0@, p.1 as int)) && start < p.1
                <= v@.len(),
            None => scan_str(v@, start as int) is None,
        },
{
    let mut i = start;
    let mut out = String::new();
    proof {
        if scan_str(v@, start as int) is Some {
            let (t, j) = scan_str(v@, start as int)->Some_0;
            assert(out@ + t =~= t);
        }
    }
    loop
        invariant
            start <= i <= v@.len(),
            scan_str(v@, i as int) is Some ==> scan_str(v@, start as int) == Some(
                (out@ + scan_str(v@, i as int)->Some_0.0, scan_str(v@, i as int)->Some_0.1),
            ),
            scan_str(v@, i as int) is None ==> scan_str(v@, start as int) is None,
        decreases v@.len() - i,
    {
        if i == v.len() {
            return None;
        }
        let c = v[i];
        if c == '"' {
            proof {
                assert(scan_str(v@, i as int) == Some((Seq::<char>::empty(), i + 1 as int)));
                assert(out@ + Seq::<char>::empty() =~= out@);
                lemma_scan_sound(v@, start as int);
            }
            return Some((out, i + 1));
        }
        if c == '\\' {
            if i + 1 == v.len() {
                return None;
            }
            let c2 = v[i + 1];
            if c2 == '"' || c2 == '\\' {
                let ghost out0 = out@;
                out.push(c2);
                proof {
                    if scan_str(v@, i + 2 as int) is Some {
                        let (t, jj) = scan_str(v@, i + 2 as int)->Some_0;
                        assert(scan_str(v@, i as int) == Some((seq![c2] + t, jj)));
                        assert(out0 + (seq![c2] + t) =~= out@ + t);
                    }
                }
                i += 2;
            } else {
                return None;
            }
        } else {
            let ghost out0 = out@;
            out.push(c);
            proof {
                if scan_str(v@, i + 1 as int) is Some {
                    let (t, jj) = scan_str(v@, i + 1 as int)->Some_0;
                    assert(scan_str(v@, i as int) == Some((seq![c] + t, jj)));
                    assert(out0 + (seq![c] + t) =~= out@ + t);
                }
            }
            i += 1;
        }
    }
}

// ------------------------------------------------------------- encoders

/// The one spelling of a user body: `{"id":<id>,"email":"<email>"}`.
pub open spec fn encode_user_spec(u: UserV) -> Seq<char> {
    user_pre() + dec_rep(u.id as nat) + user_mid() + esc(u.email) + seq!['"'] + obj_end()
}

/// The one spelling of a creation-request body: `{"email":"<email>"}`.
pub open spec fn encode_new_user_spec(u: NewUserV) -> Seq<char> {
    new_user_pre() + esc(u.email) + seq!['"'] + obj_end()
}

/// The one spelling of an error body: `{"error":"<message>"}`.
pub open spec fn encode_error_spec(msg: Seq<char>) -> Seq<char> {
    error_pre() + esc(msg) + seq!['"'] + obj_end()
}

/// The users of a list, one body after the other, separated by commas.
pub open spec fn encode_users_inner(l: Seq<UserV>) -> Seq<char>
    decreases l.len(),
{
    if l.len() == 0 {
        Seq::empty()
    } else if l.len() == 1 {
        encode_user_spec(l[0])
    } else {
        encode_user_spec(l[0]) + seq![','] + encode_users_inner(l.drop_first())
    }
}

/// The one spelling of a user-list body: `[<user>,...,<user>]`.
pub open spec fn encode_users_spec(l: Seq<UserV>) -> Seq<char> {
    seq!['['] + encode_users_inner(l) + seq![']']
}

/// The mathematical values of a sequence of users.
pub open spec fn users_views(s: Seq<User>) -> Seq<UserV> {
    s.map_values(|u: User| u@)
}

pub fn encode_user(u: &User) -> (r: String)
    ensures
        r@ == encode_user_spec(u@),
{
    let mut out = String::new();
    let pre = user_pre_token();
    append_chars(&mut out, &pre);
    let num = u64_to_string(u.id);
    out.append(num.as_str());
    let mid = user_mid_token();
    append_chars(&mut out, &mid);
    append_escaped(&mut out, u.email.as_str());
    out.push('"');
    out.push('}');
    proof {
        assert(out@ =~= encode_user_spec(u@));
    }
    out
}

pub fn encode_new_user(u: &NewUser) -> (r: String)
    ensures
        r@ == encode_new_user_spec(u@),
{
    let mut out = String::new();
    let pre = new_user_pre_token();
    append_chars(&mut out, &pre);
    append_escaped(&mut out, u.email.as_str());
    out.push('"');
    out.push('}');
    proof {
        assert(out@ =~= encode_new_user_spec(u@));
    }
    out
}

pub fn encode_error_body(msg: &str) -> (r: String)
    ensures
        r@ == encode_error_spec(msg@),
{
    let mut out = String::new();
    let pre = error_pre_token();
    append_chars(&mut out, &pre);
    append_escaped(&mut out, msg);
    out.push('"');
    out.push('}');
    proof {
        assert(out@ =~= encode_error_spec(msg@));
    }
    out
}

/// Appending one user to a list extends its body on the right, with a
/// comma when the list was not empty.
proof fn lemma_users_inner_snoc(l: Seq<UserV>, u: UserV)
    ensures
        encode_users_inner(l.push(u)) == if l.len() == 0 {
            encode_user_spec(u)
        } else {
            encode_users_inner(l) + seq![','] + encode_user_spec(u)
        },
    decreases l.len(),
{
    let lp = l.push(u);
    if l.len() == 0 {
        assert(lp.len() == 1);
        assert(lp[0] == u);
    } else if l.len() == 1 {
        assert(lp.len() == 2);
        assert(lp[0] == l[0]);
        assert(lp.drop_first() =~= seq![u]);
        assert(encode_users_inner(seq![u]) == encode_user_spec(u)) by {
            assert(seq![u][0] == u);
        }
    } else {
        assert(lp[0] == l[0]);
        assert(lp.drop_first() =~= l.drop_first().push(u));
        lemma_users_inner_snoc(l.drop_first(), u);
        assert(encode_users_inner(lp) =~= encode_users_inner(l) + seq![','] + encode_user_spec(u));
    }
}

pub fn encode_users(users: &Vec<User>) -> (r: String)
    ensures
        r@ == encode_users_spec(users_views(users@)),
{
    let mut out = String::new();
    out.push('[');
    let mut i: usize = 0;
    proof {
        assert(users_views(users@.subrange(0, 0)) =~= Seq::<UserV>::empty());
        assert(out@ =~= seq!['['] + encode_users_inner(users_views(users@.subrange(0, 0))));
    }
    while i < users.len()
        invariant
            i <= users@.len(),
            out@ == seq!['['] + encode_users_inner(users_views(users@.subrange(0, i as int))),
        decreases users@.len() - i,
    {
        let ghost l = users_views(users@.subrange(0, i as int));
        if i > 0 {
            out.push(',');
        }
        let one = encode_user(&users[i]);
        out.append(one.as_str());
        proof {
            assert(users_views(users@.subrange(0, i + 1 as int)) =~= l.push(users@[i as int]@));
            lemma_users_inner_snoc(l, users@[i as int]@);
            assert(l.len() == i);
            if i == 0 {
                assert(out@ =~= seq!['['] + encode_users_inner(l.push(users@[i as int]@)));
            } else {
                assert(out@ =~= seq!['['] + encode_users_inner(l.push(users@[i as int]@)));
            }
        }
        i += 1;
    }
    out.push(']');
    proof {
        assert(users@.subrange(0, users@.len() as int) =~= users@);
        assert(out@ =~= encode_users_spec(users_views(users@)));
    }
    out
}

// -------------------------------------------------------------- parsers

/// How an encoded user body decomposes into its regions.
proof fn lemma_encode_user_parts(u: UserV)
    ensures
        ({
            let s = encode_user_spec(u);
            let dl = dec_rep(u.id as nat).len() as int;
            let el = esc(u.email).len() as int;
            &&& dl >= 1
            &&& s.len() == 18 + dl + el
            &&& s.subrange(0, 6) == user_pre()
            &&& s.subrange(6, 6 + dl) == dec_rep(u.id as nat)
            &&& !is_digit(s[6 + dl])
            &&& s.subrange(6 + dl, 16 + dl) == user_mid()
            &&& s.subrange(16 + dl, s.len() as int) == esc(u.email) + seq!['"'] + seq!['}']
            &&& s[s.len() - 1] == '}'
        }),
{
    lemma_dec_rep_props(u.id as nat);
    let s = encode_user_spec(u);
    let dl = dec_rep(u.id as nat).len() as int;
    let el = esc(u.email).len() as int;
    assert(user_pre().len() == 6);
    assert(user_mid().len() == 10);
    assert(obj_end().len() == 1);
    assert(s.len() == 18 + dl + el);
    assert(s.subrange(0, 6) =~= user_pre());
    assert(s.subrange(6, 6 + dl) =~= dec_rep(u.id as nat));
    assert(s[6 + dl] == user_mid()[0]);
    assert(user_mid()[0] == ',');
    assert(!is_digit(','));
    assert(s.subrange(6 + dl, 16 + dl) =~= user_mid());
    assert(s.subrange(16 + dl, s.len() as int) =~= esc(u.email) + seq!['"'] + seq!['}']);
    assert(s[s.len() - 1] == '}');
}

/// A run of digits that ends at the first non-digit can only line up with
/// the id region of an encoded user body.
proof fn lemma_digit_region_align(s: Seq<char>, j: int, u: UserV)
    requires
        s == encode_user_spec(u),
        6 <= j <= s.len(),
        all_digits(s.subrange(6, j)),
        j < s.len() ==> !is_digit(s[j]),
    ensures
        j == 6 + dec_rep(u.id as nat).len(),
{
    lemma_encode_user_parts(u);
    lemma_dec_rep_props(u.id as nat);
    let dl = dec_rep(u.id as nat).len() as int;
    if j < 6 + dl {
        assert(s[j] == s.subrange(6, 6 + dl)[j - 6]);
        assert(is_digit(s[j]));
        assert(false);
    }
    if j > 6 + dl {
        assert(s[6 + dl] == s.subrange(6, j)[dl]);
        assert(is_digit(s[6 + dl]));
        assert(false);
    }
}

/// Reads a user body. Returns the user whose encoding is `s`, and `None`
/// exactly when `s` is no user's encoding.
pub fn parse_user(s: &str) -> (r: Option<User>)
    ensures
        match r {
            Some(u) => s@ == encode_user_spec(u@),
            None => forall|uv: UserV| s@ != encode_user_spec(uv),
        },
{
    let v = str_to_chars(s);
    let pre = user_pre_token();
    if !match_token(&v, 0, &pre) {
        proof {
            assert forall|uv: UserV| s@ != encode_user_spec(uv) by {
                if s@ == encode_user_spec(uv) {
                    lemma_encode_user_parts(uv);
                }
            }
        }
        return None;
    }
    let (j, val_opt) = scan_digits(&v, 6);
    if j == 6 || (j > 7 && v[6] == '0') {
        proof {
            assert forall|uv: UserV| s@ != encode_user_spec(uv) by {
                if s@ == encode_user_spec(uv) {
                    lemma_digit_region_align(s@, j as int, uv);
                    lemma_encode_user_parts(uv);
                    lemma_dec_rep_props(uv.id as nat);
                    let dl = dec_rep(uv.id as nat).len() as int;
                    if j > 7 {
                        assert(s@[6] == s@.subrange(6, 6 + dl)[0]);
                        assert(s@[6] == dec_rep(uv.id as nat)[0]);
                        assert(dec_rep(uv.id as nat)[0] == '0' ==> uv.id == 0);
                        assert(uv.id == 0 ==> dl == 1);
                    }
                }
            }
        }
        return None;
    }
    let id = match val_opt {
        Some(n) => n,
        None => {
            proof {
                assert forall|uv: UserV| s@ != encode_user_spec(uv) by {
                    if s@ == encode_user_spec(uv) {
                        lemma_digit_region_align(s@, j as int, uv);
                        lemma_encode_user_parts(uv);
                        lemma_dec_rep_props(uv.id as nat);
                    }
                }
            }
            return None;
        },
    };
    let mid = user_mid_token();
    if !match_token(&v, j, &mid) {
        proof {
            assert forall|uv: UserV| s@ != encode_user_spec(uv) by {
                if s@ == encode_user_spec(uv) {
                    lemma_digit_region_align(s@, j as int, uv);
                    lemma_encode_user_parts(uv);
                }
            }
        }
        return None;
    }
    let n = v.len();
    proof {
        assert(j + 10 <= n);
    }
    let k = j + 10;
    let scanned = scan_string(&v, k);
    match scanned {
        None => {
            proof {
                assert forall|uv: UserV| s@ != encode_user_spec(uv) by {
                    if s@ == encode_user_spec(uv) {
                        lemma_digit_region_align(s@, j as int, uv);
                        lemma_encode_user_parts(uv);
                        lemma_scan_of_esc(s@, k as int, uv.email, seq!['}']);
                    }
                }
            }
            None
        },
        Some((email, m)) => {
            let ok = m < v.len() && m + 1 == v.len() && v[m] == '}';
            if !ok {
                proof {
                    assert forall|uv: UserV| s@ != encode_user_spec(uv) by {
                        if s@ == encode_user_spec(uv) {
                            lemma_digit_region_align(s@, j as int, uv);
                            lemma_encode_user_parts(uv);
                            lemma_scan_of_esc(s@, k as int, uv.email, seq!['}']);
                            let el = esc(uv.email).len() as int;
                            assert(m == k + el + 1);
                            assert(m + 1 == s@.len());
                            assert(s@[m as int] == '}');
                        }
                    }
                }
                return None;
            }
            let u = User::new(id, email);
            proof {
                let digits = s@.subrange(6, j as int);
                lemma_dec_canon(digits);
                assert(digits == dec_rep(id as nat));
                lemma_scan_sound(s@, k as int);
                assert(s@.subrange(k as int, m as int) == esc(email@) + seq!['"']);
                assert(s@.subrange(m as int, s@.len() as int) =~= seq!['}']);
                assert(s@ =~= s@.subrange(0, 6) + s@.subrange(6, j as int) + s@.subrange(
                    j as int,
                    k as int,
                ) + s@.subrange(k as int, m as int) + s@.subrange(m as int, s@.len() as int));
                assert(s@ =~= encode_user_spec(u@));
            }
            Some(u)
        },
    }
}

/// How an encoded creation-request body decomposes into its regions.
proof fn lemma_encode_new_user_parts(u: NewUserV)
    ensures
        ({
            let s = encode_new_user_spec(u);
            let el = esc(u.email).len() as int;
            &&& s.len() == 12 + el
            &&& s.subrange(0, 10) == new_user_pre()
            &&& s.subrange(10, s.len() as int) == esc(u.email) + seq!['"'] + seq!['}']
            &&& s[s.len() - 1] == '}'
        }),
{
    let s = encode_new_user_spec(u);
    let el = esc(u.email).len() as int;
    assert(new_user_pre().len() == 10);
    assert(obj_end().len() == 1);
    assert(s.len() == 12 + el);
    assert(s.subrange(0, 10) =~= new_user_pre());
    assert(s.subrange(10, s.len() as int) =~= esc(u.email) + seq!['"'] + seq!['}']);
    assert(s[s.len() - 1] == '}');
}

/// Reads a creation-request body. Returns the request whose encoding is
/// `s`, and `None` exactly when `s` is no request's encoding.
pub fn parse_new_user(s: &str) -> (r: Option<NewUser>)
    ensures
        match r {
            Some(u) => s@ == encode_new_user_spec(u@),
            None => forall|nv: NewUserV| s@ != encode_new_user_spec(nv),
        },
{
    let v = str_to_chars(s);
    let pre = new_user_pre_token();
    if !match_token(&v, 0, &pre) {
        proof {
            assert forall|nv: NewUserV| s@ != encode_new_user_spec(nv) by {
                if s@ == encode_new_user_spec(nv) {
                    lemma_encode_new_user_parts(nv);
                }
            }
        }
        return None;
    }
    let scanned = scan_string(&v, 10);
    match scanned {
        None => {
            proof {
                assert forall|nv: NewUserV| s@ != encode_new_user_spec(nv) by {
                    if s@ == encode_new_user_spec(nv) {
                        lemma_encode_new_user_parts(nv);
                        lemma_scan_of_esc(s@, 10, nv.email, seq!['}']);
                    }
                }
            }
            None
        },
        Some((email, m)) => {
            let ok = m < v.len() && m + 1 == v.len() && v[m] == '}';
            if !ok {
                proof {
                    assert forall|nv: NewUserV| s@ != encode_new_user_spec(nv) by {
                        if s@ == encode_new_user_spec(nv) {
                            lemma_encode_new_user_parts(nv);
                            lemma_scan_of_esc(s@, 10, nv.email, seq!['}']);
                        }
                    }
                }
                return None;
            }
            let u = NewUser::new(email);
            proof {
                lemma_scan_sound(s@, 10);
                assert(s@.subrange(10, m as int) == esc(u@.email) + seq!['"']);
                assert(s@.subrange(m as int, s@.len() as int) =~= seq!['}']);
                assert(s@ =~= s@.subrange(0, 10) + s@.subrange(10, m as int) + s@.subrange(
                    m as int,
                    s@.len() as int,
                ));
                assert(s@ =~= encode_new_user_spec(u@));
            }
            Some(u)
        },
    }
}

/// Reads a whole string of digits as a number. Accepts exactly the
/// non-empty all-digit strings whose value fits in a `u64`, leading
/// zeroes included.
pub fn parse_u64(s: &str) -> (r: Option<u64>)
    ensures
        match r {
            Some(n) => s@.len() >= 1 && all_digits(s@) && n == dec_val(s@),
            None => s@.len() == 0 || !all_digits(s@) || dec_val(s@) > u64::MAX,
        },
{
    let v = str_to_chars(s);
    let (j, val) = scan_digits(&v, 0);
    if j == 0 {
        proof {
            if s@.len() >= 1 && all_digits(s@) {
                assert(is_digit(s@[0]));
            }
        }
        return None;
    }
    if j < v.len() {
        proof {
            if all_digits(s@) {
                assert(is_digit(s@[j as int]));
            }
        }
        return None;
    }
    proof {
        assert(s@.subrange(0, j as int) =~= s@);
    }
    val
}

/// Two users with the same encoding are the same user.
pub proof fn lemma_encode_user_injective(u: UserV, v: UserV)
    requires
        encode_user_spec(u) == encode_user_spec(v),
    ensures
        u == v,
{
    let s = encode_user_spec(u);
    lemma_encode_user_parts(u);
    lemma_encode_user_parts(v);
    lemma_dec_rep_props(u.id as nat);
    lemma_dec_rep_props(v.id as nat);
    let dl = dec_rep(u.id as nat).len() as int;
    lemma_digit_region_align(s, 6 + dl, v);
    assert(dec_rep(u.id as nat) == dec_rep(v.id as nat));
    assert(u.id == v.id);
    lemma_scan_of_esc(s, 16 + dl, u.email, seq!['}']);
    lemma_scan_of_esc(s, 16 + dl, v.email, seq!['}']);
    assert(u.email == v.email);
}

/// Two creation requests with the same encoding are the same request.
pub proof fn lemma_encode_new_user_injective(u: NewUserV, v: NewUserV)
    requires
        encode_new_user_spec(u) == encode_new_user_spec(v),
    ensures
        u == v,
{
    let s = encode_new_user_spec(u);
    lemma_encode_new_user_parts(u);
    lemma_encode_new_user_parts(v);
    lemma_scan_of_esc(s, 10, u.email, seq!['}']);
    lemma_scan_of_esc(s, 10, v.email, seq!['}']);
    assert(u.email == v.email);
}

/// The user a body stands for: the unique user whose encoding the body
/// is, if it is any user's encoding at all.
pub open spec fn parse_user_spec(s: Seq<char>) -> Option<UserV> {
    if exists|uv: UserV| s == encode_user_spec(uv) {
        Some(choose|uv: UserV| s == encode_user_spec(uv))
    } else {
        None
    }
}

/// The creation request a body stands for, if it is any request's
/// encoding at all.
pub open spec fn parse_new_user_spec(s: Seq<char>) -> Option<NewUserV> {
    if exists|nv: NewUserV| s == encode_new_user_spec(nv) {
        Some(choose|nv: NewUserV| s == encode_new_user_spec(nv))
    } else {
        None
    }
}

/// On a user's encoding, [`parse_user_spec`] finds exactly that user.
pub proof fn lemma_parse_user_spec_of(s: Seq<char>, u: UserV)
    requires
        s == encode_user_spec(u),
    ensures
        parse_user_spec(s) == Some(u),
{
    let w = choose|uv: UserV| s == encode_user_spec(uv);
    lemma_encode_user_injective(w, u);
}

/// On a request's encoding, [`parse_new_user_spec`] finds exactly that
/// request.
pub proof fn lemma_parse_new_user_spec_of(s: Seq<char>, u: NewUserV)
    requires
        s == encode_new_user_spec(u),
    ensures
        parse_new_user_spec(s) == Some(u),
{
    let w = choose|nv: NewUserV| s == encode_new_user_spec(nv);
    lemma_encode_new_user_injective(w, u);
}

/// An error body is never a user body, whatever the message.
pub proof fn lemma_error_body_no_user(msg: Seq<char>)
    ensures
        forall|uv: UserV| encode_error_spec(msg) != encode_user_spec(uv),
{
    let e = encode_error_spec(msg);
    assert(error_pre().len() == 10);
    assert(e[2] == error_pre()[2]);
    assert forall|uv: UserV| e != encode_user_spec(uv) by {
        if e == encode_user_spec(uv) {
            lemma_encode_user_parts(uv);
            assert(e[2] == e.subrange(0, 6)[2]);
            assert(e[2] == user_pre()[2]);
        }
    }
}

} // verus!
