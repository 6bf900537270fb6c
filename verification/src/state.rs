//! The persisted version-state record and its JSON encoding.
//!
//! The record has exactly two string fields, `tag_name` and `repo`, and is
//! written in the compact form `{"tag_name":"...","repo":"..."}`. The reader
//! accepts exactly that shape (JSON string escapes included), so that a state
//! file is read back as the record that was written.

use vstd::prelude::*;

use crate::errors::{digit_char, Error};
use crate::text::{chars_to_string, str_chars};

verus! {

/// The last successfully installed version for one install directory.
#[derive(Debug, Clone)]
pub struct VersionInfo {
    /// The installed release tag.
    pub tag_name: String,
    /// The repository the install came from, in `owner/name` form.
    pub repo: String,
}

/// Mathematical image of a [`VersionInfo`].
#[verifier::ext_equal]
pub struct VersionInfoView {
    pub tag_name: Seq<char>,
    pub repo: Seq<char>,
}

impl View for VersionInfo {
    type V = VersionInfoView;

    open spec fn view(&self) -> VersionInfoView {
        VersionInfoView { tag_name: self.tag_name@, repo: self.repo@ }
    }
}

/// The character for the hexadecimal digit `n`, lower case.
pub open spec fn hex_char(n: int) -> char {
    if n < 10 {
        digit_char(n)
    } else if n == 10 {
        'a'
    } else if n == 11 {
        'b'
    } else if n == 12 {
        'c'
    } else if n == 13 {
        'd'
    } else if n == 14 {
        'e'
    } else {
        'f'
    }
}

/// How the writer escapes one character inside a JSON string: quote and
/// backslash get a backslash escape, control characters a `\u00XX` escape,
/// and every other character stands for itself.
pub open spec fn esc_char(c: char) -> Seq<char> {
    if c == '"' {
        seq!['\\', '"']
    } else if c == '\\' {
        seq!['\\', '\\']
    } else if (c as u32) < 32 {
        seq!['\\', 'u', '0', '0', hex_char(c as u32 as int / 16), hex_char(c as u32 as int % 16)]
    } else {
        seq![c]
    }
}

/// The escaped form of a whole string.
pub open spec fn esc(s: Seq<char>) -> Seq<char>
    decreases s.len(),
{
    if s.len() == 0 {
        Seq::<char>::empty()
    } else {
        esc_char(s[0]) + esc(s.skip(1))
    }
}

/// The opening of the record up to the first value: `{"tag_name":"`.
pub open spec fn lit_open() -> Seq<char> {
    seq!['{', '"', 't', 'a', 'g', '_', 'n', 'a', 'm', 'e', '"', ':', '"']
}

/// Between the two values: `","repo":"`.
pub open spec fn lit_mid() -> Seq<char> {
    seq!['"', ',', '"', 'r', 'e', 'p', 'o', '"', ':', '"']
}

/// The closing of the record: `"}`.
pub open spec fn lit_close() -> Seq<char> {
    seq!['"', '}']
}

/// The exact character sequence the state writer produces for `v`.
pub open spec fn render_spec(v: VersionInfoView) -> Seq<char> {
    lit_open() + esc(v.tag_name) + lit_mid() + esc(v.repo) + lit_close()
}

/// Escaping a string one character longer appends that character's escape.
pub proof fn lemma_esc_snoc(t: Seq<char>, c: char)
    ensures
        esc(t.push(c)) == esc(t) + esc_char(c),
    decreases t.len(),
{
    if t.len() == 0 {
        assert(t.push(c)[0] == c);
        assert(t.push(c).skip(1) =~= Seq::<char>::empty());
        assert(esc(Seq::<char>::empty()) == Seq::<char>::empty());
        assert(esc(t.push(c)) == esc_char(c) + esc(t.push(c).skip(1)));
        assert(t =~= Seq::<char>::empty());
        assert(esc(t.push(c)) =~= esc(t) + esc_char(c));
    } else {
        assert(t.push(c)[0] == t[0]);
        assert(t.push(c).skip(1) =~= t.skip(1).push(c));
        lemma_esc_snoc(t.skip(1), c);
        assert(esc(t.push(c)) == esc_char(t[0]) + esc(t.skip(1).push(c)));
        assert(esc(t) == esc_char(t[0]) + esc(t.skip(1)));
        assert(esc(t.push(c)) =~= esc(t) + esc_char(c));
    }
}

/// The character for one hexadecimal digit.
fn exec_hex_char(n: u32) -> (r: char)
    requires
        n < 16,
    ensures
        r == hex_char(n as int),
{
    if n == 0 {
        '0'
    } else if n == 1 {
        '1'
    } else if n == 2 {
        '2'
    } else if n == 3 {
        '3'
    } else if n == 4 {
        '4'
    } else if n == 5 {
        '5'
    } else if n == 6 {
        '6'
    } else if n == 7 {
        '7'
    } else if n == 8 {
        '8'
    } else if n == 9 {
        '9'
    } else if n == 10 {
        'a'
    } else if n == 11 {
        'b'
    } else if n == 12 {
        'c'
    } else if n == 13 {
        'd'
    } else if n == 14 {
        'e'
    } else {
        'f'
    }
}

/// Append the escaped form of `s` to `out`.
fn escape_into(out: &mut Vec<char>, s: &Vec<char>)
    ensures
        final(out)@ == old(out)@ + esc(s@),
{
    let ghost out0 = out@;
    let mut i: usize = 0;
    while i < s.len()
        invariant
            i <= s@.len(),
            out@ == out0 + esc(s@.subrange(0, i as int)),
        decreases s@.len() - i,
    {
        let c = s[i];
        if c == '"' {
            out.push('\\');
            out.push('"');
        } else if c == '\\' {
            out.push('\\');
            out.push('\\');
        } else if (c as u32) < 32 {
            let code: u32 = c as u32;
            out.push('\\');
            out.push('u');
            out.push('0');
            out.push('0');
            out.push(exec_hex_char(code / 16));
            out.push(exec_hex_char(code % 16));
        } else {
            out.push(c);
        }
        proof {
            assert(s@.subrange(0, i + 1) =~= s@.subrange(0, i as int).push(s@[i as int]));
            lemma_esc_snoc(s@.subrange(0, i as int), s@[i as int]);
            assert(out@ =~= out0 + esc(s@.subrange(0, i + 1)));
        }
        i = i + 1;
    }
    proof {
        assert(s@.subrange(0, s@.len() as int) =~= s@);
    }
}

/// Append `{"tag_name":"` to `out`.
fn push_lit_open(out: &mut Vec<char>)
    ensures
        final(out)@ == old(out)@ + lit_open(),
{
    out.push('{');
    out.push('"');
    out.push('t');
    out.push('a');
    out.push('g');
    out.push('_');
    out.push('n');
    out.push('a');
    out.push('m');
    out.push('e');
    out.push('"');
    out.push(':');
    out.push('"');
    proof {
        assert(out@ =~= old(out)@ + lit_open());
    }
}

/// Append `","repo":"` to `out`.
fn push_lit_mid(out: &mut Vec<char>)
    ensures
        final(out)@ == old(out)@ + lit_mid(),
{
    out.push('"');
    out.push(',');
    out.push('"');
    out.push('r');
    out.push('e');
    out.push('p');
    out.push('o');
    out.push('"');
    out.push(':');
    out.push('"');
    proof {
        assert(out@ =~= old(out)@ + lit_mid());
    }
}

/// Append `"}` to `out`.
fn push_lit_close(out: &mut Vec<char>)
    ensures
        final(out)@ == old(out)@ + lit_close(),
{
    out.push('"');
    out.push('}');
    proof {
        assert(out@ =~= old(out)@ + lit_close());
    }
}

/// True when `c` is a hexadecimal digit.
pub open spec fn is_hex(c: char) -> bool {
    (48 <= c as u32 <= 57) || (97 <= c as u32 <= 102) || (65 <= c as u32 <= 70)
}

/// The value of a hexadecimal digit character.
pub open spec fn hex_val(c: char) -> int {
    if 48 <= c as u32 <= 57 {
        c as u32 - 48
    } else if 97 <= c as u32 <= 102 {
        c as u32 - 87
    } else {
        c as u32 - 55
    }
}

/// The control character with code `n`.
pub open spec fn ctrl_char(n: int) -> char {
    if n == 0 {
        '\u{0}'
    } else if n == 1 {
        '\u{1}'
    } else if n == 2 {
        '\u{2}'
    } else if n == 3 {
        '\u{3}'
    } else if n == 4 {
        '\u{4}'
    } else if n == 5 {
        '\u{5}'
    } else if n == 6 {
        '\u{6}'
    } else if n == 7 {
        '\u{7}'
    } else if n == 8 {
        '\u{8}'
    } else if n == 9 {
        '\u{9}'
    } else if n == 10 {
        '\u{a}'
    } else if n == 11 {
        '\u{b}'
    } else if n == 12 {
        '\u{c}'
    } else if n == 13 {
        '\u{d}'
    } else if n == 14 {
        '\u{e}'
    } else if n == 15 {
        '\u{f}'
    } else if n == 16 {
        '\u{10}'
    } else if n == 17 {
        '\u{11}'
    } else if n == 18 {
        '\u{12}'
    } else if n == 19 {
        '\u{13}'
    } else if n == 20 {
        '\u{14}'
    } else if n == 21 {
        '\u{15}'
    } else if n == 22 {
        '\u{16}'
    } else if n == 23 {
        '\u{17}'
    } else if n == 24 {
        '\u{18}'
    } else if n == 25 {
        '\u{19}'
    } else if n == 26 {
        '\u{1a}'
    } else if n == 27 {
        '\u{1b}'
    } else if n == 28 {
        '\u{1c}'
    } else if n == 29 {
        '\u{1d}'
    } else if n == 30 {
        '\u{1e}'
    } else {
        '\u{1f}'
    }
}

/// What a single-character escape stands for.
pub open spec fn unesc_simple(e: char) -> char {
    if e == 'n' {
        '\n'
    } else if e == 't' {
        '\t'
    } else if e == 'r' {
        '\r'
    } else if e == 'b' {
        '\u{8}'
    } else if e == 'f' {
        '\u{c}'
    } else {
        e
    }
}

/// True when `e` is one of the single-character escapes the reader accepts.
pub open spec fn is_simple_escape(e: char) -> bool {
    e == '"' || e == '\\' || e == '/' || e == 'n' || e == 't' || e == 'r' || e == 'b' || e == 'f'
}

/// Read a JSON string body up to its closing quote. Returns the decoded
/// content and what follows the closing quote, or `None` when the input is
/// not a well-formed string body. Unicode escapes are accepted for control
/// characters only, which covers everything the writer emits.
pub open spec fn parse_jstring(s: Seq<char>) -> Option<(Seq<char>, Seq<char>)>
    decreases s.len(),
{
    if s.len() == 0 {
        None
    } else if s[0] == '"' {
        Some((Seq::<char>::empty(), s.skip(1)))
    } else if s[0] == '\\' {
        if s.len() < 2 {
            None
        } else if is_simple_escape(s[1]) {
            match parse_jstring(s.skip(2)) {
                Some((t, rest)) => Some((seq![unesc_simple(s[1])] + t, rest)),
                None => None,
            }
        } else if s[1] == 'u' {
            if s.len() < 6 {
                None
            } else if is_hex(s[2]) && is_hex(s[3]) && is_hex(s[4]) && is_hex(s[5]) {
                let v = hex_val(s[2]) * 4096 + hex_val(s[3]) * 256 + hex_val(s[4]) * 16 + hex_val(
                    s[5],
                );
                if v < 32 {
                    match parse_jstring(s.skip(6)) {
                        Some((t, rest)) => Some((seq![ctrl_char(v)] + t, rest)),
                        None => None,
                    }
                } else {
                    None
                }
            } else {
                None
            }
        } else {
            None
        }
    } else if (s[0] as u32) < 32 {
        None
    } else {
        match parse_jstring(s.skip(1)) {
            Some((t, rest)) => Some((seq![s[0]] + t, rest)),
            None => None,
        }
    }
}

/// Drop the prefix `p` from `s`, or `None` when `s` does not start with it.
pub open spec fn strip_prefix(s: Seq<char>, p: Seq<char>) -> Option<Seq<char>> {
    if p.len() <= s.len() && s.subrange(0, p.len() as int) == p {
        Some(s.skip(p.len() as int))
    } else {
        None
    }
}

/// `lit_mid()` without the quote that closes the first value.
pub open spec fn lit_mid_rest() -> Seq<char> {
    seq![',', '"', 'r', 'e', 'p', 'o', '"', ':', '"']
}

/// What the state reader makes of a character sequence: the record it
/// denotes, or `None` when it is not a well-formed state record.
pub open spec fn parse_spec(s: Seq<char>) -> Option<VersionInfoView> {
    match strip_prefix(s, lit_open()) {
        Some(r1) => match parse_jstring(r1) {
            Some((tag, r2)) => match strip_prefix(r2, lit_mid_rest()) {
                Some(r3) => match parse_jstring(r3) {
                    Some((repo, r4)) => if r4 == seq!['}'] {
                        Some(VersionInfoView { tag_name: tag, repo: repo })
                    } else {
                        None
                    },
                    None => None,
                },
                None => None,
            },
            None => None,
        },
        None => None,
    }
}

/// Write the state record for `info` in its compact JSON form.
pub fn render_version_info(info: &VersionInfo) -> (r: String)
    ensures
        r@ == render_spec(info@),
{
    let mut out: Vec<char> = Vec::new();
    push_lit_open(&mut out);
    let tag = str_chars(info.tag_name.as_str());
    escape_into(&mut out, &tag);
    push_lit_mid(&mut out);
    let repo = str_chars(info.repo.as_str());
    escape_into(&mut out, &repo);
    push_lit_close(&mut out);
    proof {
        assert(out@ =~= render_spec(info@));
    }
    chars_to_string(&out)
}

/// True when `c` is a hexadecimal digit.
fn exec_is_hex(c: char) -> (r: bool)
    ensures
        r == is_hex(c),
{
    let n = c as u32;
    (48 <= n && n <= 57) || (97 <= n && n <= 102) || (65 <= n && n <= 70)
}

/// The value of a hexadecimal digit character.
fn exec_hex_val(c: char) -> (r: u32)
    requires
        is_hex(c),
    ensures
        r as int == hex_val(c),
        r < 16,
{
    let n = c as u32;
    if 48 <= n && n <= 57 {
        n - 48
    } else if 97 <= n && n <= 102 {
        n - 87
    } else {
        n - 55
    }
}

/// The control character with code `n`.
fn exec_ctrl_char(n: u32) -> (r: char)
    requires
        n < 32,
    ensures
        r == ctrl_char(n as int),
{
    if n == 0 {
        '\u{0}'
    } else if n == 1 {
        '\u{1}'
    } else if n == 2 {
        '\u{2}'
    } else if n == 3 {
        '\u{3}'
    } else if n == 4 {
        '\u{4}'
    } else if n == 5 {
        '\u{5}'
    } else if n == 6 {
        '\u{6}'
    } else if n == 7 {
        '\u{7}'
    } else if n == 8 {
        '\u{8}'
    } else if n == 9 {
        '\u{9}'
    } else if n == 10 {
        '\u{a}'
    } else if n == 11 {
        '\u{b}'
    } else if n == 12 {
        '\u{c}'
    } else if n == 13 {
        '\u{d}'
    } else if n == 14 {
        '\u{e}'
    } else if n == 15 {
        '\u{f}'
    } else if n == 16 {
        '\u{10}'
    } else if n == 17 {
        '\u{11}'
    } else if n == 18 {
        '\u{12}'
    } else if n == 19 {
        '\u{13}'
    } else if n == 20 {
        '\u{14}'
    } else if n == 21 {
        '\u{15}'
    } else if n == 22 {
        '\u{16}'
    } else if n == 23 {
        '\u{17}'
    } else if n == 24 {
        '\u{18}'
    } else if n == 25 {
        '\u{19}'
    } else if n == 26 {
        '\u{1a}'
    } else if n == 27 {
        '\u{1b}'
    } else if n == 28 {
        '\u{1c}'
    } else if n == 29 {
        '\u{1d}'
    } else if n == 30 {
        '\u{1e}'
    } else {
        '\u{1f}'
    }
}

/// What a single-character escape stands for.
fn exec_unesc_simple(e: char) -> (r: char)
    ensures
        r == unesc_simple(e),
{
    if e == 'n' {
        '\n'
    } else if e == 't' {
        '\t'
    } else if e == 'r' {
        '\r'
    } else if e == 'b' {
        '\u{8}'
    } else if e == 'f' {
        '\u{c}'
    } else {
        e
    }
}

/// Read a JSON string body starting at `start`, mirroring [`parse_jstring`].
fn parse_jstring_at(cs: &Vec<char>, start: usize) -> (r: Option<(Vec<char>, usize)>)
    requires
        start <= cs@.len(),
    ensures
        match r {
            Some(p) => start <= p.1 <= cs@.len() && parse_jstring(cs@.skip(start as int)) == Some(
                (p.0@, cs@.skip(p.1 as int)),
            ),
            None => parse_jstring(cs@.skip(start as int)) is None,
        },
    decreases cs@.len() - start,
{
    let ghost s = cs@.skip(start as int);
    if start >= cs.len() {
        proof {
            assert(s.len() == 0);
        }
        return None;
    }
    let c = cs[start];
    proof {
        assert(s[0] == cs@[start as int]);
    }
    if c == '"' {
        proof {
            assert(s.skip(1) =~= cs@.skip(start + 1));
        }
        let empty_content: Vec<char> = Vec::new();
        return Some((empty_content, start + 1));
    }
    if c == '\\' {
        if start + 1 >= cs.len() {
            proof {
                assert(s.len() < 2);
            }
            return None;
        }
        let e = cs[start + 1];
        proof {
            assert(s[1] == cs@[start as int + 1]);
        }
        if e == '"' || e == '\\' || e == '/' || e == 'n' || e == 't' || e == 'r' || e == 'b' || e
            == 'f' {
            proof {
                assert(is_simple_escape(s[1]));
                assert(s.skip(2) =~= cs@.skip(start + 2));
            }
            match parse_jstring_at(cs, start + 2) {
                Some(p) => {
                    let (tail_content, end) = p;
                    let ghost tview = tail_content@;
                    let u = exec_unesc_simple(e);
                    let mut content: Vec<char> = Vec::new();
                    content.push(u);
                    let mut tc = tail_content;
                    content.append(&mut tc);
                    proof {
                        assert(content@ =~= seq![unesc_simple(s[1])] + tview);
                    }
                    Some((content, end))
                },
                None => None,
            }
        } else if e == 'u' {
            if cs.len() - start < 6 {
                proof {
                    assert(s.len() < 6);
                }
                return None;
            }
            let h2 = cs[start + 2];
            let h3 = cs[start + 3];
            let h4 = cs[start + 4];
            let h5 = cs[start + 5];
            proof {
                assert(s[2] == cs@[start as int + 2]);
                assert(s[3] == cs@[start as int + 3]);
                assert(s[4] == cs@[start as int + 4]);
                assert(s[5] == cs@[start as int + 5]);
            }
            if exec_is_hex(h2) && exec_is_hex(h3) && exec_is_hex(h4) && exec_is_hex(h5) {
                let v: u32 = exec_hex_val(h2) * 4096 + exec_hex_val(h3) * 256 + exec_hex_val(h4)
                    * 16 + exec_hex_val(h5);
                if v < 32 {
                    proof {
                        assert(s.skip(6) =~= cs@.skip(start + 6));
                    }
                    match parse_jstring_at(cs, start + 6) {
                        Some(p) => {
                            let (tail_content, end) = p;
                            let ghost tview = tail_content@;
                            let u = exec_ctrl_char(v);
                            let mut content: Vec<char> = Vec::new();
                            content.push(u);
                            let mut tc = tail_content;
                            content.append(&mut tc);
                            proof {
                                assert(content@ =~= seq![ctrl_char(v as int)] + tview);
                            }
                            Some((content, end))
                        },
                        None => None,
                    }
                } else {
                    None
                }
            } else {
                None
            }
        } else {
            None
        }
    } else if (c as u32) < 32 {
        None
    } else {
        proof {
            assert(s.skip(1) =~= cs@.skip(start + 1));
        }
        match parse_jstring_at(cs, start + 1) {
            Some(p) => {
                let (tail_content, end) = p;
                let ghost tview = tail_content@;
                let mut content: Vec<char> = Vec::new();
                content.push(c);
                let mut tc = tail_content;
                content.append(&mut tc);
                proof {
                    assert(content@ =~= seq![s[0]] + tview);
                }
                Some((content, end))
            },
            None => None,
        }
    }
}

/// Check that `cs` carries `lit` at position `start`.
fn match_lit(cs: &Vec<char>, start: usize, lit: &Vec<char>) -> (r: Option<usize>)
    requires
        start <= cs@.len(),
    ensures
        match r {
            Some(j) => j == start + lit@.len() && strip_prefix(cs@.skip(start as int), lit@)
                == Some(cs@.skip(j as int)),
            None => strip_prefix(cs@.skip(start as int), lit@) is None,
        },
{
    let total: usize = cs.len();
    if total - start < lit.len() {
        proof {
            assert(cs@.skip(start as int).len() < lit@.len());
        }
        return None;
    }
    let mut j: usize = 0;
    while j < lit.len()
        invariant
            total == cs@.len(),
            start + lit@.len() <= total,
            j <= lit@.len(),
            forall|k: int| 0 <= k < j ==> cs@[start + k] == lit@[k],
        decreases lit@.len() - j,
    {
        if cs[start + j] != lit[j] {
            proof {
                let s = cs@.skip(start as int);
                assert(s.subrange(0, lit@.len() as int)[j as int] != lit@[j as int]);
            }
            return None;
        }
        j = j + 1;
    }
    proof {
        let s = cs@.skip(start as int);
        assert(s.subrange(0, lit@.len() as int) =~= lit@);
        assert(s.skip(lit@.len() as int) =~= cs@.skip(start + lit@.len()));
    }
    Some(start + lit.len())
}

/// The characters of `{"tag_name":"`.
fn make_lit_open() -> (r: Vec<char>)
    ensures
        r@ == lit_open(),
{
    let mut v: Vec<char> = Vec::new();
    push_lit_open(&mut v);
    proof {
        assert(v@ =~= lit_open());
    }
    v
}

/// The characters of `","repo":"`.
fn make_lit_mid_rest() -> (r: Vec<char>)
    ensures
        r@ == lit_mid_rest(),
{
    let mut v: Vec<char> = Vec::new();
    v.push(',');
    v.push('"');
    v.push('r');
    v.push('e');
    v.push('p');
    v.push('o');
    v.push('"');
    v.push(':');
    v.push('"');
    proof {
        assert(v@ =~= lit_mid_rest());
    }
    v
}

/// The parse error reported for a malformed state record.
fn parse_failure() -> (e: Error)
    ensures
        e is Parse,
{
    Error::Parse("invalid version state record".to_owned())
}

/// Read a state record back from the text of a state file.
///
/// The reader is deliberately exact: it accepts the compact form this
/// library writes — fields in this order, no surrounding whitespace,
/// unicode escapes for control characters only — and reports anything
/// else as a parse error. A state file is only ever written by
/// [`render_version_info`], so nothing accepted is ever lost.
pub fn parse_version_info(s: &str) -> (r: Result<VersionInfo, Error>)
    ensures
        match parse_spec(s@) {
            Some(v) => r is Ok && r->Ok_0@ == v,
            None => r is Err && r->Err_0 is Parse,
        },
{
    let cs = str_chars(s);
    proof {
        assert(cs@.skip(0) =~= s@);
    }
    let lit1 = make_lit_open();
    let j1 = match match_lit(&cs, 0, &lit1) {
        Some(j) => j,
        None => {
            return Err(parse_failure());
        },
    };
    let (tag, j2) = match parse_jstring_at(&cs, j1) {
        Some(p) => p,
        None => {
            return Err(parse_failure());
        },
    };
    let lit2 = make_lit_mid_rest();
    let j3 = match match_lit(&cs, j2, &lit2) {
        Some(j) => j,
        None => {
            return Err(parse_failure());
        },
    };
    let (repo, j4) = match parse_jstring_at(&cs, j3) {
        Some(p) => p,
        None => {
            return Err(parse_failure());
        },
    };
    if j4 < cs.len() && j4 + 1 == cs.len() && cs[j4] == '}' {
        proof {
            assert(cs@.skip(j4 as int) =~= seq!['}']);
        }
        let info = VersionInfo { tag_name: chars_to_string(&tag), repo: chars_to_string(&repo) };
        proof {
            assert(info@ =~= VersionInfoView { tag_name: tag@, repo: repo@ });
        }
        Ok(info)
    } else {
        proof {
            let rest = cs@.skip(j4 as int);
            if j4 + 1 == cs@.len() {
                assert(rest[0] != '}');
                assert(rest != seq!['}']);
            } else {
                assert(rest.len() != 1);
                assert(rest != seq!['}']);
            }
        }
        Err(parse_failure())
    }
}

/// Interpret the result of reading the state file: a read failure is a
/// filesystem error (never a default record), and content is parsed as a
/// state record.
pub fn load_version_info(read_result: Result<String, String>) -> (r: Result<VersionInfo, Error>)
    ensures
        match read_result {
            Err(m) => r is Err && r->Err_0 is Filesystem && r->Err_0->Filesystem_0@ == m@,
            Ok(content) => match parse_spec(content@) {
                Some(v) => r is Ok && r->Ok_0@ == v,
                None => r is Err && r->Err_0 is Parse,
            },
        },
{
    match read_result {
        Ok(content) => parse_version_info(content.as_str()),
        Err(m) => Err(Error::Filesystem(m)),
    }
}

/// Stripping a literal prefix from a sequence that carries it yields the rest.
pub proof fn lemma_strip_prefix_concat(p: Seq<char>, t: Seq<char>)
    ensures
        strip_prefix(p + t, p) == Some(t),
{
    assert((p + t).subrange(0, p.len() as int) =~= p);
    assert((p + t).skip(p.len() as int) =~= t);
}

/// A control character is recovered from its code.
proof fn lemma_ctrl_char_code(c: char)
    requires
        (c as u32) < 32,
    ensures
        ctrl_char(c as u32 as int) == c,
{
}

/// A hexadecimal digit character reads back as its value.
proof fn lemma_hex_char_val(n: int)
    requires
        0 <= n < 16,
    ensures
        is_hex(hex_char(n)),
        hex_val(hex_char(n)) == n,
{
}

/// The string reader inverts the writer's escaping: an escaped string
/// followed by its closing quote and anything else reads back exactly.
pub proof fn lemma_parse_esc(t: Seq<char>, tail: Seq<char>)
    ensures
        parse_jstring(esc(t) + seq!['"'] + tail) == Some((t, tail)),
    decreases t.len(),
{
    let s = esc(t) + seq!['"'] + tail;
    if t.len() == 0 {
        assert(esc(t) == Seq::<char>::empty());
        assert(s[0] == '"');
        assert(s.skip(1) =~= tail);
        assert(parse_jstring(s) == Some((Seq::<char>::empty(), tail)));
        assert(Seq::<char>::empty() =~= t);
    } else {
        let c = t[0];
        let t2 = t.skip(1);
        assert(esc(t) == esc_char(c) + esc(t2));
        lemma_parse_esc(t2, tail);
        let s2 = esc(t2) + seq!['"'] + tail;
        assert(s =~= esc_char(c) + s2);
        if c == '"' || c == '\\' {
            assert(s[0] == '\\');
            assert(s[1] == c);
            assert(is_simple_escape(s[1]));
            assert(unesc_simple(c) == c);
            assert(s.skip(2) =~= s2);
            assert(parse_jstring(s) == Some((seq![c] + t2, tail)));
            assert(seq![c] + t2 =~= t);
        } else if (c as u32) < 32 {
            let n = c as u32 as int;
            assert(s[0] == '\\');
            assert(s[1] == 'u');
            assert(s[2] == '0');
            assert(s[3] == '0');
            assert(s[4] == hex_char(n / 16));
            assert(s[5] == hex_char(n % 16));
            assert(!is_simple_escape('u'));
            assert(is_hex('0') && hex_val('0') == 0);
            lemma_hex_char_val(n / 16);
            lemma_hex_char_val(n % 16);
            assert(hex_val(s[2]) * 4096 + hex_val(s[3]) * 256 + hex_val(s[4]) * 16 + hex_val(s[5])
                == n);
            lemma_ctrl_char_code(c);
            assert(ctrl_char(n) == c);
            assert(s.skip(6) =~= s2);
            assert(parse_jstring(s) == Some((seq![c] + t2, tail)));
            assert(seq![c] + t2 =~= t);
        } else {
            assert(esc_char(c) == seq![c]);
            assert(s[0] == c);
            assert(s.skip(1) =~= s2);
            assert(parse_jstring(s) == Some((seq![c] + t2, tail)));
            assert(seq![c] + t2 =~= t);
        }
    }
}

/// Round trip of the state record: what the writer renders, the reader
/// parses back to the same record.
pub proof fn lemma_state_roundtrip(v: VersionInfoView)
    ensures
        parse_spec(render_spec(v)) == Some(v),
{
    let close_tail = seq!['}'];
    let repo_part = esc(v.repo) + seq!['"'] + close_tail;
    let tail1 = lit_mid_rest() + repo_part;
    let y1 = esc(v.tag_name) + seq!['"'] + tail1;
    assert(render_spec(v) =~= lit_open() + y1);
    lemma_strip_prefix_concat(lit_open(), y1);
    lemma_parse_esc(v.tag_name, tail1);
    lemma_strip_prefix_concat(lit_mid_rest(), repo_part);
    lemma_parse_esc(v.repo, close_tail);
    assert(parse_spec(render_spec(v)) == Some(VersionInfoView { tag_name: v.tag_name, repo: v.repo }));
    assert(VersionInfoView { tag_name: v.tag_name, repo: v.repo } =~= v);
}

} // verus!
