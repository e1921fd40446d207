use vstd::prelude::*;
use crate::utf16::{utf16be, utf16be_to_chars};
use vstd::string::StringSliceAdditionalSpecFns;

verus! {

// ----- Tokens of a CMap stream -----

/// A token of a `ToUnicode` CMap stream.
pub enum CMapToken {
    /// A hex string `<...>`, as the bytes it encodes.
    Hex(Vec<u8>),
    /// A keyword, number or `/Name`, as its raw bytes.
    Word(Vec<u8>),
    /// `[`
    Open,
    /// `]`
    Close,
    /// Any other delimiter (`(`, `)`, `{`, `}`, `<<`, `>>`, a lone `>`).
    Delim,
}

/// What a token is, as mathematical values.
pub enum Tok {
    Hex(Seq<u8>),
    Word(Seq<u8>),
    Open,
    Close,
    Delim,
}

impl CMapToken {
    pub open spec fn view(&self) -> Tok {
        match self {
            CMapToken::Hex(b) => Tok::Hex(b@),
            CMapToken::Word(w) => Tok::Word(w@),
            CMapToken::Open => Tok::Open,
            CMapToken::Close => Tok::Close,
            CMapToken::Delim => Tok::Delim,
        }
    }
}

pub open spec fn view_tokens(t: Seq<CMapToken>) -> Seq<Tok> {
    t.map_values(|x: CMapToken| x.view())
}

pub open spec fn is_white(c: u8) -> bool {
    c == 0 || c == 9 || c == 10 || c == 12 || c == 13 || c == 32
}

pub open spec fn is_delimiter(c: u8) -> bool {
    c == 0x28 || c == 0x29 || c == 0x3C || c == 0x3E || c == 0x5B || c == 0x5D || c == 0x7B
        || c == 0x7D || c == 0x2F || c == 0x25
}

pub open spec fn is_regular(c: u8) -> bool {
    !is_white(c) && !is_delimiter(c)
}

/// The end of the run of regular bytes that starts at `j`.
pub open spec fn word_end(b: Seq<u8>, j: int) -> int
    decreases b.len() - j,
{
    if j < 0 || j >= b.len() || !is_regular(b[j]) {
        j
    } else {
        word_end(b, j + 1)
    }
}

/// The index of the first `>` at or after `j`, or the length.
pub open spec fn hex_end(b: Seq<u8>, j: int) -> int
    decreases b.len() - j,
{
    if j < 0 || j >= b.len() || b[j] == 0x3E {
        j
    } else {
        hex_end(b, j + 1)
    }
}

/// The index of the first line break at or after `j`, or the length.
pub open spec fn line_end(b: Seq<u8>, j: int) -> int
    decreases b.len() - j,
{
    if j < 0 || j >= b.len() || b[j] == 10 || b[j] == 13 {
        j
    } else {
        line_end(b, j + 1)
    }
}

/// The value of a hex digit, or -1.
pub open spec fn hex_value(c: u8) -> int {
    if 0x30 <= c <= 0x39 {
        c - 0x30
    } else if 0x61 <= c <= 0x66 {
        c - 0x61 + 10
    } else if 0x41 <= c <= 0x46 {
        c - 0x41 + 10
    } else {
        -1
    }
}

/// The bytes that the hex digits in `b[j..end]` encode, after a pending high
/// digit (`-1` for none). Other bytes are skipped; a last lone digit is its
/// byte's high half.
pub open spec fn hex_from(b: Seq<u8>, j: int, end: int, pending: int) -> Seq<u8>
    decreases end - j,
{
    if j >= end {
        if pending >= 0 {
            seq![(pending * 16) as u8]
        } else {
            Seq::empty()
        }
    } else if hex_value(b[j]) < 0 {
        hex_from(b, j + 1, end, pending)
    } else if pending < 0 {
        hex_from(b, j + 1, end, hex_value(b[j]))
    } else {
        seq![(pending * 16 + hex_value(b[j])) as u8] + hex_from(b, j + 1, end, -1)
    }
}

pub proof fn lemma_ends_bounded(b: Seq<u8>, j: int)
    requires
        0 <= j <= b.len(),
    ensures
        j <= word_end(b, j) <= b.len(),
        j <= hex_end(b, j) <= b.len(),
        j <= line_end(b, j) <= b.len(),
    decreases b.len() - j,
{
    if j < b.len() {
        lemma_ends_bounded(b, j + 1);
    }
}

/// The tokens of `b` from byte `i` on.
pub open spec fn lex_from(b: Seq<u8>, i: int) -> Seq<Tok>
    decreases b.len() - i,
    via lex_from_decreases
{
    if i < 0 || i >= b.len() {
        Seq::empty()
    } else if is_white(b[i]) {
        lex_from(b, i + 1)
    } else if b[i] == 0x25 {
        lex_from(b, line_end(b, i + 1))
    } else if b[i] == 0x3C {
        if i + 1 < b.len() && b[i + 1] == 0x3C {
            seq![Tok::Delim] + lex_from(b, i + 2)
        } else {
            let e = hex_end(b, i + 1);
            let next = if e < b.len() { e + 1 } else { e };
            seq![Tok::Hex(hex_from(b, i + 1, e, -1))] + lex_from(b, next)
        }
    } else if b[i] == 0x3E {
        if i + 1 < b.len() && b[i + 1] == 0x3E {
            seq![Tok::Delim] + lex_from(b, i + 2)
        } else {
            seq![Tok::Delim] + lex_from(b, i + 1)
        }
    } else if b[i] == 0x5B {
        seq![Tok::Open] + lex_from(b, i + 1)
    } else if b[i] == 0x5D {
        seq![Tok::Close] + lex_from(b, i + 1)
    } else if b[i] == 0x2F || is_regular(b[i]) {
        let e = word_end(b, i + 1);
        seq![Tok::Word(b.subrange(i, e))] + lex_from(b, e)
    } else {
        seq![Tok::Delim] + lex_from(b, i + 1)
    }
}

#[via_fn]
proof fn lex_from_decreases(b: Seq<u8>, i: int) {
    if 0 <= i < b.len() {
        lemma_ends_bounded(b, i + 1);
    }
}

/// The tokens of a CMap stream.
pub open spec fn lex(b: Seq<u8>) -> Seq<Tok> {
    lex_from(b, 0)
}

fn byte_is_white(c: u8) -> (r: bool)
    ensures
        r == is_white(c),
{
    c == 0 || c == 9 || c == 10 || c == 12 || c == 13 || c == 32
}

fn byte_is_regular(c: u8) -> (r: bool)
    ensures
        r == is_regular(c),
{
    !byte_is_white(c) && !(c == 0x28 || c == 0x29 || c == 0x3C || c == 0x3E || c == 0x5B || c
        == 0x5D || c == 0x7B || c == 0x7D || c == 0x2F || c == 0x25)
}

fn find_word_end(b: &[u8], j: usize) -> (r: usize)
    requires
        j <= b@.len(),
    ensures
        r == word_end(b@, j as int),
        j <= r <= b@.len(),
{
    let mut k = j;
    while k < b.len() && byte_is_regular(b[k])
        invariant
            j <= k <= b@.len(),
            word_end(b@, k as int) == word_end(b@, j as int),
        decreases b@.len() - k,
    {
        k = k + 1;
    }
    k
}

fn find_hex_end(b: &[u8], j: usize) -> (r: usize)
    requires
        j <= b@.len(),
    ensures
        r == hex_end(b@, j as int),
        j <= r <= b@.len(),
{
    let mut k = j;
    while k < b.len() && b[k] != 0x3E
        invariant
            j <= k <= b@.len(),
            hex_end(b@, k as int) == hex_end(b@, j as int),
        decreases b@.len() - k,
    {
        k = k + 1;
    }
    k
}

fn find_line_end(b: &[u8], j: usize) -> (r: usize)
    requires
        j <= b@.len(),
    ensures
        r == line_end(b@, j as int),
        j <= r <= b@.len(),
{
    let mut k = j;
    while k < b.len() && b[k] != 10 && b[k] != 13
        invariant
            j <= k <= b@.len(),
            line_end(b@, k as int) == line_end(b@, j as int),
        decreases b@.len() - k,
    {
        k = k + 1;
    }
    k
}

fn hex_digit(c: u8) -> (r: i32)
    ensures
        r == hex_value(c),
{
    if 0x30 <= c && c <= 0x39 {
        (c - 0x30) as i32
    } else if 0x61 <= c && c <= 0x66 {
        (c - 0x61 + 10) as i32
    } else if 0x41 <= c && c <= 0x46 {
        (c - 0x41 + 10) as i32
    } else {
        -1
    }
}

/// Decodes the hex digits of `b[start..end]` into bytes.
pub fn decode_hex(b: &[u8], start: usize, end: usize) -> (r: Vec<u8>)
    requires
        start <= end <= b@.len(),
    ensures
        r@ == hex_from(b@, start as int, end as int, -1),
{
    let mut out: Vec<u8> = Vec::new();
    let mut pending: i32 = -1;
    let mut j = start;
    while j < end
        invariant
            start <= j <= end <= b@.len(),
            -1 <= pending < 16,
            out@ + hex_from(b@, j as int, end as int, pending as int) == hex_from(
                b@,
                start as int,
                end as int,
                -1,
            ),
        decreases end - j,
    {
        let ghost before = out@;
        let d = hex_digit(b[j]);
        if d >= 0 {
            if pending < 0 {
                pending = d;
            } else {
                out.push((pending * 16 + d) as u8);
                assert(before + hex_from(b@, j as int, end as int, (pending as int)) =~= out@
                    + hex_from(b@, j + 1, end as int, -1));
                pending = -1;
            }
        }
        j = j + 1;
    }
    if pending >= 0 {
        out.push((pending * 16) as u8);
    }
    assert(out@ =~= hex_from(b@, start as int, end as int, -1));
    out
}

/// Splits a CMap stream into tokens.
pub fn tokenize(b: &[u8]) -> (r: Vec<CMapToken>)
    ensures
        view_tokens(r@) == lex(b@),
{
    let mut out: Vec<CMapToken> = Vec::new();
    let n = b.len();
    let mut i: usize = 0;
    while i < n
        invariant
            n == b@.len(),
            i <= n,
            view_tokens(out@) + lex_from(b@, i as int) == lex(b@),
        decreases n - i,
    {
        let ghost before = view_tokens(out@);
        let c = b[i];
        if byte_is_white(c) {
            i = i + 1;
        } else if c == 0x25 {
            i = find_line_end(b, i + 1);
        } else {
            let tok: CMapToken;
            let next: usize;
            if c == 0x3C && i + 1 < n && b[i + 1] == 0x3C {
                tok = CMapToken::Delim;
                next = i + 2;
            } else if c == 0x3C {
                let e = find_hex_end(b, i + 1);
                tok = CMapToken::Hex(decode_hex(b, i + 1, e));
                next = if e < n { e + 1 } else { e };
            } else if c == 0x3E && i + 1 < n && b[i + 1] == 0x3E {
                tok = CMapToken::Delim;
                next = i + 2;
            } else if c == 0x5B {
                tok = CMapToken::Open;
                next = i + 1;
            } else if c == 0x5D {
                tok = CMapToken::Close;
                next = i + 1;
            } else if c == 0x2F || byte_is_regular(c) {
                let e = find_word_end(b, i + 1);
                tok = CMapToken::Word(slice_range(b, i, e));
                next = e;
            } else {
                tok = CMapToken::Delim;
                next = i + 1;
            }
            let ghost tv = tok.view();
            assert(lex_from(b@, i as int) == seq![tv] + lex_from(b@, next as int));
            out.push(tok);
            assert(view_tokens(out@) =~= before.push(tv));
            assert(before + lex_from(b@, i as int) =~= view_tokens(out@) + lex_from(
                b@,
                next as int,
            ));
            i = next;
        }
    }
    out
}

fn slice_range(b: &[u8], start: usize, end: usize) -> (r: Vec<u8>)
    requires
        start <= end <= b@.len(),
    ensures
        r@ == b@.subrange(start as int, end as int),
{
    let mut out: Vec<u8> = Vec::new();
    let mut k = start;
    while k < end
        invariant
            start <= k <= end <= b@.len(),
            out@ == b@.subrange(start as int, k as int),
        decreases end - k,
    {
        out.push(b[k]);
        assert(out@ =~= b@.subrange(start as int, k + 1));
        k = k + 1;
    }
    out
}

// ----- The code-to-text mapping -----

/// One mapping of a CMap: a character code and the text it stands for.
pub struct CodeMapping {
    pub code: u16,
    pub text: Vec<char>,
}

/// A `ToUnicode` CMap: its mappings in stream order. A later mapping of a code
/// overrides an earlier one.
pub struct CMap {
    pub mappings: Vec<CodeMapping>,
}

pub open spec fn mappings_view(s: Seq<CodeMapping>) -> Seq<(u16, Seq<char>)> {
    s.map_values(|m: CodeMapping| (m.code, m.text@))
}

impl View for CMap {
    type V = Seq<(u16, Seq<char>)>;

    open spec fn view(&self) -> Seq<(u16, Seq<char>)> {
        mappings_view(self.mappings@)
    }
}

/// The text that the last mapping of `code` in `m` gives, if any.
pub open spec fn lookup(m: Seq<(u16, Seq<char>)>, code: u16) -> Option<Seq<char>>
    decreases m.len(),
{
    if m.len() == 0 {
        None
    } else if m.last().0 == code {
        Some(m.last().1)
    } else {
        lookup(m.drop_last(), code)
    }
}

/// Scanner modes: between blocks, inside `beginbfchar`, inside `beginbfrange`.
pub const TOP: u8 = 0;
pub const CHARS: u8 = 1;
pub const RANGES: u8 = 2;

pub open spec fn is_keyword(t: Tok, k: &str) -> bool {
    t is Word && t->Word_0 == k.spec_bytes()
}

/// A two-byte hex string, which gives a character code.
pub open spec fn is_code(t: Tok) -> bool {
    t is Hex && t->Hex_0.len() == 2
}

pub open spec fn code_of(t: Tok) -> u16 {
    (t->Hex_0[0] as int * 256 + t->Hex_0[1] as int) as u16
}

/// `u` with `k` added to its last byte, modulo 256; earlier bytes are kept.
pub open spec fn bump_last(u: Seq<u8>, k: int) -> Seq<u8> {
    if u.len() == 0 {
        u
    } else {
        u.update(u.len() - 1, ((u.last() as int + k) % 256) as u8)
    }
}

/// The mappings of `<start> <last> <u>`: code `start + k` maps to the decoding
/// of `u` with its last byte raised by `k`.
pub open spec fn range_single(start: int, last: int, u: Seq<u8>) -> Seq<(u16, Seq<char>)> {
    Seq::new(
        if last >= start {
            (last - start + 1) as nat
        } else {
            0
        },
        |k: int| ((start + k) as u16, utf16be(bump_last(u, k))),
    )
}

/// The index of the first `]` at or after `j`, or the length.
pub open spec fn close_index(t: Seq<Tok>, j: int) -> int
    decreases t.len() - j,
{
    if j < 0 || j >= t.len() || t[j] is Close {
        j
    } else {
        close_index(t, j + 1)
    }
}

pub proof fn lemma_close_index_bounded(t: Seq<Tok>, j: int)
    requires
        0 <= j <= t.len(),
    ensures
        j <= close_index(t, j) <= t.len(),
    decreases t.len() - j,
{
    if j < t.len() {
        lemma_close_index_bounded(t, j + 1);
    }
}

/// The mappings of `<code> <last> [...]` for the array items `t[j..e]`: one code
/// per item, while codes last; an item that is no hex string maps nothing.
pub open spec fn range_array(code: int, last: int, t: Seq<Tok>, j: int, e: int) -> Seq<
    (u16, Seq<char>),
>
    decreases e - j,
{
    if j >= e || code > last {
        Seq::empty()
    } else {
        (if t[j] is Hex {
            seq![(code as u16, utf16be(t[j]->Hex_0))]
        } else {
            Seq::empty()
        }) + range_array(code + 1, last, t, j + 1, e)
    }
}

/// Whether the scanner is inside a block: the measure that lets a failed
/// pair or triple hand its token back to the top level.
pub open spec fn in_block(mode: u8) -> int {
    if mode == TOP {
        0
    } else {
        1
    }
}

/// The mappings that the tokens `t[i..]` give in scanner mode `mode`. A pair or
/// triple of the wrong shape ends its block: scanning goes on at the top level
/// from the token where it failed, which is not consumed.
pub open spec fn scan(t: Seq<Tok>, i: int, mode: u8) -> Seq<(u16, Seq<char>)>
    decreases t.len() - i, in_block(mode),
    via scan_decreases
{
    if i < 0 || i >= t.len() {
        Seq::empty()
    } else if mode == CHARS {
        if i + 1 < t.len() && is_code(t[i]) && t[i + 1] is Hex {
            seq![(code_of(t[i]), utf16be(t[i + 1]->Hex_0))] + scan(t, i + 2, CHARS)
        } else {
            scan(t, i, TOP)
        }
    } else if mode == RANGES {
        if i + 2 < t.len() && is_code(t[i]) && is_code(t[i + 1]) && t[i + 2] is Hex {
            range_single(code_of(t[i]) as int, code_of(t[i + 1]) as int, t[i + 2]->Hex_0) + scan(
                t,
                i + 3,
                RANGES,
            )
        } else if i + 2 < t.len() && is_code(t[i]) && is_code(t[i + 1]) && t[i + 2] is Open {
            let e = close_index(t, i + 3);
            let next = if e < t.len() {
                e + 1
            } else {
                e
            };
            range_array(code_of(t[i]) as int, code_of(t[i + 1]) as int, t, i + 3, e) + scan(
                t,
                next,
                RANGES,
            )
        } else {
            scan(t, i, TOP)
        }
    } else if is_keyword(t[i], "beginbfchar") {
        scan(t, i + 1, CHARS)
    } else if is_keyword(t[i], "beginbfrange") {
        scan(t, i + 1, RANGES)
    } else if is_keyword(t[i], "endcmap") {
        Seq::empty()
    } else {
        scan(t, i + 1, TOP)
    }
}

#[via_fn]
proof fn scan_decreases(t: Seq<Tok>, i: int, mode: u8) {
    if 0 <= i && i + 3 <= t.len() {
        lemma_close_index_bounded(t, i + 3);
    }
}

/// The mappings of a `ToUnicode` CMap stream.
pub open spec fn cmap_of(data: Seq<u8>) -> Seq<(u16, Seq<char>)> {
    scan(lex(data), 0, TOP)
}

fn word_is(w: &Vec<u8>, k: &str) -> (r: bool)
    ensures
        r == (w@ == k.spec_bytes()),
{
    let kb = k.as_bytes();
    if w.len() != kb.len() {
        return false;
    }
    let mut j: usize = 0;
    while j < w.len()
        invariant
            w@.len() == kb@.len(),
            kb@ == k.spec_bytes(),
            j <= w@.len(),
            forall|m: int| 0 <= m < j ==> w@[m] == kb@[m],
        decreases w@.len() - j,
    {
        if w[j] != kb[j] {
            return false;
        }
        j = j + 1;
    }
    assert(w@ =~= kb@);
    true
}

fn code_value(a: &Vec<u8>) -> (r: u16)
    requires
        a@.len() == 2,
    ensures
        r == code_of(Tok::Hex(a@)),
{
    (a[0] as u16) * 256 + a[1] as u16
}

/// Appends the mappings of `<start> <last> <u>`.
fn push_range_single(out: &mut Vec<CodeMapping>, start: u16, last: u16, u: &Vec<u8>)
    ensures
        mappings_view(final(out)@) == mappings_view(old(out)@) + range_single(
            start as int,
            last as int,
            u@,
        ),
{
    let ghost before = mappings_view(out@);
    let ghost total = range_single(start as int, last as int, u@);
    if last < start {
        assert(mappings_view(out@) =~= before + total);
        return;
    }
    let count: u32 = (last - start) as u32 + 1;
    let mut cur = slice_range(u.as_slice(), 0, u.len());
    assert(cur@ =~= bump_last(u@, 0));
    let mut k: u32 = 0;
    while k < count
        invariant
            count == last - start + 1,
            k <= count,
            total == range_single(start as int, last as int, u@),
            total.len() == count,
            cur@ == bump_last(u@, k as int),
            mappings_view(out@) == before + total.subrange(0, k as int),
        decreases count - k,
    {
        let ghost prev = out@;
        let text = utf16be_to_chars(cur.as_slice());
        out.push(CodeMapping { code: start + k as u16, text });
        assert(total[k as int] == ((start as int + k as int) as u16, utf16be(
            bump_last(u@, k as int),
        )));
        assert(text@ == utf16be(bump_last(u@, k as int)));
        assert(mappings_view(out@) =~= mappings_view(prev).push(total[k as int]));
        assert(mappings_view(out@) =~= before + total.subrange(0, k + 1));
        let n = cur.len();
        if n > 0 {
            let v = cur[n - 1];
            let w: u8 = if v == 255 { 0 } else { v + 1 };
            cur.set(n - 1, w);
            assert(cur@ =~= bump_last(u@, k + 1));
        } else {
            assert(cur@ =~= bump_last(u@, k + 1));
        }
        k = k + 1;
    }
    assert(total.subrange(0, k as int) =~= total);
}

fn find_close(t: &Vec<CMapToken>, j: usize) -> (r: usize)
    requires
        j <= t@.len(),
    ensures
        r == close_index(view_tokens(t@), j as int),
        j <= r <= t@.len(),
{
    let ghost tv = view_tokens(t@);
    let mut k = j;
    while k < t.len() && !matches!(t[k], CMapToken::Close)
        invariant
            tv == view_tokens(t@),
            j <= k <= t@.len(),
            close_index(tv, k as int) == close_index(tv, j as int),
        decreases t@.len() - k,
    {
        k = k + 1;
    }
    k
}

/// Appends the mappings of `<start> <last> [...]` whose items are `t[j0..e]`.
fn push_range_array(
    out: &mut Vec<CodeMapping>,
    start: u16,
    last: u16,
    t: &Vec<CMapToken>,
    j0: usize,
    e: usize,
)
    requires
        j0 <= e <= t@.len(),
    ensures
        mappings_view(final(out)@) == mappings_view(old(out)@) + range_array(
            start as int,
            last as int,
            view_tokens(t@),
            j0 as int,
            e as int,
        ),
{
    let ghost tv = view_tokens(t@);
    let ghost before = mappings_view(out@);
    let ghost total = range_array(start as int, last as int, tv, j0 as int, e as int);
    let mut j = j0;
    let mut code: u32 = start as u32;
    while j < e && code <= last as u32
        invariant
            tv == view_tokens(t@),
            j0 <= j <= e <= t@.len(),
            code <= 0x10000,
            mappings_view(out@) + range_array(code as int, last as int, tv, j as int, e as int)
                == before + total,
        decreases e - j,
    {
        let ghost prev = mappings_view(out@);
        match &t[j] {
            CMapToken::Hex(u) => {
                let text = utf16be_to_chars(u.as_slice());
                out.push(CodeMapping { code: code as u16, text });
                assert(mappings_view(out@) =~= prev + seq![(code as u16, utf16be(u@))]);
            },
            _ => {
                assert(mappings_view(out@) =~= prev);
            },
        }
        assert(prev + range_array(code as int, last as int, tv, j as int, e as int)
            =~= mappings_view(out@) + range_array(code + 1, last as int, tv, j + 1, e as int));
        j = j + 1;
        code = code + 1;
    }
    assert(mappings_view(out@) =~= before + total);
}

/// Collects the mappings that a token sequence of a CMap stream gives.
pub fn scan_tokens(t: &Vec<CMapToken>) -> (r: CMap)
    ensures
        r@ == scan(view_tokens(t@), 0, TOP),
{
    let ghost tv = view_tokens(t@);
    let mut out: Vec<CodeMapping> = Vec::new();
    let n = t.len();
    let mut i: usize = 0;
    let mut mode: u8 = TOP;
    while i < n
        invariant
            tv == view_tokens(t@),
            n == t@.len(),
            i <= n,
            mode == TOP || mode == CHARS || mode == RANGES,
            mappings_view(out@) + scan(tv, i as int, mode) == scan(tv, 0, TOP),
        decreases n - i, in_block(mode),
    {
        let ghost prev = mappings_view(out@);
        assert(tv[i as int] == t@[i as int].view());
        if mode == CHARS {
            let mut mapped = false;
            if n - i > 1 {
                assert(tv[i + 1] == t@[i + 1].view());
                match (&t[i], &t[i + 1]) {
                    (CMapToken::Hex(a), CMapToken::Hex(u)) if a.len() == 2 => {
                        let code = code_value(a);
                        let text = utf16be_to_chars(u.as_slice());
                        out.push(CodeMapping { code, text });
                        assert(prev + scan(tv, i as int, mode) =~= mappings_view(out@) + scan(
                            tv,
                            i + 2,
                            CHARS,
                        ));
                        i = i + 2;
                        mapped = true;
                    },
                    _ => {},
                }
            }
            if !mapped {
                mode = TOP;
            }
        } else if mode == RANGES {
            let mut mapped = false;
            if n - i > 2 {
                assert(tv[i + 1] == t@[i + 1].view());
                assert(tv[i + 2] == t@[i + 2].view());
                match (&t[i], &t[i + 1], &t[i + 2]) {
                    (CMapToken::Hex(a), CMapToken::Hex(z), CMapToken::Hex(u)) if a.len() == 2
                        && z.len() == 2 => {
                        let s = code_value(a);
                        let l = code_value(z);
                        push_range_single(&mut out, s, l, u);
                        assert(prev + scan(tv, i as int, mode) =~= mappings_view(out@) + scan(
                            tv,
                            i + 3,
                            RANGES,
                        ));
                        i = i + 3;
                        mapped = true;
                    },
                    (CMapToken::Hex(a), CMapToken::Hex(z), CMapToken::Open) if a.len() == 2
                        && z.len() == 2 => {
                        let s = code_value(a);
                        let l = code_value(z);
                        let e = find_close(t, i + 3);
                        push_range_array(&mut out, s, l, t, i + 3, e);
                        let next = if e < n {
                            e + 1
                        } else {
                            e
                        };
                        assert(prev + scan(tv, i as int, mode) =~= mappings_view(out@) + scan(
                            tv,
                            next as int,
                            RANGES,
                        ));
                        i = next;
                        mapped = true;
                    },
                    _ => {},
                }
            }
            if !mapped {
                mode = TOP;
            }
        } else {
            match &t[i] {
                CMapToken::Word(w) => {
                    if word_is(w, "beginbfchar") {
                        mode = CHARS;
                        i = i + 1;
                    } else if word_is(w, "beginbfrange") {
                        mode = RANGES;
                        i = i + 1;
                    } else if word_is(w, "endcmap") {
                        i = n;
                    } else {
                        i = i + 1;
                    }
                },
                _ => {
                    i = i + 1;
                },
            }
        }
    }
    assert(mappings_view(out@) =~= scan(tv, 0, TOP));
    CMap { mappings: out }
}

/// Parses a `ToUnicode` CMap stream into its mappings. Malformed parts are
/// skipped, never fatal.
pub fn parse_cmap(data: &[u8]) -> (r: CMap)
    ensures
        r@ == cmap_of(data@),
{
    let t = tokenize(data);
    scan_tokens(&t)
}

impl CMap {
    /// The text that `code` maps to: its last mapping, if any.
    pub fn get(&self, code: u16) -> (r: Option<&Vec<char>>)
        ensures
            match r {
                Some(v) => lookup(self@, code) == Some(v@),
                None => lookup(self@, code) is None,
            },
    {
        let ghost m = self@;
        let mut k = self.mappings.len();
        assert(m.take(k as int) =~= m);
        while k > 0
            invariant
                m == self@,
                k <= self.mappings@.len(),
                lookup(m, code) == lookup(m.take(k as int), code),
            decreases k,
        {
            assert(m.take(k as int).drop_last() =~= m.take(k - 1));
            if self.mappings[k - 1].code == code {
                return Some(&self.mappings[k - 1].text);
            }
            k = k - 1;
        }
        None
    }
}

} // verus!
