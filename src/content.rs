use vstd::prelude::*;
use crate::cmap::{cmap_of, lookup, parse_cmap, CMap};
use crate::utf16::scalar_to_char;

verus! {

broadcast use vstd::std_specs::vec::group_vec_axioms;

// ----- Fonts -----

/// How the bytes of a shown string become character codes.
#[derive(Clone, Copy, Debug, PartialEq, Eq)]
pub enum FontEncoding {
    /// Two bytes per code, big-endian.
    IdentityH,
    /// One byte per code.
    Other,
}

/// A font as a page's resources describe it.
pub struct Font {
    /// The font's own name.
    pub name: String,
    /// `None` where the font has no encoding descriptor.
    pub encoding: Option<FontEncoding>,
    /// The raw `ToUnicode` CMap stream, if the font has one.
    pub to_unicode: Option<Vec<u8>>,
}

/// A font that text can be decoded with: its encoding and its CMap.
pub struct FontInfo {
    pub encoding: Option<FontEncoding>,
    pub cmap: CMap,
}

/// What a `FontInfo` is, as mathematical values.
pub struct FontSpec {
    pub encoding: Option<FontEncoding>,
    pub cmap: Seq<(u16, Seq<char>)>,
}

impl View for FontInfo {
    type V = FontSpec;

    open spec fn view(&self) -> FontSpec {
        FontSpec { encoding: self.encoding, cmap: self.cmap@ }
    }
}

// ----- Operands -----

/// An operand of a content-stream operator.
pub enum Operand {
    /// A string, as its bytes.
    Str(Vec<u8>),
    Array(Vec<Operand>),
    /// A name, without its `/`.
    Name(String),
    /// Anything else (numbers, booleans, dictionaries, ...).
    Other,
}

// ----- Text decoding -----

/// The text that the codes of `m` give, or nothing for a code it lacks.
pub open spec fn mapped_or_empty(m: Seq<(u16, Seq<char>)>, code: u16) -> Seq<char> {
    match lookup(m, code) {
        Some(s) => s,
        None => Seq::empty(),
    }
}

/// Identity-H decoding of `d[i..]`: one big-endian code per two bytes; a last
/// odd byte is ignored.
pub open spec fn identity_h_from(d: Seq<u8>, i: int, m: Seq<(u16, Seq<char>)>) -> Seq<char>
    decreases d.len() - i,
{
    if i < 0 || i + 1 >= d.len() {
        Seq::empty()
    } else {
        mapped_or_empty(m, (d[i] as int * 256 + d[i + 1] as int) as u16) + identity_h_from(
            d,
            i + 2,
            m,
        )
    }
}

/// One-byte decoding of `d[i..]`: a byte that `m` lacks stands for the char of
/// the same value.
pub open spec fn single_byte_from(d: Seq<u8>, i: int, m: Seq<(u16, Seq<char>)>) -> Seq<char>
    decreases d.len() - i,
{
    if i < 0 || i >= d.len() {
        Seq::empty()
    } else {
        (match lookup(m, d[i] as u16) {
            Some(s) => s,
            None => seq![(d[i] as u32) as char],
        }) + single_byte_from(d, i + 1, m)
    }
}

/// The text of a shown string under font `f`.
pub open spec fn decode_string(d: Seq<u8>, f: FontSpec) -> Seq<char> {
    match f.encoding {
        None => Seq::empty(),
        Some(FontEncoding::IdentityH) => identity_h_from(d, 0, f.cmap) + seq!['\n'],
        Some(FontEncoding::Other) => single_byte_from(d, 0, f.cmap),
    }
}

/// The text of an operand under font `f`: strings are decoded, arrays are
/// walked in order, anything else gives nothing.
pub open spec fn decode_operand(p: Operand, f: FontSpec) -> Seq<char>
    decreases p, 0int,
{
    match p {
        Operand::Str(d) => decode_string(d@, f),
        Operand::Array(v) => decode_items(v, v@.len() as int, f),
        _ => Seq::empty(),
    }
}

/// The text of the first `k` items of `v`, one after another.
pub open spec fn decode_items(v: Vec<Operand>, k: int, f: FontSpec) -> Seq<char>
    decreases v, k,
{
    if k <= 0 || k > v@.len() {
        Seq::empty()
    } else {
        decode_items(v, k - 1, f) + decode_operand(v[k - 1], f)
    }
}

fn identity_h(d: &Vec<u8>, m: &CMap) -> (r: Vec<char>)
    ensures
        r@ == identity_h_from(d@, 0, m@),
{
    let mut out: Vec<char> = Vec::new();
    let n = d.len();
    let mut i: usize = 0;
    while n - i > 1
        invariant
            n == d@.len(),
            i <= n,
            out@ + identity_h_from(d@, i as int, m@) == identity_h_from(d@, 0, m@),
        decreases n - i,
    {
        let ghost prev = out@;
        let code: u16 = (d[i] as u16) * 256 + d[i + 1] as u16;
        match m.get(code) {
            Some(s) => {
                let mut t = s.clone();
                assert(t@ == s@);
                out.append(&mut t);
            },
            None => {},
        }
        assert(prev + identity_h_from(d@, i as int, m@) =~= out@ + identity_h_from(
            d@,
            i + 2,
            m@,
        ));
        i = i + 2;
    }
    out
}

fn single_byte(d: &Vec<u8>, m: &CMap) -> (r: Vec<char>)
    ensures
        r@ == single_byte_from(d@, 0, m@),
{
    let mut out: Vec<char> = Vec::new();
    let n = d.len();
    let mut i: usize = 0;
    while i < n
        invariant
            n == d@.len(),
            i <= n,
            out@ + single_byte_from(d@, i as int, m@) == single_byte_from(d@, 0, m@),
        decreases n - i,
    {
        let ghost prev = out@;
        let b = d[i];
        match m.get(b as u16) {
            Some(s) => {
                let mut t = s.clone();
                assert(t@ == s@);
                out.append(&mut t);
            },
            None => {
                out.push(scalar_to_char(b as u32));
            },
        }
        assert(prev + single_byte_from(d@, i as int, m@) =~= out@ + single_byte_from(
            d@,
            i + 1,
            m@,
        ));
        i = i + 1;
    }
    out
}

/// Decodes an operand of a text-showing operator under `info`.
pub fn add_primitive(p: &Operand, info: &FontInfo) -> (r: Vec<char>)
    ensures
        r@ == decode_operand(*p, info@),
    decreases p,
{
    match p {
        Operand::Str(d) => {
            match info.encoding {
                None => Vec::new(),
                Some(FontEncoding::IdentityH) => {
                    let mut out = identity_h(d, &info.cmap);
                    out.push('\n');
                    out
                },
                Some(FontEncoding::Other) => single_byte(d, &info.cmap),
            }
        },
        Operand::Array(v) => {
            let mut out: Vec<char> = Vec::new();
            let mut k: usize = 0;
            while k < v.len()
                invariant
                    *p == Operand::Array(*v),
                    k <= v@.len(),
                    out@ == decode_items(*v, k as int, info@),
                decreases v@.len() - k,
            {
                proof {
                    assert(decreases_to!(*p => (*p)->Array_0));
                    assert(decreases_to!(*v => v[k as int]));
                    assert(decreases_to!(*p => v[k as int]));
                }
                let mut t = add_primitive(&v[k], info);
                out.append(&mut t);
                k = k + 1;
            }
            out
        },
        _ => Vec::new(),
    }
}

/// Decodes all operands of a text-showing operator, one after another.
fn decode_all(v: &Vec<Operand>, info: &FontInfo) -> (r: Vec<char>)
    ensures
        r@ == decode_items(*v, v@.len() as int, info@),
{
    let mut out: Vec<char> = Vec::new();
    let mut k: usize = 0;
    while k < v.len()
        invariant
            k <= v@.len(),
            out@ == decode_items(*v, k as int, info@),
        decreases v@.len() - k,
    {
        let mut t = add_primitive(&v[k], info);
        out.append(&mut t);
        k = k + 1;
    }
    out
}

// ----- Pages and the font cache -----

/// A font of a page's font resources, under its resource name.
pub struct NamedFont {
    pub name: String,
    pub font: Font,
}

/// A named graphics state of a page; it may select a font.
pub struct GraphicsState {
    pub name: String,
    pub font: Option<Font>,
}

/// A content-stream operator with its operands.
pub struct Operation {
    pub operator: String,
    pub operands: Vec<Operand>,
}

/// What the extraction reads of a page: its font resources, its graphics
/// states and its decoded operator sequence.
pub struct Page {
    pub fonts: Vec<NamedFont>,
    pub graphics_states: Vec<GraphicsState>,
    pub operations: Vec<Operation>,
}

/// A font with a `ToUnicode` stream, as the cache holds it.
pub open spec fn font_spec(f: Font) -> FontSpec {
    FontSpec { encoding: f.encoding, cmap: cmap_of(f.to_unicode->Some_0@) }
}

/// The cache entry that adding `font` under `name` makes: none for a font
/// without a `ToUnicode` stream.
pub open spec fn entry_of(name: Seq<char>, font: Font) -> Seq<(Seq<char>, FontSpec)> {
    if font.to_unicode is Some {
        seq![(name, font_spec(font))]
    } else {
        Seq::empty()
    }
}

/// The entries of a page's font resources, under their resource names.
pub open spec fn font_entries(s: Seq<NamedFont>) -> Seq<(Seq<char>, FontSpec)>
    decreases s.len(),
{
    if s.len() == 0 {
        Seq::empty()
    } else {
        font_entries(s.drop_last()) + entry_of(s.last().name@, s.last().font)
    }
}

/// The entries of the fonts that graphics states select, under the fonts' own
/// names.
pub open spec fn gs_entries(s: Seq<GraphicsState>) -> Seq<(Seq<char>, FontSpec)>
    decreases s.len(),
{
    if s.len() == 0 {
        Seq::empty()
    } else {
        gs_entries(s.drop_last()) + match s.last().font {
            Some(f) => entry_of(f.name@, f),
            None => Seq::empty(),
        }
    }
}

/// The font cache of a page, in the order of insertion.
pub open spec fn cache_entries(p: Page) -> Seq<(Seq<char>, FontSpec)> {
    font_entries(p.fonts@) + gs_entries(p.graphics_states@)
}

/// The font last added under `name`, if any.
pub open spec fn find_font(c: Seq<(Seq<char>, FontSpec)>, name: Seq<char>) -> Option<FontSpec>
    decreases c.len(),
{
    if c.len() == 0 {
        None
    } else if c.last().0 == name {
        Some(c.last().1)
    } else {
        find_font(c.drop_last(), name)
    }
}

/// The last graphics state named `name`, if any.
pub open spec fn find_gs(s: Seq<GraphicsState>, name: Seq<char>) -> Option<GraphicsState>
    decreases s.len(),
{
    if s.len() == 0 {
        None
    } else if s.last().name@ == name {
        Some(s.last())
    } else {
        find_gs(s.drop_last(), name)
    }
}

/// A font of the cache under the name it is looked up by.
pub struct CachedFont {
    pub name: String,
    pub info: FontInfo,
}

/// The fonts of one page, each with its decoded CMap.
pub struct Cache {
    pub fonts: Vec<CachedFont>,
}

impl View for Cache {
    type V = Seq<(Seq<char>, FontSpec)>;

    open spec fn view(&self) -> Seq<(Seq<char>, FontSpec)> {
        self.fonts@.map_values(|c: CachedFont| (c.name@, c.info@))
    }
}

impl Cache {
    pub fn new() -> (r: Cache)
        ensures
            r@ == Seq::<(Seq<char>, FontSpec)>::empty(),
    {
        let r = Cache { fonts: Vec::new() };
        assert(r@ =~= Seq::<(Seq<char>, FontSpec)>::empty());
        r
    }

    /// Adds `font` under `name`, with its CMap decoded; a font without a
    /// `ToUnicode` stream is skipped.
    pub fn add_font(&mut self, name: &String, font: &Font)
        ensures
            final(self)@ == old(self)@ + entry_of(name@, *font),
    {
        let ghost prev = self@;
        match &font.to_unicode {
            Some(data) => {
                let cmap = parse_cmap(data.as_slice());
                let info = FontInfo { encoding: font.encoding, cmap };
                self.fonts.push(CachedFont { name: name.clone(), info });
                assert(self@ =~= prev + entry_of(name@, *font));
            },
            None => {
                assert(self@ =~= prev + entry_of(name@, *font));
            },
        }
    }

    /// The font last added under `name`.
    pub fn get_font(&self, name: &String) -> (r: Option<&FontInfo>)
        ensures
            match r {
                Some(i) => find_font(self@, name@) == Some(i@),
                None => find_font(self@, name@) is None,
            },
    {
        let ghost c = self@;
        let mut k = self.fonts.len();
        assert(c.take(k as int) =~= c);
        while k > 0
            invariant
                c == self@,
                k <= self.fonts@.len(),
                find_font(c, name@) == find_font(c.take(k as int), name@),
            decreases k,
        {
            assert(c.take(k as int).drop_last() =~= c.take(k - 1));
            if self.fonts[k - 1].name == *name {
                return Some(&self.fonts[k - 1].info);
            }
            k = k - 1;
        }
        None
    }
}

/// Builds the font cache of a page: first its font resources under their
/// resource names, then the fonts of its graphics states under their own names.
pub fn build_cache(page: &Page) -> (r: Cache)
    ensures
        r@ == cache_entries(*page),
{
    let mut cache = Cache::new();
    let mut k: usize = 0;
    while k < page.fonts.len()
        invariant
            k <= page.fonts@.len(),
            cache@ == font_entries(page.fonts@.take(k as int)),
        decreases page.fonts@.len() - k,
    {
        assert(page.fonts@.take(k + 1).drop_last() =~= page.fonts@.take(k as int));
        cache.add_font(&page.fonts[k].name, &page.fonts[k].font);
        k = k + 1;
    }
    assert(page.fonts@.take(k as int) =~= page.fonts@);
    let mut j: usize = 0;
    while j < page.graphics_states.len()
        invariant
            j <= page.graphics_states@.len(),
            cache@ == font_entries(page.fonts@) + gs_entries(
                page.graphics_states@.take(j as int),
            ),
        decreases page.graphics_states@.len() - j,
    {
        let ghost prev = cache@;
        assert(page.graphics_states@.take(j + 1).drop_last() =~= page.graphics_states@.take(
            j as int,
        ));
        match &page.graphics_states[j].font {
            Some(f) => {
                cache.add_font(&f.name, f);
            },
            None => {},
        }
        assert(cache@ =~= font_entries(page.fonts@) + gs_entries(
            page.graphics_states@.take(j + 1),
        ));
        j = j + 1;
    }
    assert(page.graphics_states@.take(j as int) =~= page.graphics_states@);
    cache
}

// ----- The content-stream interpreter -----

/// What an operator does to the extracted text.
#[derive(Clone, Copy, Debug, PartialEq, Eq)]
pub enum OpKind {
    /// `gs`: selects a graphics state, and its font if it has one.
    SetGraphicsState,
    /// `Tf`: selects a font by resource name.
    SetFont,
    /// `Tj`, `TJ`, `BT`: shows its operands with the current font.
    ShowText,
    /// `Td`, `TD`, `T*`: starts a new line.
    NextLine,
    Ignored,
}

/// Why a page could not be read.
#[derive(Clone, Copy, Debug, PartialEq, Eq)]
pub enum PageError {
    /// A `gs` or `Tf` without a name as its first operand.
    MissingOperand,
    /// A `gs` naming no graphics state of the page.
    UnknownGraphicsState,
}

pub open spec fn op_kind(s: Seq<char>) -> OpKind {
    if s == "gs"@ {
        OpKind::SetGraphicsState
    } else if s == "Tf"@ {
        OpKind::SetFont
    } else if s == "Tj"@ || s == "TJ"@ || s == "BT"@ {
        OpKind::ShowText
    } else if s == "Td"@ || s == "TD"@ || s == "T*"@ {
        OpKind::NextLine
    } else {
        OpKind::Ignored
    }
}

fn is_operator(s: &String, k: &str) -> (r: bool)
    ensures
        r == (s@ == k@),
{
    *s == k.to_owned()
}

/// Classifies an operator by its name.
pub fn operator_kind(s: &String) -> (r: OpKind)
    ensures
        r == op_kind(s@),
{
    if is_operator(s, "gs") {
        OpKind::SetGraphicsState
    } else if is_operator(s, "Tf") {
        OpKind::SetFont
    } else if is_operator(s, "Tj") || is_operator(s, "TJ") || is_operator(s, "BT") {
        OpKind::ShowText
    } else if is_operator(s, "Td") || is_operator(s, "TD") || is_operator(s, "T*") {
        OpKind::NextLine
    } else {
        OpKind::Ignored
    }
}

/// The name that an operand list starts with, if it does.
pub open spec fn first_name(ops: Seq<Operand>) -> Option<Seq<char>> {
    if ops.len() > 0 && ops[0] is Name {
        Some(ops[0]->Name_0@)
    } else {
        None
    }
}

/// The text that a text-showing operation adds under current font `cur`.
pub open spec fn shown(cur: Option<FontSpec>, op: Operation) -> Seq<char> {
    match cur {
        Some(f) => decode_items(op.operands, op.operands@.len() as int, f),
        None => Seq::empty(),
    }
}

/// The current font after an operation and the text it adds, or the error
/// that ends the page.
pub open spec fn step(
    p: Page,
    c: Seq<(Seq<char>, FontSpec)>,
    cur: Option<FontSpec>,
    op: Operation,
) -> Result<(Option<FontSpec>, Seq<char>), PageError> {
    match op_kind(op.operator@) {
        OpKind::SetGraphicsState => match first_name(op.operands@) {
            None => Err(PageError::MissingOperand),
            Some(n) => match find_gs(p.graphics_states@, n) {
                None => Err(PageError::UnknownGraphicsState),
                Some(g) => match g.font {
                    Some(f) => Ok((find_font(c, f.name@), Seq::empty())),
                    None => Ok((cur, Seq::empty())),
                },
            },
        },
        OpKind::SetFont => match first_name(op.operands@) {
            None => Err(PageError::MissingOperand),
            Some(n) => Ok((find_font(c, n), Seq::empty())),
        },
        OpKind::ShowText => Ok((cur, shown(cur, op))),
        OpKind::NextLine => Ok((cur, seq!['\n'])),
        OpKind::Ignored => Ok((cur, Seq::empty())),
    }
}

/// The text of the operations `ops[k..]`, starting with current font `cur`.
pub open spec fn run(
    p: Page,
    c: Seq<(Seq<char>, FontSpec)>,
    ops: Seq<Operation>,
    k: int,
    cur: Option<FontSpec>,
) -> Result<Seq<char>, PageError>
    decreases ops.len() - k,
{
    if k < 0 || k >= ops.len() {
        Ok(Seq::empty())
    } else {
        match step(p, c, cur, ops[k]) {
            Err(e) => Err(e),
            Ok((next, t)) => match run(p, c, ops, k + 1, next) {
                Ok(rest) => Ok(t + rest),
                Err(e) => Err(e),
            },
        }
    }
}

/// The text of a page: its operations run from no current font, with the
/// page's font cache.
pub open spec fn page_text(p: Page) -> Result<Seq<char>, PageError> {
    run(p, cache_entries(p), p.operations@, 0, None)
}

pub open spec fn prepend(s: Seq<char>, r: Result<Seq<char>, PageError>) -> Result<
    Seq<char>,
    PageError,
> {
    match r {
        Ok(t) => Ok(s + t),
        Err(e) => Err(e),
    }
}

pub open spec fn font_view(f: Option<&FontInfo>) -> Option<FontSpec> {
    match f {
        Some(i) => Some(i@),
        None => None,
    }
}

fn first_name_of(ops: &Vec<Operand>) -> (r: Option<&String>)
    ensures
        match r {
            Some(n) => first_name(ops@) == Some(n@),
            None => first_name(ops@) is None,
        },
{
    if ops.len() > 0 {
        match &ops[0] {
            Operand::Name(n) => Some(n),
            _ => None,
        }
    } else {
        None
    }
}

fn find_graphics_state<'a>(s: &'a Vec<GraphicsState>, name: &String) -> (r: Option<
    &'a GraphicsState,
>)
    ensures
        match r {
            Some(g) => find_gs(s@, name@) == Some(*g),
            None => find_gs(s@, name@) is None,
        },
{
    let mut k = s.len();
    assert(s@.take(k as int) =~= s@);
    while k > 0
        invariant
            k <= s@.len(),
            find_gs(s@, name@) == find_gs(s@.take(k as int), name@),
        decreases k,
    {
        assert(s@.take(k as int).drop_last() =~= s@.take(k - 1));
        if s[k - 1].name == *name {
            return Some(&s[k - 1]);
        }
        k = k - 1;
    }
    None
}

/// Extracts the text of one page: text-showing operators decode their
/// operands with the current font, line operators add a newline.
pub fn read_page(page: &Page) -> (r: Result<Vec<char>, PageError>)
    ensures
        match r {
            Ok(t) => page_text(*page) == Ok::<Seq<char>, PageError>(t@),
            Err(e) => page_text(*page) == Err::<Seq<char>, PageError>(e),
        },
{
    let cache = build_cache(page);
    let ghost c = cache@;
    let ops = &page.operations;
    let mut out: Vec<char> = Vec::new();
    let mut current: Option<&FontInfo> = None;
    let mut k: usize = 0;
    while k < ops.len()
        invariant
            c == cache@,
            c == cache_entries(*page),
            ops == &page.operations,
            k <= ops@.len(),
            prepend(out@, run(*page, c, ops@, k as int, font_view(current))) == page_text(*page),
        decreases ops@.len() - k,
    {
        let ghost prev = out@;
        let ghost cur = font_view(current);
        let ghost mut added: Seq<char> = Seq::empty();
        let op = &ops[k];
        match operator_kind(&op.operator) {
            OpKind::SetGraphicsState => {
                match first_name_of(&op.operands) {
                    None => {
                        return Err(PageError::MissingOperand);
                    },
                    Some(n) => match find_graphics_state(&page.graphics_states, n) {
                        None => {
                            return Err(PageError::UnknownGraphicsState);
                        },
                        Some(g) => match &g.font {
                            Some(f) => {
                                current = cache.get_font(&f.name);
                            },
                            None => {},
                        },
                    },
                }
            },
            OpKind::SetFont => {
                match first_name_of(&op.operands) {
                    None => {
                        return Err(PageError::MissingOperand);
                    },
                    Some(n) => {
                        current = cache.get_font(n);
                    },
                }
            },
            OpKind::ShowText => {
                match current {
                    Some(f) => {
                        let mut t = decode_all(&op.operands, f);
                        proof {
                            added = t@;
                        }
                        out.append(&mut t);
                    },
                    None => {},
                }
            },
            OpKind::NextLine => {
                out.push('\n');
                proof {
                    added = seq!['\n'];
                }
            },
            OpKind::Ignored => {},
        }
        let ghost t = added;
        assert(out@ =~= prev + t);
        assert(step(*page, c, cur, ops@[k as int]) == Ok::<(Option<FontSpec>, Seq<char>), PageError>(
            (font_view(current), t),
        ));
        assert(prev + (t + match run(*page, c, ops@, k + 1, font_view(current)) {
            Ok(rest) => rest,
            Err(_) => Seq::empty(),
        }) =~= out@ + match run(*page, c, ops@, k + 1, font_view(current)) {
            Ok(rest) => rest,
            Err(_) => Seq::empty(),
        });
        k = k + 1;
    }
    Ok(out)
}

// ----- The document -----

/// What a page adds to the document's text: nothing where it fails.
pub open spec fn page_output(p: Page) -> Seq<char> {
    match page_text(p) {
        Ok(t) => t,
        Err(_) => Seq::empty(),
    }
}

/// The text of a sequence of pages: each page's text in page order, with
/// nothing between them.
pub open spec fn doc_text(pages: Seq<Page>) -> Seq<char>
    decreases pages.len(),
{
    if pages.len() == 0 {
        Seq::empty()
    } else {
        doc_text(pages.drop_last()) + page_output(pages.last())
    }
}

/// The pages that could not be read, by index, with their errors.
pub open spec fn failed_pages(pages: Seq<Page>) -> Seq<(usize, PageError)>
    decreases pages.len(),
{
    if pages.len() == 0 {
        Seq::empty()
    } else {
        failed_pages(pages.drop_last()) + match page_text(pages.last()) {
            Ok(_) => Seq::empty(),
            Err(e) => seq![((pages.len() - 1) as usize, e)],
        }
    }
}

/// The text of a document, and the pages that were skipped.
pub struct Extraction {
    pub text: String,
    pub failed_pages: Vec<(usize, PageError)>,
}

/// Extracts the text of all pages, in page order. A page that cannot be read
/// adds no text and is listed with its error; the others are still read.
pub fn extract_text(pages: &Vec<Page>) -> (r: Extraction)
    ensures
        r.text@ == doc_text(pages@),
        r.failed_pages@ == failed_pages(pages@),
{
    let mut out: Vec<char> = Vec::new();
    let mut failed: Vec<(usize, PageError)> = Vec::new();
    let mut k: usize = 0;
    while k < pages.len()
        invariant
            k <= pages@.len(),
            out@ == doc_text(pages@.take(k as int)),
            failed@ == failed_pages(pages@.take(k as int)),
        decreases pages@.len() - k,
    {
        assert(pages@.take(k + 1).drop_last() =~= pages@.take(k as int));
        match read_page(&pages[k]) {
            Ok(t) => {
                let mut t = t;
                out.append(&mut t);
                assert(failed@ =~= failed_pages(pages@.take(k + 1)));
            },
            Err(e) => {
                failed.push((k, e));
                assert(out@ =~= doc_text(pages@.take(k + 1)));
            },
        }
        k = k + 1;
    }
    assert(pages@.take(k as int) =~= pages@);
    Extraction { text: crate::utf16::chars_to_string(&out), failed_pages: failed }
}

// ----- Laws -----

/// Font switches apply in order: after `Tf n1`, `Tj a`, `Tf n2`, `Tj b`, the
/// operands of `a` are decoded with the font cached under `n1` and those of `b`
/// with the font cached under `n2`, whatever font was current before; the rest
/// of the page then runs with `n2`'s font.
pub proof fn lemma_font_switch_order(
    p: Page,
    c: Seq<(Seq<char>, FontSpec)>,
    ops: Seq<Operation>,
    k: int,
    cur: Option<FontSpec>,
)
    requires
        0 <= k,
        k + 4 <= ops.len(),
        op_kind(ops[k].operator@) == OpKind::SetFont,
        first_name(ops[k].operands@) is Some,
        op_kind(ops[k + 1].operator@) == OpKind::ShowText,
        op_kind(ops[k + 2].operator@) == OpKind::SetFont,
        first_name(ops[k + 2].operands@) is Some,
        op_kind(ops[k + 3].operator@) == OpKind::ShowText,
    ensures
        ({
            let f1 = find_font(c, first_name(ops[k].operands@)->Some_0);
            let f2 = find_font(c, first_name(ops[k + 2].operands@)->Some_0);
            run(p, c, ops, k, cur) == prepend(
                shown(f1, ops[k + 1]) + shown(f2, ops[k + 3]),
                run(p, c, ops, k + 4, f2),
            )
        }),
{
    let f1 = find_font(c, first_name(ops[k].operands@)->Some_0);
    let f2 = find_font(c, first_name(ops[k + 2].operands@)->Some_0);
    let a = shown(f1, ops[k + 1]);
    let b = shown(f2, ops[k + 3]);
    let rest = run(p, c, ops, k + 4, f2);
    assert(run(p, c, ops, k + 3, f2) == prepend(b, rest));
    assert(run(p, c, ops, k + 2, f1) == prepend(b, rest));
    assert(run(p, c, ops, k + 1, f1) == prepend(a, prepend(b, rest)));
    match rest {
        Ok(r) => {
            assert(a + (b + r) =~= (a + b) + r);
        },
        Err(_) => {},
    }
}

/// With no current font, a text-showing operation adds no text, raises no
/// error and selects no font.
pub proof fn lemma_show_without_font(p: Page, c: Seq<(Seq<char>, FontSpec)>, op: Operation)
    requires
        op_kind(op.operator@) == OpKind::ShowText,
    ensures
        step(p, c, None, op) == Ok::<(Option<FontSpec>, Seq<char>), PageError>(
            (None, Seq::empty()),
        ),
{
}

/// Before any font is selected, a run of text-showing (and ignored) operations
/// adds nothing and cannot fail: the page reads as if it were not there.
pub proof fn lemma_no_font_prefix(
    p: Page,
    c: Seq<(Seq<char>, FontSpec)>,
    ops: Seq<Operation>,
    k: int,
    j: int,
)
    requires
        0 <= k <= j <= ops.len(),
        forall|m: int|
            k <= m < j ==> #[trigger] op_kind(ops[m].operator@) == OpKind::ShowText || op_kind(
                ops[m].operator@,
            ) == OpKind::Ignored,
    ensures
        run(p, c, ops, k, None) == run(p, c, ops, j, None),
    decreases j - k,
{
    if k < j {
        assert(op_kind(ops[k].operator@) == OpKind::ShowText || op_kind(ops[k].operator@)
            == OpKind::Ignored);
        lemma_no_font_prefix(p, c, ops, k + 1, j);
        match run(p, c, ops, k + 1, None) {
            Ok(r) => {
                assert(Seq::<char>::empty() + r =~= r);
            },
            Err(_) => {},
        }
    }
}

/// The text of pages `a` followed by pages `b` is the text of `a` followed by
/// the text of `b`: pages are joined with no separator.
pub proof fn lemma_pages_concatenate(a: Seq<Page>, b: Seq<Page>)
    ensures
        doc_text(a + b) == doc_text(a) + doc_text(b),
    decreases b.len(),
{
    if b.len() == 0 {
        assert(a + b =~= a);
        assert(doc_text(a) + doc_text(b) =~= doc_text(a));
    } else {
        lemma_pages_concatenate(a, b.drop_last());
        assert((a + b).drop_last() =~= a + b.drop_last());
        assert((a + b).last() == b.last());
        assert(doc_text(a) + (doc_text(b.drop_last()) + page_output(b.last())) =~= (doc_text(a)
            + doc_text(b.drop_last())) + page_output(b.last()));
    }
}

/// A document of two pages that read as `x` and `y` reads as `x + y`.
pub proof fn lemma_two_pages(first: Page, second: Page, x: Seq<char>, y: Seq<char>)
    requires
        page_text(first) == Ok::<Seq<char>, PageError>(x),
        page_text(second) == Ok::<Seq<char>, PageError>(y),
    ensures
        doc_text(seq![first, second]) == x + y,
{
    let one = seq![first];
    let two = seq![first, second];
    assert(two.drop_last() =~= one);
    assert(one.drop_last() =~= Seq::<Page>::empty());
    assert(doc_text(Seq::<Page>::empty()) == Seq::<char>::empty());
    assert(doc_text(one) == doc_text(Seq::<Page>::empty()) + page_output(first));
    assert(doc_text(one) =~= x);
    assert(doc_text(two) == doc_text(one) + page_output(second));
}

/// Under Identity-H, a two-byte string whose code the CMap maps decodes to
/// that code's text followed by a newline.
pub proof fn lemma_identity_h_code(hi: u8, lo: u8, f: FontSpec)
    requires
        f.encoding == Some(FontEncoding::IdentityH),
        lookup(f.cmap, (hi as int * 256 + lo as int) as u16) is Some,
    ensures
        decode_string(seq![hi, lo], f) == lookup(f.cmap, (hi as int * 256 + lo as int) as u16)->Some_0
            + seq!['\n'],
{
    let d = seq![hi, lo];
    assert(identity_h_from(d, 2, f.cmap) == Seq::<char>::empty());
    let t = lookup(f.cmap, (hi as int * 256 + lo as int) as u16)->Some_0;
    assert(identity_h_from(d, 0, f.cmap) =~= t);
}

/// Under a one-byte encoding, a byte that the CMap lacks decodes to the char of
/// the same value.
pub proof fn lemma_unmapped_byte(b: u8, f: FontSpec)
    requires
        f.encoding == Some(FontEncoding::Other),
        lookup(f.cmap, b as u16) is None,
    ensures
        decode_string(seq![b], f) == seq![(b as u32) as char],
{
    let d = seq![b];
    assert(single_byte_from(d, 1, f.cmap) == Seq::<char>::empty());
    assert(single_byte_from(d, 0, f.cmap) =~= seq![(b as u32) as char]);
}

/// A page whose operations are `Tf n1`, `Tj a`, `Tf n2`, `Tj b` reads as `a`
/// decoded with the font cached under `n1` followed by `b` decoded with the
/// font cached under `n2`; as a document of one page it gives the same text.
pub proof fn lemma_font_switch_page(p: Page)
    requires
        p.operations@.len() == 4,
        op_kind(p.operations@[0].operator@) == OpKind::SetFont,
        first_name(p.operations@[0].operands@) is Some,
        op_kind(p.operations@[1].operator@) == OpKind::ShowText,
        op_kind(p.operations@[2].operator@) == OpKind::SetFont,
        first_name(p.operations@[2].operands@) is Some,
        op_kind(p.operations@[3].operator@) == OpKind::ShowText,
    ensures
        ({
            let ops = p.operations@;
            let c = cache_entries(p);
            let text = shown(find_font(c, first_name(ops[0].operands@)->Some_0), ops[1]) + shown(
                find_font(c, first_name(ops[2].operands@)->Some_0),
                ops[3],
            );
            &&& page_text(p) == Ok::<Seq<char>, PageError>(text)
            &&& doc_text(seq![p]) == text
        }),
{
    let ops = p.operations@;
    let c = cache_entries(p);
    lemma_font_switch_order(p, c, ops, 0, None);
    let text = shown(find_font(c, first_name(ops[0].operands@)->Some_0), ops[1]) + shown(
        find_font(c, first_name(ops[2].operands@)->Some_0),
        ops[3],
    );
    let f2 = find_font(c, first_name(ops[2].operands@)->Some_0);
    assert(run(p, c, ops, 4, f2) == Ok::<Seq<char>, PageError>(Seq::empty()));
    assert(text + Seq::<char>::empty() =~= text);
    assert(page_text(p) == Ok::<Seq<char>, PageError>(text));
    let one = seq![p];
    assert(one.drop_last() =~= Seq::<Page>::empty());
    assert(one.last() == p);
    assert(doc_text(one) == doc_text(one.drop_last()) + page_output(p));
    assert(Seq::<char>::empty() + text =~= text);
}

proof fn lemma_run_after_removal(
    p: Page,
    c: Seq<(Seq<char>, FontSpec)>,
    ops: Seq<Operation>,
    m: int,
    k: int,
    cur: Option<FontSpec>,
)
    requires
        0 <= m < ops.len(),
        m <= k,
    ensures
        run(p, c, ops, k + 1, cur) == run(p, c, ops.remove(m), k, cur),
    decreases ops.len() - k,
{
    let rest = ops.remove(m);
    if k + 1 < ops.len() {
        assert(rest[k] == ops[k + 1]);
        match step(p, c, cur, ops[k + 1]) {
            Ok((next, _)) => {
                lemma_run_after_removal(p, c, ops, m, k + 1, next);
            },
            Err(_) => {},
        }
    }
}

/// Before any font is selected, removing a text-showing operation does not
/// change what the operations read as: it adds no text and raises no error,
/// wherever it stands among the operations before the first `Tf` or `gs`.
pub proof fn lemma_remove_show_without_font(
    p: Page,
    c: Seq<(Seq<char>, FontSpec)>,
    ops: Seq<Operation>,
    k: int,
    m: int,
)
    requires
        0 <= k <= m < ops.len(),
        op_kind(ops[m].operator@) == OpKind::ShowText,
        forall|j: int|
            k <= j < m ==> #[trigger] op_kind(ops[j].operator@) != OpKind::SetFont && op_kind(
                ops[j].operator@,
            ) != OpKind::SetGraphicsState,
    ensures
        run(p, c, ops, k, None) == run(p, c, ops.remove(m), k, None),
    decreases m - k,
{
    let rest = ops.remove(m);
    if k == m {
        lemma_run_after_removal(p, c, ops, m, m, None);
        match run(p, c, ops, m + 1, None) {
            Ok(r) => {
                assert(Seq::<char>::empty() + r =~= r);
            },
            Err(_) => {},
        }
    } else {
        assert(rest[k] == ops[k]);
        assert(op_kind(ops[k].operator@) != OpKind::SetFont && op_kind(ops[k].operator@)
            != OpKind::SetGraphicsState);
        lemma_remove_show_without_font(p, c, ops, k + 1, m);
    }
}

proof fn lemma_run_same_states(
    p: Page,
    q: Page,
    c: Seq<(Seq<char>, FontSpec)>,
    ops: Seq<Operation>,
    k: int,
    cur: Option<FontSpec>,
)
    requires
        p.graphics_states@ == q.graphics_states@,
    ensures
        run(p, c, ops, k, cur) == run(q, c, ops, k, cur),
    decreases ops.len() - k,
{
    if 0 <= k < ops.len() {
        assert(step(p, c, cur, ops[k]) == step(q, c, cur, ops[k]));
        match step(p, c, cur, ops[k]) {
            Ok((next, _)) => {
                lemma_run_same_states(p, q, c, ops, k + 1, next);
            },
            Err(_) => {},
        }
    }
}

/// A page reads the same with or without a text-showing operation that comes
/// before its first `Tf` and `gs`: such an operation adds no text and cannot
/// fail.
pub proof fn lemma_page_without_early_show(p: Page, q: Page, m: int)
    requires
        0 <= m < p.operations@.len(),
        op_kind(p.operations@[m].operator@) == OpKind::ShowText,
        forall|j: int|
            0 <= j < m ==> #[trigger] op_kind(p.operations@[j].operator@) != OpKind::SetFont
                && op_kind(p.operations@[j].operator@) != OpKind::SetGraphicsState,
        q.fonts@ == p.fonts@,
        q.graphics_states@ == p.graphics_states@,
        q.operations@ == p.operations@.remove(m),
    ensures
        page_text(q) == page_text(p),
{
    let c = cache_entries(p);
    assert(cache_entries(q) == c);
    lemma_remove_show_without_font(p, c, p.operations@, 0, m);
    lemma_run_same_states(p, q, c, q.operations@, 0, None);
}

} // verus!
