//! Reading the offset dump (`csgo.cs` as the offset dumper writes it):
//! lines `public const Int32 NAME = VALUE;` inside a `class netvars` or a
//! `class signatures` block, VALUE in hexadecimal (`0x...`) or decimal.
use vstd::prelude::*;
use crate::layout::{self, OffsetEntry};
use crate::names;
use crate::player::{Offsets, PlayerLayout};

verus! {

/// Which block of the dump the reader is in.
#[derive(Clone, Copy, PartialEq, Eq, Structural, Debug)]
pub enum Section {
    Preamble,
    Netvars,
    Signatures,
}

/// The offsets read from a dump.
pub struct Dump {
    pub netvars: Vec<OffsetEntry>,
    pub signatures: Vec<OffsetEntry>,
    pub section: Section,
}

pub struct DumpView {
    pub netvars: Seq<(Seq<char>, u32)>,
    pub signatures: Seq<(Seq<char>, u32)>,
    pub section: Section,
}

pub open spec fn entries_view(v: Seq<OffsetEntry>) -> Seq<(Seq<char>, u32)> {
    Seq::new(v.len(), |i: int| (v[i].name@, v[i].offset))
}

impl View for Dump {
    type V = DumpView;

    open spec fn view(&self) -> DumpView {
        DumpView {
            netvars: entries_view(self.netvars@),
            signatures: entries_view(self.signatures@),
            section: self.section,
        }
    }
}

pub open spec fn is_ident_char(c: char) -> bool {
    ('a' <= c && c <= 'z') || ('A' <= c && c <= 'Z') || ('0' <= c && c <= '9') || c == '_'
}

pub open spec fn is_dec_digit(c: char) -> bool {
    '0' <= c && c <= '9'
}

pub open spec fn is_hex_digit(c: char) -> bool {
    ('0' <= c && c <= '9') || ('a' <= c && c <= 'f') || ('A' <= c && c <= 'F')
}

pub open spec fn is_blank(c: char) -> bool {
    c == ' ' || c == '\t' || c == '\r'
}

pub open spec fn digit_value(c: char) -> nat {
    if '0' <= c && c <= '9' {
        (c as nat - '0' as nat) as nat
    } else if 'a' <= c && c <= 'f' {
        (c as nat - 'a' as nat + 10) as nat
    } else {
        (c as nat - 'A' as nat + 10) as nat
    }
}

/// The value of the digits `s` in base `base`.
pub open spec fn digits_value(s: Seq<char>, base: nat) -> nat
    decreases s.len(),
{
    if s.len() == 0 {
        0
    } else {
        digits_value(s.drop_last(), base) * base + digit_value(s.last())
    }
}

/// The length of the longest prefix of `s` whose characters satisfy `p`.
pub open spec fn count_while(s: Seq<char>, p: spec_fn(char) -> bool) -> nat
    decreases s.len(),
{
    if s.len() > 0 && p(s[0]) {
        1 + count_while(s.drop_first(), p)
    } else {
        0
    }
}

pub open spec fn starts_with(s: Seq<char>, p: Seq<char>) -> bool {
    p.len() <= s.len() && s.take(p.len() as int) == p
}

/// Which characters are digits of a value in hexadecimal (`hex`) or decimal.
pub open spec fn digit_pred(hex: bool) -> spec_fn(char) -> bool {
    if hex {
        |c: char| is_hex_digit(c)
    } else {
        |c: char| is_dec_digit(c)
    }
}

/// Whether all characters of `s` from `from` on are blanks.
pub open spec fn blank_from(s: Seq<char>, from: int) -> bool {
    forall|k: int| from <= k < s.len() ==> is_blank(#[trigger] s[k])
}

/// The value at the start of `r`: `0x` and hexadecimal digits, or decimal
/// digits, fitting in 32 bits, then `;` and only blanks.
pub open spec fn spec_parse_value(r: Seq<char>) -> Option<u32> {
    let hex = starts_with(r, "0x"@);
    let r4 = if hex {
        r.skip(2)
    } else {
        r
    };
    let dl = count_while(r4, digit_pred(hex));
    let v = digits_value(r4.take(dl as int), if hex { 16 } else { 10 });
    let rest = r4.skip(dl as int);
    if dl > 0 && v <= u32::MAX && rest.len() >= 1 && rest[0] == ';' && blank_from(rest, 1) {
        Some(v as u32)
    } else {
        None
    }
}

/// The entry a line declares: `public const Int32 NAME = VALUE;` after
/// leading spaces or tabs, with only blanks after the semicolon.
pub open spec fn spec_parse_entry(line: Seq<char>) -> Option<(Seq<char>, u32)> {
    let kw = "public const Int32 "@;
    let t = line.skip(count_while(line, |c: char| c == ' ' || c == '\t') as int);
    if !starts_with(t, kw) {
        None
    } else {
        let r = t.skip(kw.len() as int);
        let nl = count_while(r, |c: char| is_ident_char(c));
        let name = r.take(nl as int);
        let r2 = r.skip(nl as int);
        if nl == 0 || !starts_with(r2, " = "@) {
            None
        } else {
            match spec_parse_value(r2.skip(3)) {
                Some(v) => Some((name, v)),
                None => None,
            }
        }
    }
}

/// What reading one line does: a `class netvars` or `class signatures`
/// line opens that block; an entry line inside a block adds its entry to
/// that block's table; other lines change nothing.
pub open spec fn apply_line(d: DumpView, line: Seq<char>) -> DumpView {
    if layout::has(line, "class netvars"@) {
        DumpView { section: Section::Netvars, ..d }
    } else if layout::has(line, "class signatures"@) {
        DumpView { section: Section::Signatures, ..d }
    } else {
        match spec_parse_entry(line) {
            Some(e) => match d.section {
                Section::Netvars => DumpView { netvars: d.netvars.push(e), ..d },
                Section::Signatures => DumpView { signatures: d.signatures.push(e), ..d },
                Section::Preamble => d,
            },
            None => d,
        }
    }
}

pub open spec fn empty_dump() -> DumpView {
    DumpView { netvars: Seq::empty(), signatures: Seq::empty(), section: Section::Preamble }
}

/// Reading `t` line by line: the dump after its complete lines, and the
/// line read so far.
pub open spec fn scan(t: Seq<char>) -> (DumpView, Seq<char>)
    decreases t.len(),
{
    if t.len() == 0 {
        (empty_dump(), Seq::empty())
    } else {
        let (d, cur) = scan(t.drop_last());
        if t.last() == '\n' {
            (apply_line(d, cur), Seq::empty())
        } else {
            (d, cur.push(t.last()))
        }
    }
}

/// The offsets the dump `t` declares.
pub open spec fn spec_parse_dump(t: Seq<char>) -> DumpView {
    apply_line(scan(t).0, scan(t).1)
}

proof fn lemma_count_while(s: Seq<char>, p: spec_fn(char) -> bool, k: int)
    requires
        0 <= k <= s.len(),
        forall|m: int| 0 <= m < k ==> p(#[trigger] s[m]),
        k == s.len() || !p(s[k]),
    ensures
        count_while(s, p) == k,
    decreases k,
{
    if k > 0 {
        assert forall|m: int| 0 <= m < k - 1 implies p(#[trigger] s.drop_first()[m]) by {
            assert(s.drop_first()[m] == s[m + 1]);
        }
        lemma_count_while(s.drop_first(), p, k - 1);
    }
}

proof fn lemma_digits_grow(s: Seq<char>, base: nat, k: int)
    requires
        0 <= k <= s.len(),
        base >= 1,
    ensures
        digits_value(s.take(k), base) <= digits_value(s, base),
    decreases s.len() - k,
{
    if k < s.len() {
        lemma_digits_grow(s, base, k + 1);
        assert(s.take(k + 1).drop_last() =~= s.take(k));
        let v = digits_value(s.take(k), base);
        assert(v * base >= v) by (nonlinear_arith)
            requires
                base >= 1,
        ;
    } else {
        assert(s.take(k) =~= s);
    }
}

fn is_ident(c: char) -> (b: bool)
    ensures
        b == is_ident_char(c),
{
    ('a' <= c && c <= 'z') || ('A' <= c && c <= 'Z') || ('0' <= c && c <= '9') || c == '_'
}

fn accepts_digit(c: char, hex: bool) -> (b: bool)
    ensures
        b == (if hex {
            is_hex_digit(c)
        } else {
            is_dec_digit(c)
        }),
{
    if hex {
        ('0' <= c && c <= '9') || ('a' <= c && c <= 'f') || ('A' <= c && c <= 'F')
    } else {
        '0' <= c && c <= '9'
    }
}

fn digit_of(c: char) -> (d: u64)
    requires
        is_hex_digit(c),
    ensures
        d == digit_value(c),
        d < 16,
{
    if '0' <= c && c <= '9' {
        (c as u32 - '0' as u32) as u64
    } else if 'a' <= c && c <= 'f' {
        (c as u32 - 'a' as u32 + 10) as u64
    } else {
        (c as u32 - 'A' as u32 + 10) as u64
    }
}

/// Whether `s[at..]` starts with `p`.
fn starts_at(s: &Vec<char>, at: usize, p: &Vec<char>) -> (b: bool)
    requires
        at <= s@.len(),
    ensures
        b == starts_with(s@.skip(at as int), p@),
{
    if p.len() > s.len() - at {
        return false;
    }
    let mut k: usize = 0;
    while k < p.len()
        invariant
            at + p@.len() <= s.len(),
            k <= p@.len(),
            forall|m: int| 0 <= m < k ==> s@[at + m] == p@[m],
        decreases p@.len() - k,
    {
        if s[at + k] != p[k] {
            assert(s@.skip(at as int).take(p@.len() as int)[k as int] != p@[k as int]);
            return false;
        }
        k = k + 1;
    }
    assert(s@.skip(at as int).take(p@.len() as int) =~= p@);
    true
}

/// The end of the run of characters from `at` on that satisfy
/// `accept(c, hex)`.
fn digits_end(line: &Vec<char>, at: usize, hex: bool) -> (end: usize)
    requires
        at <= line@.len(),
    ensures
        at <= end <= line@.len(),
        end - at == count_while(line@.skip(at as int), digit_pred(hex)),
{
    let n = line.len();
    let mut i = at;
    while i < n && accepts_digit(line[i], hex)
        invariant
            n == line@.len(),
            at <= i <= n,
            forall|m: int| at <= m < i ==> (digit_pred(hex))(#[trigger] line@[m]),
        decreases n - i,
    {
        i = i + 1;
    }
    proof {
        let r = line@.skip(at as int);
        assert forall|m: int| 0 <= m < i - at implies (digit_pred(hex))(#[trigger] r[m]) by {
            assert(r[m] == line@[at + m]);
        }
        if i < n {
            assert(r[i - at] == line@[i as int]);
        }
        lemma_count_while(r, digit_pred(hex), i - at);
    }
    i
}

/// The value of the digits `line[at..end]`, or `None` when it does not fit
/// in 32 bits.
fn digits_to_u32(line: &Vec<char>, at: usize, end: usize, hex: bool) -> (v: Option<u32>)
    requires
        at <= end <= line@.len(),
        forall|m: int| at <= m < end ==> (digit_pred(hex))(#[trigger] line@[m]),
    ensures
        ({
            let dv = digits_value(line@.subrange(at as int, end as int), if hex { 16 } else { 10 });
            match v {
                Some(x) => dv <= u32::MAX && x == dv,
                None => dv > u32::MAX,
            }
        }),
{
    let base: u64 = if hex {
        16
    } else {
        10
    };
    let ghost full = line@.subrange(at as int, end as int);
    let mut i = at;
    let mut v: u64 = 0;
    assert(line@.subrange(at as int, at as int) =~= Seq::<char>::empty());
    while i < end
        invariant
            at <= i <= end <= line@.len(),
            base == (if hex { 16u64 } else { 10u64 }),
            forall|m: int| at <= m < end ==> (digit_pred(hex))(#[trigger] line@[m]),
            full == line@.subrange(at as int, end as int),
            v == digits_value(line@.subrange(at as int, i as int), base as nat),
            v <= u32::MAX,
        decreases end - i,
    {
        assert((digit_pred(hex))(line@[i as int]));
        let d = digit_of(line[i]);
        let nv = v * base + d;
        assert(line@.subrange(at as int, i + 1).drop_last() =~= line@.subrange(
            at as int,
            i as int,
        ));
        if nv > u32::MAX as u64 {
            proof {
                assert(full.take(i + 1 - at) =~= line@.subrange(at as int, i + 1));
                lemma_digits_grow(full, base as nat, i + 1 - at);
            }
            return None;
        }
        v = nv;
        i = i + 1;
    }
    Some(v as u32)
}

/// Whether every character of `line` from `from` on is a blank.
fn blanks_from(line: &Vec<char>, from: usize) -> (b: bool)
    requires
        from <= line@.len(),
    ensures
        b == blank_from(line@, from as int),
{
    let n = line.len();
    let mut j = from;
    while j < n
        invariant
            n == line@.len(),
            from <= j <= n,
            forall|m: int| from <= m < j ==> is_blank(#[trigger] line@[m]),
        decreases n - j,
    {
        if !(line[j] == ' ' || line[j] == '\t' || line[j] == '\r') {
            return false;
        }
        j = j + 1;
    }
    true
}

/// Reads the value that starts at `line[at..]`.
fn parse_value(line: &Vec<char>, at: usize) -> (v: Option<u32>)
    requires
        at <= line@.len(),
    ensures
        v == spec_parse_value(line@.skip(at as int)),
{
    let ghost r = line@.skip(at as int);
    proof {
        reveal_strlit("0x");
    }
    let hx = names::chars_of("0x");
    let hex = starts_at(line, at, &hx);
    assert(hex ==> at + 2 <= line.len());
    let start = if hex {
        at + 2
    } else {
        at
    };
    let ghost r4 = if hex {
        r.skip(2)
    } else {
        r
    };
    assert(r4 =~= line@.skip(start as int));
    let end = digits_end(line, start, hex);
    let ghost dl = count_while(r4, digit_pred(hex));
    assert(r4.take(dl as int) =~= line@.subrange(start as int, end as int));
    assert(r4.skip(dl as int) =~= line@.skip(end as int));
    if end == start {
        return None;
    }
    proof {
        assert forall|m: int| start <= m < end implies (digit_pred(hex))(#[trigger] line@[m]) by {
            lemma_count_prefix(r4, digit_pred(hex), m - start);
            assert(r4[m - start] == line@[m]);
        }
    }
    let value = digits_to_u32(line, start, end, hex);
    let x = match value {
        Some(x) => x,
        None => {
            return None;
        },
    };
    if end >= line.len() || line[end] != ';' {
        assert(end < line@.len() ==> line@.skip(end as int)[0] == line@[end as int]);
        return None;
    }
    let tail = blanks_from(line, end + 1);
    proof {
        let rest = line@.skip(end as int);
        assert(rest[0] == line@[end as int]);
        assert(blank_from(rest, 1) == blank_from(line@, end + 1)) by {
            assert forall|k: int| 1 <= k < rest.len() implies rest[k] == line@[end + k] by {}
            if blank_from(line@, end + 1) {
                assert forall|k: int| 1 <= k < rest.len() implies is_blank(#[trigger] rest[k]) by {
                    assert(rest[k] == line@[end + k]);
                }
            }
            if blank_from(rest, 1) {
                assert forall|k: int| end + 1 <= k < line@.len() implies is_blank(
                    #[trigger] line@[k],
                ) by {
                    assert(rest[k - end] == line@[k]);
                }
            }
        }
    }
    if tail {
        Some(x)
    } else {
        None
    }
}

/// Reads the entry a line declares.
pub fn parse_entry(line: &Vec<char>) -> (e: Option<OffsetEntry>)
    ensures
        match e {
            Some(x) => spec_parse_entry(line@) == Some((x.name@, x.offset)),
            None => spec_parse_entry(line@) is None,
        },
{
    let ghost s = line@;
    let n = line.len();
    let mut i: usize = 0;
    while i < n && (line[i] == ' ' || line[i] == '\t')
        invariant
            n == s.len(),
            s == line@,
            i <= n,
            forall|m: int| 0 <= m < i ==> (#[trigger] s[m] == ' ' || s[m] == '\t'),
        decreases n - i,
    {
        i = i + 1;
    }
    proof {
        lemma_count_while(s, |c: char| c == ' ' || c == '\t', i as int);
        reveal_strlit("public const Int32 ");
        reveal_strlit(" = ");
    }
    let t0 = i;
    let kw = names::chars_of("public const Int32 ");
    if !starts_at(line, i, &kw) {
        return None;
    }
    assert(s.skip(t0 as int).skip(kw@.len() as int) =~= s.skip(t0 + kw@.len()));
    i = i + kw.len();
    let name_start = i;
    while i < n && is_ident(line[i])
        invariant
            n == s.len(),
            s == line@,
            name_start <= i <= n,
            forall|m: int| name_start <= m < i ==> is_ident_char(#[trigger] s[m]),
        decreases n - i,
    {
        i = i + 1;
    }
    proof {
        let r = s.skip(name_start as int);
        assert forall|m: int| 0 <= m < i - name_start implies (|c: char| is_ident_char(c))(
            #[trigger] r[m],
        ) by {
            assert(r[m] == s[name_start + m]);
        }
        if i < n {
            assert(r[i - name_start] == s[i as int]);
        }
        lemma_count_while(r, |c: char| is_ident_char(c), i - name_start);
        assert(r.skip((i - name_start) as int) =~= s.skip(i as int));
    }
    if i == name_start {
        return None;
    }
    let mut name: Vec<char> = Vec::new();
    let mut k = name_start;
    while k < i
        invariant
            s == line@,
            name_start <= k <= i <= n,
            n == s.len(),
            name@ == s.subrange(name_start as int, k as int),
        decreases i - k,
    {
        name.push(line[k]);
        assert(name@ =~= s.subrange(name_start as int, k + 1));
        k = k + 1;
    }
    assert(s.skip(name_start as int).take((i - name_start) as int) =~= name@);
    let eq = names::chars_of(" = ");
    if !starts_at(line, i, &eq) {
        return None;
    }
    assert(s.skip(i as int).skip(3) =~= s.skip(i + 3));
    match parse_value(line, i + 3) {
        Some(v) => Some(OffsetEntry { name, offset: v }),
        None => None,
    }
}

proof fn lemma_count_prefix(s: Seq<char>, p: spec_fn(char) -> bool, m: int)
    requires
        0 <= m < count_while(s, p),
    ensures
        p(s[m]),
    decreases m,
{
    lemma_count_bound(s, p);
    assert(s.len() > 0 && p(s[0]));
    if m > 0 {
        assert(count_while(s, p) == 1 + count_while(s.drop_first(), p));
        lemma_count_prefix(s.drop_first(), p, m - 1);
        assert(s.drop_first()[m - 1] == s[m]);
    }
}

proof fn lemma_count_bound(s: Seq<char>, p: spec_fn(char) -> bool)
    ensures
        count_while(s, p) <= s.len(),
    decreases s.len(),
{
    if s.len() > 0 && p(s[0]) {
        lemma_count_bound(s.drop_first(), p);
    }
}

impl Dump {
    pub fn new() -> (d: Dump)
        ensures
            d@ == empty_dump(),
    {
        let d = Dump { netvars: Vec::new(), signatures: Vec::new(), section: Section::Preamble };
        assert(d@.netvars =~= Seq::<(Seq<char>, u32)>::empty());
        assert(d@.signatures =~= Seq::<(Seq<char>, u32)>::empty());
        d
    }

    /// Reads one line of the dump.
    pub fn read_line(&mut self, line: &Vec<char>)
        ensures
            final(self)@ == apply_line(old(self)@, line@),
    {
        let nv = names::chars_of("class netvars");
        let sg = names::chars_of("class signatures");
        if layout::contains_chars(line.as_slice(), nv.as_slice()) {
            self.section = Section::Netvars;
        } else if layout::contains_chars(line.as_slice(), sg.as_slice()) {
            self.section = Section::Signatures;
        } else {
            match parse_entry(line) {
                Some(e) => {
                    let ghost ev = (e.name@, e.offset);
                    match self.section {
                        Section::Netvars => {
                            self.netvars.push(e);
                            assert(self@.netvars =~= old(self)@.netvars.push(ev));
                        },
                        Section::Signatures => {
                            self.signatures.push(e);
                            assert(self@.signatures =~= old(self)@.signatures.push(ev));
                        },
                        Section::Preamble => {},
                    }
                },
                None => {},
            }
        }
    }
}

/// Reads the offsets a dump declares.
pub fn parse_dump(text: &str) -> (d: Dump)
    ensures
        d@ == spec_parse_dump(text@),
{
    let cs = names::chars_of(text);
    let n = cs.len();
    let mut d = Dump::new();
    let mut cur: Vec<char> = Vec::new();
    let mut i: usize = 0;
    assert(cs@.take(0) =~= Seq::<char>::empty());
    while i < n
        invariant
            n == cs@.len(),
            i <= n,
            (d@, cur@) == scan(cs@.take(i as int)),
        decreases n - i,
    {
        assert(cs@.take(i + 1).drop_last() =~= cs@.take(i as int));
        assert(cs@.take(i + 1).last() == cs@[i as int]);
        if cs[i] == '\n' {
            d.read_line(&cur);
            cur = Vec::new();
            assert(cur@ =~= Seq::<char>::empty());
        } else {
            cur.push(cs[i]);
        }
        i = i + 1;
    }
    assert(cs@.take(n as int) =~= text@);
    d.read_line(&cur);
    d
}

// ---------------------------------------------------------------------------
// Assembling the offsets

/// The offset of the first entry named `name`.
pub open spec fn find_entry(es: Seq<OffsetEntry>, name: Seq<char>) -> Option<u32>
    decreases es.len(),
{
    if es.len() == 0 {
        None
    } else if es[0].name@ == name {
        Some(es[0].offset)
    } else {
        find_entry(es.drop_first(), name)
    }
}

/// Looks up the offset of the first entry named `name`.
pub fn lookup(es: &Vec<OffsetEntry>, name: &str) -> (v: Option<u32>)
    ensures
        v == find_entry(es@, name@),
{
    let wanted = names::chars_of(name);
    let n = es.len();
    let mut k: usize = 0;
    assert(es@.skip(0) =~= es@);
    while k < n
        invariant
            n == es@.len(),
            k <= n,
            wanted@ == name@,
            find_entry(es@, name@) == find_entry(es@.skip(k as int), name@),
        decreases n - k,
    {
        assert(es@.skip(k as int)[0] == es@[k as int]);
        assert(es@.skip(k as int).drop_first() =~= es@.skip(k + 1));
        if layout::same_chars(es[k].name.as_slice(), wanted.as_slice()) {
            return Some(es[k].offset);
        }
        k = k + 1;
    }
    None
}

/// The offsets the tool needs, from the signature table and the layout of
/// the record planned for the network variables; `None` when one of them
/// is missing.
pub open spec fn spec_offsets(netvars: Seq<OffsetEntry>, signatures: Seq<OffsetEntry>) -> Option<
    Offsets,
> {
    let entity_list = find_entry(signatures, "dwEntityList"@);
    let local_player = find_entry(signatures, "dwLocalPlayer"@);
    let glow = find_entry(signatures, "dwGlowObjectManager"@);
    let client_state = find_entry(signatures, "dwClientState"@);
    let view_angles = find_entry(signatures, "dwClientState_ViewAngles"@);
    let max_player = find_entry(signatures, "dwClientState_MaxPlayer"@);
    let force_jump = find_entry(signatures, "dwForceJump"@);
    let dormant = find_entry(signatures, "m_bDormant"@);
    let player = layout::spec_player_layout(netvars);
    if entity_list is Some && local_player is Some && glow is Some && client_state is Some
        && view_angles is Some && max_player is Some && force_jump is Some && dormant is Some
        && player is Some {
        Some(
            Offsets {
                entity_list: entity_list->0,
                local_player: local_player->0,
                glow_object_manager: glow->0,
                client_state: client_state->0,
                client_state_view_angles: view_angles->0,
                client_state_max_player: max_player->0,
                force_jump: force_jump->0,
                dormant: dormant->0,
                player: player->0,
            },
        )
    } else {
        None
    }
}

/// Builds the offsets the tool needs from the two tables.
pub fn offsets_from_tables(netvars: &Vec<OffsetEntry>, signatures: &Vec<OffsetEntry>) -> (o:
    Option<Offsets>)
    requires
        layout::layout_fits(netvars@),
    ensures
        o == spec_offsets(netvars@, signatures@),
        o matches Some(x) ==> x.player.wf(),
{
    let entity_list = lookup(signatures, "dwEntityList");
    let local_player = lookup(signatures, "dwLocalPlayer");
    let glow = lookup(signatures, "dwGlowObjectManager");
    let client_state = lookup(signatures, "dwClientState");
    let view_angles = lookup(signatures, "dwClientState_ViewAngles");
    let max_player = lookup(signatures, "dwClientState_MaxPlayer");
    let force_jump = lookup(signatures, "dwForceJump");
    let dormant = lookup(signatures, "m_bDormant");
    let player = layout::player_layout(netvars);
    match (
        entity_list,
        local_player,
        glow,
        client_state,
        view_angles,
        max_player,
        force_jump,
        dormant,
        player,
    ) {
        (
            Some(entity_list),
            Some(local_player),
            Some(glow_object_manager),
            Some(client_state),
            Some(client_state_view_angles),
            Some(client_state_max_player),
            Some(force_jump),
            Some(dormant),
            Some(player),
        ) => Some(
            Offsets {
                entity_list,
                local_player,
                glow_object_manager,
                client_state,
                client_state_view_angles,
                client_state_max_player,
                force_jump,
                dormant,
                player,
            },
        ),
        _ => None,
    }
}

/// Whether `v` is the offset of the first entry of `es` named `name`.
pub open spec fn first_offset(es: Seq<OffsetEntry>, name: Seq<char>, v: u32) -> bool {
    exists|i: int|
        0 <= i < es.len() && #[trigger] es[i].name@ == name && es[i].offset == v && forall|j: int|
            0 <= j < i ==> es[j].name@ != name
}

/// Whether `es` has an entry named `name`.
pub open spec fn names_entry(es: Seq<OffsetEntry>, name: Seq<char>) -> bool {
    exists|i: int| 0 <= i < es.len() && #[trigger] es[i].name@ == name
}

proof fn lemma_find_entry(es: Seq<OffsetEntry>, name: Seq<char>)
    ensures
        find_entry(es, name) matches Some(v) ==> first_offset(es, name, v),
        find_entry(es, name) is None <==> !names_entry(es, name),
    decreases es.len(),
{
    if es.len() > 0 {
        let rest = es.drop_first();
        lemma_find_entry(rest, name);
        if es[0].name@ == name {
            assert(es[0].name@ == name && forall|j: int| 0 <= j < 0 ==> es[j].name@ != name);
        } else {
            if let Some(v) = find_entry(rest, name) {
                let i = choose|i: int|
                    0 <= i < rest.len() && #[trigger] rest[i].name@ == name && rest[i].offset == v
                        && forall|j: int| 0 <= j < i ==> rest[j].name@ != name;
                assert(es[i + 1] == rest[i]);
                assert forall|j: int| 0 <= j < i + 1 implies es[j].name@ != name by {
                    if j > 0 {
                        assert(es[j] == rest[j - 1]);
                    }
                }
                assert(es[i + 1].name@ == name);
            }
            if names_entry(es, name) {
                let i = choose|i: int| 0 <= i < es.len() && #[trigger] es[i].name@ == name;
                assert(rest[i - 1] == es[i]);
                assert(names_entry(rest, name));
            }
            if names_entry(rest, name) {
                let i = choose|i: int| 0 <= i < rest.len() && #[trigger] rest[i].name@ == name;
                assert(es[i + 1] == rest[i]);
            }
        }
    }
}

/// Each offset assembled from the tables is the value of the first
/// signature of its own name, and the offsets are assembled exactly when
/// every one of those signatures is present and the record layout fits.
pub proof fn law_offsets_come_from_their_signatures(
    netvars: Seq<OffsetEntry>,
    signatures: Seq<OffsetEntry>,
)
    ensures
        spec_offsets(netvars, signatures) is Some <==> {
            &&& names_entry(signatures, "dwEntityList"@)
            &&& names_entry(signatures, "dwLocalPlayer"@)
            &&& names_entry(signatures, "dwGlowObjectManager"@)
            &&& names_entry(signatures, "dwClientState"@)
            &&& names_entry(signatures, "dwClientState_ViewAngles"@)
            &&& names_entry(signatures, "dwClientState_MaxPlayer"@)
            &&& names_entry(signatures, "dwForceJump"@)
            &&& names_entry(signatures, "m_bDormant"@)
            &&& layout::spec_player_layout(netvars) is Some
        },
        spec_offsets(netvars, signatures) matches Some(o) ==> {
            &&& first_offset(signatures, "dwEntityList"@, o.entity_list)
            &&& first_offset(signatures, "dwLocalPlayer"@, o.local_player)
            &&& first_offset(signatures, "dwGlowObjectManager"@, o.glow_object_manager)
            &&& first_offset(signatures, "dwClientState"@, o.client_state)
            &&& first_offset(signatures, "dwClientState_ViewAngles"@, o.client_state_view_angles)
            &&& first_offset(signatures, "dwClientState_MaxPlayer"@, o.client_state_max_player)
            &&& first_offset(signatures, "dwForceJump"@, o.force_jump)
            &&& first_offset(signatures, "m_bDormant"@, o.dormant)
            &&& layout::spec_player_layout(netvars) == Some(o.player)
        },
{
    lemma_find_entry(signatures, "dwEntityList"@);
    lemma_find_entry(signatures, "dwLocalPlayer"@);
    lemma_find_entry(signatures, "dwGlowObjectManager"@);
    lemma_find_entry(signatures, "dwClientState"@);
    lemma_find_entry(signatures, "dwClientState_ViewAngles"@);
    lemma_find_entry(signatures, "dwClientState_MaxPlayer"@);
    lemma_find_entry(signatures, "dwForceJump"@);
    lemma_find_entry(signatures, "m_bDormant"@);
}

/// Whether `n` is a name as the dump declares it: one or more letters,
/// digits or underscores.
pub open spec fn dump_identifier(n: Seq<char>) -> bool {
    &&& n.len() > 0
    &&& forall|i: int|
        0 <= i < n.len() ==> {
            let c = #[trigger] n[i];
            ('a' <= c && c <= 'z') || ('A' <= c && c <= 'Z') || ('0' <= c && c <= '9') || c == '_'
        }
}

/// Whether `w` is indentation: spaces and tabs only.
pub open spec fn indentation(w: Seq<char>) -> bool {
    forall|i: int| 0 <= i < w.len() ==> #[trigger] w[i] == ' ' || w[i] == '\t'
}

/// The name an entry line declares is the whole identifier after the
/// keyword, letters, digits and underscores alike: an indented line
/// `public const Int32 NAME = REST` declares (NAME, v) exactly when REST
/// is a value v followed by `;`, whatever identifier NAME is.
pub proof fn law_entry_names_the_whole_identifier(w: Seq<char>, n: Seq<char>, rest: Seq<char>)
    requires
        indentation(w),
        dump_identifier(n),
    ensures
        spec_parse_entry(w + "public const Int32 "@ + n + " = "@ + rest) == match spec_parse_value(
            rest,
        ) {
            Some(v) => Some((n, v)),
            None => None,
        },
{
    reveal_strlit("public const Int32 ");
    reveal_strlit(" = ");
    let kw = "public const Int32 "@;
    let eq = " = "@;
    let line = w + kw + n + eq + rest;
    let ind = |c: char| c == ' ' || c == '\t';
    assert forall|m: int| 0 <= m < w.len() implies ind(#[trigger] line[m]) by {
        assert(line[m] == w[m]);
    }
    assert(line[w.len() as int] == 'p');
    lemma_count_while(line, ind, w.len() as int);
    let t = line.skip(w.len() as int);
    assert(t =~= kw + n + eq + rest);
    assert(t.take(kw.len() as int) =~= kw);
    let r = t.skip(kw.len() as int);
    assert(r =~= n + eq + rest);
    let idp = |c: char| is_ident_char(c);
    assert forall|m: int| 0 <= m < n.len() implies idp(#[trigger] r[m]) by {
        assert(r[m] == n[m]);
    }
    assert(r[n.len() as int] == ' ');
    lemma_count_while(r, idp, n.len() as int);
    assert(r.take(n.len() as int) =~= n);
    let r2 = r.skip(n.len() as int);
    assert(r2 =~= eq + rest);
    assert(r2.take(3) =~= eq);
    assert(r2.skip(3) =~= rest);
}

proof fn lemma_digit_char(x: nat)
    requires
        x < 10,
    ensures
        is_dec_digit(layout::digit_char(x)),
        digit_value(layout::digit_char(x)) == x,
{
    let b = (48 + x) as u8;
    assert(b == 48 + x);
    assert(layout::digit_char(x) as nat == b as nat);
}

proof fn lemma_decimal_digits(v: nat)
    ensures
        layout::decimal(v).len() > 0,
        forall|i: int|
            0 <= i < layout::decimal(v).len() ==> is_dec_digit(#[trigger] layout::decimal(v)[i]),
        digits_value(layout::decimal(v), 10) == v,
    decreases v,
{
    let d = layout::decimal(v);
    if v < 10 {
        lemma_digit_char(v);
        assert(d =~= seq![layout::digit_char(v)]);
        assert(d.drop_last() =~= Seq::<char>::empty());
        assert(digits_value(d.drop_last(), 10) == 0);
        assert(d.last() == layout::digit_char(v));
    } else {
        lemma_decimal_digits(v / 10);
        lemma_digit_char(v % 10);
        let h = layout::decimal(v / 10);
        assert(d =~= h + seq![layout::digit_char(v % 10)]);
        assert(d.drop_last() =~= h);
        assert(d.last() == layout::digit_char(v % 10));
        assert(digits_value(d, 10) == digits_value(h, 10) * 10 + digit_value(d.last()));
        assert((v / 10) * 10 + v % 10 == v);
        assert forall|i: int| 0 <= i < d.len() implies is_dec_digit(#[trigger] d[i]) by {
            if i < h.len() {
                assert(d[i] == h[i]);
            }
        }
    }
}

/// Every 32-bit value written in decimal and followed by `;` reads back as
/// itself.
pub proof fn law_decimal_value_reads_back(v: u32)
    ensures
        spec_parse_value(layout::decimal(v as nat) + ";"@) == Some(v),
{
    reveal_strlit(";");
    reveal_strlit("0x");
    let d = layout::decimal(v as nat);
    lemma_decimal_digits(v as nat);
    let r = d + ";"@;
    if d.len() >= 2 {
        assert(r[1] == d[1]);
        assert(r.take(2)[1] != 'x');
    } else {
        assert(r[1] == ';');
        assert(r.take(2)[1] != 'x');
    }
    assert(!starts_with(r, "0x"@));
    let dp = digit_pred(false);
    assert forall|m: int| 0 <= m < d.len() implies dp(#[trigger] r[m]) by {
        assert(r[m] == d[m]);
    }
    assert(r[d.len() as int] == ';');
    lemma_count_while(r, dp, d.len() as int);
    assert(r.take(d.len() as int) =~= d);
    let tail = r.skip(d.len() as int);
    assert(tail =~= ";"@);
}

/// An indented entry line for any identifier and any 32-bit value written
/// in decimal declares that identifier with that value.
pub proof fn law_entry_line_reads_back(w: Seq<char>, n: Seq<char>, v: u32)
    requires
        indentation(w),
        dump_identifier(n),
    ensures
        spec_parse_entry(w + "public const Int32 "@ + n + " = "@ + layout::decimal(v as nat)
            + ";"@) == Some((n, v)),
{
    law_entry_names_the_whole_identifier(w, n, layout::decimal(v as nat) + ";"@);
    law_decimal_value_reads_back(v);
    assert(w + "public const Int32 "@ + n + " = "@ + layout::decimal(v as nat) + ";"@ =~= w
        + "public const Int32 "@ + n + " = "@ + (layout::decimal(v as nat) + ";"@));
}

} // verus!
