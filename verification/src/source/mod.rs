//! The sources of exchange rates, the currencies and rates they publish, and
//! the configuration of each source.
use crate::decimal::{Dec, spec_checked_add, spec_checked_div, spec_checked_mul, spec_checked_sub, spec_parse_decimal};
use crate::text::{
    ascii_lower, push_str, chars_of, eq_ignore_ascii_case, spec_eq_ignore_ascii_case, spec_to_uppercase, spec_trim,
    str_to_uppercase, str_trim, string_from_chars, to_owned,
};
use vstd::prelude::*;

pub mod acba;
pub mod aeb;
pub mod alfa_by;
pub mod ardshin;
pub mod armsoft;
pub mod armswiss;
pub mod avosend;
pub mod converse;
pub mod de;
pub mod fast;
pub mod hsbc;
pub mod idbank;
pub mod idpay;
pub mod ineco;
pub mod kwikpay;
pub mod lsoft;
pub mod mellat;
pub mod mir;
pub mod moex;
pub mod sas;
pub mod unionpay;

verus! {

/// The user agent the sources are asked with.
pub const USER_AGENT: &'static str = "okhttp/4.12.0";

/// Rates read from a page rather than from an API.
#[derive(Debug)]
pub struct BaseResponse {
    pub rates: Vec<Rate>,
}

/// A configuration that names where the rates are read.
pub trait BaseConfigTrait {
    fn rates_url(&self) -> String;
}

/// The configuration shared by most sources.
#[derive(Debug)]
pub struct BaseConfig {
    pub rates_url: String,
    pub enabled: bool,
}

impl Clone for BaseConfig {
    fn clone(&self) -> (r: Self)
        ensures
            r == *self,
    {
        BaseConfig { rates_url: self.rates_url.clone(), enabled: self.enabled }
    }
}

impl BaseConfigTrait for BaseConfig {
    fn rates_url(&self) -> (r: String)
        ensures
            r@ == self.rates_url@,
    {
        self.rates_url.clone()
    }
}

// ---------------------------------------------------------------------------
// Source
// ---------------------------------------------------------------------------

/// A source of exchange rates: the central bank, a bank or a transfer service.
#[derive(Clone, Copy, Debug, PartialEq, Eq, Structural, Hash, PartialOrd, Ord)]
pub enum Source {
    Cb,
    MoEx,
    Acba,
    Ameria,
    Ardshin,
    ArmSwiss,
    Evoca,
    Fast,
    Ineco,
    Mellat,
    Converse,
    AEB,
    VtbAm,
    Artsakh,
    Unibank,
    Unistream,
    Amio,
    Byblos,
    IdBank,
    Ararat,
    IdPay,
    Mir,
    SAS,
    HSBC,
    Avosend,
    AlfaBy,
}

/// Error of parsing a name that is none of the accepted ones.
#[derive(Clone, Copy, Debug, PartialEq, Eq, Structural)]
pub enum ParseError {
    VariantNotFound,
}

/// All sources in declaration order.
pub open spec fn spec_all_sources() -> Seq<Source> {
    seq![
        Source::Cb,
        Source::MoEx,
        Source::Acba,
        Source::Ameria,
        Source::Ardshin,
        Source::ArmSwiss,
        Source::Evoca,
        Source::Fast,
        Source::Ineco,
        Source::Mellat,
        Source::Converse,
        Source::AEB,
        Source::VtbAm,
        Source::Artsakh,
        Source::Unibank,
        Source::Unistream,
        Source::Amio,
        Source::Byblos,
        Source::IdBank,
        Source::Ararat,
        Source::IdPay,
        Source::Mir,
        Source::SAS,
        Source::HSBC,
        Source::Avosend,
        Source::AlfaBy,
    ]
}

/// Sources that are not local banks.
pub open spec fn spec_is_local_bank(s: Source) -> bool {
    !(s == Source::Cb || s == Source::MoEx || s == Source::IdPay || s == Source::Mir || s
        == Source::SAS || s == Source::Avosend || s == Source::Unistream || s == Source::AlfaBy)
}

/// Sources treated as banks in the conversion tables: the local banks and
/// `AlfaBy`. Only their shortest conversions are shown, and the best rate is
/// taken from the first of them.
pub open spec fn spec_is_bank(s: Source) -> bool {
    spec_is_local_bank(s) || s == Source::AlfaBy
}

impl Source {
    /// The number of sources.
    pub const COUNT: usize = 26;

    /// Position in declaration order, which is also the order of `Ord`.
    pub open spec fn spec_index(self) -> nat {
        match self {
            Source::Cb => 0,
            Source::MoEx => 1,
            Source::Acba => 2,
            Source::Ameria => 3,
            Source::Ardshin => 4,
            Source::ArmSwiss => 5,
            Source::Evoca => 6,
            Source::Fast => 7,
            Source::Ineco => 8,
            Source::Mellat => 9,
            Source::Converse => 10,
            Source::AEB => 11,
            Source::VtbAm => 12,
            Source::Artsakh => 13,
            Source::Unibank => 14,
            Source::Unistream => 15,
            Source::Amio => 16,
            Source::Byblos => 17,
            Source::IdBank => 18,
            Source::Ararat => 19,
            Source::IdPay => 20,
            Source::Mir => 21,
            Source::SAS => 22,
            Source::HSBC => 23,
            Source::Avosend => 24,
            Source::AlfaBy => 25,
        }
    }

    /// The name a source is shown and parsed by.
    pub open spec fn spec_name(self) -> Seq<char> {
        match self {
            Source::Cb => "Cb"@,
            Source::MoEx => "MoEx"@,
            Source::Acba => "Acba"@,
            Source::Ameria => "Ameria"@,
            Source::Ardshin => "Ardshin"@,
            Source::ArmSwiss => "ArmSwiss"@,
            Source::Evoca => "Evoca"@,
            Source::Fast => "Fast"@,
            Source::Ineco => "Ineco"@,
            Source::Mellat => "Mellat"@,
            Source::Converse => "Converse"@,
            Source::AEB => "AEB"@,
            Source::VtbAm => "VtbAm"@,
            Source::Artsakh => "Artsakh"@,
            Source::Unibank => "Unibank"@,
            Source::Unistream => "Unistream"@,
            Source::Amio => "Amio"@,
            Source::Byblos => "Byblos"@,
            Source::IdBank => "IdBank"@,
            Source::Ararat => "Ararat"@,
            Source::IdPay => "IdPay"@,
            Source::Mir => "Mir"@,
            Source::SAS => "SAS"@,
            Source::HSBC => "HSBC"@,
            Source::Avosend => "Avosend"@,
            Source::AlfaBy => "AlfaBy"@,
        }
    }

    /// The mark a source's rows start with: `@` for the central bank, `*` for
    /// a local bank, `#` for any other source.
    pub open spec fn spec_prefix(self) -> Seq<char> {
        if self == Source::Cb {
            "@"@
        } else if spec_is_local_bank(self) {
            "*"@
        } else {
            "#"@
        }
    }

    pub fn prefix(&self) -> (r: &'static str)
        ensures
            r@ == self.spec_prefix(),
    {
        if *self == Self::Cb {
            "@"
        } else if self.is_local_bank() {
            "*"
        } else {
            "#"
        }
    }

    /// Whether the source is a local bank: neither the central bank nor an
    /// exchange, a card system or a transfer service.
    pub fn is_local_bank(&self) -> (r: bool)
        ensures
            r == spec_is_local_bank(*self),
    {
        !(*self == Self::Cb || *self == Self::MoEx || *self == Self::IdPay || *self == Self::Mir
            || *self == Self::SAS || *self == Self::Avosend || *self == Self::Unistream || *self
            == Self::AlfaBy)
    }

    /// Whether only the shortest conversions of the source are shown: true of
    /// local banks and of `AlfaBy`.
    pub fn is_remove_extra_conv(&self) -> (r: bool)
        ensures
            r == spec_is_bank(*self),
    {
        let mut v = self.is_local_bank();
        v = v || *self == Self::AlfaBy;
        v
    }

    /// Position in declaration order.
    pub fn index(&self) -> (r: u8)
        ensures
            r == self.spec_index(),
    {
        match self {
            Source::Cb => 0,
            Source::MoEx => 1,
            Source::Acba => 2,
            Source::Ameria => 3,
            Source::Ardshin => 4,
            Source::ArmSwiss => 5,
            Source::Evoca => 6,
            Source::Fast => 7,
            Source::Ineco => 8,
            Source::Mellat => 9,
            Source::Converse => 10,
            Source::AEB => 11,
            Source::VtbAm => 12,
            Source::Artsakh => 13,
            Source::Unibank => 14,
            Source::Unistream => 15,
            Source::Amio => 16,
            Source::Byblos => 17,
            Source::IdBank => 18,
            Source::Ararat => 19,
            Source::IdPay => 20,
            Source::Mir => 21,
            Source::SAS => 22,
            Source::HSBC => 23,
            Source::Avosend => 24,
            Source::AlfaBy => 25,
        }
    }

    /// The name of the source.
    pub fn name(&self) -> (r: &'static str)
        ensures
            r@ == self.spec_name(),
    {
        match self {
            Source::Cb => "Cb",
            Source::MoEx => "MoEx",
            Source::Acba => "Acba",
            Source::Ameria => "Ameria",
            Source::Ardshin => "Ardshin",
            Source::ArmSwiss => "ArmSwiss",
            Source::Evoca => "Evoca",
            Source::Fast => "Fast",
            Source::Ineco => "Ineco",
            Source::Mellat => "Mellat",
            Source::Converse => "Converse",
            Source::AEB => "AEB",
            Source::VtbAm => "VtbAm",
            Source::Artsakh => "Artsakh",
            Source::Unibank => "Unibank",
            Source::Unistream => "Unistream",
            Source::Amio => "Amio",
            Source::Byblos => "Byblos",
            Source::IdBank => "IdBank",
            Source::Ararat => "Ararat",
            Source::IdPay => "IdPay",
            Source::Mir => "Mir",
            Source::SAS => "SAS",
            Source::HSBC => "HSBC",
            Source::Avosend => "Avosend",
            Source::AlfaBy => "AlfaBy",
        }
    }

    /// The name of the source as a `String`.
    pub fn to_string(&self) -> (r: String)
        ensures
            r@ == self.spec_name(),
    {
        to_owned(self.name())
    }

    /// All sources in declaration order.
    pub fn iter() -> (r: Vec<Source>)
        ensures
            r@ == spec_all_sources(),
    {
        let v = vec![
            Source::Cb,
            Source::MoEx,
            Source::Acba,
            Source::Ameria,
            Source::Ardshin,
            Source::ArmSwiss,
            Source::Evoca,
            Source::Fast,
            Source::Ineco,
            Source::Mellat,
            Source::Converse,
            Source::AEB,
            Source::VtbAm,
            Source::Artsakh,
            Source::Unibank,
            Source::Unistream,
            Source::Amio,
            Source::Byblos,
            Source::IdBank,
            Source::Ararat,
            Source::IdPay,
            Source::Mir,
            Source::SAS,
            Source::HSBC,
            Source::Avosend,
            Source::AlfaBy,
        ];
        assert(v@ =~= spec_all_sources());
        v
    }

    /// The source a text names, ASCII letters compared without case.
    pub open spec fn spec_from_str(s: Seq<char>) -> Result<Source, ParseError> {
        match source_named_from(s, 0) {
            Some(src) => Ok(src),
            None => Err(ParseError::VariantNotFound),
        }
    }

    /// The source whose name equals the text, ASCII letters compared without
    /// case.
    pub fn from_str(s: &str) -> (r: Result<Source, ParseError>)
        ensures
            r == Source::spec_from_str(s@),
    {
        let all = Source::iter();
        let mut i: usize = 0;
        while i < all.len()
            invariant
                all@ == spec_all_sources(),
                i <= all@.len(),
                source_named_from(s@, 0) == source_named_from(s@, i as nat),
            decreases all@.len() - i,
        {
            let src = all[i];
            if eq_ignore_ascii_case(s, src.name()) {
                return Ok(src);
            }
            i = i + 1;
        }
        Err(ParseError::VariantNotFound)
    }
}

/// The first source from position `k` on whose name equals the text, ASCII
/// letters compared without case.
pub open spec fn source_named_from(s: Seq<char>, k: nat) -> Option<Source>
    decreases spec_all_sources().len() - k,
{
    if k >= spec_all_sources().len() {
        None
    } else if spec_eq_ignore_ascii_case(s, spec_all_sources()[k as int].spec_name()) {
        Some(spec_all_sources()[k as int])
    } else {
        source_named_from(s, k + 1)
    }
}

// ---------------------------------------------------------------------------
// Currency
// ---------------------------------------------------------------------------

/// "RUR" replaced by "RUB" from left to right, occurrences not overlapping.
pub open spec fn spec_replace_rur(s: Seq<char>) -> Seq<char>
    decreases s.len(),
{
    if s.len() < 3 {
        s
    } else if s[0] == 'R' && s[1] == 'U' && s[2] == 'R' {
        seq!['R', 'U', 'B'] + spec_replace_rur(s.subrange(3, s.len() as int))
    } else {
        seq![s[0]] + spec_replace_rur(s.subrange(1, s.len() as int))
    }
}

/// What tells the names of the sources apart: the length, and the first and
/// last characters in lower case.
pub open spec fn name_key(s: Source) -> (nat, u32, u32) {
    let n = s.spec_name();
    (n.len(), ascii_lower(n[0]), ascii_lower(n[n.len() - 1]))
}

proof fn lemma_name_key_injective(a: Source, b: Source)
    requires
        name_key(a) == name_key(b),
    ensures
        a == b,
{
    reveal_strlit("Cb");
    reveal_strlit("MoEx");
    reveal_strlit("Acba");
    reveal_strlit("Ameria");
    reveal_strlit("Ardshin");
    reveal_strlit("ArmSwiss");
    reveal_strlit("Evoca");
    reveal_strlit("Fast");
    reveal_strlit("Ineco");
    reveal_strlit("Mellat");
    reveal_strlit("Converse");
    reveal_strlit("AEB");
    reveal_strlit("VtbAm");
    reveal_strlit("Artsakh");
    reveal_strlit("Unibank");
    reveal_strlit("Unistream");
    reveal_strlit("Amio");
    reveal_strlit("Byblos");
    reveal_strlit("IdBank");
    reveal_strlit("Ararat");
    reveal_strlit("IdPay");
    reveal_strlit("Mir");
    reveal_strlit("SAS");
    reveal_strlit("HSBC");
    reveal_strlit("Avosend");
    reveal_strlit("AlfaBy");
}

/// Distinct sources have names that differ even with ASCII case ignored.
pub proof fn lemma_names_differ(a: Source, b: Source)
    requires
        a != b,
    ensures
        !spec_eq_ignore_ascii_case(a.spec_name(), b.spec_name()),
{
    if spec_eq_ignore_ascii_case(a.spec_name(), b.spec_name()) {
        reveal_strlit("Cb");
        reveal_strlit("MoEx");
        reveal_strlit("Acba");
        reveal_strlit("Ameria");
        reveal_strlit("Ardshin");
        reveal_strlit("ArmSwiss");
        reveal_strlit("Evoca");
        reveal_strlit("Fast");
        reveal_strlit("Ineco");
        reveal_strlit("Mellat");
        reveal_strlit("Converse");
        reveal_strlit("AEB");
        reveal_strlit("VtbAm");
        reveal_strlit("Artsakh");
        reveal_strlit("Unibank");
        reveal_strlit("Unistream");
        reveal_strlit("Amio");
        reveal_strlit("Byblos");
        reveal_strlit("IdBank");
        reveal_strlit("Ararat");
        reveal_strlit("IdPay");
        reveal_strlit("Mir");
        reveal_strlit("SAS");
        reveal_strlit("HSBC");
        reveal_strlit("Avosend");
        reveal_strlit("AlfaBy");
        let na = a.spec_name();
        let nb = b.spec_name();
        assert(na.len() >= 2);
        assert(ascii_lower(na[0]) == ascii_lower(nb[0]));
        assert(ascii_lower(na[na.len() - 1]) == ascii_lower(nb[nb.len() - 1]));
        lemma_name_key_injective(a, b);
    }
}

proof fn lemma_named_from(src: Source, k: nat)
    requires
        k <= src.spec_index(),
    ensures
        source_named_from(src.spec_name(), k) == Some(src),
    decreases src.spec_index() - k,
{
    lemma_source_at_index(src);
    let other = spec_all_sources()[k as int];
    if k < src.spec_index() {
        lemma_source_at_index(other);
        if other == src {
            lemma_index_injective(other, src);
            assert(false);
        }
        lemma_names_differ(src, other);
        lemma_named_from(src, k + 1);
    } else {
        assert(other == src);
    }
}

/// Every source's name, in any case of its ASCII letters, is read back as
/// that source.
pub proof fn lemma_name_round_trip(src: Source)
    ensures
        Source::spec_from_str(src.spec_name()) == Ok::<Source, ParseError>(src),
{
    lemma_named_from(src, 0);
}

/// Whether "RUR" starts at position `i`.
pub open spec fn rur_at(s: Seq<char>, i: int) -> bool {
    0 <= i && i + 3 <= s.len() && s[i] == 'R' && s[i + 1] == 'U' && s[i + 2] == 'R'
}

proof fn lemma_replace_rur_prefix(s: Seq<char>)
    ensures
        s.len() >= 1 ==> spec_replace_rur(s).len() >= 1 && spec_replace_rur(s)[0] == s[0],
        s.len() >= 2 ==> spec_replace_rur(s).len() >= 2 && spec_replace_rur(s)[1] == s[1],
    decreases s.len(),
{
    if s.len() >= 3 && !(s[0] == 'R' && s[1] == 'U' && s[2] == 'R') {
        lemma_replace_rur_prefix(s.subrange(1, s.len() as int));
    }
}

/// A character that upper-casing keeps and that is ASCII.
pub open spec fn upper_ascii(c: char) -> bool {
    (c as u32) < 128 && crate::text::upper_ch(c) == c
}

proof fn lemma_upper_ch(c: char)
    requires
        (c as u32) < 128,
    ensures
        upper_ascii(crate::text::upper_ch(c)),
        crate::text::is_ws(crate::text::upper_ch(c)) == crate::text::is_ws(c),
{
    let x = c as u32;
    if 97 <= x && x <= 122 {
        let y = (x - 32) as u32;
        assert(((y as char) as u32) == y);
    }
}

proof fn lemma_replace_rur_upper(s: Seq<char>)
    requires
        forall|i: int| 0 <= i < s.len() ==> upper_ascii(#[trigger] s[i]),
    ensures
        forall|i: int| 0 <= i < spec_replace_rur(s).len() ==> upper_ascii(#[trigger] spec_replace_rur(s)[i]),
        s.len() > 0 ==> spec_replace_rur(s).len() > 0 && (spec_replace_rur(s).last() == s.last()
            || spec_replace_rur(s).last() == 'B'),
    decreases s.len(),
{
    assert(((66u32 as char) as u32) == 66u32);
    assert(((82u32 as char) as u32) == 82u32);
    assert(((85u32 as char) as u32) == 85u32);
    assert(upper_ascii('B') && upper_ascii('R') && upper_ascii('U'));
    if s.len() >= 3 {
        let k: int = if s[0] == 'R' && s[1] == 'U' && s[2] == 'R' { 3 } else { 1 };
        let t = s.subrange(k, s.len() as int);
        assert forall|i: int| 0 <= i < t.len() implies upper_ascii(#[trigger] t[i]) by {
            assert(t[i] == s[i + k]);
        }
        lemma_replace_rur_upper(t);
        let r = spec_replace_rur(s);
        let rt = spec_replace_rur(t);
        if k == 3 {
            assert(r == seq!['R', 'U', 'B'] + rt);
        } else {
            assert(r == seq![s[0]] + rt);
        }
        assert forall|i: int| 0 <= i < r.len() implies upper_ascii(#[trigger] r[i]) by {
            if i >= k {
                assert(r[i] == rt[i - k]);
            } else if k == 1 {
                assert(r[i] == s[0]);
            }
        }
        if t.len() > 0 {
            assert(r.last() == rt.last());
            assert(t.last() == s.last());
        }
    }
}

proof fn lemma_replace_rur_none(s: Seq<char>)
    requires
        forall|i: int| !rur_at(s, i),
    ensures
        spec_replace_rur(s) == s,
    decreases s.len(),
{
    if s.len() >= 3 {
        assert(!rur_at(s, 0));
        let t = s.subrange(1, s.len() as int);
        assert forall|i: int| !rur_at(t, i) by {
            if rur_at(t, i) {
                assert(t[i] == s[i + 1] && t[i + 1] == s[i + 2] && t[i + 2] == s[i + 3]);
                assert(rur_at(s, i + 1));
            }
        }
        lemma_replace_rur_none(t);
        assert(seq![s[0]] + t =~= s);
    }
}

proof fn lemma_trim_kept(s: Seq<char>)
    requires
        s.len() > 0 ==> !crate::text::is_ws(s[0]) && !crate::text::is_ws(s.last()),
    ensures
        spec_trim(s) == s,
{
}

proof fn lemma_trim_ends(s: Seq<char>)
    ensures
        crate::text::trim_start(s).len() > 0 ==> !crate::text::is_ws(crate::text::trim_start(s)[0]),
        crate::text::trim_start(s).len() <= s.len(),
        forall|i: int| 0 <= i < crate::text::trim_start(s).len() ==> #[trigger] crate::text::trim_start(s)[i] == s[i + s.len() - crate::text::trim_start(s).len()],
    decreases s.len(),
{
    if s.len() > 0 && crate::text::is_ws(s[0]) {
        let d = s.drop_first();
        lemma_trim_ends(d);
        let a = crate::text::trim_start(s);
        assert forall|i: int| 0 <= i < a.len() implies #[trigger] a[i] == s[i + s.len() - a.len()] by {
            assert(a[i] == d[i + d.len() - a.len()]);
        }
    }
}

proof fn lemma_trim_end_ends(s: Seq<char>)
    ensures
        crate::text::trim_end(s).len() > 0 ==> !crate::text::is_ws(crate::text::trim_end(s).last()),
        crate::text::trim_end(s).len() <= s.len(),
        forall|i: int| 0 <= i < crate::text::trim_end(s).len() ==> #[trigger] crate::text::trim_end(s)[i] == s[i],
    decreases s.len(),
{
    if s.len() > 0 && crate::text::is_ws(s.last()) {
        lemma_trim_end_ends(s.drop_last());
    }
}

/// Reading a code again gives it back: for a text of ASCII characters, the
/// code read from its code is that code, which is trimmed, in upper case and
/// free of "RUR".
pub proof fn lemma_currency_code_stable(s: Seq<char>)
    requires
        crate::text::is_ascii(s),
    ensures
        spec_currency_code(spec_currency_code(s)) == spec_currency_code(s),
{
    let a = crate::text::trim_start(s);
    lemma_trim_ends(s);
    let t = spec_trim(s);
    lemma_trim_end_ends(a);
    assert(t == crate::text::trim_end(a));
    assert forall|i: int| 0 <= i < t.len() implies (#[trigger] t[i] as u32) < 128 by {
        let j = i + s.len() - a.len();
        assert(t[i] == a[i]);
        assert(a[i] == s[j]);
        assert(0 <= j < s.len());
        assert((s[j] as u32) < 128);
    }
    if t.len() > 0 {
        assert(t[0] == a[0]);
    }
    let u = spec_to_uppercase(t);
    assert(u == crate::text::spec_ascii_uppercase(t));
    assert forall|i: int| 0 <= i < u.len() implies upper_ascii(#[trigger] u[i]) by {
        assert(u[i] == crate::text::upper_ch(t[i]));
        assert((t[i] as u32) < 128);
        lemma_upper_ch(t[i]);
    }
    if t.len() > 0 {
        assert(u[0] == crate::text::upper_ch(t[0]));
        lemma_upper_ch(t[0]);
        assert(u.last() == crate::text::upper_ch(t.last()));
        assert((t[t.len() - 1] as u32) < 128);
        lemma_upper_ch(t.last());
    }
    let c = spec_replace_rur(u);
    assert(c == spec_currency_code(s));
    lemma_replace_rur_upper(u);
    lemma_replace_rur_prefix(u);
    if c.len() > 0 {
        assert(u.len() > 0);
        assert(c.last() == 'B' ==> !crate::text::is_ws(c.last()));
    }
    lemma_trim_kept(c);
    assert(spec_trim(c) == c);
    assert(crate::text::is_ascii(c)) by {
        assert forall|i: int| 0 <= i < c.len() implies (#[trigger] c[i] as u32) < 128 by {
            assert(upper_ascii(c[i]));
        }
    }
    assert(spec_to_uppercase(c) =~= c) by {
        assert forall|i: int| 0 <= i < c.len() implies #[trigger] crate::text::spec_ascii_uppercase(c)[i] == c[i] by {
            assert(upper_ascii(c[i]));
        }
    }
    assert forall|i: int| !rur_at(c, i) by {
        lemma_no_rur_left(u, i);
    }
    lemma_replace_rur_none(c);
}

/// A currency's code never reads "RUR": every "RUR" of the text is read as
/// "RUB", and the replacement makes no new one.
pub proof fn lemma_no_rur_left(s: Seq<char>, i: int)
    ensures
        !rur_at(spec_replace_rur(s), i),
    decreases s.len(),
{
    let r = spec_replace_rur(s);
    if s.len() < 3 {
    } else if s[0] == 'R' && s[1] == 'U' && s[2] == 'R' {
        let t = s.subrange(3, s.len() as int);
        if i >= 3 {
            lemma_no_rur_left(t, i - 3);
            let rt = spec_replace_rur(t);
            if rur_at(r, i) {
                assert(r[i] == rt[i - 3] && r[i + 1] == rt[i - 2] && r[i + 2] == rt[i - 1]);
                assert(rur_at(rt, i - 3));
            }
        } else if rur_at(r, i) {
            assert(r[2] == 'B');
            assert(r[1] == 'U');
        }
    } else {
        let t = s.subrange(1, s.len() as int);
        let rt = spec_replace_rur(t);
        if i >= 1 {
            lemma_no_rur_left(t, i - 1);
            if rur_at(r, i) {
                assert(r[i] == rt[i - 1] && r[i + 1] == rt[i] && r[i + 2] == rt[i + 1]);
                assert(rur_at(rt, i - 1));
            }
        } else if rur_at(r, i) {
            lemma_replace_rur_prefix(t);
            assert(r[0] == s[0] && r[1] == rt[0] && r[2] == rt[1]);
            assert(rt[0] == t[0] && rt[1] == t[1]);
        }
    }
}

/// The code a text names: trimmed, in upper case, with "RUR" read as "RUB".
pub open spec fn spec_currency_code(s: Seq<char>) -> Seq<char> {
    spec_replace_rur(spec_to_uppercase(spec_trim(s)))
}

/// A currency, by its code.
#[derive(Debug, Hash)]
pub struct Currency(pub String);

impl View for Currency {
    type V = Seq<char>;

    open spec fn view(&self) -> Seq<char> {
        self.0@
    }
}

impl Clone for Currency {
    fn clone(&self) -> (r: Self)
        ensures
            r == *self,
    {
        Currency(self.0.clone())
    }
}

impl PartialEq for Currency {
    fn eq(&self, other: &Self) -> (r: bool) {
        self.0 == other.0
    }
}

impl Eq for Currency {}

impl vstd::std_specs::cmp::PartialEqSpecImpl for Currency {
    open spec fn obeys_eq_spec() -> bool {
        true
    }

    open spec fn eq_spec(&self, other: &Self) -> bool {
        self.0@ == other.0@
    }
}

fn replace_rur(v: &Vec<char>) -> (r: Vec<char>)
    ensures
        r@ == spec_replace_rur(v@),
{
    let mut out: Vec<char> = Vec::new();
    let mut i: usize = 0;
    assert(v@.subrange(0, v@.len() as int) =~= v@);
    assert(out@ + spec_replace_rur(v@) =~= spec_replace_rur(v@));
    while i < v.len()
        invariant
            i <= v@.len(),
            out@ + spec_replace_rur(v@.subrange(i as int, v@.len() as int)) == spec_replace_rur(v@),
        decreases v@.len() - i,
    {
        let ghost rest = v@.subrange(i as int, v@.len() as int);
        if v.len() - i >= 3 && v[i] == 'R' && v[i + 1] == 'U' && v[i + 2] == 'R' {
            assert(rest.subrange(3, rest.len() as int) =~= v@.subrange(i + 3, v@.len() as int));
            out.push('R');
            out.push('U');
            out.push('B');
            i = i + 3;
            assert(out@ + spec_replace_rur(v@.subrange(i as int, v@.len() as int)) =~= spec_replace_rur(v@));
        } else {
            if v.len() - i >= 3 {
                assert(rest.subrange(1, rest.len() as int) =~= v@.subrange(i + 1, v@.len() as int));
            } else {
                assert(spec_replace_rur(rest) == rest);
                assert(spec_replace_rur(v@.subrange(i + 1, v@.len() as int)) == v@.subrange(i + 1, v@.len() as int));
                assert(rest =~= seq![rest[0]] + v@.subrange(i + 1, v@.len() as int));
            }
            out.push(v[i]);
            i = i + 1;
            assert(out@ + spec_replace_rur(v@.subrange(i as int, v@.len() as int)) =~= spec_replace_rur(v@));
        }
    }
    assert(v@.subrange(i as int, v@.len() as int) =~= Seq::<char>::empty());
    assert(out@ =~= spec_replace_rur(v@));
    out
}

impl Currency {
    pub const AMD: &'static str = "AMD";
    pub const USD: &'static str = "USD";
    pub const EUR: &'static str = "EUR";
    pub const RUB: &'static str = "RUB";

    /// The currency a text names: trimmed, in upper case, "RUR" read as "RUB".
    pub fn new(s: &str) -> (r: Currency)
        ensures
            r@ == spec_currency_code(s@),
    {
        let t = str_trim(s);
        let u = str_to_uppercase(t);
        let v = chars_of(u.as_str());
        let w = replace_rur(&v);
        Currency(string_from_chars(w.as_slice()))
    }

    pub fn usd() -> (r: Currency)
        ensures
            r@ == "USD"@,
    {
        Currency(to_owned("USD"))
    }

    pub fn eur() -> (r: Currency)
        ensures
            r@ == "EUR"@,
    {
        Currency(to_owned("EUR"))
    }

    pub fn rub() -> (r: Currency)
        ensures
            r@ == "RUB"@,
    {
        Currency(to_owned("RUB"))
    }

    /// The Armenian dram, the currency most rates are quoted in.
    pub fn default() -> (r: Currency)
        ensures
            r@ == "AMD"@,
    {
        Currency(to_owned("AMD"))
    }

    pub fn is_empty(&self) -> (r: bool)
        ensures
            r == (self@.len() == 0),
    {
        self.0.as_str().is_empty()
    }

    /// The code of the currency.
    pub fn to_string(&self) -> (r: String)
        ensures
            r@ == self@,
    {
        self.0.clone()
    }

    /// Whether two currencies have the same code.
    pub fn same(&self, other: &Currency) -> (r: bool)
        ensures
            r == (self@ == other@),
    {
        self.0 == other.0
    }
}

// ---------------------------------------------------------------------------
// Rate types and rates
// ---------------------------------------------------------------------------

/// The kind of a rate: for transfers, for cash, for cards, online, or the
/// central bank's.
#[derive(Clone, Copy, Debug, PartialEq, Eq, Structural)]
pub enum RateType {
    NoCash,
    Cash,
    Card,
    Online,
    Cb,
}

/// The names each rate type is parsed from.
pub open spec fn rate_type_names(t: RateType) -> Seq<Seq<char>> {
    match t {
        RateType::NoCash => seq!["no cash"@, "non cash"@, "no_cash"@, "non_cash"@, "nocash"@],
        RateType::Cash => seq!["Cash"@],
        RateType::Card => seq!["Card"@],
        RateType::Online => seq!["Online"@],
        RateType::Cb => seq!["Cb"@],
    }
}

/// Whether a text names a rate type, ASCII letters compared without case.
pub open spec fn names_rate_type(s: Seq<char>, t: RateType) -> bool {
    exists|k: int| 0 <= k < rate_type_names(t).len() && spec_eq_ignore_ascii_case(s, #[trigger] rate_type_names(t)[k])
}

fn matches_any(s: &str, names: &[&str]) -> (r: bool)
    ensures
        r == exists|k: int| 0 <= k < names@.len() && spec_eq_ignore_ascii_case(s@, #[trigger] names@[k]@),
{
    let mut i: usize = 0;
    while i < names.len()
        invariant
            i <= names@.len(),
            forall|k: int| 0 <= k < i ==> !spec_eq_ignore_ascii_case(s@, #[trigger] names@[k]@),
        decreases names@.len() - i,
    {
        if eq_ignore_ascii_case(s, names[i]) {
            return true;
        }
        i = i + 1;
    }
    false
}

impl RateType {
    /// The number the rate type is sent as.
    pub open spec fn spec_as_u8(self) -> u8 {
        match self {
            RateType::NoCash => 0,
            RateType::Cash => 1,
            RateType::Card => 2,
            RateType::Online => 3,
            RateType::Cb => 4,
        }
    }

    pub fn as_u8(&self) -> (r: u8)
        ensures
            r == self.spec_as_u8(),
    {
        match self {
            RateType::NoCash => 0,
            RateType::Cash => 1,
            RateType::Card => 2,
            RateType::Online => 3,
            RateType::Cb => 4,
        }
    }

    /// The rate type a text names, ASCII letters compared without case; the
    /// first in declaration order.
    pub open spec fn spec_from_str(s: Seq<char>) -> Result<RateType, ParseError> {
        if names_rate_type(s, RateType::NoCash) {
            Ok(RateType::NoCash)
        } else if names_rate_type(s, RateType::Cash) {
            Ok(RateType::Cash)
        } else if names_rate_type(s, RateType::Card) {
            Ok(RateType::Card)
        } else if names_rate_type(s, RateType::Online) {
            Ok(RateType::Online)
        } else if names_rate_type(s, RateType::Cb) {
            Ok(RateType::Cb)
        } else {
            Err(ParseError::VariantNotFound)
        }
    }

    /// The rate type a text names.
    pub fn from_str(s: &str) -> (r: Result<RateType, ParseError>)
        ensures
            r == RateType::spec_from_str(s@),
    {
        let no_cash: [&str; 5] = ["no cash", "non cash", "no_cash", "non_cash", "nocash"];
        let cash: [&str; 1] = ["Cash"];
        let card: [&str; 1] = ["Card"];
        let online: [&str; 1] = ["Online"];
        let cb: [&str; 1] = ["Cb"];
        let r0 = matches_any(s, &no_cash);
        let r1 = matches_any(s, &cash);
        let r2 = matches_any(s, &card);
        let r3 = matches_any(s, &online);
        let r4 = matches_any(s, &cb);
        proof {
            assert(no_cash@.map_values(|x: &str| x@) =~= rate_type_names(RateType::NoCash));
            assert forall|k: int| 0 <= k < 5 implies no_cash@[k]@ == #[trigger] rate_type_names(RateType::NoCash)[k] by {
                assert(no_cash@.map_values(|x: &str| x@)[k] == no_cash@[k]@);
            }
            assert(cash@[0]@ == rate_type_names(RateType::Cash)[0]);
            assert(card@[0]@ == rate_type_names(RateType::Card)[0]);
            assert(online@[0]@ == rate_type_names(RateType::Online)[0]);
            assert(cb@[0]@ == rate_type_names(RateType::Cb)[0]);
        }
        if r0 {
            Ok(RateType::NoCash)
        } else if r1 {
            Ok(RateType::Cash)
        } else if r2 {
            Ok(RateType::Card)
        } else if r3 {
            Ok(RateType::Online)
        } else if r4 {
            Ok(RateType::Cb)
        } else {
            Err(ParseError::VariantNotFound)
        }
    }
}

/// Errors of reading the rates of a source.
#[derive(Clone, Copy, Debug, PartialEq, Eq, Structural)]
pub enum Error {
    InvalidRateType,
    Html,
    NoRates,
}

impl Error {
    pub open spec fn spec_message(self) -> Seq<char> {
        match self {
            Error::InvalidRateType => "invalid rate type"@,
            Error::Html => "html parse error"@,
            Error::NoRates => "no rates found"@,
        }
    }

    /// The text the error is shown with.
    pub fn message(&self) -> (r: &'static str)
        ensures
            r@ == self.spec_message(),
    {
        match self {
            Error::InvalidRateType => "invalid rate type",
            Error::Html => "html parse error",
            Error::NoRates => "no rates found",
        }
    }
}

/// The rate of one currency in another: `buy` is what the source pays in
/// `to` for one `from`, `sell` what it asks.
#[derive(Debug)]
pub struct Rate {
    pub from: Currency,
    pub to: Currency,
    pub rate_type: RateType,
    pub buy: Option<Dec>,
    pub sell: Option<Dec>,
}

/// A rate with its currencies given by their codes.
pub struct RateView {
    pub from: Seq<char>,
    pub to: Seq<char>,
    pub rate_type: RateType,
    pub buy: Option<Dec>,
    pub sell: Option<Dec>,
}

impl View for Rate {
    type V = RateView;

    open spec fn view(&self) -> RateView {
        RateView {
            from: self.from@,
            to: self.to@,
            rate_type: self.rate_type,
            buy: self.buy,
            sell: self.sell,
        }
    }
}

/// The views of a list of rates.
pub open spec fn rates_view(s: Seq<Rate>) -> Seq<RateView> {
    s.map_values(|r: Rate| r@)
}

/// A rate of `from` in `to`.
pub open spec fn rate_of(from: Seq<char>, to: Seq<char>, rate_type: RateType, buy: Option<Dec>, sell: Option<Dec>) -> RateView {
    RateView { from, to, rate_type, buy, sell }
}

impl Clone for Rate {
    fn clone(&self) -> (r: Self)
        ensures
            r == *self,
    {
        Rate {
            from: self.from.clone(),
            to: self.to.clone(),
            rate_type: self.rate_type,
            buy: self.buy,
            sell: self.sell,
        }
    }
}

/// A rate is kept when both currencies are named and it has a positive
/// buying or selling rate.
pub open spec fn spec_rate_kept(r: Rate) -> bool {
    &&& r.from@.len() > 0
    &&& r.to@.len() > 0
    &&& (r.buy matches Some(b) && b.m() > 0) || (r.sell matches Some(s) && s.m() > 0)
}

pub fn rate_kept(r: &Rate) -> (b: bool)
    ensures
        b == spec_rate_kept(*r),
{
    let named = !r.from.is_empty() && !r.to.is_empty();
    let buy_ok = match r.buy {
        Some(b) => b.is_positive(),
        None => false,
    };
    let sell_ok = match r.sell {
        Some(s) => s.is_positive(),
        None => false,
    };
    named && (buy_ok || sell_ok)
}

/// A copy of a list of rates.
pub fn clone_rates(v: &Vec<Rate>) -> (r: Vec<Rate>)
    ensures
        r@ == v@,
{
    let mut out: Vec<Rate> = Vec::new();
    let mut i: usize = 0;
    while i < v.len()
        invariant
            i <= v@.len(),
            out@ == v@.subrange(0, i as int),
        decreases v@.len() - i,
    {
        out.push(v[i].clone());
        i = i + 1;
        assert(out@ =~= v@.subrange(0, i as int));
    }
    assert(v@.subrange(0, v@.len() as int) =~= v@);
    out
}

/// The rates that are kept, in their order.
pub fn filter_rates(rates: &Vec<Rate>) -> (r: Vec<Rate>)
    ensures
        r@ == rates@.filter(|x: Rate| spec_rate_kept(x)),
{
    let mut out: Vec<Rate> = Vec::new();
    let mut i: usize = 0;
    while i < rates.len()
        invariant
            i <= rates@.len(),
            out@ == rates@.subrange(0, i as int).filter(|x: Rate| spec_rate_kept(x)),
        decreases rates@.len() - i,
    {
        proof {
            let p = |x: Rate| spec_rate_kept(x);
            assert(rates@.subrange(0, i + 1).drop_last() =~= rates@.subrange(0, i as int));
            reveal_with_fuel(Seq::filter, 1);
        }
        if rate_kept(&rates[i]) {
            out.push(rates[i].clone());
        }
        i = i + 1;
    }
    assert(rates@.subrange(0, rates@.len() as int) =~= rates@);
    out
}

// ---------------------------------------------------------------------------
// Rates of all sources
// ---------------------------------------------------------------------------

/// The source at a position of the declaration order.
pub proof fn lemma_source_at_index(s: Source)
    ensures
        s.spec_index() < spec_all_sources().len(),
        spec_all_sources()[s.spec_index() as int] == s,
{
}

/// Distinct sources have distinct positions.
pub proof fn lemma_index_injective(a: Source, b: Source)
    requires
        a.spec_index() == b.spec_index(),
    ensures
        a == b,
{
    lemma_source_at_index(a);
    lemma_source_at_index(b);
}

/// The rates of each source: one slot per source, in declaration order.
pub struct SourceRates {
    slots: Vec<Option<Vec<Rate>>>,
}

impl View for SourceRates {
    type V = Seq<Option<Seq<Rate>>>;

    closed spec fn view(&self) -> Seq<Option<Seq<Rate>>> {
        slots_view(self.slots@)
    }
}

spec fn slot_view(o: Option<Vec<Rate>>) -> Option<Seq<Rate>> {
    match o {
        Some(v) => Some(v@),
        None => None,
    }
}

spec fn slots_view(s: Seq<Option<Vec<Rate>>>) -> Seq<Option<Seq<Rate>>> {
    s.map_values(|o: Option<Vec<Rate>>| slot_view(o))
}

/// No source has rates.
pub open spec fn empty_slots() -> Seq<Option<Seq<Rate>>> {
    Seq::new(Source::COUNT as nat, |i: int| None)
}

impl SourceRates {
    /// The rates of a source, if it has any.
    pub open spec fn spec_get(self, src: Source) -> Option<Seq<Rate>> {
        if src.spec_index() < self@.len() {
            self@[src.spec_index() as int]
        } else {
            None
        }
    }

    #[verifier::type_invariant]
    spec fn inv(self) -> bool {
        self.slots.len() == Source::COUNT
    }

    /// The number of slots: one per source.
    pub fn slot_count(&self) -> (r: usize)
        ensures
            r == self@.len(),
            r == Source::COUNT,
    {
        proof {
            use_type_invariant(self);
        }
        self.slots.len()
    }

    pub fn new() -> (r: SourceRates)
        ensures
            r@ == empty_slots(),
            r@.len() == Source::COUNT,
    {
        let mut slots: Vec<Option<Vec<Rate>>> = Vec::new();
        let mut i: usize = 0;
        while i < Source::COUNT
            invariant
                i <= Source::COUNT,
                slots@.len() == i,
                forall|k: int| 0 <= k < i ==> slots@[k] is None,
            decreases Source::COUNT - i,
        {
            slots.push(None);
            i = i + 1;
        }
        let r = SourceRates { slots };
        assert(r@ =~= empty_slots());
        r
    }

    /// The rates of a source, if it has any.
    pub fn get(&self, src: Source) -> (r: Option<&Vec<Rate>>)
        ensures
            r is Some <==> self.spec_get(src) is Some,
            r matches Some(v) ==> self.spec_get(src) == Some(v@),
    {
        let i = src.index() as usize;
        if i >= self.slots.len() {
            return None;
        }
        match &self.slots[i] {
            Some(v) => Some(v),
            None => None,
        }
    }

    /// The rates in the slot of a position.
    pub fn get_at(&self, i: usize) -> (r: Option<&Vec<Rate>>)
        requires
            i < self@.len(),
        ensures
            r is Some <==> self@[i as int] is Some,
            r matches Some(v) ==> self@[i as int] == Some(v@),
    {
        match &self.slots[i] {
            Some(v) => Some(v),
            None => None,
        }
    }

    /// A copy of the rates of every source.
    pub fn clone_all(&self) -> (r: SourceRates)
        ensures
            r@ == self@,
            r@.len() == Source::COUNT,
    {
        proof {
            use_type_invariant(self);
        }
        let mut slots: Vec<Option<Vec<Rate>>> = Vec::new();
        let mut i: usize = 0;
        while i < self.slots.len()
            invariant
                i <= self.slots@.len(),
                slots_view(slots@) == self@.subrange(0, i as int),
            decreases self.slots@.len() - i,
        {
            let ghost before = slots_view(slots@);
            let c = match &self.slots[i] {
                Some(v) => Some(clone_rates(v)),
                None => None,
            };
            assert(slot_view(c) == self@[i as int]);
            slots.push(c);
            assert(slots_view(slots@) =~= before.push(slot_view(c)));
            i = i + 1;
            assert(slots_view(slots@) =~= self@.subrange(0, i as int));
        }
        assert(self@.subrange(0, self@.len() as int) =~= self@);
        SourceRates { slots }
    }

    /// Sets the rates of a source, replacing those it had.
    pub fn insert(&mut self, src: Source, rates: Vec<Rate>)
        ensures
            final(self)@ == old(self)@.update(src.spec_index() as int, Some(rates@)),
            final(self)@.len() == Source::COUNT,
    {
        proof {
            use_type_invariant(&*self);
        }
        let ghost rv = rates@;
        let idx = src.index() as usize;
        let mut holder: Option<Vec<Rate>> = Some(rates);
        let mut slots: Vec<Option<Vec<Rate>>> = Vec::new();
        let mut i: usize = 0;
        while i < self.slots.len()
            invariant
                i <= self.slots@.len(),
                self.slots@.len() == Source::COUNT,
                idx == src.spec_index(),
                idx < Source::COUNT,
                i <= idx ==> (holder is Some && holder->0@ == rv),
                slots_view(slots@) == old(self)@.update(idx as int, Some(rv)).subrange(0, i as int),
                self@ == old(self)@,
            decreases self.slots@.len() - i,
        {
            let ghost before = slots_view(slots@);
            let c = if i == idx {
                holder.take()
            } else {
                match &self.slots[i] {
                    Some(v) => Some(clone_rates(v)),
                    None => None,
                }
            };
            assert(slot_view(c) == old(self)@.update(idx as int, Some(rv))[i as int]);
            slots.push(c);
            assert(slots_view(slots@) =~= before.push(slot_view(c)));
            i = i + 1;
            assert(slots_view(slots@) =~= old(self)@.update(idx as int, Some(rv)).subrange(0, i as int));
        }
        assert(old(self)@.update(idx as int, Some(rv)).subrange(0, Source::COUNT as int) =~= old(self)@.update(
            idx as int,
            Some(rv),
        ));
        *self = SourceRates { slots };
    }
}

/// The rates that the sources returned: a source that returned a non-empty
/// list has it, filtered by [`spec_rate_kept`]; a later list of a source
/// replaces an earlier one; failures and empty lists are left out.
pub open spec fn spec_filter_collection<E>(results: Seq<(Source, Result<Vec<Rate>, E>)>) -> Seq<
    Option<Seq<Rate>>,
>
    decreases results.len(),
{
    if results.len() == 0 {
        empty_slots()
    } else {
        let prev = spec_filter_collection(results.drop_last());
        let (src, res) = results.last();
        match res {
            Ok(v) => if v@.len() > 0 {
                prev.update(src.spec_index() as int, Some(v@.filter(|x: Rate| spec_rate_kept(x))))
            } else {
                prev
            },
            Err(_) => prev,
        }
    }
}

pub fn filter_collection<E>(results: Vec<(Source, Result<Vec<Rate>, E>)>) -> (r: SourceRates)
    ensures
        r@ == spec_filter_collection(results@),
{
    let mut rates = SourceRates::new();
    let mut k: usize = 0;
    let n = results.len();
    while k < n
        invariant
            n == results@.len(),
            k <= n,
            rates@ == spec_filter_collection(results@.subrange(0, k as int)),
            rates@.len() == Source::COUNT,
        decreases n - k,
    {
        assert(results@.subrange(0, k + 1).drop_last() =~= results@.subrange(0, k as int));
        let src = results[k].0;
        match &results[k].1 {
            Ok(v) => {
                if v.len() > 0 {
                    let filtered = filter_rates(v);
                    rates.insert(src, filtered);
                }
            },
            Err(_) => {},
        }
        k = k + 1;
    }
    assert(results@.subrange(0, n as int) =~= results@);
    rates
}

/// Setting the rates of a source is what is read back for it, and the rates
/// of every other source stay as they were.
pub proof fn lemma_insert_get(slots: Seq<Option<Seq<Rate>>>, src: Source, rates: Seq<Rate>, other: Source)
    requires
        slots.len() == Source::COUNT,
    ensures
        ({
            let after = slots.update(src.spec_index() as int, Some(rates));
            &&& after.len() == Source::COUNT
            &&& after[src.spec_index() as int] == Some(rates)
            &&& other != src ==> after[other.spec_index() as int] == slots[other.spec_index() as int]
        }),
{
    lemma_source_at_index(src);
    lemma_source_at_index(other);
    if other != src && other.spec_index() == src.spec_index() {
        lemma_index_injective(other, src);
    }
}

/// The collection has one slot for each source.
pub proof fn lemma_collection_len<E>(results: Seq<(Source, Result<Vec<Rate>, E>)>)
    ensures
        spec_filter_collection(results).len() == Source::COUNT,
    decreases results.len(),
{
    if results.len() > 0 {
        lemma_collection_len(results.drop_last());
    }
}

/// Every rate the collection keeps is usable: both currencies named and a
/// positive buying or selling rate.
pub proof fn lemma_collection_kept<E>(results: Seq<(Source, Result<Vec<Rate>, E>)>, i: int, j: int)
    requires
        0 <= i < spec_filter_collection(results).len(),
        spec_filter_collection(results)[i] is Some,
        0 <= j < spec_filter_collection(results)[i]->0.len(),
    ensures
        spec_rate_kept(spec_filter_collection(results)[i]->0[j]),
    decreases results.len(),
{
    lemma_collection_len(results);
    if results.len() > 0 {
        lemma_collection_len(results.drop_last());
        let prev = spec_filter_collection(results.drop_last());
        lemma_source_at_index(results.last().0);
        let (src, res) = results.last();
        match res {
            Ok(v) => {
                if v@.len() > 0 && i == src.spec_index() {
                    v@.lemma_filter_pred(|x: Rate| spec_rate_kept(x), j);
                } else {
                    lemma_collection_kept(results.drop_last(), i, j);
                }
            },
            Err(_) => {
                lemma_collection_kept(results.drop_last(), i, j);
            },
        }
    }
}

// ---------------------------------------------------------------------------
// Configuration
// ---------------------------------------------------------------------------

/// The configuration of every source.
#[derive(Debug)]
pub struct Config {
    pub acba: acba::Config,
    pub aeb: aeb::Config,
    pub ameria: BaseConfig,
    pub amio: BaseConfig,
    pub ararat: BaseConfig,
    pub ardshin: ardshin::Config,
    pub arm_swiss: armswiss::Config,
    pub artsakh: BaseConfig,
    pub avosend: avosend::Config,
    pub byblos: BaseConfig,
    pub cb: BaseConfig,
    pub converse: converse::Config,
    pub evoca: BaseConfig,
    pub fast: fast::Config,
    pub hsbc: hsbc::Config,
    pub idbank: idbank::Config,
    pub ineco: ineco::Config,
    pub mellat: mellat::Config,
    pub mir: mir::Config,
    pub moex: moex::Config,
    pub sas: sas::Config,
    pub unibank: BaseConfig,
    pub unistream: BaseConfig,
    pub vtb_am: BaseConfig,
    pub idpay: idpay::Config,
    pub alfa_by: alfa_by::Config,
}

impl Config {
    /// Whether the configuration enables a source.
    pub open spec fn spec_enabled(self, src: Source) -> bool {
        match src {
            Source::Acba => self.acba.enabled,
            Source::AEB => self.aeb.enabled,
            Source::Ameria => self.ameria.enabled,
            Source::Amio => self.amio.enabled,
            Source::Ararat => self.ararat.enabled,
            Source::Ardshin => self.ardshin.enabled,
            Source::ArmSwiss => self.arm_swiss.enabled,
            Source::Artsakh => self.artsakh.enabled,
            Source::Avosend => self.avosend.enabled,
            Source::Byblos => self.byblos.enabled,
            Source::Cb => self.cb.enabled,
            Source::Converse => self.converse.enabled,
            Source::Evoca => self.evoca.enabled,
            Source::Fast => self.fast.enabled,
            Source::HSBC => self.hsbc.enabled,
            Source::IdBank => self.idbank.enabled,
            Source::IdPay => self.idpay.enabled,
            Source::Ineco => self.ineco.enabled,
            Source::Mellat => self.mellat.enabled,
            Source::Mir => self.mir.enabled,
            Source::MoEx => self.moex.enabled,
            Source::SAS => self.sas.enabled,
            Source::Unibank => self.unibank.enabled,
            Source::Unistream => self.unistream.enabled,
            Source::VtbAm => self.vtb_am.enabled,
            Source::AlfaBy => self.alfa_by.enabled,
        }
    }

    pub fn is_enabled_for(&self, src: Source) -> (r: bool)
        ensures
            r == self.spec_enabled(src),
    {
        match src {
            Source::Acba => self.acba.enabled,
            Source::AEB => self.aeb.enabled,
            Source::Ameria => self.ameria.enabled,
            Source::Amio => self.amio.enabled,
            Source::Ararat => self.ararat.enabled,
            Source::Ardshin => self.ardshin.enabled,
            Source::ArmSwiss => self.arm_swiss.enabled,
            Source::Artsakh => self.artsakh.enabled,
            Source::Avosend => self.avosend.enabled,
            Source::Byblos => self.byblos.enabled,
            Source::Cb => self.cb.enabled,
            Source::Converse => self.converse.enabled,
            Source::Evoca => self.evoca.enabled,
            Source::Fast => self.fast.enabled,
            Source::HSBC => self.hsbc.enabled,
            Source::IdBank => self.idbank.enabled,
            Source::IdPay => self.idpay.enabled,
            Source::Ineco => self.ineco.enabled,
            Source::Mellat => self.mellat.enabled,
            Source::Mir => self.mir.enabled,
            Source::MoEx => self.moex.enabled,
            Source::SAS => self.sas.enabled,
            Source::Unibank => self.unibank.enabled,
            Source::Unistream => self.unistream.enabled,
            Source::VtbAm => self.vtb_am.enabled,
            Source::AlfaBy => self.alfa_by.enabled,
        }
    }
}

// ---------------------------------------------------------------------------
// Arithmetic shared by the sources
// ---------------------------------------------------------------------------

/// The rates each item gives, in the order of the items; nothing where some
/// item gives nothing.
pub open spec fn fold_rates<T>(items: Seq<T>, f: spec_fn(T) -> Option<Seq<RateView>>) -> Option<Seq<RateView>>
    decreases items.len(),
{
    if items.len() == 0 {
        Some(Seq::empty())
    } else {
        match (fold_rates(items.drop_last(), f), f(items.last())) {
            (Some(prev), Some(r)) => Some(prev + r),
            _ => None,
        }
    }
}

/// Once the items of a prefix give nothing, all items give nothing.
pub proof fn lemma_fold_rates_none<T>(items: Seq<T>, f: spec_fn(T) -> Option<Seq<RateView>>, k: int)
    requires
        0 <= k <= items.len(),
        fold_rates(items.subrange(0, k), f) is None,
    ensures
        fold_rates(items, f) is None,
    decreases items.len() - k,
{
    if k < items.len() {
        assert(items.subrange(0, k + 1).drop_last() =~= items.subrange(0, k));
        lemma_fold_rates_none(items, f, k + 1);
    } else {
        assert(items.subrange(0, k) =~= items);
    }
}

/// One more item in the fold.
pub proof fn lemma_fold_rates_step<T>(items: Seq<T>, f: spec_fn(T) -> Option<Seq<RateView>>, k: int)
    requires
        0 <= k < items.len(),
    ensures
        fold_rates(items.subrange(0, k + 1), f) == match (fold_rates(items.subrange(0, k), f), f(items[k])) {
            (Some(prev), Some(r)) => Some(prev + r),
            _ => None,
        },
{
    assert(items.subrange(0, k + 1).drop_last() =~= items.subrange(0, k));
}

/// The decimal a text gives once trimmed, nothing where it is not one.
pub open spec fn spec_decimal_text(s: Seq<char>) -> Option<Dec> {
    spec_parse_decimal(spec_trim(s))
}

/// The decimal a text gives once trimmed, `None` where it is not one.
pub fn parse_decimal_text(s: &str) -> (r: Option<Dec>)
    ensures
        r == spec_decimal_text(s@),
{
    match Dec::from_str(str_trim(s)) {
        Ok(d) => Some(d),
        Err(_) => None,
    }
}

/// The decimal 100.0 (mantissa 1000, scale 1).
pub open spec fn hundred_point_zero() -> Dec {
    Dec::spec_new(1000, 1)
}

/// `value / 100.0 * from`, `None` where it overflows.
pub open spec fn spec_percent(value: Dec, from: Dec) -> Option<Dec> {
    match spec_checked_div(value, hundred_point_zero()) {
        Some(q) => spec_checked_mul(q, from),
        None => None,
    }
}

/// `value / 100.0 * from`, a share of `from` given in percent.
pub fn percent(value: Dec, from: Dec) -> (r: Dec)
    requires
        spec_percent(value, from) is Some,
    ensures
        spec_percent(value, from) == Some(r),
{
    try_percent(value, from).unwrap()
}

/// `value / 100.0 * from`, `None` where it overflows.
pub fn try_percent(value: Dec, from: Dec) -> (r: Option<Dec>)
    ensures
        r == spec_percent(value, from),
{
    let hundred = Dec::new(1000, 1);
    match value.checked_div(&hundred) {
        Some(q) => q.checked_mul(&from),
        None => None,
    }
}

/// `x - x * c / 100`: `x` less `c` percent of it, `None` where it overflows.
pub open spec fn spec_less_percent(x: Dec, c: Dec) -> Option<Dec> {
    match spec_percent(c, x) {
        Some(p) => spec_checked_sub(x, p),
        None => None,
    }
}

/// `x + x * c / 100`: `x` plus `c` percent of it, `None` where it overflows.
pub open spec fn spec_plus_percent(x: Dec, c: Dec) -> Option<Dec> {
    match spec_percent(c, x) {
        Some(p) => spec_checked_add(x, p),
        None => None,
    }
}

/// `x` less `c` percent of it, `None` where it overflows.
pub fn less_percent(x: Dec, c: Dec) -> (r: Option<Dec>)
    ensures
        r == spec_less_percent(x, c),
{
    match try_percent(c, x) {
        Some(p) => x.checked_sub(&p),
        None => None,
    }
}

/// `x` plus `c` percent of it, `None` where it overflows.
pub fn plus_percent(x: Dec, c: Dec) -> (r: Option<Dec>)
    ensures
        r == spec_plus_percent(x, c),
{
    match try_percent(c, x) {
        Some(p) => x.checked_add(&p),
        None => None,
    }
}

// ---------------------------------------------------------------------------
// What is asked of the sources
// ---------------------------------------------------------------------------

/// The address of the rates of one rate type: the configured address
/// followed by the number of the rate type; only transfer and cash rates can
/// be asked for.
pub open spec fn spec_rate_type_url(url: Seq<char>, rate_type: RateType) -> Result<Seq<char>, Error> {
    match rate_type {
        RateType::NoCash => Ok(url + "0"@),
        RateType::Cash => Ok(url + "1"@),
        _ => Err(Error::InvalidRateType),
    }
}

/// The address of the rates of one rate type; `InvalidRateType` for a rate
/// type other than transfer or cash.
pub fn rate_type_url(url: &str, rate_type: RateType) -> (r: Result<String, Error>)
    ensures
        match r {
            Ok(u) => spec_rate_type_url(url@, rate_type) == Result::<Seq<char>, Error>::Ok(u@),
            Err(e) => spec_rate_type_url(url@, rate_type) == Result::<Seq<char>, Error>::Err(e),
        },
{
    let mut u = to_owned(url);
    match rate_type {
        RateType::NoCash => {
            push_str(&mut u, "0");
            Ok(u)
        },
        RateType::Cash => {
            push_str(&mut u, "1");
            Ok(u)
        },
        _ => Err(Error::InvalidRateType),
    }
}

/// Whether a source is asked for its rates: it is enabled, and for the
/// exchange a token is at hand.
pub open spec fn spec_to_collect(config: Config, has_token: bool, src: Source) -> bool {
    config.spec_enabled(src) && (src != Source::MoEx || has_token)
}

/// The sources to ask for their rates, in declaration order.
pub fn sources_to_collect(config: &Config, has_token: bool) -> (r: Vec<Source>)
    ensures
        r@ == spec_all_sources().filter(|s: Source| spec_to_collect(*config, has_token, s)),
{
    let all = Source::iter();
    let mut out: Vec<Source> = Vec::new();
    let mut i: usize = 0;
    while i < all.len()
        invariant
            all@ == spec_all_sources(),
            i <= all@.len(),
            out@ == all@.subrange(0, i as int).filter(|s: Source| spec_to_collect(*config, has_token, s)),
        decreases all@.len() - i,
    {
        proof {
            assert(all@.subrange(0, i + 1).drop_last() =~= all@.subrange(0, i as int));
            reveal_with_fuel(Seq::filter, 1);
        }
        let src = all[i];
        if config.is_enabled_for(src) && (src != Source::MoEx || has_token) {
            out.push(src);
        }
        i = i + 1;
    }
    assert(all@.subrange(0, all@.len() as int) =~= all@);
    out
}

} // verus!
