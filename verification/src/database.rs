//! The collected rates and the cache of rendered tables.
use crate::decimal::digit_char;
use crate::source::{Currency, Rate, RateType, Source, SourceRates};
use crate::text::{
    ascii_lowercase, push_str, spec_ascii_lowercase, spec_to_lowercase, spec_to_uppercase, str_to_lowercase,
    str_to_uppercase, string_push,
};
use vstd::hash_map::StringHashMap;
use vstd::prelude::*;

verus! {

#[verifier::external_type_specification]
#[verifier::external_body]
pub struct ExSystemTime(std::time::SystemTime);

/// Calls `SystemTime::now`; nothing is claimed of the time it reads.
#[verifier::external_body]
fn system_time_now() -> (t: std::time::SystemTime) {
    std::time::SystemTime::now()
}

/// The rates of every source and when they were last set.
pub struct Data {
    rates: SourceRates,
    updated_at: std::time::SystemTime,
}

impl Data {
    /// The rates of each source.
    pub closed spec fn spec_rates(self) -> Seq<Option<Seq<Rate>>> {
        self.rates@
    }

    /// No rates, set now.
    pub fn new() -> (d: Data)
        ensures
            d.spec_rates() == crate::source::empty_slots(),
    {
        Data { rates: SourceRates::new(), updated_at: system_time_now() }
    }

    /// A copy of the rates of every source.
    pub fn get_rates(&self) -> (r: SourceRates)
        ensures
            r@ == self.spec_rates(),
    {
        self.rates.clone_all()
    }

    /// Sets the rates of a source, and `now`, the time read by the caller, as
    /// the time of the update.
    pub fn set_rates(&mut self, src: Source, rates: Vec<Rate>, now: std::time::SystemTime)
        ensures
            final(self).spec_rates() == old(self).spec_rates().update(src.spec_index() as int, Some(rates@)),
            final(self).spec_updated_at() == now,
    {
        self.rates.insert(src, rates);
        self.updated_at = now;
    }

    /// When the rates were last set.
    pub closed spec fn spec_updated_at(self) -> std::time::SystemTime {
        self.updated_at
    }

    /// When the rates were last set.
    pub fn get_updated_at(&self) -> (t: std::time::SystemTime)
        ensures
            t == self.spec_updated_at(),
    {
        self.updated_at
    }
}

/// The texts of a map of strings.
pub open spec fn texts_view(m: Map<Seq<char>, String>) -> Map<Seq<char>, Seq<char>> {
    m.map_values(|s: String| s@)
}

/// Rendered tables, by the request they answer.
pub struct Cache {
    conv: StringHashMap<String>,
    src: StringHashMap<String>,
}

/// The text of a single-digit number.
pub open spec fn digit_text(n: nat) -> Seq<char> {
    seq![digit_char(n)]
}

/// The key of a source's table: the source's name in lower case and the
/// number of the rate type, joined by "_".
pub open spec fn spec_src_key(src: Source, rate_type: RateType) -> Seq<char> {
    spec_ascii_lowercase(src.spec_name()) + "_"@ + digit_text(rate_type.spec_as_u8() as nat)
}

/// The key of a conversion table: the first currency in lower case, the
/// second in upper case, the number of the rate type and 1 or 0 for an
/// inverted table, joined by "_".
pub open spec fn spec_conv_key(from: Seq<char>, to: Seq<char>, rate_type: RateType, inv: bool) -> Seq<char> {
    spec_to_lowercase(from) + "_"@ + spec_to_uppercase(to) + "_"@ + digit_text(rate_type.spec_as_u8() as nat)
        + "_"@ + digit_text(if inv {
        1
    } else {
        0
    })
}

fn push_digit(s: &mut String, d: u8)
    requires
        d < 10,
    ensures
        final(s)@ == old(s)@ + digit_text(d as nat),
{
    let c = (48u8 + d) as char;
    assert(c == digit_char(d as nat));
    string_push(s, c);
    assert(final(s)@ =~= old(s)@ + digit_text(d as nat));
}

impl Cache {
    pub const KEY_SEP: &'static str = "_";

    /// The cached conversion tables, by key.
    pub closed spec fn spec_conv(self) -> Map<Seq<char>, Seq<char>> {
        texts_view(self.conv@)
    }

    /// The cached source tables, by key.
    pub closed spec fn spec_src(self) -> Map<Seq<char>, Seq<char>> {
        texts_view(self.src@)
    }

    pub fn new() -> (c: Cache)
        ensures
            c.spec_conv() == Map::<Seq<char>, Seq<char>>::empty(),
            c.spec_src() == Map::<Seq<char>, Seq<char>>::empty(),
    {
        let c = Cache { conv: StringHashMap::new(), src: StringHashMap::new() };
        assert(c.spec_conv() =~= Map::<Seq<char>, Seq<char>>::empty());
        assert(c.spec_src() =~= Map::<Seq<char>, Seq<char>>::empty());
        c
    }

    /// Forgets every table.
    pub fn clear(&mut self)
        ensures
            final(self).spec_conv() == Map::<Seq<char>, Seq<char>>::empty(),
            final(self).spec_src() == Map::<Seq<char>, Seq<char>>::empty(),
    {
        self.conv.clear();
        self.src.clear();
        assert(self.spec_conv() =~= Map::<Seq<char>, Seq<char>>::empty());
        assert(self.spec_src() =~= Map::<Seq<char>, Seq<char>>::empty());
    }

    /// Stores a conversion table.
    pub fn add_conv(&mut self, from: Currency, to: Currency, rate_type: RateType, inv: bool, value: String)
        ensures
            final(self).spec_conv() == old(self).spec_conv().insert(spec_conv_key(from@, to@, rate_type, inv), value@),
            final(self).spec_src() == old(self).spec_src(),
    {
        let key = self.format_conv_key(from, to, rate_type, inv);
        let ghost k = key@;
        let ghost v = value@;
        self.conv.insert(key, value);
        assert(self.spec_conv() =~= old(self).spec_conv().insert(k, v));
    }

    /// Stores a source table.
    pub fn add_src(&mut self, src: Source, rate_type: RateType, value: String)
        ensures
            final(self).spec_src() == old(self).spec_src().insert(spec_src_key(src, rate_type), value@),
            final(self).spec_conv() == old(self).spec_conv(),
    {
        let key = self.format_src_key(src, rate_type);
        let ghost k = key@;
        let ghost v = value@;
        self.src.insert(key, value);
        assert(self.spec_src() =~= old(self).spec_src().insert(k, v));
    }

    /// The key of a source table.
    pub fn format_src_key(&self, src: Source, rate_type: RateType) -> (r: String)
        ensures
            r@ == spec_src_key(src, rate_type),
    {
        let name = src.to_string();
        let mut key = ascii_lowercase(name.as_str());
        push_str(&mut key, Self::KEY_SEP);
        push_digit(&mut key, rate_type.as_u8());
        key
    }

    /// The cached conversion table, if any.
    pub fn get_conv(&self, from: Currency, to: Currency, rate_type: RateType, inv: bool) -> (r: Option<String>)
        ensures
            r is Some <==> self.spec_conv().contains_key(spec_conv_key(from@, to@, rate_type, inv)),
            r matches Some(v) ==> v@ == self.spec_conv()[spec_conv_key(from@, to@, rate_type, inv)],
    {
        let key = self.format_conv_key(from, to, rate_type, inv);
        match self.conv.get(key.as_str()) {
            Some(v) => Some(v.clone()),
            None => None,
        }
    }

    /// The cached source table, if any.
    pub fn get_src(&self, src: Source, rate_type: RateType) -> (r: Option<String>)
        ensures
            r is Some <==> self.spec_src().contains_key(spec_src_key(src, rate_type)),
            r matches Some(v) ==> v@ == self.spec_src()[spec_src_key(src, rate_type)],
    {
        let key = self.format_src_key(src, rate_type);
        match self.src.get(key.as_str()) {
            Some(v) => Some(v.clone()),
            None => None,
        }
    }

    /// The key of a conversion table.
    pub fn format_conv_key(&self, from: Currency, to: Currency, rate_type: RateType, inv: bool) -> (r: String)
        ensures
            r@ == spec_conv_key(from@, to@, rate_type, inv),
    {
        let mut key = str_to_lowercase(from.0.as_str());
        push_str(&mut key, Self::KEY_SEP);
        let upper = str_to_uppercase(to.0.as_str());
        push_str(&mut key, upper.as_str());
        push_str(&mut key, Self::KEY_SEP);
        push_digit(&mut key, rate_type.as_u8());
        push_str(&mut key, Self::KEY_SEP);
        push_digit(&mut key, if inv {
            1
        } else {
            0
        });
        key
    }
}

/// What was stored is what is read back: after a conversion table is stored
/// under the key of a request, the cache holds exactly that text for it, and
/// the tables of every other request are unchanged.
pub proof fn lemma_conv_read_after_write(
    before: Map<Seq<char>, Seq<char>>,
    from: Seq<char>,
    to: Seq<char>,
    rate_type: RateType,
    inv: bool,
    value: Seq<char>,
    other: Seq<char>,
)
    ensures
        ({
            let after = before.insert(spec_conv_key(from, to, rate_type, inv), value);
            &&& after.contains_key(spec_conv_key(from, to, rate_type, inv))
            &&& after[spec_conv_key(from, to, rate_type, inv)] == value
            &&& other != spec_conv_key(from, to, rate_type, inv) ==> (after.contains_key(other) == before.contains_key(
                other,
            ) && after[other] == before[other])
        }),
{
}

/// What was stored is what is read back, for the table of a source: after a
/// table is stored for a source and a rate type, the cache holds exactly
/// that text for them, and the table of every other source or rate type is
/// unchanged.
pub proof fn lemma_src_read_after_write(
    before: Map<Seq<char>, Seq<char>>,
    src: Source,
    rate_type: RateType,
    value: Seq<char>,
    other_src: Source,
    other_type: RateType,
)
    ensures
        ({
            let after = before.insert(spec_src_key(src, rate_type), value);
            let k = spec_src_key(other_src, other_type);
            &&& after.contains_key(spec_src_key(src, rate_type))
            &&& after[spec_src_key(src, rate_type)] == value
            &&& (other_src != src || other_type != rate_type) ==> (after.contains_key(k) == before.contains_key(k)
                && after[k] == before[k])
        }),
{
    if other_src != src || other_type != rate_type {
        lemma_src_keys_differ(src, rate_type, other_src, other_type);
    }
}

/// The two tables of a conversion request have different keys: the table
/// from `from` to `to` and the reverse one, inverted the other way, are
/// never stored over each other.
pub proof fn lemma_conv_keys_differ(from: Seq<char>, to: Seq<char>, rate_type: RateType, inv: bool)
    ensures
        spec_conv_key(from, to, rate_type, !inv) != spec_conv_key(to, from, rate_type, inv),
{
    let a = spec_conv_key(from, to, rate_type, !inv);
    let b = spec_conv_key(to, from, rate_type, inv);
    assert(a.last() == digit_char(if !inv { 1 } else { 0 }));
    assert(b.last() == digit_char(if inv { 1 } else { 0 }));
}

/// Keys of the tables of different requests differ: a source's table of
/// one rate type is never read for another rate type or another source.
pub proof fn lemma_src_keys_differ(s1: Source, a: RateType, s2: Source, b: RateType)
    requires
        s1 != s2 || a != b,
    ensures
        spec_src_key(s1, a) != spec_src_key(s2, b),
{
    let ka = spec_src_key(s1, a);
    let kb = spec_src_key(s2, b);
    assert(ka.last() == digit_char(a.spec_as_u8() as nat));
    assert(kb.last() == digit_char(b.spec_as_u8() as nat));
    if s1 != s2 && ka == kb {
        let n1 = s1.spec_name();
        let n2 = s2.spec_name();
        let l1 = spec_ascii_lowercase(n1);
        let l2 = spec_ascii_lowercase(n2);
        assert(ka.subrange(0, l1.len() as int) =~= l1);
        assert(kb.subrange(0, l2.len() as int) =~= l2);
        assert(l1 == l2);
        assert forall|i: int| 0 <= i < n1.len() implies crate::text::ascii_lower(n1[i]) == crate::text::ascii_lower(
            n2[i],
        ) by {
            assert(l1[i] == crate::text::lower_ch(n1[i]));
            assert(l2[i] == crate::text::lower_ch(n2[i]));
            crate::text::lemma_lower_ch_code(n1[i]);
            crate::text::lemma_lower_ch_code(n2[i]);
        }
        crate::source::lemma_names_differ(s1, s2);
    }
}

} // verus!
