//! What the bot answers: the commands it takes, the action each asks for,
//! and the replies, read from the cache of rendered tables or rendered anew.
use crate::config;
use crate::database::{spec_conv_key, spec_src_key, Cache};
use crate::generate::{spec_conv_table, spec_src_table, src_table, try_conv_table};
use crate::source::{spec_all_sources, spec_currency_code, Currency, RateType, Source, SourceRates};
use crate::text::{
    push_str, spec_split_once, spec_split_whitespace, spec_trim, split_once_char, split_whitespace, str_eq,
    str_trim, to_owned,
};
use crate::DUNNO;
use vstd::prelude::*;

verus! {

// ---------------------------------------------------------------------------
// HTML of the messages
// ---------------------------------------------------------------------------

/// A character as Telegram's HTML shows it as is: `&`, `<` and `>` as
/// entities, any other character unchanged.
pub open spec fn escape_char(c: char) -> Seq<char> {
    if c == '&' {
        "&amp;"@
    } else if c == '<' {
        "&lt;"@
    } else if c == '>' {
        "&gt;"@
    } else {
        seq![c]
    }
}

/// A text as Telegram's HTML shows it as is.
pub open spec fn spec_escape(s: Seq<char>) -> Seq<char>
    decreases s.len(),
{
    if s.len() == 0 {
        Seq::empty()
    } else {
        spec_escape(s.drop_last()) + escape_char(s.last())
    }
}

/// A text shown as a block of code.
pub open spec fn spec_code_block(s: Seq<char>) -> Seq<char> {
    "<pre>"@ + spec_escape(s) + "</pre>"@
}

/// A text shown as inline code.
pub open spec fn spec_code_inline(s: Seq<char>) -> Seq<char> {
    "<code>"@ + spec_escape(s) + "</code>"@
}

/// Calls `teloxide::utils::html::escape`, which replaces `&`, `<` and `>` by
/// their entities and keeps every other character.
#[verifier::external_body]
fn html_escape(s: &str) -> (r: String)
    ensures
        r@ == spec_escape(s@),
{
    teloxide::utils::html::escape(s)
}

/// Calls `teloxide::utils::html::code_block`: the escaped text between
/// `<pre>` and `</pre>`.
#[verifier::external_body]
fn html_code_block(s: &str) -> (r: String)
    ensures
        r@ == spec_code_block(s@),
{
    teloxide::utils::html::code_block(s)
}

/// Calls `teloxide::utils::html::code_inline`: the escaped text between
/// `<code>` and `</code>`.
#[verifier::external_body]
fn html_code_inline(s: &str) -> (r: String)
    ensures
        r@ == spec_code_inline(s@),
{
    teloxide::utils::html::code_inline(s)
}

// ---------------------------------------------------------------------------
// Commands and actions
// ---------------------------------------------------------------------------

/// A command of the bot.
#[derive(Debug)]
pub enum Command {
    Usd,
    Eur,
    Rub,
    Gel,
    RubUsd,
    RubEur,
    UsdEur,
    UsdCash,
    EurCash,
    RubCash,
    GelCash,
    RubUsdCash,
    RubEurCash,
    UsdEurCash,
    Conv { from: Currency, to: Currency },
    ConvCash { from: Currency, to: Currency },
    Get { src: Source },
    GetCash { src: Source },
    GetCard { src: Source },
    List,
    Info,
    Help,
    Start(String),
}

/// What a command asks for.
#[derive(Debug)]
pub enum Action {
    /// The descriptions of the commands.
    Help,
    /// The welcome message.
    Welcome,
    /// The conversion tables of a pair of currencies; `inv` tells which of
    /// the two tables is inverted.
    Conv { from: Currency, to: Currency, rate_type: RateType, inv: bool },
    /// The table of one source.
    Src { src: Source, rate_type: RateType },
    /// The names of the sources.
    List,
    /// The version and the time of the last update.
    Info,
}

/// An action with its currencies given by their codes.
pub enum ActionView {
    Help,
    Welcome,
    Conv { from: Seq<char>, to: Seq<char>, rate_type: RateType, inv: bool },
    Src { src: Source, rate_type: RateType },
    List,
    Info,
}

impl View for Action {
    type V = ActionView;

    open spec fn view(&self) -> ActionView {
        match self {
            Action::Help => ActionView::Help,
            Action::Welcome => ActionView::Welcome,
            Action::Conv { from, to, rate_type, inv } => ActionView::Conv {
                from: from@,
                to: to@,
                rate_type: *rate_type,
                inv: *inv,
            },
            Action::Src { src, rate_type } => ActionView::Src { src: *src, rate_type: *rate_type },
            Action::List => ActionView::List,
            Action::Info => ActionView::Info,
        }
    }
}

/// The conversion asked for by a pair of codes; the table into the dram is
/// the inverted one.
pub open spec fn conv_view(from: Seq<char>, to: Seq<char>, rate_type: RateType, inv: bool) -> ActionView {
    ActionView::Conv { from, to, rate_type, inv }
}

/// The two currencies a text names: "A/B", else the first two words, else
/// the dram and the whole text.
pub open spec fn spec_parse_conv(s: Seq<char>) -> (Seq<char>, Seq<char>) {
    match spec_split_once(s, '/') {
        Some((f, t)) => (spec_currency_code(f), spec_currency_code(t)),
        None => {
            let ws = spec_split_whitespace(s);
            if ws.len() >= 2 {
                (spec_currency_code(ws[0]), spec_currency_code(ws[1]))
            } else {
                ("AMD"@, spec_currency_code(s))
            }
        },
    }
}

/// The two currencies a text names.
pub fn parse_conv(s: &str) -> (r: (Currency, Currency))
    ensures
        (r.0@, r.1@) == spec_parse_conv(s@),
{
    match split_once_char(s, '/') {
        Some((f, t)) => {
            return (Currency::new(f.as_str()), Currency::new(t.as_str()));
        },
        None => {},
    }
    let ws = split_whitespace(s);
    if ws.len() >= 2 {
        return (Currency::new(ws[0].as_str()), Currency::new(ws[1].as_str()));
    }
    (Currency::default(), Currency::new(s))
}

/// The rate type after a ":" of a start parameter; transfer rates where
/// there is none or it names no rate type.
pub open spec fn spec_start_parts(v: Seq<char>) -> (Seq<char>, RateType) {
    match spec_split_once(v, ':') {
        Some((main, param)) => (
            main,
            match RateType::spec_from_str(spec_trim(param)) {
                Ok(t) => t,
                Err(_) => RateType::NoCash,
            },
        ),
        None => (v, RateType::NoCash),
    }
}

/// What the parameter of a start link asks for: the welcome message where
/// there is none; else the table of the source it names, or the conversion of
/// the currencies it names, with the rate type given after a ":".
pub open spec fn spec_start_action(v: Seq<char>) -> ActionView {
    if v.len() == 0 {
        ActionView::Welcome
    } else {
        let (value, rt) = spec_start_parts(v);
        match Source::spec_from_str(spec_trim(value)) {
            Ok(src) => ActionView::Src { src, rate_type: rt },
            Err(_) => {
                let (f, t) = spec_parse_conv(value);
                conv_view(f, t, rt, t == "AMD"@)
            },
        }
    }
}

/// What the parameter of a start link asks for.
pub fn start_action(value: &str) -> (r: Action)
    ensures
        r@ == spec_start_action(value@),
{
    if value.is_empty() {
        return Action::Welcome;
    }
    let (main, rate_type) = match split_once_char(value, ':') {
        Some((main, param)) => {
            let rt = match RateType::from_str(str_trim(param.as_str())) {
                Ok(t) => t,
                Err(_) => RateType::NoCash,
            };
            (main, rt)
        },
        None => (to_owned(value), RateType::NoCash),
    };
    match Source::from_str(str_trim(main.as_str())) {
        Ok(src) => Action::Src { src, rate_type },
        Err(_) => {
            let (from, to) = parse_conv(main.as_str());
            let inv = str_eq(to.0.as_str(), "AMD");
            Action::Conv { from, to, rate_type, inv }
        },
    }
}

/// What a command asks for.
pub open spec fn spec_action(cmd: Command) -> ActionView {
    match cmd {
        Command::Help => ActionView::Help,
        Command::Start(s) => spec_start_action(s@),
        Command::Usd => conv_view("AMD"@, "USD"@, RateType::NoCash, false),
        Command::UsdCash => conv_view("AMD"@, "USD"@, RateType::Cash, false),
        Command::Eur => conv_view("AMD"@, "EUR"@, RateType::NoCash, false),
        Command::EurCash => conv_view("AMD"@, "EUR"@, RateType::Cash, false),
        Command::Rub => conv_view("RUB"@, "AMD"@, RateType::NoCash, true),
        Command::RubCash => conv_view("RUB"@, "AMD"@, RateType::Cash, true),
        Command::Gel => conv_view("AMD"@, "GEL"@, RateType::NoCash, false),
        Command::GelCash => conv_view("AMD"@, "GEL"@, RateType::Cash, false),
        Command::RubUsd => conv_view("RUB"@, "USD"@, RateType::NoCash, false),
        Command::RubUsdCash => conv_view("RUB"@, "USD"@, RateType::Cash, false),
        Command::RubEur => conv_view("RUB"@, "EUR"@, RateType::NoCash, false),
        Command::RubEurCash => conv_view("RUB"@, "EUR"@, RateType::Cash, false),
        Command::UsdEur => conv_view("USD"@, "EUR"@, RateType::NoCash, false),
        Command::UsdEurCash => conv_view("USD"@, "EUR"@, RateType::Cash, false),
        Command::Conv { from, to } => conv_view(from@, to@, RateType::NoCash, to@ == "AMD"@),
        Command::ConvCash { from, to } => conv_view(from@, to@, RateType::Cash, to@ == "AMD"@),
        Command::Get { src } => ActionView::Src { src, rate_type: RateType::NoCash },
        Command::GetCash { src } => ActionView::Src { src, rate_type: RateType::Cash },
        Command::GetCard { src } => ActionView::Src { src, rate_type: RateType::Card },
        Command::List => ActionView::List,
        Command::Info => ActionView::Info,
    }
}

fn conv(from: Currency, to: Currency, rate_type: RateType, inv: bool) -> (r: Action)
    ensures
        r@ == conv_view(from@, to@, rate_type, inv),
{
    Action::Conv { from, to, rate_type, inv }
}

/// What a command asks for.
pub fn action(cmd: &Command) -> (r: Action)
    ensures
        r@ == spec_action(*cmd),
{
    let gel = Currency(to_owned("GEL"));
    match cmd {
        Command::Help => Action::Help,
        Command::Start(s) => start_action(s.as_str()),
        Command::Usd => conv(Currency::default(), Currency::usd(), RateType::NoCash, false),
        Command::UsdCash => conv(Currency::default(), Currency::usd(), RateType::Cash, false),
        Command::Eur => conv(Currency::default(), Currency::eur(), RateType::NoCash, false),
        Command::EurCash => conv(Currency::default(), Currency::eur(), RateType::Cash, false),
        Command::Rub => conv(Currency::rub(), Currency::default(), RateType::NoCash, true),
        Command::RubCash => conv(Currency::rub(), Currency::default(), RateType::Cash, true),
        Command::Gel => conv(Currency::default(), gel, RateType::NoCash, false),
        Command::GelCash => conv(Currency::default(), gel, RateType::Cash, false),
        Command::RubUsd => conv(Currency::rub(), Currency::usd(), RateType::NoCash, false),
        Command::RubUsdCash => conv(Currency::rub(), Currency::usd(), RateType::Cash, false),
        Command::RubEur => conv(Currency::rub(), Currency::eur(), RateType::NoCash, false),
        Command::RubEurCash => conv(Currency::rub(), Currency::eur(), RateType::Cash, false),
        Command::UsdEur => conv(Currency::usd(), Currency::eur(), RateType::NoCash, false),
        Command::UsdEurCash => conv(Currency::usd(), Currency::eur(), RateType::Cash, false),
        Command::Conv { from, to } => {
            let inv = str_eq(to.0.as_str(), "AMD");
            conv(from.clone(), to.clone(), RateType::NoCash, inv)
        },
        Command::ConvCash { from, to } => {
            let inv = str_eq(to.0.as_str(), "AMD");
            conv(from.clone(), to.clone(), RateType::Cash, inv)
        },
        Command::Get { src } => Action::Src { src: *src, rate_type: RateType::NoCash },
        Command::GetCash { src } => Action::Src { src: *src, rate_type: RateType::Cash },
        Command::GetCard { src } => Action::Src { src: *src, rate_type: RateType::Card },
        Command::List => Action::List,
        Command::Info => Action::Info,
    }
}

// ---------------------------------------------------------------------------
// Replies
// ---------------------------------------------------------------------------

/// The welcome message, escaped.
pub fn welcome(cfg: &config::Config) -> (r: String)
    ensures
        r@ == spec_escape(cfg.bot.welcome_msg@),
{
    html_escape(cfg.bot.welcome_msg.as_str())
}

/// The reply to a request for the table of a source, and the cache after
/// it: the cached reply where there is one; else the table as inline code,
/// which is cached, or the shrug where the table is empty.
pub open spec fn spec_src_reply(
    cache: Map<Seq<char>, Seq<char>>,
    sr: Seq<Option<Seq<crate::source::Rate>>>,
    src: Source,
    rt: RateType,
    gen: config::Gen,
) -> (Seq<char>, Map<Seq<char>, Seq<char>>) {
    let k = spec_src_key(src, rt);
    if cache.contains_key(k) {
        (cache[k], cache)
    } else {
        let t = spec_src_table(src, sr, rt, gen);
        if t.len() > 0 {
            let r = spec_code_inline(t);
            (r, cache.insert(k, r))
        } else {
            (DUNNO@, cache)
        }
    }
}

/// The reply to a request for the table of a source.
pub fn src_reply(cache: &mut Cache, rates: &SourceRates, src: Source, rate_type: RateType, gen: &config::Gen) -> (r: String)
    ensures
        (r@, final(cache).spec_src()) == spec_src_reply(old(cache).spec_src(), rates@, src, rate_type, *gen),
        final(cache).spec_conv() == old(cache).spec_conv(),
{
    match cache.get_src(src, rate_type) {
        Some(s) => s,
        None => {
            let t = src_table(src, rates, rate_type, gen);
            if t.as_str().unicode_len() > 0 {
                let s = html_code_inline(t.as_str());
                cache.add_src(src, rate_type, s.clone());
                s
            } else {
                to_owned(DUNNO)
            }
        },
    }
}

/// One table of a conversion request and the cache after it: the cached
/// reply where there is one; else the table as a block of code, which is
/// cached, or the shrug where the table is empty; nothing where rendering
/// overflows.
pub open spec fn spec_conv_step(
    cache: Map<Seq<char>, Seq<char>>,
    sr: Seq<Option<Seq<crate::source::Rate>>>,
    from: Seq<char>,
    to: Seq<char>,
    rt: RateType,
    inv: bool,
    gen: config::Gen,
) -> Option<(Seq<char>, Map<Seq<char>, Seq<char>>)> {
    let k = spec_conv_key(from, to, rt, inv);
    if cache.contains_key(k) {
        Some((cache[k], cache))
    } else {
        match spec_conv_table(from, to, sr, rt, inv, gen) {
            None => None,
            Some(t) => if t.len() > 0 {
                let r = spec_code_block(t);
                Some((r, cache.insert(k, r)))
            } else {
                Some((DUNNO@, cache))
            },
        }
    }
}

/// The replies to a conversion request and the cache after them: the shrug
/// alone where a currency is not named; else the table from `from` to `to`,
/// inverted unless `inv`, then the table from `to` to `from`, inverted if
/// `inv`. Nothing where rendering overflows.
pub open spec fn spec_conv_replies(
    cache: Map<Seq<char>, Seq<char>>,
    sr: Seq<Option<Seq<crate::source::Rate>>>,
    from: Seq<char>,
    to: Seq<char>,
    rt: RateType,
    inv: bool,
    gen: config::Gen,
) -> Option<(Seq<Seq<char>>, Map<Seq<char>, Seq<char>>)> {
    if from.len() == 0 || to.len() == 0 {
        Some((seq![DUNNO@], cache))
    } else {
        match spec_conv_step(cache, sr, from, to, rt, !inv, gen) {
            None => None,
            Some((r1, c1)) => match spec_conv_step(c1, sr, to, from, rt, inv, gen) {
                None => None,
                Some((r2, c2)) => Some((seq![r1, r2], c2)),
            },
        }
    }
}

/// The texts of a list of strings.
pub open spec fn texts(v: Seq<String>) -> Seq<Seq<char>> {
    v.map_values(|s: String| s@)
}

/// One table of a conversion request: read from the cache, or rendered,
/// cached and shown as a block of code, or the shrug where it is empty;
/// `None` where rendering overflows. The replies of a request are this step
/// from `from` to `to` with `!inv`, then from `to` to `from` with `inv`.
pub fn conv_step(
    cache: &mut Cache,
    rates: &SourceRates,
    from: &Currency,
    to: &Currency,
    rate_type: RateType,
    inv: bool,
    gen: &config::Gen,
) -> (r: Option<String>)
    ensures
        r is None <==> spec_conv_step(old(cache).spec_conv(), rates@, from@, to@, rate_type, inv, *gen) is None,
        r matches Some(s) ==> spec_conv_step(old(cache).spec_conv(), rates@, from@, to@, rate_type, inv, *gen)
            == Some((s@, final(cache).spec_conv())),
        final(cache).spec_src() == old(cache).spec_src(),
{
    match cache.get_conv(from.clone(), to.clone(), rate_type, inv) {
        Some(s) => Some(s),
        None => {
            let t = match try_conv_table(from.clone(), to.clone(), rates, rate_type, inv, gen) {
                Some(t) => t,
                None => {
                    return None;
                },
            };
            if t.as_str().unicode_len() > 0 {
                let s = html_code_block(t.as_str());
                cache.add_conv(from.clone(), to.clone(), rate_type, inv, s.clone());
                Some(s)
            } else {
                Some(to_owned(DUNNO))
            }
        },
    }
}

/// The replies to a conversion request; `None` where rendering overflows.
pub fn conv_replies(
    cache: &mut Cache,
    rates: &SourceRates,
    from: &Currency,
    to: &Currency,
    rate_type: RateType,
    inv: bool,
    gen: &config::Gen,
) -> (r: Option<Vec<String>>)
    ensures
        r is None <==> spec_conv_replies(old(cache).spec_conv(), rates@, from@, to@, rate_type, inv, *gen) is None,
        r matches Some(v) ==> spec_conv_replies(old(cache).spec_conv(), rates@, from@, to@, rate_type, inv, *gen)
            == Some((texts(v@), final(cache).spec_conv())),
        final(cache).spec_src() == old(cache).spec_src(),
{
    if from.is_empty() || to.is_empty() {
        let v = vec![to_owned(DUNNO)];
        assert(texts(v@) =~= seq![DUNNO@]);
        return Some(v);
    }
    let r1 = match conv_step(cache, rates, from, to, rate_type, !inv, gen) {
        Some(s) => s,
        None => {
            return None;
        },
    };
    let r2 = match conv_step(cache, rates, to, from, rate_type, inv, gen) {
        Some(s) => s,
        None => {
            return None;
        },
    };
    let v = vec![r1, r2];
    assert(texts(v@) =~= seq![v@[0]@, v@[1]@]);
    Some(v)
}

/// Whether `a` comes before `b` in the order of their characters.
pub open spec fn lex_lt(a: Seq<char>, b: Seq<char>) -> bool
    decreases a.len(),
{
    if a.len() == 0 {
        b.len() > 0
    } else if b.len() == 0 {
        false
    } else if a[0] != b[0] {
        (a[0] as u32) < (b[0] as u32)
    } else {
        lex_lt(a.drop_first(), b.drop_first())
    }
}

/// The order of an ascending sort of texts.
pub open spec fn text_order() -> spec_fn(Seq<char>, Seq<char>) -> bool {
    |a: Seq<char>, b: Seq<char>| lex_lt(b, a)
}

proof fn lemma_lex_total(a: Seq<char>, b: Seq<char>)
    ensures
        lex_lt(a, b) ==> !lex_lt(b, a),
        !lex_lt(a, b) && !lex_lt(b, a) ==> a == b,
    decreases a.len(),
{
    if a.len() > 0 && b.len() > 0 && a[0] == b[0] {
        lemma_lex_total(a.drop_first(), b.drop_first());
        if a.drop_first() == b.drop_first() {
            assert forall|i: int| 0 <= i < a.len() implies a[i] == b[i] by {
                if i > 0 {
                    assert(a[i] == a.drop_first()[i - 1]);
                    assert(b[i] == b.drop_first()[i - 1]);
                }
            }
            assert(a =~= b);
        }
    }
    if a.len() > 0 && b.len() > 0 && a[0] != b[0] {
        vstd::utf8::char_u32_cast(a[0], a[0] as u32);
        vstd::utf8::char_u32_cast(b[0], b[0] as u32);
    }
    if a.len() == 0 && b.len() == 0 {
        assert(a =~= b);
    }
}

proof fn lemma_lex_trans(a: Seq<char>, b: Seq<char>, c: Seq<char>)
    requires
        lex_lt(a, b),
        lex_lt(b, c),
    ensures
        lex_lt(a, c),
    decreases a.len(),
{
    if a.len() > 0 && b.len() > 0 && c.len() > 0 && a[0] == b[0] && b[0] == c[0] {
        lemma_lex_trans(a.drop_first(), b.drop_first(), c.drop_first());
    }
}

/// The order of texts is a strict weak order, so a sort by it is ascending.
pub proof fn lemma_text_order_strict_weak()
    ensures
        crate::generate::strict_weak(text_order()),
{
    assert forall|a: Seq<char>, b: Seq<char>| #[trigger] text_order()(a, b) implies !text_order()(b, a) by {
        lemma_lex_total(b, a);
    }
    assert forall|a: Seq<char>, b: Seq<char>, c: Seq<char>|
        #![trigger text_order()(a, b), text_order()(b, c)]
        !text_order()(a, b) && !text_order()(b, c) implies !text_order()(a, c) by {
        lemma_lex_total(a, b);
        lemma_lex_total(b, c);
        lemma_lex_total(a, c);
        if lex_lt(a, b) && lex_lt(b, c) {
            lemma_lex_trans(a, b, c);
        }
    }
}

/// The list of the sources names every source once, in ascending order of
/// the lower-case names.
pub proof fn lemma_sources_list_sorted()
    ensures
        crate::generate::sorted_by(crate::generate::stable_sort(lower_names(), text_order()), text_order()),
        crate::generate::stable_sort(lower_names(), text_order()).to_multiset() =~= lower_names().to_multiset(),
{
    lemma_text_order_strict_weak();
    crate::generate::lemma_stable_sort_sorted(lower_names(), text_order());
}

fn lex_lt_exec(a: &Vec<char>, b: &Vec<char>) -> (r: bool)
    ensures
        r == lex_lt(a@, b@),
{
    let mut i: usize = 0;
    assert(a@.subrange(0, a@.len() as int) =~= a@);
    assert(b@.subrange(0, b@.len() as int) =~= b@);
    while i < a.len() && i < b.len()
        invariant
            i <= a@.len(),
            i <= b@.len(),
            lex_lt(a@, b@) == lex_lt(a@.subrange(i as int, a@.len() as int), b@.subrange(i as int, b@.len() as int)),
        decreases a@.len() - i,
    {
        let ghost sa = a@.subrange(i as int, a@.len() as int);
        let ghost sb = b@.subrange(i as int, b@.len() as int);
        assert(sa[0] == a@[i as int] && sb[0] == b@[i as int]);
        if a[i] != b[i] {
            return (a[i] as u32) < (b[i] as u32);
        }
        assert(sa.drop_first() =~= a@.subrange(i + 1, a@.len() as int));
        assert(sb.drop_first() =~= b@.subrange(i + 1, b@.len() as int));
        i = i + 1;
    }
    i >= a.len() && i < b.len()
}

fn ins_text(v: &mut Vec<String>, x: String)
    ensures
        texts(final(v)@) == crate::generate::ins(texts(old(v)@), x@, text_order()),
    decreases old(v)@.len(),
{
    let ghost ov = texts(v@);
    if v.len() == 0 {
        let ghost xv = x@;
        v.push(x);
        assert(texts(v@) =~= seq![xv]);
        return;
    }
    let n = v.len();
    let a = crate::text::chars_of(x.as_str());
    let b = crate::text::chars_of(v[n - 1].as_str());
    let last_after = lex_lt_exec(&a, &b);
    assert(ov.last() == v@[n - 1]@);
    if last_after {
        let y = v.pop().unwrap();
        assert(texts(v@) =~= ov.drop_last());
        ins_text(v, x);
        let ghost mid = texts(v@);
        v.push(y);
        assert(texts(v@) =~= mid.push(ov.last()));
    } else {
        let ghost xv = x@;
        v.push(x);
        assert(texts(v@) =~= ov.push(xv));
    }
}

/// `ws` joined with `sep` between each two.
pub open spec fn join_with(ws: Seq<Seq<char>>, sep: Seq<char>) -> Seq<char>
    decreases ws.len(),
{
    if ws.len() == 0 {
        Seq::empty()
    } else if ws.len() == 1 {
        ws[0]
    } else {
        join_with(ws.drop_last(), sep) + sep + ws.last()
    }
}

/// The names of the sources in lower case.
pub open spec fn lower_names() -> Seq<Seq<char>> {
    spec_all_sources().map_values(|s: Source| crate::text::spec_to_lowercase(s.spec_name()))
}

/// The list of the sources: their names in lower case, sorted, joined by
/// ", ".
pub open spec fn spec_sources_list() -> Seq<char> {
    join_with(crate::generate::stable_sort(lower_names(), text_order()), ", "@)
}

/// The list of the sources.
pub fn sources_list() -> (r: String)
    ensures
        r@ == spec_sources_list(),
{
    let all = Source::iter();
    let mut sorted: Vec<String> = Vec::new();
    let mut i: usize = 0;
    assert(texts(sorted@) =~= crate::generate::stable_sort(lower_names().subrange(0, 0), text_order()));
    while i < all.len()
        invariant
            all@ == spec_all_sources(),
            i <= all@.len(),
            texts(sorted@) == crate::generate::stable_sort(lower_names().subrange(0, i as int), text_order()),
        decreases all@.len() - i,
    {
        let ghost pre = lower_names().subrange(0, i as int);
        let ghost nxt = lower_names().subrange(0, i + 1);
        assert(nxt.drop_last() =~= pre);
        let name = all[i].to_string();
        let lower = crate::text::str_to_lowercase(name.as_str());
        assert(nxt.last() == lower@);
        ins_text(&mut sorted, lower);
        i = i + 1;
    }
    assert(lower_names().subrange(0, all@.len() as int) =~= lower_names());
    let mut out = String::new();
    let mut k: usize = 0;
    assert(out@ =~= join_with(texts(sorted@).subrange(0, 0), ", "@));
    while k < sorted.len()
        invariant
            k <= sorted@.len(),
            out@ == join_with(texts(sorted@).subrange(0, k as int), ", "@),
        decreases sorted@.len() - k,
    {
        let ghost ws = texts(sorted@).subrange(0, k + 1);
        assert(ws.drop_last() =~= texts(sorted@).subrange(0, k as int));
        assert(ws.last() == sorted@[k as int]@);
        if k > 0 {
            push_str(&mut out, ", ");
        }
        push_str(&mut out, sorted[k].as_str());
        k = k + 1;
    }
    assert(texts(sorted@).subrange(0, sorted@.len() as int) =~= texts(sorted@));
    out
}

/// The lines of the bot's information: its version, the update interval in
/// seconds and the time of the last update.
pub open spec fn spec_info_text(version: Seq<char>, update_interval: nat, updated_at: Seq<char>) -> Seq<char> {
    "version: "@ + version + "\n"@ + "update_interval: "@ + crate::decimal::spec_uint_text(update_interval)
        + "\n"@ + "updated_at: "@ + updated_at
}

/// The bot's information.
pub fn info_text(version: &str, update_interval: u64, updated_at: &str) -> (r: String)
    ensures
        r@ == spec_info_text(version@, update_interval as nat, updated_at@),
{
    let mut s = to_owned("version: ");
    push_str(&mut s, version);
    push_str(&mut s, "\n");
    push_str(&mut s, "update_interval: ");
    crate::decimal::push_uint_text(&mut s, update_interval);
    push_str(&mut s, "\n");
    push_str(&mut s, "updated_at: ");
    push_str(&mut s, updated_at);
    s
}

// ---------------------------------------------------------------------------
// Asking twice
// ---------------------------------------------------------------------------

/// Asking for the table of a source twice, with the rates unchanged in
/// between, gives the same reply, and the second request leaves the cache as
/// it is.
pub proof fn lemma_src_reply_stable(
    cache: Map<Seq<char>, Seq<char>>,
    sr: Seq<Option<Seq<crate::source::Rate>>>,
    src: Source,
    rt: RateType,
    gen: config::Gen,
)
    ensures
        ({
            let (r1, c1) = spec_src_reply(cache, sr, src, rt, gen);
            spec_src_reply(c1, sr, src, rt, gen) == (r1, c1)
        }),
{
}

proof fn lemma_conv_step_stable(
    cache: Map<Seq<char>, Seq<char>>,
    sr: Seq<Option<Seq<crate::source::Rate>>>,
    from: Seq<char>,
    to: Seq<char>,
    rt: RateType,
    inv: bool,
    gen: config::Gen,
)
    requires
        spec_conv_step(cache, sr, from, to, rt, inv, gen) is Some,
    ensures
        ({
            let (r1, c1) = spec_conv_step(cache, sr, from, to, rt, inv, gen)->0;
            spec_conv_step(c1, sr, from, to, rt, inv, gen) == Some((r1, c1))
        }),
{
}

proof fn lemma_conv_step_keeps(
    cache: Map<Seq<char>, Seq<char>>,
    sr: Seq<Option<Seq<crate::source::Rate>>>,
    from: Seq<char>,
    to: Seq<char>,
    rt: RateType,
    inv: bool,
    gen: config::Gen,
    k: Seq<char>,
)
    requires
        spec_conv_step(cache, sr, from, to, rt, inv, gen) is Some,
        k != spec_conv_key(from, to, rt, inv),
    ensures
        ({
            let c1 = (spec_conv_step(cache, sr, from, to, rt, inv, gen)->0).1;
            c1.contains_key(k) == cache.contains_key(k) && (cache.contains_key(k) ==> c1[k] == cache[k])
        }),
{
}

/// Asking for the conversion of a pair of currencies twice, with the rates
/// unchanged in between, gives the same replies, and the second request
/// leaves the cache as it is.
pub proof fn lemma_conv_replies_stable(
    cache: Map<Seq<char>, Seq<char>>,
    sr: Seq<Option<Seq<crate::source::Rate>>>,
    from: Seq<char>,
    to: Seq<char>,
    rt: RateType,
    inv: bool,
    gen: config::Gen,
)
    requires
        spec_conv_replies(cache, sr, from, to, rt, inv, gen) is Some,
    ensures
        ({
            let (rs, c2) = spec_conv_replies(cache, sr, from, to, rt, inv, gen)->0;
            spec_conv_replies(c2, sr, from, to, rt, inv, gen) == Some((rs, c2))
        }),
{
    if from.len() > 0 && to.len() > 0 {
        let (r1, c1) = spec_conv_step(cache, sr, from, to, rt, !inv, gen)->0;
        let (r2, c2) = spec_conv_step(c1, sr, to, from, rt, inv, gen)->0;
        crate::database::lemma_conv_keys_differ(from, to, rt, inv);
        lemma_conv_step_stable(cache, sr, from, to, rt, !inv, gen);
        lemma_conv_step_stable(c1, sr, to, from, rt, inv, gen);
        lemma_conv_step_keeps(c1, sr, to, from, rt, inv, gen, spec_conv_key(from, to, rt, !inv));
        let k1 = spec_conv_key(from, to, rt, !inv);
        if c1.contains_key(k1) {
            assert(spec_conv_step(c2, sr, from, to, rt, !inv, gen) == Some((r1, c2)));
        } else {
            assert(spec_conv_step(c2, sr, from, to, rt, !inv, gen) == Some((r1, c2)));
        }
    }
}

/// The text `chrono` gives of the UTC time `secs` seconds and `nanos`
/// nanoseconds after the Unix epoch in the format `%F %T %Z`; nothing where
/// the time is out of its range.
pub uninterp spec fn spec_utc_text(secs: i64, nanos: u32) -> Option<Seq<char>>;

/// Calls `DateTime::<Utc>::from_timestamp` and `DateTime::format` with
/// `%F %T %Z` of `chrono`; the contract names the text.
#[verifier::external_body]
fn utc_text(secs: i64, nanos: u32) -> (r: Option<String>)
    ensures
        r is None <==> spec_utc_text(secs, nanos) is None,
        r matches Some(t) ==> spec_utc_text(secs, nanos) == Some(t@),
{
    match chrono::DateTime::<chrono::Utc>::from_timestamp(secs, nanos) {
        Some(d) => Some(d.format("%F %T %Z").to_string()),
        None => None,
    }
}

/// The bot's information with the time of the last update given as seconds
/// and nanoseconds after the Unix epoch, written in UTC; nothing where that
/// time is out of range.
pub fn info_reply(version: &str, update_interval: u64, secs: i64, nanos: u32) -> (r: Option<String>)
    ensures
        r is None <==> spec_utc_text(secs, nanos) is None,
        r matches Some(t) ==> t@ == spec_info_text(version@, update_interval as nat, spec_utc_text(secs, nanos)->0),
{
    match utc_text(secs, nanos) {
        Some(u) => Some(info_text(version, update_interval, u.as_str())),
        None => None,
    }
}

/// The table commands of a source ask for its table of one rate type each:
/// `/get` for transfer rates, `/getcash` for cash rates and `/getcard` for
/// card rates, so no two of them ask for the same table.
pub proof fn lemma_get_commands(src: Source)
    ensures
        spec_action(Command::Get { src }) == (ActionView::Src { src, rate_type: RateType::NoCash }),
        spec_action(Command::GetCash { src }) == (ActionView::Src { src, rate_type: RateType::Cash }),
        spec_action(Command::GetCard { src }) == (ActionView::Src { src, rate_type: RateType::Card }),
        spec_action(Command::Get { src }) != spec_action(Command::GetCash { src }),
        spec_action(Command::Get { src }) != spec_action(Command::GetCard { src }),
        spec_action(Command::GetCash { src }) != spec_action(Command::GetCard { src }),
{
}

} // verus!
