//! Typed configuration snapshot and its runtime cache.
//!
//! The application persists a configuration file (name, version, server
//! address, UI appearance, and a table of cards keyed by the externally
//! visible card number). Reading and writing the file is the surrounding
//! application's business; every decision about the configuration's content
//! — updating a card, removing one, refreshing the runtime cache, looking a
//! value up — lives here, over plain values.

use vstd::prelude::*;
use vstd::string::*;
use crate::strutil::{
    str_eq, dec_value, dec_width, count_char, first_index_of, lemma_first_index_of,
    number_digits, valid_u16_str, parse_u16, render_dec_width,
};

verus! {

/// UI theme choice.
#[derive(Clone, Copy, Debug, PartialEq, Eq, Structural)]
pub enum DarkTheme {
    Auto,
    Dark,
    Light,
}

/// Server part of the configuration: the broker address as `host:port`.
#[derive(Debug)]
pub struct ServerConfig {
    pub host: String,
}

/// Per-card part of the configuration.
#[derive(Debug)]
pub struct CardConfig {
    pub iccid: String,
    pub expire: Option<u64>,
    pub name: Option<String>,
}

/// UI part of the configuration.
#[derive(Debug)]
pub struct AppearanceConfig {
    pub dark_theme: DarkTheme,
}

/// One row of the card table: the externally visible card number and the
/// card's configuration.
#[derive(Debug)]
pub struct CardEntry {
    pub card_number: String,
    pub config: CardConfig,
}

/// The whole configuration. The card table is held as a list of entries
/// whose card numbers are unique (see [`cards_wf`]).
#[derive(Debug)]
pub struct ConfigurationFile {
    pub name: String,
    pub version: String,
    pub description: String,
    pub appearance: Option<AppearanceConfig>,
    pub ident: Option<String>,
    pub server: Option<ServerConfig>,
    pub cards: Vec<CardEntry>,
}

/// The runtime cache: the configuration's content, refreshed wholesale.
#[derive(Debug)]
pub struct CacheConfigData {
    pub cards: Vec<CardEntry>,
    pub server: Option<ServerConfig>,
    pub ident: Option<String>,
    pub appearance: Option<AppearanceConfig>,
}

impl Default for CacheConfigData {
    fn default() -> (r: Self)
        ensures
            r.cards@ == Seq::<CardEntry>::empty(),
            r.server is None,
            r.ident is None,
            r.appearance is None,
    {
        CacheConfigData { cards: Vec::new(), server: None, ident: None, appearance: None }
    }
}

/// The sections a cache lookup can address.
#[derive(Clone, Copy, Debug)]
pub enum CacheSection {
    Cards,
    Server,
    Ident,
    Appearance,
}

/// Card numbers are unique across the card table.
pub open spec fn cards_wf(cards: Seq<CardEntry>) -> bool {
    forall|i: int, j: int|
        0 <= i < j < cards.len() ==> (#[trigger] cards[i]).card_number@ != (
        #[trigger] cards[j]).card_number@
}

/// Index of the first entry with this card number; the table's length when
/// there is none.
pub open spec fn first_card_index(cards: Seq<CardEntry>, card_number: Seq<char>) -> int
    decreases cards.len(),
{
    if cards.len() == 0 {
        0
    } else if cards[0].card_number@ == card_number {
        0
    } else {
        1 + first_card_index(cards.drop_first(), card_number)
    }
}

pub open spec fn has_card(cards: Seq<CardEntry>, card_number: Seq<char>) -> bool {
    first_card_index(cards, card_number) < cards.len()
}

proof fn lemma_first_card_index(cards: Seq<CardEntry>, card_number: Seq<char>)
    ensures
        0 <= first_card_index(cards, card_number) <= cards.len(),
        first_card_index(cards, card_number) < cards.len() ==> cards[first_card_index(
            cards,
            card_number,
        )].card_number@ == card_number,
        forall|k: int|
            0 <= k < first_card_index(cards, card_number) ==> (
            #[trigger] cards[k]).card_number@ != card_number,
    decreases cards.len(),
{
    if cards.len() > 0 && cards[0].card_number@ != card_number {
        lemma_first_card_index(cards.drop_first(), card_number);
        assert forall|k: int| 0 <= k < first_card_index(cards, card_number) implies (
        #[trigger] cards[k]).card_number@ != card_number by {
            if k > 0 {
                assert(cards.drop_first()[k - 1] == cards[k]);
            }
        }
    }
}

/// The card number recorded for this card identifier: the first entry whose
/// ICCID matches, the empty string when none does.
pub open spec fn lookup_card_number(cards: Seq<CardEntry>, iccid: Seq<char>) -> Seq<char>
    decreases cards.len(),
{
    if cards.len() == 0 {
        Seq::empty()
    } else if cards[0].config.iccid@ == iccid {
        cards[0].card_number@
    } else {
        lookup_card_number(cards.drop_first(), iccid)
    }
}

proof fn lemma_lookup_card_number_skip(cards: Seq<CardEntry>, iccid: Seq<char>, j: int)
    requires
        0 <= j <= cards.len(),
        forall|k: int| 0 <= k < j ==> (#[trigger] cards[k]).config.iccid@ != iccid,
    ensures
        lookup_card_number(cards, iccid) == lookup_card_number(cards.skip(j), iccid),
    decreases j,
{
    if j > 0 {
        assert(cards[0].config.iccid@ != iccid);
        assert forall|k: int| 0 <= k < j - 1 implies (
        #[trigger] cards.drop_first()[k]).config.iccid@ != iccid by {
            assert(cards.drop_first()[k] == cards[k + 1]);
        }
        lemma_lookup_card_number_skip(cards.drop_first(), iccid, j - 1);
        assert(cards.drop_first().skip(j - 1) =~= cards.skip(j));
    } else {
        assert(cards.skip(0) =~= cards);
    }
}

/// The name the UI shows for a theme.
pub open spec fn theme_name(t: DarkTheme) -> Seq<char> {
    match t {
        DarkTheme::Auto => "Auto"@,
        DarkTheme::Dark => "Dark"@,
        DarkTheme::Light => "Light"@,
    }
}

/// What a cache lookup answers: a card-number lookup by ICCID under `Cards`,
/// the named field under the other sections, the empty string whenever the
/// section is unset or the key unknown.
pub open spec fn cache_lookup(cache: CacheConfigData, section: CacheSection, key: Seq<char>) -> Seq<
    char,
> {
    match section {
        CacheSection::Cards => lookup_card_number(cache.cards@, key),
        CacheSection::Server => if key == "host"@ && cache.server is Some {
            cache.server->0.host@
        } else {
            Seq::empty()
        },
        CacheSection::Ident => if cache.ident is Some {
            cache.ident->0@
        } else {
            Seq::empty()
        },
        CacheSection::Appearance => if key == "dark_theme"@ && cache.appearance is Some {
            theme_name(cache.appearance->0.dark_theme)
        } else {
            Seq::empty()
        },
    }
}

/// The string the UI shows for a theme.
pub fn theme_text(t: &DarkTheme) -> (r: String)
    ensures
        r@ == theme_name(*t),
{
    match t {
        DarkTheme::Auto => String::from_str("Auto"),
        DarkTheme::Dark => String::from_str("Dark"),
        DarkTheme::Light => String::from_str("Light"),
    }
}

/// Retrieves a value from the cache by section and key. Unknown keys and
/// unset sections answer the empty string, never an error.
pub fn get_from_cache(cache: &CacheConfigData, section: CacheSection, key: &str) -> (r: String)
    ensures
        r@ == cache_lookup(*cache, section, key@),
{
    match section {
        CacheSection::Cards => {
            let n = cache.cards.len();
            let mut i: usize = 0;
            while i < n
                invariant
                    0 <= i <= n,
                    n == cache.cards@.len(),
                    section is Cards,
                    forall|k: int|
                        0 <= k < i ==> (#[trigger] cache.cards@[k]).config.iccid@ != key@,
                decreases n - i,
            {
                if str_eq(cache.cards[i].config.iccid.as_str(), key) {
                    proof {
                        lemma_lookup_card_number_skip(cache.cards@, key@, i as int);
                        assert(cache.cards@.skip(i as int)[0] == cache.cards@[i as int]);
                        assert(cache.cards@.skip(i as int).len() > 0);
                        assert(lookup_card_number(cache.cards@.skip(i as int), key@)
                            == cache.cards@[i as int].card_number@);
                    }
                    return cache.cards[i].card_number.clone();
                }
                i += 1;
            }
            proof {
                lemma_lookup_card_number_skip(cache.cards@, key@, n as int);
                assert(cache.cards@.skip(n as int) =~= Seq::<CardEntry>::empty());
            }
            String::new()
        },
        CacheSection::Server => {
            if let Some(server) = &cache.server {
                if str_eq(key, "host") {
                    server.host.clone()
                } else {
                    String::new()
                }
            } else {
                String::new()
            }
        },
        CacheSection::Ident => {
            if let Some(ident) = &cache.ident {
                ident.clone()
            } else {
                String::new()
            }
        },
        CacheSection::Appearance => {
            if let Some(appearance) = &cache.appearance {
                if str_eq(key, "dark_theme") {
                    theme_text(&appearance.dark_theme)
                } else {
                    String::new()
                }
            } else {
                String::new()
            }
        },
    }
}

/// Errors a configuration operation can report.
#[derive(Clone, Copy, Debug, PartialEq, Eq, Structural)]
pub enum ConfigError {
    /// The card number is not in the configuration.
    CardNotFound,
}

/// The view of an optional string: its characters, if any.
pub open spec fn opt_str_view(o: Option<String>) -> Option<Seq<char>> {
    match o {
        Some(s) => Some(s@),
        None => None,
    }
}

pub(crate) fn clone_opt_string(o: &Option<String>) -> (r: Option<String>)
    ensures
        r == *o,
{
    match o {
        Some(s) => Some(s.clone()),
        None => None,
    }
}

fn option_u64_eq(a: &Option<u64>, b: &Option<u64>) -> (r: bool)
    ensures
        r == (*a == *b),
{
    match (a, b) {
        (Some(x), Some(y)) => *x == *y,
        (None, None) => true,
        _ => false,
    }
}

fn option_string_eq(a: &Option<String>, b: &Option<String>) -> (r: bool)
    ensures
        r == (opt_str_view(*a) == opt_str_view(*b)),
{
    match (a, b) {
        (Some(x), Some(y)) => str_eq(x.as_str(), y.as_str()),
        (None, None) => true,
        _ => false,
    }
}

impl CardConfig {
    /// A value-identical copy.
    pub fn duplicate(&self) -> (r: CardConfig)
        ensures
            r == *self,
    {
        CardConfig {
            iccid: self.iccid.clone(),
            expire: self.expire,
            name: clone_opt_string(&self.name),
        }
    }
}

impl CardEntry {
    /// A value-identical copy.
    pub fn duplicate(&self) -> (r: CardEntry)
        ensures
            r == *self,
    {
        CardEntry { card_number: self.card_number.clone(), config: self.config.duplicate() }
    }
}

fn clone_cards(cards: &Vec<CardEntry>) -> (r: Vec<CardEntry>)
    ensures
        r@ == cards@,
{
    let mut out: Vec<CardEntry> = Vec::new();
    let mut i: usize = 0;
    while i < cards.len()
        invariant
            0 <= i <= cards@.len(),
            out@ =~= cards@.take(i as int),
        decreases cards@.len() - i,
    {
        out.push(cards[i].duplicate());
        proof {
            assert(out@ =~= cards@.take(i as int + 1));
        }
        i += 1;
    }
    proof {
        assert(cards@.take(cards@.len() as int) =~= cards@);
    }
    out
}

/// Index of the first entry with this card number, or the table's length.
pub fn find_card_index(cards: &Vec<CardEntry>, card_number: &str) -> (i: usize)
    ensures
        i == first_card_index(cards@, card_number@),
{
    let n = cards.len();
    let mut i: usize = 0;
    while i < n
        invariant
            0 <= i <= n,
            n == cards@.len(),
            forall|k: int| 0 <= k < i ==> (#[trigger] cards@[k]).card_number@ != card_number@,
        decreases n - i,
    {
        if str_eq(cards[i].card_number.as_str(), card_number) {
            proof {
                lemma_first_card_index_skip(cards@, card_number@, i as int);
                assert(cards@.skip(i as int)[0] == cards@[i as int]);
            }
            return i;
        }
        i += 1;
    }
    proof {
        lemma_first_card_index_skip(cards@, card_number@, n as int);
        assert(cards@.skip(n as int) =~= Seq::<CardEntry>::empty());
    }
    n
}

proof fn lemma_first_card_index_skip(cards: Seq<CardEntry>, card_number: Seq<char>, j: int)
    requires
        0 <= j <= cards.len(),
        forall|k: int| 0 <= k < j ==> (#[trigger] cards[k]).card_number@ != card_number,
    ensures
        first_card_index(cards, card_number) == j + first_card_index(
            cards.skip(j),
            card_number,
        ),
    decreases j,
{
    if j > 0 {
        assert(cards[0].card_number@ != card_number);
        assert forall|k: int| 0 <= k < j - 1 implies (
        #[trigger] cards.drop_first()[k]).card_number@ != card_number by {
            assert(cards.drop_first()[k] == cards[k + 1]);
        }
        lemma_first_card_index_skip(cards.drop_first(), card_number, j - 1);
        assert(cards.drop_first().skip(j - 1) =~= cards.skip(j));
    } else {
        assert(cards.skip(0) =~= cards);
    }
}

/// What updating one card of the table does: a new card number is appended,
/// an entry whose ICCID was still unset is overwritten whole, an entry with
/// an ICCID takes only the new expiry and name — and only when one of them
/// differs; otherwise nothing changes.
pub open spec fn card_update_result(
    old_cards: Seq<CardEntry>,
    new_cards: Seq<CardEntry>,
    key: Seq<char>,
    content: CardConfig,
    changed: bool,
) -> bool {
    let i = first_card_index(old_cards, key);
    if i == old_cards.len() {
        &&& changed
        &&& new_cards.len() == old_cards.len() + 1
        &&& (forall|k: int| 0 <= k < old_cards.len() ==> new_cards[k] == old_cards[k])
        &&& new_cards.last().card_number@ == key
        &&& new_cards.last().config == content
    } else if old_cards[i].config.iccid@.len() == 0 {
        &&& changed
        &&& new_cards == old_cards.update(
            i,
            (CardEntry { card_number: old_cards[i].card_number, config: content }),
        )
    } else if old_cards[i].config.expire == content.expire && opt_str_view(
        old_cards[i].config.name,
    ) == opt_str_view(content.name) {
        &&& !changed
        &&& new_cards == old_cards
    } else {
        &&& changed
        &&& new_cards == old_cards.update(
            i,
            (CardEntry {
                card_number: old_cards[i].card_number,
                config: (CardConfig {
                    iccid: old_cards[i].config.iccid,
                    expire: content.expire,
                    name: content.name,
                }),
            }),
        )
    }
}

/// Updates the configuration with a card's data, under the card number the
/// application assigned. Reports whether anything changed (and hence whether
/// the file must be rewritten).
pub fn update_card_config(
    config: &mut ConfigurationFile,
    card_number: &str,
    content: CardConfig,
) -> (changed: bool)
    ensures
        card_update_result(
            old(config).cards@,
            final(config).cards@,
            card_number@,
            content,
            changed,
        ),
        final(config).name == old(config).name,
        final(config).version == old(config).version,
        final(config).description == old(config).description,
        final(config).appearance == old(config).appearance,
        final(config).ident == old(config).ident,
        final(config).server == old(config).server,
        cards_wf(old(config).cards@) ==> cards_wf(final(config).cards@),
{
    let i = find_card_index(&config.cards, card_number);
    let n = config.cards.len();
    proof {
        lemma_first_card_index(config.cards@, card_number@);
    }
    if i == n {
        config.cards.push(CardEntry { card_number: card_number.to_owned(), config: content });
        proof {
            if cards_wf(old(config).cards@) {
                assert forall|p: int, q: int|
                    0 <= p < q < config.cards@.len() implies (
                #[trigger] config.cards@[p]).card_number@ != (
                #[trigger] config.cards@[q]).card_number@ by {
                    if q == config.cards@.len() - 1 {
                        assert(old(config).cards@[p].card_number@ != card_number@);
                    }
                }
            }
        }
        true
    } else {
        if config.cards[i].config.iccid.as_str().is_empty() {
            let kept = config.cards[i].card_number.clone();
            config.cards[i] = CardEntry { card_number: kept, config: content };
            proof {
                lemma_card_update_keeps_wf(old(config).cards@, config.cards@, i as int);
            }
            true
        } else {
            let same_expire = option_u64_eq(&config.cards[i].config.expire, &content.expire);
            let same_name = option_string_eq(&config.cards[i].config.name, &content.name);
            if same_expire && same_name {
                false
            } else {
                let kept = config.cards[i].card_number.clone();
                let kept_iccid = config.cards[i].config.iccid.clone();
                config.cards[i] = CardEntry {
                    card_number: kept,
                    config: CardConfig {
                        iccid: kept_iccid,
                        expire: content.expire,
                        name: clone_opt_string(&content.name),
                    },
                };
                proof {
                    lemma_card_update_keeps_wf(old(config).cards@, config.cards@, i as int);
                }
                true
            }
        }
    }
}

proof fn lemma_card_update_keeps_wf(old_cards: Seq<CardEntry>, new_cards: Seq<CardEntry>, i: int)
    requires
        0 <= i < old_cards.len(),
        new_cards.len() == old_cards.len(),
        new_cards[i].card_number@ == old_cards[i].card_number@,
        forall|k: int| 0 <= k < old_cards.len() && k != i ==> new_cards[k] == old_cards[k],
    ensures
        cards_wf(old_cards) ==> cards_wf(new_cards),
{
    if cards_wf(old_cards) {
        assert forall|p: int, q: int|
            0 <= p < q < new_cards.len() implies (#[trigger] new_cards[p]).card_number@ != (
        #[trigger] new_cards[q]).card_number@ by {
            assert(old_cards[p].card_number@ != old_cards[q].card_number@);
        }
    }
}

/// Removes a card from the configuration by its card number; says so when
/// the number is unknown.
pub fn remove_card_from_config(config: &mut ConfigurationFile, card_number: &str) -> (r: Result<
    (),
    ConfigError,
>)
    ensures
        r is Ok <==> has_card(old(config).cards@, card_number@),
        r is Ok ==> final(config).cards@ == old(config).cards@.remove(
            first_card_index(old(config).cards@, card_number@),
        ),
        r is Err ==> *final(config) == *old(config) && r->Err_0 == ConfigError::CardNotFound,
        final(config).name == old(config).name,
        final(config).version == old(config).version,
        final(config).description == old(config).description,
        final(config).appearance == old(config).appearance,
        final(config).ident == old(config).ident,
        final(config).server == old(config).server,
        cards_wf(old(config).cards@) ==> cards_wf(final(config).cards@),
{
    let i = find_card_index(&config.cards, card_number);
    let n = config.cards.len();
    if i < n {
        config.cards.remove(i);
        proof {
            if cards_wf(old(config).cards@) {
                assert forall|p: int, q: int|
                    0 <= p < q < config.cards@.len() implies (
                #[trigger] config.cards@[p]).card_number@ != (
                #[trigger] config.cards@[q]).card_number@ by {
                    let p0 = if p < i { p } else { p + 1 };
                    let q0 = if q < i { q } else { q + 1 };
                    assert(config.cards@[p] == old(config).cards@[p0]);
                    assert(config.cards@[q] == old(config).cards@[q0]);
                    assert(old(config).cards@[p0].card_number@ != old(
                        config,
                    ).cards@[q0].card_number@);
                }
            }
        }
        Ok(())
    } else {
        Err(ConfigError::CardNotFound)
    }
}

/// The theme a configuration string names; anything unrecognised falls back
/// to `Auto`.
pub open spec fn theme_of_name(s: Seq<char>) -> DarkTheme {
    if s == "Dark"@ {
        DarkTheme::Dark
    } else if s == "Light"@ {
        DarkTheme::Light
    } else {
        DarkTheme::Auto
    }
}

/// Replaces the server address, the device identity and the UI theme in the
/// configuration, as a unit. The card table is untouched.
pub fn update_server_config(config: &mut ConfigurationFile, host: &str, ident: &str, theme: &str)
    ensures
        final(config).server matches Some(s) && s.host@ == host@,
        final(config).ident matches Some(i) && i@ == ident@,
        final(config).appearance matches Some(a) && a.dark_theme == theme_of_name(theme@),
        final(config).name == old(config).name,
        final(config).version == old(config).version,
        final(config).description == old(config).description,
        final(config).cards == old(config).cards,
{
    config.server = Some(ServerConfig { host: host.to_owned() });
    config.ident = Some(ident.to_owned());
    let dark_theme = if str_eq(theme, "Dark") {
        DarkTheme::Dark
    } else if str_eq(theme, "Light") {
        DarkTheme::Light
    } else {
        DarkTheme::Auto
    };
    config.appearance = Some(AppearanceConfig { dark_theme });
}

/// Loads the configuration's content into the runtime cache, wholesale.
pub fn load_config_to_cache(cache: &mut CacheConfigData, config: &ConfigurationFile)
    ensures
        final(cache).cards@ == config.cards@,
        final(cache).server == config.server,
        final(cache).ident == config.ident,
        final(cache).appearance == config.appearance,
{
    cache.cards = clone_cards(&config.cards);
    cache.server = match &config.server {
        Some(s) => Some(ServerConfig { host: s.host.clone() }),
        None => None,
    };
    cache.ident = clone_opt_string(&config.ident);
    cache.appearance = match &config.appearance {
        Some(a) => Some(AppearanceConfig { dark_theme: a.dark_theme }),
        None => None,
    };
}

/// The default configuration: named and described, theme on `Auto`, the
/// given version and device identity, no server, no cards.
pub fn generate_default_config(version: &str, ident: &str) -> (c: ConfigurationFile)
    ensures
        c.name@ == "Tacho Bridge Application"@,
        c.version@ == version@,
        c.description@ == "Application for the tachograph cards authentication"@,
        c.appearance matches Some(a) && a.dark_theme == DarkTheme::Auto,
        c.ident matches Some(i) && i@ == ident@,
        c.server is None,
        c.cards@ == Seq::<CardEntry>::empty(),
{
    ConfigurationFile {
        name: String::from_str("Tacho Bridge Application"),
        version: version.to_owned(),
        description: String::from_str("Application for the tachograph cards authentication"),
        appearance: Some(AppearanceConfig { dark_theme: DarkTheme::Auto }),
        ident: Some(ident.to_owned()),
        server: None,
        cards: Vec::new(),
    }
}

/// A device identity derived from a microsecond timestamp: `TBA` followed by
/// thirteen digits of the timestamp taken modulo 10^12.
pub fn format_ident(micros: u64) -> (r: String)
    ensures
        r@ == "TBA"@ + dec_width((micros as int) % 1000000000000, 13),
{
    let m: u64 = micros % 1000000000000u64;
    let mut s = String::from_str("TBA");
    let digits = render_dec_width(m, 13);
    s.append(digits.as_str());
    s
}

/// A host string splits when it has exactly one colon and what follows the
/// colon parses as a 16-bit port.
pub open spec fn host_splits(host: Seq<char>) -> bool {
    &&& count_char(host, ':') == 1
    &&& valid_u16_str(host.skip(first_index_of(host, ':') + 1))
}

/// Splits `host:port` into the host and the parsed port number. A string
/// without exactly one colon, or with an unparsable port, is rejected with
/// the matching message.
pub fn split_host_to_parts(host: &str) -> (r: Result<(String, u16), String>)
    ensures
        r is Ok <==> host_splits(host@),
        r is Ok ==> r->Ok_0.0@ == host@.take(first_index_of(host@, ':')) && r->Ok_0.1
            == dec_value(number_digits(host@.skip(first_index_of(host@, ':') + 1))),
        r is Err && count_char(host@, ':') != 1 ==> r->Err_0@
            == "Host doesn't correspond to the format 'host:port'"@,
        r is Err && count_char(host@, ':') == 1 ==> r->Err_0@ == "Invalid port number"@,
{
    let n = host.unicode_len();
    let mut cnt: usize = 0;
    let mut i: usize = 0;
    while i < n
        invariant
            0 <= i <= n,
            n == host@.len(),
            cnt <= i,
            cnt == count_char(host@.take(i as int), ':'),
        decreases n - i,
    {
        let c = host.get_char(i);
        proof {
            assert(host@.take(i as int + 1).drop_last() =~= host@.take(i as int));
            assert(host@.take(i as int + 1).last() == host@[i as int]);
        }
        if c == ':' {
            cnt += 1;
        }
        i += 1;
    }
    proof {
        assert(host@.take(n as int) =~= host@);
    }
    if cnt != 1 {
        return Err(String::from_str("Host doesn't correspond to the format 'host:port'"));
    }

    // Exactly one colon: find it.
    let mut k: usize = 0;
    proof {
        lemma_first_index_of(host@, ':');
        lemma_count_char_zero(host@, ':');
    }
    while k < n && host.get_char(k) != ':'
        invariant
            0 <= k <= n,
            n == host@.len(),
            forall|m: int| 0 <= m < k ==> host@[m] != ':',
            first_index_of(host@, ':') < n,
            host@[first_index_of(host@, ':')] == ':',
        decreases n - k,
    {
        k += 1;
    }
    proof {
        // `k` stopped exactly at the first colon.
        lemma_first_index_of(host@, ':');
        assert(k == first_index_of(host@, ':')) by {
            if k == n {
                assert(host@[first_index_of(host@, ':')] != ':');
            } else if k < first_index_of(host@, ':') {
                assert(host@[k as int] != ':');
            }
        }
    }
    let head = host.substring_char(0, k);
    let tail = host.substring_char(k + 1, n);
    match parse_u16(tail) {
        Some(port) => Ok((head.to_owned(), port)),
        None => Err(String::from_str("Invalid port number")),
    }
}

/// A string with no occurrence of a character counts it zero times — and a
/// count of one means the character occurs.
proof fn lemma_count_char_zero(s: Seq<char>, c: char)
    ensures
        count_char(s, c) >= 0,
        count_char(s, c) == 0 <==> (forall|m: int| 0 <= m < s.len() ==> s[m] != c),
        count_char(s, c) > 0 ==> first_index_of(s, c) < s.len(),
    decreases s.len(),
{
    lemma_first_index_of(s, c);
    if s.len() > 0 {
        lemma_count_char_zero(s.drop_last(), c);
        assert forall|m: int| 0 <= m < s.len() - 1 implies s.drop_last()[m] == s[m] by {}
        if count_char(s, c) > 0 {
            if s.last() == c {
                if first_index_of(s, c) >= s.len() {
                    assert(s[s.len() - 1] != c);
                }
            } else {
                assert(count_char(s.drop_last(), c) > 0);
                if first_index_of(s, c) >= s.len() {
                    let w = first_index_of(s.drop_last(), c);
                    assert(s.drop_last()[w] == c);
                    assert(s[w] == c);
                    assert(w < first_index_of(s, c));
                }
            }
        }
        if count_char(s, c) == 0 {
            assert(s.last() != c);
            assert forall|m: int| 0 <= m < s.len() implies s[m] != c by {
                if m < s.len() - 1 {
                    assert(s.drop_last()[m] != c);
                }
            }
        }
        if forall|m: int| 0 <= m < s.len() ==> s[m] != c {
            assert(s.last() != c);
            assert forall|m: int| 0 <= m < s.len() - 1 implies s.drop_last()[m] != c by {
                assert(s.drop_last()[m] == s[m]);
            }
        }
    }
}

} // verus!
