//! The session registry and the registration decision.
//!
//! The registry is the single table of live card sessions: one entry per
//! card, holding the client identifier (the externally visible card number),
//! the reader name, the card's ATR, and the identifier of the bridge task
//! the application runs for it. The registration decision says, for every
//! observed (reader, ATR) pair, whether a session must be created, an old
//! one torn down, or nothing done — and prunes the stale entry itself.
//! Everything here keeps the registry's uniqueness invariant.

use vstd::prelude::*;
use crate::config::opt_str_view;

verus! {

/// One live card session: a card currently connected and being bridged.
/// The bridge task and the pub/sub client the application owns for it are
/// designated by `task_id`.
#[derive(Debug)]
pub struct ProcessingCard {
    pub client_id: String,
    pub reader_name: Option<String>,
    pub atr: Option<String>,
    pub task_id: u64,
}

/// What the registration decision asks the caller to do.
#[derive(Clone, Copy, Debug, PartialEq, Eq, Structural)]
pub enum CardProcessingResult {
    Create,
    Delete,
    Ignore,
}

/// The entry names this exact (reader, ATR) pair.
pub open spec fn matches_pair(e: ProcessingCard, reader: Seq<char>, atr: Seq<char>) -> bool {
    &&& e.reader_name matches Some(r) && r@ == reader
    &&& e.atr matches Some(a) && a@ == atr
}

/// Some entry names this exact (reader, ATR) pair.
pub open spec fn pair_present(s: Seq<ProcessingCard>, reader: Seq<char>, atr: Seq<char>) -> bool {
    exists|i: int| 0 <= i < s.len() && matches_pair(#[trigger] s[i], reader, atr)
}

/// Some entry carries this client identifier.
pub open spec fn client_present(s: Seq<ProcessingCard>, client_id: Seq<char>) -> bool {
    exists|i: int| 0 <= i < s.len() && (#[trigger] s[i]).client_id@ == client_id
}

/// The entry is stale once its reader reports an empty ATR: it names that
/// reader and still holds a non-empty ATR.
pub open spec fn is_stale_for(e: ProcessingCard, reader: Seq<char>) -> bool {
    &&& e.reader_name matches Some(r) && r@ == reader
    &&& e.atr matches Some(a) && a@.len() > 0
}

/// Index of the first stale entry for this reader; the table's length when
/// there is none.
pub open spec fn stale_index(s: Seq<ProcessingCard>, reader: Seq<char>) -> int
    decreases s.len(),
{
    if s.len() == 0 {
        0
    } else if is_stale_for(s[0], reader) {
        0
    } else {
        1 + stale_index(s.drop_first(), reader)
    }
}

pub open spec fn has_stale(s: Seq<ProcessingCard>, reader: Seq<char>) -> bool {
    stale_index(s, reader) < s.len()
}

proof fn lemma_stale_index(s: Seq<ProcessingCard>, reader: Seq<char>)
    ensures
        0 <= stale_index(s, reader) <= s.len(),
        stale_index(s, reader) < s.len() ==> is_stale_for(s[stale_index(s, reader)], reader),
        forall|k: int| 0 <= k < stale_index(s, reader) ==> !is_stale_for(#[trigger] s[k], reader),
    decreases s.len(),
{
    if s.len() > 0 && !is_stale_for(s[0], reader) {
        lemma_stale_index(s.drop_first(), reader);
        assert forall|k: int| 0 <= k < stale_index(s, reader) implies !is_stale_for(
            #[trigger] s[k],
            reader,
        ) by {
            if k > 0 {
                assert(s.drop_first()[k - 1] == s[k]);
            }
        }
    }
}

/// Registry uniqueness: client identifiers are unique, and no two entries
/// name the same (reader, ATR) pair.
pub open spec fn registry_wf(s: Seq<ProcessingCard>) -> bool {
    forall|i: int, j: int|
        0 <= i < j < s.len() ==> {
            &&& (#[trigger] s[i]).client_id@ != (#[trigger] s[j]).client_id@
            &&& !(s[i].reader_name is Some && s[i].atr is Some && opt_str_view(s[j].reader_name)
                == opt_str_view(s[i].reader_name) && opt_str_view(s[j].atr) == opt_str_view(
                s[i].atr,
            ))
        }
}

/// The table of live card sessions.
#[derive(Debug)]
pub struct Registry {
    pub entries: Vec<ProcessingCard>,
}

impl Registry {
    pub open spec fn wf(self) -> bool {
        registry_wf(self.entries@)
    }

    /// An empty registry.
    pub fn new() -> (r: Registry)
        ensures
            r.entries@ == Seq::<ProcessingCard>::empty(),
            r.wf(),
    {
        Registry { entries: Vec::new() }
    }
}

/// Removing one entry keeps the registry well-formed.
proof fn lemma_registry_remove_keeps_wf(s: Seq<ProcessingCard>, i: int)
    requires
        registry_wf(s),
        0 <= i < s.len(),
    ensures
        registry_wf(s.remove(i)),
{
    let t = s.remove(i);
    assert forall|p: int, q: int|
        0 <= p < q < t.len() implies {
        &&& (#[trigger] t[p]).client_id@ != (#[trigger] t[q]).client_id@
        &&& !(t[p].reader_name is Some && t[p].atr is Some && opt_str_view(t[q].reader_name)
            == opt_str_view(t[p].reader_name) && opt_str_view(t[q].atr) == opt_str_view(t[p].atr))
    } by {
        let p0 = if p < i { p } else { p + 1 };
        let q0 = if q < i { q } else { q + 1 };
        assert(t[p] == s[p0]);
        assert(t[q] == s[q0]);
        assert(0 <= p0 < q0 < s.len());
    }
}

/// What the registration decision answers on a registry state: Create for
/// a fresh, fully named pair; Delete when the ATR went empty and a stale
/// entry for the reader is there; Ignore otherwise.
pub open spec fn decision_of(
    s: Seq<ProcessingCard>,
    reader: Seq<char>,
    atr: Seq<char>,
) -> CardProcessingResult {
    if reader.len() > 0 && atr.len() > 0 && !pair_present(s, reader, atr) {
        CardProcessingResult::Create
    } else if atr.len() == 0 && has_stale(s, reader) {
        CardProcessingResult::Delete
    } else {
        CardProcessingResult::Ignore
    }
}

/// Determines what to do for a card observed on a reader: create a session
/// for a new non-empty (reader, ATR) pair, delete the matching session when
/// the ATR has gone empty (pruning the stale entry and handing it back so
/// its task can be aborted), and otherwise ignore the observation.
#[verifier::loop_isolation(false)]
pub fn should_register_new_card(registry: &mut Registry, reader_name: &str, atr: &str) -> (r: (
    CardProcessingResult,
    Option<ProcessingCard>,
))
    ensures
        r.0 == decision_of(old(registry).entries@, reader_name@, atr@),
        r.0 is Create <==> reader_name@.len() > 0 && atr@.len() > 0 && !pair_present(
            old(registry).entries@,
            reader_name@,
            atr@,
        ),
        r.0 is Delete <==> atr@.len() == 0 && has_stale(old(registry).entries@, reader_name@),
        r.0 is Ignore <==> !(r.0 is Create) && !(r.0 is Delete),
        r.0 is Delete ==> {
            &&& r.1 matches Some(e) && e == old(registry).entries@[stale_index(
                old(registry).entries@,
                reader_name@,
            )]
            &&& final(registry).entries@ == old(registry).entries@.remove(
                stale_index(old(registry).entries@, reader_name@),
            )
        },
        !(r.0 is Delete) ==> r.1 is None && final(registry).entries@ == old(registry).entries@,
        old(registry).wf() ==> final(registry).wf(),
{
    let n = registry.entries.len();

    // Case 1: a fresh, fully named pair that is not yet registered.
    if reader_name.unicode_len() > 0 && atr.unicode_len() > 0 {
        let mut found = false;
        let mut i: usize = 0;
        while i < n
            invariant
                0 <= i <= n,
                n == registry.entries@.len(),
                found ==> pair_present(registry.entries@, reader_name@, atr@),
                !found ==> forall|k: int|
                    0 <= k < i ==> !matches_pair(#[trigger] registry.entries@[k], reader_name@, atr@),
            decreases n - i,
        {
            if !found {
                let e = &registry.entries[i];
                let reader_matches = match &e.reader_name {
                    Some(r) => crate::strutil::str_eq(r.as_str(), reader_name),
                    None => false,
                };
                let atr_matches = match &e.atr {
                    Some(a) => crate::strutil::str_eq(a.as_str(), atr),
                    None => false,
                };
                if reader_matches && atr_matches {
                    found = true;
                }
            }
            i += 1;
        }
        if !found {
            return (CardProcessingResult::Create, None);
        }
    }

    // Case 2: the ATR went empty; prune the stale entry for this reader.
    if atr.unicode_len() == 0 {
        proof {
            lemma_stale_index(registry.entries@, reader_name@);
        }
        let mut i: usize = 0;
        while i < n
            invariant
                0 <= i <= n,
                n == registry.entries@.len(),
                registry.entries@ == old(registry).entries@,
                forall|k: int|
                    0 <= k < i ==> !is_stale_for(#[trigger] registry.entries@[k], reader_name@),
            decreases n - i,
        {
            let e = &registry.entries[i];
            let reader_matches = match &e.reader_name {
                Some(r) => crate::strutil::str_eq(r.as_str(), reader_name),
                None => false,
            };
            let atr_nonempty = match &e.atr {
                Some(a) => a.as_str().unicode_len() > 0,
                None => false,
            };
            if reader_matches && atr_nonempty {
                proof {
                    lemma_stale_index_at(registry.entries@, reader_name@, i as int);
                    lemma_registry_remove_keeps_wf_if(registry.entries@, i as int);
                }
                let removed = registry.entries.remove(i);
                return (CardProcessingResult::Delete, Some(removed));
            }
            i += 1;
        }
    }

    // Nothing to do: a duplicate observation, or a removal with nothing to
    // remove.
    (CardProcessingResult::Ignore, None)
}

proof fn lemma_stale_index_at(s: Seq<ProcessingCard>, reader: Seq<char>, i: int)
    requires
        0 <= i < s.len(),
        is_stale_for(s[i], reader),
        forall|k: int| 0 <= k < i ==> !is_stale_for(#[trigger] s[k], reader),
    ensures
        stale_index(s, reader) == i,
    decreases s.len(),
{
    if i > 0 {
        assert(!is_stale_for(s[0], reader));
        assert forall|k: int| 0 <= k < i - 1 implies !is_stale_for(
            #[trigger] s.drop_first()[k],
            reader,
        ) by {
            assert(s.drop_first()[k] == s[k + 1]);
        }
        assert(s.drop_first()[i - 1] == s[i]);
        lemma_stale_index_at(s.drop_first(), reader, i - 1);
    }
}

proof fn lemma_registry_remove_keeps_wf_if(s: Seq<ProcessingCard>, i: int)
    requires
        0 <= i < s.len(),
    ensures
        registry_wf(s) ==> registry_wf(s.remove(i)),
{
    if registry_wf(s) {
        lemma_registry_remove_keeps_wf(s, i);
    }
}

/// Inserts a new session entry, unless it would break uniqueness: an empty
/// client identifier, an already-registered client identifier, or an
/// already-registered (reader, ATR) pair leave the registry unchanged.
#[verifier::loop_isolation(false)]
pub fn register_card(registry: &mut Registry, entry: ProcessingCard) -> (added: bool)
    ensures
        added <==> {
            &&& entry.client_id@.len() > 0
            &&& !client_present(old(registry).entries@, entry.client_id@)
            &&& !(entry.reader_name matches Some(r) && entry.atr matches Some(a) && pair_present(
                old(registry).entries@,
                r@,
                a@,
            ))
        },
        added ==> final(registry).entries@ == old(registry).entries@.push(entry),
        !added ==> final(registry).entries@ == old(registry).entries@,
        old(registry).wf() ==> final(registry).wf(),
{
    if entry.client_id.as_str().unicode_len() == 0 {
        return false;
    }
    let n = registry.entries.len();
    let mut i: usize = 0;
    while i < n
        invariant
            0 <= i <= n,
            n == registry.entries@.len(),
            forall|k: int|
                0 <= k < i ==> (#[trigger] registry.entries@[k]).client_id@ != entry.client_id@,
            forall|k: int|
                0 <= k < i ==> !(entry.reader_name matches Some(r) && entry.atr matches Some(a)
                    && matches_pair(#[trigger] registry.entries@[k], r@, a@)),
        decreases n - i,
    {
        let e = &registry.entries[i];
        if crate::strutil::str_eq(e.client_id.as_str(), entry.client_id.as_str()) {
            return false;
        }
        let pair_clash = match (&entry.reader_name, &entry.atr) {
            (Some(er), Some(ea)) => {
                let reader_matches = match &e.reader_name {
                    Some(r) => crate::strutil::str_eq(r.as_str(), er.as_str()),
                    None => false,
                };
                let atr_matches = match &e.atr {
                    Some(a) => crate::strutil::str_eq(a.as_str(), ea.as_str()),
                    None => false,
                };
                reader_matches && atr_matches
            },
            _ => false,
        };
        if pair_clash {
            return false;
        }
        i += 1;
    }
    proof {
        if old(registry).wf() {
            lemma_registry_push_keeps_wf(registry.entries@, entry);
        }
    }
    registry.entries.push(entry);
    true
}

proof fn lemma_registry_push_keeps_wf(s: Seq<ProcessingCard>, entry: ProcessingCard)
    requires
        registry_wf(s),
        forall|k: int| 0 <= k < s.len() ==> (#[trigger] s[k]).client_id@ != entry.client_id@,
        forall|k: int|
            0 <= k < s.len() ==> !(entry.reader_name matches Some(r) && entry.atr matches Some(a)
                && matches_pair(#[trigger] s[k], r@, a@)),
    ensures
        registry_wf(s.push(entry)),
{
    let t = s.push(entry);
    assert forall|p: int, q: int|
        0 <= p < q < t.len() implies {
        &&& (#[trigger] t[p]).client_id@ != (#[trigger] t[q]).client_id@
        &&& !(t[p].reader_name is Some && t[p].atr is Some && opt_str_view(t[q].reader_name)
            == opt_str_view(t[p].reader_name) && opt_str_view(t[q].atr) == opt_str_view(t[p].atr))
    } by {
        if q < s.len() {
            assert(t[p] == s[p]);
            assert(t[q] == s[q]);
        } else {
            assert(t[q] == entry);
            assert(t[p] == s[p]);
            if t[p].reader_name is Some && t[p].atr is Some && opt_str_view(t[q].reader_name)
                == opt_str_view(t[p].reader_name) && opt_str_view(t[q].atr) == opt_str_view(
                t[p].atr,
            ) {
                let r = entry.reader_name->0;
                let a = entry.atr->0;
                assert(matches_pair(s[p], r@, a@));
            }
        }
    }
}

/// Registry uniqueness, spelled out: a well-formed registry never holds two
/// entries with the same client identifier, nor two entries naming the same
/// (reader, ATR) pair — and every operation above keeps the registry
/// well-formed, so no sequence of decisions can break this.
pub proof fn lemma_registry_uniqueness(r: Registry)
    requires
        r.wf(),
    ensures
        forall|i: int, j: int|
            0 <= i < j < r.entries@.len() ==> (#[trigger] r.entries@[i]).client_id@ != (
            #[trigger] r.entries@[j]).client_id@,
        forall|i: int, j: int, reader: Seq<char>, atr: Seq<char>|
            #![trigger matches_pair(r.entries@[i], reader, atr), matches_pair(r.entries@[j], reader, atr)]
            0 <= i < j < r.entries@.len() && matches_pair(r.entries@[i], reader, atr)
                ==> !matches_pair(r.entries@[j], reader, atr),
{
    assert forall|i: int, j: int, reader: Seq<char>, atr: Seq<char>|
        #![trigger matches_pair(r.entries@[i], reader, atr), matches_pair(r.entries@[j], reader, atr)]
        0 <= i < j < r.entries@.len() && matches_pair(
            r.entries@[i],
            reader,
            atr,
        ) implies !matches_pair(r.entries@[j], reader, atr) by {
        assert(registry_wf(r.entries@));
        let a = r.entries@[i];
        let b = r.entries@[j];
        assert(!(a.reader_name is Some && a.atr is Some && opt_str_view(b.reader_name)
            == opt_str_view(a.reader_name) && opt_str_view(b.atr) == opt_str_view(a.atr)));
    }
}

/// Index of the first entry with this client identifier; the table's length
/// when there is none.
pub open spec fn client_index(s: Seq<ProcessingCard>, client_id: Seq<char>) -> int
    decreases s.len(),
{
    if s.len() == 0 {
        0
    } else if s[0].client_id@ == client_id {
        0
    } else {
        1 + client_index(s.drop_first(), client_id)
    }
}

proof fn lemma_client_index(s: Seq<ProcessingCard>, client_id: Seq<char>)
    ensures
        0 <= client_index(s, client_id) <= s.len(),
        client_index(s, client_id) < s.len() ==> s[client_index(s, client_id)].client_id@
            == client_id,
        forall|k: int|
            0 <= k < client_index(s, client_id) ==> (#[trigger] s[k]).client_id@ != client_id,
    decreases s.len(),
{
    if s.len() > 0 && s[0].client_id@ != client_id {
        lemma_client_index(s.drop_first(), client_id);
        assert forall|k: int| 0 <= k < client_index(s, client_id) implies (
        #[trigger] s[k]).client_id@ != client_id by {
            if k > 0 {
                assert(s.drop_first()[k - 1] == s[k]);
            }
        }
    }
}

proof fn lemma_client_index_at(s: Seq<ProcessingCard>, client_id: Seq<char>, i: int)
    requires
        0 <= i < s.len(),
        s[i].client_id@ == client_id,
        forall|k: int| 0 <= k < i ==> (#[trigger] s[k]).client_id@ != client_id,
    ensures
        client_index(s, client_id) == i,
    decreases s.len(),
{
    if i > 0 {
        assert forall|k: int| 0 <= k < i - 1 implies (
        #[trigger] s.drop_first()[k]).client_id@ != client_id by {
            assert(s.drop_first()[k] == s[k + 1]);
        }
        assert(s.drop_first()[i - 1] == s[i]);
        lemma_client_index_at(s.drop_first(), client_id, i - 1);
    }
}

/// Index of the first entry with this client identifier, or the table's
/// length.
#[verifier::loop_isolation(false)]
fn find_client_index(entries: &Vec<ProcessingCard>, client_id: &str) -> (i: usize)
    ensures
        i == client_index(entries@, client_id@),
{
    let n = entries.len();
    let mut i: usize = 0;
    proof {
        lemma_client_index(entries@, client_id@);
    }
    while i < n
        invariant
            0 <= i <= n,
            forall|k: int| 0 <= k < i ==> (#[trigger] entries@[k]).client_id@ != client_id@,
        decreases n - i,
    {
        if crate::strutil::str_eq(entries[i].client_id.as_str(), client_id) {
            proof {
                lemma_client_index_at(entries@, client_id@, i as int);
            }
            return i;
        }
        i += 1;
    }
    n
}

/// The table after removing the first entry with this client identifier,
/// if one is there.
pub open spec fn remove_first_client(s: Seq<ProcessingCard>, client_id: Seq<char>) -> Seq<
    ProcessingCard,
> {
    if client_index(s, client_id) < s.len() {
        s.remove(client_index(s, client_id))
    } else {
        s
    }
}

/// The table after removing, in order, the first match of every listed
/// client identifier.
pub open spec fn remove_clients(s: Seq<ProcessingCard>, ids: Seq<Seq<char>>) -> Seq<ProcessingCard>
    decreases ids.len(),
{
    if ids.len() == 0 {
        s
    } else {
        remove_clients(remove_first_client(s, ids[0]), ids.drop_first())
    }
}

/// The entries that removal of the listed client identifiers takes out, in
/// removal order.
pub open spec fn removed_clients(s: Seq<ProcessingCard>, ids: Seq<Seq<char>>) -> Seq<
    ProcessingCard,
>
    decreases ids.len(),
{
    if ids.len() == 0 {
        Seq::empty()
    } else {
        let i = client_index(s, ids[0]);
        if i < s.len() {
            seq![s[i]] + removed_clients(s.remove(i), ids.drop_first())
        } else {
            removed_clients(s, ids.drop_first())
        }
    }
}

/// The views of a list of identifiers.
pub open spec fn ids_view(ids: Seq<String>) -> Seq<Seq<char>> {
    ids.map_values(|s: String| s@)
}

/// Registration decision, observed twice: a non-empty (reader, ATR) pair
/// not yet registered decides Create — and once an entry for the pair is
/// registered, the same observation decides Ignore.
pub proof fn lemma_decision_create_then_ignore(
    s: Seq<ProcessingCard>,
    e: ProcessingCard,
    reader: Seq<char>,
    atr: Seq<char>,
)
    requires
        reader.len() > 0,
        atr.len() > 0,
        !pair_present(s, reader, atr),
        matches_pair(e, reader, atr),
    ensures
        decision_of(s, reader, atr) is Create,
        decision_of(s.push(e), reader, atr) is Ignore,
{
    assert(s.push(e)[s.len() as int] == e);
    assert(pair_present(s.push(e), reader, atr));
}

/// Registration decision on removal: while the reader's one stale entry is
/// there, an empty ATR decides Delete; once it is pruned, the same
/// observation decides Ignore.
pub proof fn lemma_decision_delete_then_ignore(s: Seq<ProcessingCard>, reader: Seq<char>)
    requires
        has_stale(s, reader),
        forall|k: int|
            0 <= k < s.len() && k != stale_index(s, reader) ==> !is_stale_for(
                #[trigger] s[k],
                reader,
            ),
    ensures
        decision_of(s, reader, Seq::<char>::empty()) is Delete,
        decision_of(s.remove(stale_index(s, reader)), reader, Seq::<char>::empty()) is Ignore,
{
    lemma_stale_index(s, reader);
    let i = stale_index(s, reader);
    let t = s.remove(i);
    assert forall|k: int| 0 <= k < t.len() implies !is_stale_for(#[trigger] t[k], reader) by {
        let k0 = if k < i {
            k
        } else {
            k + 1
        };
        assert(t[k] == s[k0]);
    }
    lemma_stale_index(t, reader);
    if has_stale(t, reader) {
        assert(is_stale_for(t[stale_index(t, reader)], reader));
    }
}

/// Terminates the sessions of the listed client identifiers: each one's
/// first matching entry leaves the registry, and the removed entries come
/// back so the application can abort their tasks.
#[verifier::loop_isolation(false)]
pub fn remove_connections(registry: &mut Registry, client_ids: &Vec<String>) -> (removed: Vec<
    ProcessingCard,
>)
    ensures
        final(registry).entries@ == remove_clients(old(registry).entries@, ids_view(client_ids@)),
        removed@ == removed_clients(old(registry).entries@, ids_view(client_ids@)),
        old(registry).wf() ==> final(registry).wf(),
{
    let ghost ids: Seq<Seq<char>> = ids_view(client_ids@);
    let mut removed: Vec<ProcessingCard> = Vec::new();
    let mut j: usize = 0;
    proof {
        assert(ids.skip(0) =~= ids);
        assert(Seq::<ProcessingCard>::empty() + removed_clients(old(registry).entries@, ids)
            =~= removed_clients(old(registry).entries@, ids));
    }
    while j < client_ids.len()
        invariant
            0 <= j <= client_ids@.len(),
            remove_clients(old(registry).entries@, ids) == remove_clients(
                registry.entries@,
                ids.skip(j as int),
            ),
            removed_clients(old(registry).entries@, ids) == removed@ + removed_clients(
                registry.entries@,
                ids.skip(j as int),
            ),
            old(registry).wf() ==> registry.wf(),
        decreases client_ids@.len() - j,
    {
        proof {
            assert(ids.skip(j as int)[0] == ids[j as int]);
            assert(ids.skip(j as int).drop_first() =~= ids.skip(j as int + 1));
        }
        let idx = find_client_index(&registry.entries, client_ids[j].as_str());
        if idx < registry.entries.len() {
            proof {
                if registry.wf() {
                    lemma_registry_remove_keeps_wf(registry.entries@, idx as int);
                }
                assert(removed@ + removed_clients(registry.entries@, ids.skip(j as int)) =~= (
                removed@.push(registry.entries@[idx as int])) + removed_clients(
                    registry.entries@.remove(idx as int),
                    ids.skip(j as int + 1),
                ));
            }
            let e = registry.entries.remove(idx);
            removed.push(e);
        }
        j += 1;
    }
    proof {
        assert(ids.skip(client_ids@.len() as int) =~= Seq::<Seq<char>>::empty());
        assert(removed_clients(registry.entries@, Seq::<Seq<char>>::empty()) =~= Seq::<
            ProcessingCard,
        >::empty());
        assert(removed_clients(old(registry).entries@, ids) =~= removed@);
    }
    removed
}

/// Terminates every session: clears the registry and hands every entry back
/// so the application can abort all tasks.
#[verifier::loop_isolation(false)]
pub fn remove_connections_all(registry: &mut Registry) -> (removed: Vec<ProcessingCard>)
    ensures
        final(registry).entries@ == Seq::<ProcessingCard>::empty(),
        removed@ == old(registry).entries@,
        final(registry).wf(),
{
    let mut removed: Vec<ProcessingCard> = Vec::new();
    while registry.entries.len() > 0
        invariant
            removed@ + registry.entries@ == old(registry).entries@,
        decreases registry.entries@.len(),
    {
        let e = registry.entries.remove(0);
        proof {
            assert(removed@.push(e) + registry.entries@ =~= removed@ + (seq![e]
                + registry.entries@));
        }
        removed.push(e);
    }
    proof {
        assert(removed@ + registry.entries@ =~= removed@);
    }
    removed
}

} // verus!
