//! Reader monitor bookkeeping.
//!
//! The application owns the hardware context: it lists readers, waits for
//! state changes, and feeds every observation here. This module decides
//! which readers are watched (dead ones dropped, new ones added, the
//! plug-and-play pseudo-reader always kept by the application), which are
//! skipped as virtual or remote-redirected, and what status a changed
//! reader reports.

use vstd::prelude::*;
use vstd::string::*;
use crate::events::TachoState;
use crate::strutil::{str_eq, contains_sub};

verus! {

/// Seconds to wait before retrying when the hardware context cannot be
/// established.
pub const CONTEXT_RETRY_SECS: u64 = 5;

/// Seconds to back off when a reader vanishes mid-operation.
pub const UNKNOWN_READER_BACKOFF_SECS: u64 = 3;

/// Presence of a card in a watched reader, computed once from the
/// hardware's state mask.
#[derive(Clone, Copy, Debug, PartialEq, Eq, Structural)]
pub enum ReaderPresence {
    /// Newly watched; no state known yet.
    Unaware,
    /// No card in the reader.
    Absent,
    /// A card is in the reader.
    Present,
    /// The reader's state just changed.
    Changed,
    /// The reader is gone or ignored by the hardware layer.
    Unavailable,
}

/// The text a presence state shows in status events.
pub open spec fn presence_name(p: ReaderPresence) -> Seq<char> {
    match p {
        ReaderPresence::Unaware => "UNAWARE"@,
        ReaderPresence::Absent => "ABSENT"@,
        ReaderPresence::Present => "PRESENT"@,
        ReaderPresence::Changed => "CHANGED"@,
        ReaderPresence::Unavailable => "UNAVAILABLE"@,
    }
}

impl ReaderPresence {
    /// The text this presence state shows in status events.
    pub fn state_text(&self) -> (r: String)
        ensures
            r@ == presence_name(*self),
    {
        match self {
            ReaderPresence::Unaware => String::from_str("UNAWARE"),
            ReaderPresence::Absent => String::from_str("ABSENT"),
            ReaderPresence::Present => String::from_str("PRESENT"),
            ReaderPresence::Changed => String::from_str("CHANGED"),
            ReaderPresence::Unavailable => String::from_str("UNAVAILABLE"),
        }
    }
}

/// One watched reader: its name and the last presence computed for it.
#[derive(Debug)]
pub struct WatchedReader {
    pub name: String,
    pub presence: ReaderPresence,
}

impl WatchedReader {
    /// A value-identical copy.
    pub fn duplicate(&self) -> (r: WatchedReader)
        ensures
            r == *self,
    {
        WatchedReader { name: self.name.clone(), presence: self.presence }
    }
}

/// Lowercase image of a character, for the ASCII letters.
pub open spec fn lower_char(c: char) -> char {
    if ('A' as u32) <= (c as u32) <= ('Z' as u32) {
        (((c as u32) + 32) as char)
    } else {
        c
    }
}

/// The string lowercased character by character.
pub open spec fn to_lower(s: Seq<char>) -> Seq<char> {
    Seq::new(s.len(), |i: int| lower_char(s[i]))
}

fn lower_char_exec(c: char) -> (r: char)
    ensures
        r == lower_char(c),
{
    let cu = c as u32;
    if 65 <= cu && cu <= 90 {
        ((c as u8) + 32) as char
    } else {
        c
    }
}

/// Whether the lowercased string contains the (already lowercase) pattern.
#[verifier::loop_isolation(false)]
fn contains_pattern_lower(s: &str, pat: &str) -> (r: bool)
    requires
        pat@.len() >= 1,
    ensures
        r == contains_sub(to_lower(s@), pat@),
{
    let n = s.unicode_len();
    let m = pat.unicode_len();
    if m > n {
        return false;
    }
    let mut i: usize = 0;
    while i <= n - m
        invariant
            0 <= i <= n - m + 1,
            forall|i0: int|
                0 <= i0 < i ==> #[trigger] to_lower(s@).subrange(i0, i0 + pat@.len()) != pat@,
        decreases n - i,
    {
        let mut j: usize = 0;
        let mut all_match = true;
        while j < m && all_match
            invariant
                0 <= j <= m,
                i + m <= n,
                all_match ==> forall|j0: int|
                    0 <= j0 < j ==> to_lower(s@)[i + j0] == pat@[j0],
                !all_match ==> to_lower(s@).subrange(i as int, i as int + pat@.len()) != pat@,
            decreases m - j, (if all_match { 1int } else { 0int }),
        {
            let sc = lower_char_exec(s.get_char(i + j));
            let pc = pat.get_char(j);
            if sc != pc {
                proof {
                    assert(to_lower(s@)[i as int + j as int] != pat@[j as int]);
                    assert(to_lower(s@).subrange(i as int, i as int + pat@.len())[j as int]
                        == to_lower(s@)[i as int + j as int]);
                }
                all_match = false;
            } else {
                j += 1;
            }
        }
        if all_match {
            proof {
                assert(to_lower(s@).subrange(i as int, i as int + pat@.len()) =~= pat@);
            }
            return true;
        }
        i += 1;
    }
    proof {
        assert forall|i0: int|
            0 <= i0 <= to_lower(s@).len() - pat@.len() implies #[trigger] to_lower(s@).subrange(
            i0,
            i0 + pat@.len(),
        ) != pat@ by {}
    }
    false
}

/// A reader name that marks a virtual or remote-redirected reader: its
/// lowercased name contains `microsoft`, `virtual` or `remote`. Such
/// readers are never registered.
pub open spec fn is_virtual_reader_name(s: Seq<char>) -> bool {
    ||| contains_sub(to_lower(s), "microsoft"@)
    ||| contains_sub(to_lower(s), "virtual"@)
    ||| contains_sub(to_lower(s), "remote"@)
}

/// Whether the reader is a virtual or remote-redirected one.
pub fn is_virtual_reader(reader_name: &str) -> (r: bool)
    ensures
        r == is_virtual_reader_name(reader_name@),
{
    proof {
        reveal_strlit("microsoft");
        reveal_strlit("virtual");
        reveal_strlit("remote");
    }
    contains_pattern_lower(reader_name, "microsoft") || contains_pattern_lower(
        reader_name,
        "virtual",
    ) || contains_pattern_lower(reader_name, "remote")
}

/// A changed reader is handled when it is neither the plug-and-play
/// pseudo-reader nor a virtual one.
pub fn should_handle_reader(reader_name: &str, is_pnp: bool) -> (r: bool)
    ensures
        r == (!is_pnp && !is_virtual_reader_name(reader_name@)),
{
    !is_pnp && !is_virtual_reader(reader_name)
}

/// The watched readers that stay watched: those the hardware still knows.
pub open spec fn alive_watched(s: Seq<WatchedReader>) -> Seq<WatchedReader>
    decreases s.len(),
{
    if s.len() == 0 {
        Seq::empty()
    } else {
        (if s[0].presence is Unavailable {
            Seq::empty()
        } else {
            seq![s[0]]
        }) + alive_watched(s.drop_first())
    }
}

/// The names of a watched list.
pub open spec fn names_view(s: Seq<WatchedReader>) -> Seq<Seq<char>> {
    s.map_values(|w: WatchedReader| w.name@)
}

/// Name list after adding, in order, every listed name not already there.
pub open spec fn add_new_names(cur: Seq<Seq<char>>, listed: Seq<Seq<char>>) -> Seq<Seq<char>>
    decreases listed.len(),
{
    if listed.len() == 0 {
        cur
    } else {
        add_new_names(
            if cur.contains(listed[0]) {
                cur
            } else {
                cur.push(listed[0])
            },
            listed.drop_first(),
        )
    }
}

/// Refreshes the watched-reader list: unavailable readers leave (keeping
/// the others' order and state), and every listed name not yet watched is
/// appended as a fresh, unaware entry.
#[verifier::loop_isolation(false)]
pub fn refresh_watched(current: &Vec<WatchedReader>, listed: &Vec<String>) -> (r: Vec<
    WatchedReader,
>)
    ensures
        r@.len() >= alive_watched(current@).len(),
        r@.take(alive_watched(current@).len() as int) == alive_watched(current@),
        names_view(r@) == add_new_names(
            names_view(alive_watched(current@)),
            crate::registry::ids_view(listed@),
        ),
        forall|k: int|
            alive_watched(current@).len() <= k < r@.len() ==> (
            #[trigger] r@[k]).presence is Unaware,
{
    let ghost ids: Seq<Seq<char>> = crate::registry::ids_view(listed@);
    let mut kept: Vec<WatchedReader> = Vec::new();
    let mut i: usize = 0;
    proof {
        assert(current@.skip(0) =~= current@);
        assert(Seq::<WatchedReader>::empty() + alive_watched(current@) =~= alive_watched(
            current@,
        ));
    }
    while i < current.len()
        invariant
            0 <= i <= current@.len(),
            alive_watched(current@) == kept@ + alive_watched(current@.skip(i as int)),
        decreases current@.len() - i,
    {
        proof {
            let rest = current@.skip(i as int);
            assert(rest[0] == current@[i as int]);
            assert(rest.drop_first() =~= current@.skip(i as int + 1));
            if current@[i as int].presence is Unavailable {
                assert(Seq::<WatchedReader>::empty() + alive_watched(rest.drop_first())
                    =~= alive_watched(rest.drop_first()));
            } else {
                assert(kept@ + (seq![rest[0]] + alive_watched(rest.drop_first())) =~= (kept@.push(
                    rest[0],
                )) + alive_watched(rest.drop_first()));
            }
        }
        let w = &current[i];
        let dead = match w.presence {
            ReaderPresence::Unavailable => true,
            _ => false,
        };
        if !dead {
            kept.push(w.duplicate());
        }
        i += 1;
    }
    proof {
        assert(current@.skip(current@.len() as int) =~= Seq::<WatchedReader>::empty());
        assert(kept@ + Seq::<WatchedReader>::empty() =~= kept@);
        assert(kept@ == alive_watched(current@));
    }

    let ghost alive: Seq<WatchedReader> = kept@;
    let mut out = kept;
    let mut j: usize = 0;
    proof {
        assert(ids.skip(0) =~= ids);
    }
    while j < listed.len()
        invariant
            0 <= j <= listed@.len(),
            out@.len() >= alive.len(),
            out@.take(alive.len() as int) == alive,
            add_new_names(names_view(out@), ids.skip(j as int)) == add_new_names(
                names_view(alive),
                ids,
            ),
            forall|k: int| alive.len() <= k < out@.len() ==> (#[trigger] out@[k]).presence is Unaware,
        decreases listed@.len() - j,
    {
        let name = &listed[j];
        // Is this name already watched?
        let mut present = false;
        let mut t: usize = 0;
        while t < out.len()
            invariant
                0 <= t <= out@.len(),
                present ==> names_view(out@).contains(name@),
                !present ==> forall|k: int| 0 <= k < t ==> (#[trigger] out@[k]).name@ != name@,
            decreases out@.len() - t,
        {
            if !present {
                if str_eq(out[t].name.as_str(), name.as_str()) {
                    present = true;
                    proof {
                        assert(names_view(out@)[t as int] == name@);
                    }
                }
            }
            t += 1;
        }
        proof {
            assert(ids.skip(j as int)[0] == ids[j as int]);
            assert(ids.skip(j as int).drop_first() =~= ids.skip(j as int + 1));
            if !present {
                assert(!names_view(out@).contains(name@)) by {
                    if names_view(out@).contains(name@) {
                        let w = choose|w: int|
                            0 <= w < names_view(out@).len() && names_view(out@)[w] == name@;
                        assert(out@[w].name@ == name@);
                    }
                }
            }
        }
        if !present {
            let ghost before = out@;
            out.push(WatchedReader { name: name.clone(), presence: ReaderPresence::Unaware });
            proof {
                assert(name@ == ids[j as int]);
                assert(names_view(out@) =~= names_view(before).push(name@)) by {
                    assert forall|k: int| 0 <= k < out@.len() implies names_view(out@)[k]
                        == names_view(before).push(name@)[k] by {
                        if k < before.len() {
                            assert(out@[k] == before[k]);
                        } else {
                            assert(out@[k].name@ == name@);
                        }
                    }
                }
                assert(out@.take(alive.len() as int) =~= before.take(alive.len() as int));
            }
        }
        j += 1;
    }
    proof {
        assert(ids.skip(listed@.len() as int) =~= Seq::<Seq<char>>::empty());
    }
    out
}

/// The status payload of a registration sync event: the observed reader,
/// its presence text, and the card's identifier and number when known.
pub fn sync_state(
    iccid: &str,
    reader_name: &str,
    presence: &ReaderPresence,
    card_number: &str,
) -> (r: TachoState)
    ensures
        r.iccid@ == iccid@,
        r.reader_name@ == reader_name@,
        r.card_state@ == presence_name(*presence),
        r.card_number@ == card_number@,
        r.online is None,
        r.authentication is None,
{
    TachoState {
        iccid: iccid.to_owned(),
        reader_name: reader_name.to_owned(),
        card_state: presence.state_text(),
        card_number: card_number.to_owned(),
        online: None,
        authentication: None,
    }
}

} // verus!
