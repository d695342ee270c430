//! Application state that is plain data: stations and favourites, the
//! player registry with its one-player-per-slot rule, slot health records
//! and the per-slot settings vectors.

use vstd::prelude::*;

verus! {

/// A station from RadioBrowser or a custom URL.
#[derive(Clone, Debug)]
pub struct Station {
    pub id: String,
    pub name: String,
    pub url: String,
    pub codec: String,
    pub bitrate: u32,
    pub country: String,
    pub tags: Vec<String>,
    pub favicon: String,
}

/// State of a running player slot.
#[derive(PartialEq, Eq, Structural, Debug, Clone, Copy)]
pub enum PlayerState {
    Buffering,
    Playing,
    Error,
    Stopped,
}

impl PlayerState {
    /// The lower-case name used in the API.
    pub fn as_str(&self) -> (s: &'static str)
        ensures
            s@ == player_state_name(*self),
    {
        match self {
            PlayerState::Buffering => "buffering",
            PlayerState::Playing => "playing",
            PlayerState::Error => "error",
            PlayerState::Stopped => "stopped",
        }
    }
}

pub open spec fn player_state_name(s: PlayerState) -> Seq<char> {
    match s {
        PlayerState::Buffering => "buffering"@,
        PlayerState::Playing => "playing"@,
        PlayerState::Error => "error"@,
        PlayerState::Stopped => "stopped"@,
    }
}

/// Health stats for a player slot.
#[derive(Clone, Debug)]
pub struct SlotHealth {
    pub slot: usize,
    pub connects: u32,
    pub errors: u32,
    pub last_error: Option<String>,
}

impl SlotHealth {
    /// The record of a slot before any connection.
    pub fn for_slot(slot: usize) -> (h: Self)
        ensures
            h.slot == slot,
            h.connects == 0,
            h.errors == 0,
            h.last_error is None,
    {
        SlotHealth { slot, connects: 0, errors: 0, last_error: None }
    }
}

/// One fresh health record for each of the slots `1..=max_slots`, in order.
pub fn initial_slot_health(max_slots: usize) -> (v: Vec<SlotHealth>)
    ensures
        v@.len() == max_slots,
        forall|i: int|
            0 <= i < max_slots ==> #[trigger] v@[i].slot == i + 1 && v@[i].connects == 0
                && v@[i].errors == 0 && v@[i].last_error is None,
{
    let mut v: Vec<SlotHealth> = Vec::new();
    let mut k: usize = 0;
    while k < max_slots
        invariant
            k <= max_slots,
            v@.len() == k,
            forall|i: int|
                0 <= i < k ==> #[trigger] v@[i].slot == i + 1 && v@[i].connects == 0
                    && v@[i].errors == 0 && v@[i].last_error is None,
        decreases max_slots - k,
    {
        v.push(SlotHealth::for_slot(k + 1));
        k += 1;
    }
    v
}

/// The first Dante TX channel (1-based) of a player slot: `2s - 1`.
pub open spec fn dante_base(slot: nat) -> int {
    2 * slot - 1
}

/// Dante TX channel numbers (1-based) of a player slot: `[2s-1, 2s]`.
pub fn dante_tx_channels(slot: usize) -> (ch: [u32; 2])
    requires
        1 <= slot,
        2 * slot <= u32::MAX,
    ensures
        ch[0] == dante_base(slot as nat),
        ch[1] == dante_base(slot as nat) + 1,
{
    let ch_base = ((slot - 1) * 2 + 1) as u32;
    [ch_base, ch_base + 1]
}

/// Each player slot has a stereo pair of its own: the pairs of two
/// different slots share no channel, and slot `s` is on channels `2s-1`
/// and `2s`.
pub proof fn dante_pairs_law(a: nat, b: nat)
    requires
        1 <= a,
        1 <= b,
        a != b,
    ensures
        dante_base(a) != dante_base(b),
        dante_base(a) != dante_base(b) + 1,
        dante_base(a) + 1 != dante_base(b),
        dante_base(a) >= 1,
        dante_base(a) + 1 == 2 * a,
{
}

/// The favourite stations, in the order they were added.
pub struct Favourites {
    stations: Vec<Station>,
}

/// Whether some station of `s` has id `id`.
pub open spec fn has_id(s: Seq<Station>, id: Seq<char>) -> bool {
    exists|i: int| 0 <= i < s.len() && (#[trigger] s[i]).id@ == id
}

/// No two stations of `s` share an id.
pub open spec fn ids_unique(s: Seq<Station>) -> bool {
    forall|i: int, j: int| 0 <= i < j < s.len() ==> (#[trigger] s[i]).id@ != (#[trigger] s[j]).id@
}

/// `s` without the stations whose id is `id`, order kept.
pub open spec fn without_id(s: Seq<Station>, id: Seq<char>) -> Seq<Station> {
    s.filter(|st: Station| st.id@ != id)
}

impl Favourites {
    pub closed spec fn view(&self) -> Seq<Station> {
        self.stations@
    }

    /// Favourites as loaded from storage, kept as they are.
    pub fn from_stations(stations: Vec<Station>) -> (f: Self)
        ensures
            f.view() == stations@,
    {
        Favourites { stations }
    }

    /// The stations.
    pub fn stations(&self) -> (s: &Vec<Station>)
        ensures
            s@ == self.view(),
    {
        &self.stations
    }

    /// Whether a station with this id is saved.
    pub fn contains_id(&self, id: &String) -> (b: bool)
        ensures
            b == has_id(self.view(), id@),
    {
        let mut i: usize = 0;
        while i < self.stations.len()
            invariant
                i <= self.stations@.len(),
                forall|k: int| 0 <= k < i ==> (#[trigger] self.stations@[k]).id@ != id@,
            decreases self.stations@.len() - i,
        {
            if self.stations[i].id == *id {
                return true;
            }
            i += 1;
        }
        false
    }

    /// Saves `station` unless a station with its id is already saved.
    /// Returns whether it was added.
    pub fn add(&mut self, station: Station) -> (added: bool)
        ensures
            added == !has_id(old(self).view(), station.id@),
            added ==> final(self).view() == old(self).view().push(station),
            !added ==> final(self).view() == old(self).view(),
    {
        if self.contains_id(&station.id) {
            false
        } else {
            self.stations.push(station);
            true
        }
    }

    /// Removes the stations with id `id`.  Returns whether any was removed.
    pub fn remove(&mut self, id: &String) -> (removed: bool)
        ensures
            final(self).view() == without_id(old(self).view(), id@),
            removed == has_id(old(self).view(), id@),
    {
        let mut rest: Vec<Station> = Vec::new();
        std::mem::swap(&mut rest, &mut self.stations);
        let ghost s0 = rest@;
        let mut kept: Vec<Station> = Vec::new();
        let mut removed = false;
        while rest.len() > 0
            invariant
                rest@.len() <= s0.len(),
                rest@ == s0.subrange(s0.len() - rest@.len(), s0.len() as int),
                kept@ == without_id(s0.subrange(0, s0.len() - rest@.len()), id@),
                removed == has_id(s0.subrange(0, s0.len() - rest@.len()), id@),
            decreases rest@.len(),
        {
            let ghost i = s0.len() - rest@.len();
            let ghost pre = s0.subrange(0, i);
            let ghost cur = s0.subrange(0, i + 1);
            proof {
                assert(cur.drop_last() =~= pre);
                assert(rest@[0] == s0[i]);
                reveal(Seq::filter);
            }
            let st = rest.remove(0);
            proof {
                assert(rest@ =~= s0.subrange(s0.len() - rest@.len(), s0.len() as int));
                assert(cur.last() == st);
                if has_id(pre, id@) {
                    let k = choose|k: int| 0 <= k < pre.len() && (#[trigger] pre[k]).id@ == id@;
                    assert(cur[k] == pre[k]);
                }
                if has_id(cur, id@) && st.id@ != id@ {
                    let k = choose|k: int| 0 <= k < cur.len() && (#[trigger] cur[k]).id@ == id@;
                    assert(k < pre.len());
                    assert(cur[k] == pre[k]);
                }
            }
            if st.id == *id {
                removed = true;
            } else {
                kept.push(st);
            }
        }
        assert(s0.subrange(0, s0.len() as int) =~= s0);
        self.stations = kept;
        removed
    }
}

proof fn lemma_without_id(s: Seq<Station>, id: Seq<char>)
    ensures
        forall|x: Seq<char>| has_id(without_id(s, id), x) ==> has_id(s, x),
        ids_unique(s) ==> ids_unique(without_id(s, id)),
        forall|i: int|
            0 <= i < without_id(s, id).len() ==> (#[trigger] without_id(s, id)[i]).id@ != id,
    decreases s.len(),
{
    reveal(Seq::filter);
    let w = without_id(s, id);
    if s.len() > 0 {
        let init = s.drop_last();
        let wi = without_id(init, id);
        lemma_without_id(init, id);
        assert forall|x: Seq<char>| has_id(init, x) implies has_id(s, x) by {
            let k = choose|k: int| 0 <= k < init.len() && (#[trigger] init[k]).id@ == x;
            assert(s[k] == init[k]);
        }
        if s.last().id@ != id {
            assert(w == wi.push(s.last()));
            assert forall|x: Seq<char>| has_id(w, x) implies has_id(s, x) by {
                let k = choose|k: int| 0 <= k < w.len() && (#[trigger] w[k]).id@ == x;
                if k == wi.len() {
                    assert(s[s.len() - 1] == s.last());
                } else {
                    assert(w[k] == wi[k]);
                }
            }
            if ids_unique(s) {
                assert(ids_unique(init)) by {
                    assert forall|i: int, j: int| 0 <= i < j < init.len() implies (
                    #[trigger] init[i]).id@ != (#[trigger] init[j]).id@ by {
                        assert(init[i] == s[i] && init[j] == s[j]);
                    }
                }
                assert(!has_id(init, s.last().id@)) by {
                    if has_id(init, s.last().id@) {
                        let k = choose|k: int|
                            0 <= k < init.len() && (#[trigger] init[k]).id@ == s.last().id@;
                        assert(s[k] == init[k]);
                        assert(s[s.len() - 1] == s.last());
                    }
                }
                assert forall|i: int, j: int| 0 <= i < j < w.len() implies (#[trigger] w[i]).id@
                    != (#[trigger] w[j]).id@ by {
                    if j == wi.len() {
                        assert(w[i] == wi[i]);
                        if wi[i].id@ == s.last().id@ {
                            assert(has_id(wi, s.last().id@));
                        }
                    } else {
                        assert(w[i] == wi[i] && w[j] == wi[j]);
                    }
                }
            }
            assert forall|i: int| 0 <= i < w.len() implies (#[trigger] w[i]).id@ != id by {
                if i < wi.len() {
                    assert(w[i] == wi[i]);
                }
            }
        } else {
            assert(w == wi);
            if ids_unique(s) {
                assert forall|i: int, j: int| 0 <= i < j < init.len() implies (
                #[trigger] init[i]).id@ != (#[trigger] init[j]).id@ by {
                    assert(init[i] == s[i] && init[j] == s[j]);
                }
            }
        }
    }
}

/// Adding keeps station ids unique; a station that is saved cannot be
/// added again; after removing an id no station with it is left, and
/// removing keeps ids unique.
pub proof fn favourites_laws(s: Seq<Station>, st: Station, id: Seq<char>)
    ensures
        ids_unique(s) && !has_id(s, st.id@) ==> ids_unique(s.push(st)),
        has_id(s.push(st), st.id@),
        !has_id(without_id(s, id), id),
        ids_unique(s) ==> ids_unique(without_id(s, id)),
{
    let t = s.push(st);
    assert(t[s.len() as int] == st);
    lemma_without_id(s, id);
    if ids_unique(s) && !has_id(s, st.id@) {
        assert forall|i: int, j: int| 0 <= i < j < t.len() implies (#[trigger] t[i]).id@ != (
        #[trigger] t[j]).id@ by {
            if j == s.len() {
                assert(t[i] == s[i]);
            } else {
                assert(t[i] == s[i] && t[j] == s[j]);
            }
        }
    }
}

/// A running player in the registry: its id (the UUID as a number), its
/// slot and what the application keeps for it.
pub struct SlotEntry<H> {
    pub id: u128,
    pub slot: usize,
    pub handle: H,
}

/// No two entries share a slot or an id.
pub open spec fn slots_distinct<H>(s: Seq<SlotEntry<H>>) -> bool {
    forall|i: int, j: int|
        0 <= i < j < s.len() ==> (#[trigger] s[i]).slot != (#[trigger] s[j]).slot && s[i].id
            != s[j].id
}

/// Some entry plays on `slot`.
pub open spec fn slot_taken<H>(s: Seq<SlotEntry<H>>, slot: nat) -> bool {
    exists|i: int| 0 <= i < s.len() && (#[trigger] s[i]).slot == slot
}

/// Some entry has id `id`.
pub open spec fn id_taken<H>(s: Seq<SlotEntry<H>>, id: u128) -> bool {
    exists|i: int| 0 <= i < s.len() && (#[trigger] s[i]).id == id
}

/// The first slot in `t..=max` that no entry plays on.
pub open spec fn first_free_from<H>(s: Seq<SlotEntry<H>>, t: nat, max: nat) -> Option<nat>
    decreases max + 1 - t,
{
    if t > max {
        None
    } else if !slot_taken(s, t) {
        Some(t)
    } else {
        first_free_from(s, t + 1, max)
    }
}

/// The lowest free slot in `1..=max`.
pub open spec fn first_free<H>(s: Seq<SlotEntry<H>>, max: nat) -> Option<nat> {
    first_free_from(s, 1, max)
}

proof fn lemma_first_free_from<H>(s: Seq<SlotEntry<H>>, t: nat, max: nat)
    ensures
        first_free_from(s, t, max) matches Some(f) ==> t <= f <= max && !slot_taken(s, f) && (
        forall|u: nat| t <= u < f ==> slot_taken(s, u)),
        first_free_from(s, t, max) is None ==> forall|u: nat| t <= u <= max ==> slot_taken(s, u),
    decreases max + 1 - t,
{
    if t <= max && slot_taken(s, t) {
        lemma_first_free_from(s, t + 1, max);
    }
}

/// The slot choice of a player start: the slot and the player it replaces.
#[derive(PartialEq, Eq, Structural, Debug, Clone, Copy)]
pub struct SlotPlan {
    pub slot: usize,
    pub evict: Option<u128>,
}

/// Why a player cannot be started.
#[derive(PartialEq, Eq, Structural, Debug, Clone, Copy)]
pub enum CreatePlayerError {
    /// The request names no stream URL.
    UrlRequired,
    /// The requested slot is not in `1..=max`.
    SlotOutOfRange { max: usize },
    /// No slot was requested and every slot is in use.
    AllSlotsInUse,
}

proof fn lemma_remove_distinct<H>(s: Seq<SlotEntry<H>>, k: int)
    requires
        0 <= k < s.len(),
        slots_distinct(s),
    ensures
        slots_distinct(s.remove(k)),
        forall|x: nat| slot_taken(s.remove(k), x) <==> slot_taken(s, x) && x != s[k].slot,
        forall|x: u128| id_taken(s.remove(k), x) <==> id_taken(s, x) && x != s[k].id,
{
    let r = s.remove(k);
    assert forall|j: int| 0 <= j < r.len() implies #[trigger] r[j] == (if j < k {
        s[j]
    } else {
        s[j + 1]
    }) by {}
    assert forall|i: int, j: int| 0 <= i < j < r.len() implies (#[trigger] r[i]).slot != (
    #[trigger] r[j]).slot && r[i].id != r[j].id by {
        let a = if i < k {
            i
        } else {
            i + 1
        };
        let b = if j < k {
            j
        } else {
            j + 1
        };
        assert(r[i] == s[a] && r[j] == s[b]);
    }
    assert forall|x: nat| slot_taken(r, x) <==> slot_taken(s, x) && x != s[k].slot by {
        if slot_taken(r, x) {
            let j = choose|j: int| 0 <= j < r.len() && (#[trigger] r[j]).slot == x;
            let a = if j < k {
                j
            } else {
                j + 1
            };
            assert(r[j] == s[a]);
        }
        if slot_taken(s, x) && x != s[k].slot {
            let a = choose|a: int| 0 <= a < s.len() && (#[trigger] s[a]).slot == x;
            let j = if a < k {
                a
            } else {
                a - 1
            };
            assert(r[j] == s[a]);
        }
    }
    assert forall|x: u128| id_taken(r, x) <==> id_taken(s, x) && x != s[k].id by {
        if id_taken(r, x) {
            let j = choose|j: int| 0 <= j < r.len() && (#[trigger] r[j]).id == x;
            let a = if j < k {
                j
            } else {
                j + 1
            };
            assert(r[j] == s[a]);
        }
        if id_taken(s, x) && x != s[k].id {
            let a = choose|a: int| 0 <= a < s.len() && (#[trigger] s[a]).id == x;
            let j = if a < k {
                a
            } else {
                a - 1
            };
            assert(r[j] == s[a]);
        }
    }
}

proof fn lemma_push_distinct<H>(s: Seq<SlotEntry<H>>, e: SlotEntry<H>)
    requires
        slots_distinct(s),
        !slot_taken(s, e.slot as nat),
        !id_taken(s, e.id),
    ensures
        slots_distinct(s.push(e)),
        forall|x: nat| slot_taken(s.push(e), x) <==> slot_taken(s, x) || x == e.slot,
{
    let t = s.push(e);
    assert(t[s.len() as int] == e);
    assert forall|i: int, j: int| 0 <= i < j < t.len() implies (#[trigger] t[i]).slot != (
    #[trigger] t[j]).slot && t[i].id != t[j].id by {
        assert(t[i] == s[i]);
        if j < s.len() {
            assert(t[j] == s[j]);
        }
    }
    assert forall|x: nat| slot_taken(t, x) <==> slot_taken(s, x) || x == e.slot by {
        if slot_taken(t, x) {
            let j = choose|j: int| 0 <= j < t.len() && (#[trigger] t[j]).slot == x;
            if j < s.len() {
                assert(t[j] == s[j]);
            }
        }
        if slot_taken(s, x) {
            let j = choose|j: int| 0 <= j < s.len() && (#[trigger] s[j]).slot == x;
            assert(t[j] == s[j]);
        }
    }
}

/// The running players, at most one per slot.
pub struct PlayerSlots<H> {
    entries: Vec<SlotEntry<H>>,
}

impl<H> PlayerSlots<H> {
    pub closed spec fn view(&self) -> Seq<SlotEntry<H>> {
        self.entries@
    }

    pub closed spec fn wf(&self) -> bool {
        slots_distinct(self.entries@)
    }

    /// No players.
    pub fn new() -> (r: Self)
        ensures
            r.wf(),
            r.view() == Seq::<SlotEntry<H>>::empty(),
    {
        PlayerSlots { entries: Vec::new() }
    }

    /// Number of running players.
    pub fn len(&self) -> (n: usize)
        ensures
            n == self.view().len(),
    {
        self.entries.len()
    }

    /// The players, in the order they were started.
    pub fn entries(&self) -> (e: &Vec<SlotEntry<H>>)
        ensures
            e@ == self.view(),
    {
        &self.entries
    }

    /// Position of the player with id `id`.
    pub fn position(&self, id: u128) -> (r: Option<usize>)
        ensures
            r matches Some(i) ==> i < self.view().len() && self.view()[i as int].id == id,
            r is None ==> !id_taken(self.view(), id),
    {
        let mut i: usize = 0;
        while i < self.entries.len()
            invariant
                i <= self.entries@.len(),
                forall|k: int| 0 <= k < i ==> (#[trigger] self.entries@[k]).id != id,
            decreases self.entries@.len() - i,
        {
            if self.entries[i].id == id {
                return Some(i);
            }
            i += 1;
        }
        None
    }

    /// What is kept for the player with id `id`.
    pub fn get(&self, id: u128) -> (r: Option<&H>)
        ensures
            r matches Some(h) ==> exists|i: int|
                0 <= i < self.view().len() && (#[trigger] self.view()[i]).id == id
                    && self.view()[i].handle == *h,
            r is None ==> !id_taken(self.view(), id),
    {
        match self.position(id) {
            Some(i) => Some(&self.entries[i].handle),
            None => None,
        }
    }

    /// Mutable access to what is kept for the player with id `id`; its id
    /// and slot stay as they are.
    pub fn get_mut(&mut self, id: u128) -> (r: Option<&mut H>)
        requires
            old(self).wf(),
        ensures
            final(self).wf(),
            r is None ==> !id_taken(old(self).view(), id) && final(self).view() == old(self).view(),
            r matches Some(h) ==> exists|i: int|
                0 <= i < old(self).view().len() && (#[trigger] old(self).view()[i]).id == id
                    && old(self).view()[i].handle == *h && final(self).view() == old(self).view().update(
                    i,
                    SlotEntry { id, slot: old(self).view()[i].slot, handle: *final(h) },
                ),
    {
        match self.position(id) {
            Some(i) => {
                let e = &mut self.entries[i];
                Some(&mut e.handle)
            },
            None => None,
        }
    }

    /// The id of the player on `slot`.
    pub fn player_on_slot(&self, slot: usize) -> (r: Option<u128>)
        requires
            self.wf(),
        ensures
            r matches Some(id) ==> exists|i: int|
                0 <= i < self.view().len() && (#[trigger] self.view()[i]).slot == slot
                    && self.view()[i].id == id,
            r is None ==> !slot_taken(self.view(), slot as nat),
    {
        let mut i: usize = 0;
        while i < self.entries.len()
            invariant
                i <= self.entries@.len(),
                forall|k: int| 0 <= k < i ==> (#[trigger] self.entries@[k]).slot != slot,
            decreases self.entries@.len() - i,
        {
            if self.entries[i].slot == slot {
                assert(self.view()[i as int].slot == slot);
                return Some(self.entries[i].id);
            }
            i += 1;
        }
        None
    }

    /// The lowest slot in `1..=max_players` that no player uses.
    pub fn next_free_slot(&self, max_players: usize) -> (r: Option<usize>)
        requires
            self.wf(),
        ensures
            r matches Some(s) ==> first_free(self.view(), max_players as nat) == Some(s as nat),
            r is None ==> first_free(self.view(), max_players as nat) is None,
    {
        let mut t: usize = 1;
        while t <= max_players
            invariant
                1 <= t,
                self.wf(),
                first_free(self.view(), max_players as nat) == first_free_from(
                    self.view(),
                    t as nat,
                    max_players as nat,
                ),
            decreases max_players + 1 - t,
        {
            if self.player_on_slot(t).is_none() {
                return Some(t);
            }
            proof {
                assert(slot_taken(self.view(), t as nat));
            }
            if t == max_players {
                assert(first_free_from(self.view(), (t + 1) as nat, max_players as nat) is None);
                return None;
            }
            t += 1;
        }
        None
    }

    /// Removes the player with id `id` and returns its entry.
    pub fn remove(&mut self, id: u128) -> (r: Option<SlotEntry<H>>)
        requires
            old(self).wf(),
        ensures
            final(self).wf(),
            r is None ==> !id_taken(old(self).view(), id) && final(self).view() == old(self).view(),
            r matches Some(e) ==> e.id == id && exists|k: int|
                0 <= k < old(self).view().len() && old(self).view()[k] == e && final(self).view()
                    == old(self).view().remove(k),
            forall|x: nat|
                slot_taken(final(self).view(), x) ==> #[trigger] slot_taken(old(self).view(), x),
    {
        match self.position(id) {
            Some(i) => {
                proof {
                    lemma_remove_distinct(self.entries@, i as int);
                }
                let e = self.entries.remove(i);
                Some(e)
            },
            None => None,
        }
    }

    /// Registers a player on `slot`.  A player already on that slot is
    /// taken out and returned, so that no two players share a slot.
    pub fn insert(&mut self, id: u128, slot: usize, handle: H) -> (displaced: Option<SlotEntry<H>>)
        requires
            old(self).wf(),
            !id_taken(old(self).view(), id),
        ensures
            final(self).wf(),
            displaced is None ==> !slot_taken(old(self).view(), slot as nat) && final(self).view()
                == old(self).view().push(SlotEntry { id, slot, handle }),
            displaced matches Some(e) ==> e.slot == slot && exists|k: int|
                0 <= k < old(self).view().len() && old(self).view()[k] == e && final(self).view()
                    == old(self).view().remove(k).push(SlotEntry { id, slot, handle }),
            forall|x: nat|
                #[trigger] slot_taken(final(self).view(), x) <==> slot_taken(old(self).view(), x)
                    || x == slot,
    {
        let mut displaced: Option<SlotEntry<H>> = None;
        let ghost s0 = self.entries@;
        match self.player_on_slot(slot) {
            Some(old_id) => {
                let k = self.position(old_id).unwrap();
                proof {
                    lemma_remove_distinct(self.entries@, k as int);
                    let j = choose|j: int|
                        0 <= j < s0.len() && (#[trigger] s0[j]).slot == slot && s0[j].id == old_id;
                    if j != k {
                        let (a, b) = if j < k {
                            (j, k as int)
                        } else {
                            (k as int, j)
                        };
                        assert(s0[a].id != s0[b].id);
                    }
                }
                displaced = Some(self.entries.remove(k));
            },
            None => {},
        }
        proof {
            lemma_push_distinct(self.entries@, SlotEntry { id, slot, handle });
        }
        self.entries.push(SlotEntry { id, slot, handle });
        displaced
    }

    /// Chooses the slot for a new player: a requested slot must lie in
    /// `1..=max_players` and replaces the player on it; without a request
    /// the lowest free slot is taken.
    pub fn plan_create(&self, url_is_empty: bool, requested: Option<usize>, max_players: usize) -> (r:
        Result<SlotPlan, CreatePlayerError>)
        requires
            self.wf(),
        ensures
            url_is_empty ==> r == Err::<SlotPlan, CreatePlayerError>(CreatePlayerError::UrlRequired),
            !url_is_empty ==> match requested {
                Some(s) => if s == 0 || s > max_players {
                    r == Err::<SlotPlan, CreatePlayerError>(
                        CreatePlayerError::SlotOutOfRange { max: max_players },
                    )
                } else {
                    &&& r matches Ok(plan) && plan.slot == s
                    &&& (r->Ok_0.evict is None <==> !slot_taken(self.view(), s as nat))
                    &&& r->Ok_0.evict matches Some(id) ==> exists|i: int|
                        0 <= i < self.view().len() && (#[trigger] self.view()[i]).slot == s
                            && self.view()[i].id == id
                },
                None => match first_free(self.view(), max_players as nat) {
                    Some(f) => r == Ok::<SlotPlan, CreatePlayerError>(
                        SlotPlan { slot: f as usize, evict: None },
                    ),
                    None => r == Err::<SlotPlan, CreatePlayerError>(
                        CreatePlayerError::AllSlotsInUse,
                    ),
                },
            },
    {
        if url_is_empty {
            return Err(CreatePlayerError::UrlRequired);
        }
        match requested {
            Some(s) => {
                if s == 0 || s > max_players {
                    Err(CreatePlayerError::SlotOutOfRange { max: max_players })
                } else {
                    Ok(SlotPlan { slot: s, evict: self.player_on_slot(s) })
                }
            },
            None => match self.next_free_slot(max_players) {
                Some(s) => Ok(SlotPlan { slot: s, evict: None }),
                None => Err(CreatePlayerError::AllSlotsInUse),
            },
        }
    }
}

/// Per-slot settings as loaded: the saved values cut to `max_slots`, then
/// padded with `fill` up to `max_slots`.
pub fn fit_to_slots<T: Copy>(saved: &Vec<T>, max_slots: usize, fill: T) -> (v: Vec<T>)
    ensures
        v@.len() == max_slots,
        forall|i: int|
            0 <= i < max_slots ==> #[trigger] v@[i] == if i < saved@.len() {
                saved@[i]
            } else {
                fill
            },
{
    let mut v: Vec<T> = Vec::new();
    let mut i: usize = 0;
    while i < max_slots
        invariant
            i <= max_slots,
            v@.len() == i,
            forall|k: int|
                0 <= k < i ==> #[trigger] v@[k] == if k < saved@.len() {
                    saved@[k]
                } else {
                    fill
                },
        decreases max_slots - i,
    {
        if i < saved.len() {
            v.push(saved[i]);
        } else {
            v.push(fill);
        }
        i += 1;
    }
    v
}

/// The setting of a 1-based slot, or `default` when the slot has none.
pub fn slot_value<T: Copy>(values: &Vec<T>, slot: usize, default: T) -> (r: T)
    requires
        slot >= 1,
    ensures
        r == if slot - 1 < values@.len() {
            values@[slot - 1]
        } else {
            default
        },
{
    if slot - 1 < values.len() {
        values[slot - 1]
    } else {
        default
    }
}

/// Sets the setting of a 1-based slot; a slot without a setting is left
/// alone.
pub fn set_slot_value<T>(values: &mut Vec<T>, slot: usize, value: T)
    requires
        slot >= 1,
    ensures
        final(values)@ == if slot - 1 < old(values)@.len() {
            old(values)@.update(slot - 1, value)
        } else {
            old(values)@
        },
{
    if slot - 1 < values.len() {
        values.set(slot - 1, value);
    }
}

/// Sets every slot's setting to `value`.
pub fn set_all<T: Copy>(values: &mut Vec<T>, value: T)
    ensures
        final(values)@.len() == old(values)@.len(),
        forall|i: int| 0 <= i < old(values)@.len() ==> #[trigger] final(values)@[i] == value,
{
    let mut i: usize = 0;
    while i < values.len()
        invariant
            i <= values@.len(),
            values@.len() == old(values)@.len(),
            forall|k: int| 0 <= k < i ==> #[trigger] values@[k] == value,
        decreases values@.len() - i,
    {
        values.set(i, value);
        i += 1;
    }
}

/// The first slot's setting, or `default` when there is none.
pub fn first_or<T: Copy>(values: &Vec<T>, default: T) -> (r: T)
    ensures
        r == if values@.len() > 0 {
            values@[0]
        } else {
            default
        },
{
    if values.len() > 0 {
        values[0]
    } else {
        default
    }
}

/// Reading a slot's setting gives back what was last set for it, and
/// leaves the other slots' settings unchanged.
pub proof fn slot_setting_law<T>(values: Seq<T>, slot: nat, other: nat, value: T)
    requires
        1 <= slot <= values.len(),
        1 <= other <= values.len(),
        other != slot,
    ensures
        values.update(slot - 1, value)[slot - 1] == value,
        values.update(slot - 1, value)[other - 1] == values[other - 1],
{
}

/// The lowest free slot is free, lies in `1..=max`, and every lower slot is
/// in use; when there is none, every slot in `1..=max` is in use.
pub proof fn first_free_law<H>(s: Seq<SlotEntry<H>>, max: nat)
    ensures
        first_free(s, max) matches Some(f) ==> 1 <= f <= max && !slot_taken(s, f) && (forall|u: nat|
            1 <= u < f ==> slot_taken(s, u)),
        first_free(s, max) is None ==> forall|u: nat| 1 <= u <= max ==> slot_taken(s, u),
{
    lemma_first_free_from(s, 1, max);
}

} // verus!
